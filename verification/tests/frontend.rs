use setochka::frontend::{
    clock_text, level_name, new_user_refusal, quota_text, shown_authority, yes_no,
    NewUserRefusal,
};
use setochka::sentry::{LEVEL_COMPANY, LEVEL_GROUP, LEVEL_USER};

#[test]
fn a_saturated_quota_reads_as_unlimited() {
    assert_eq!(quota_text(u32::MAX), b"Unlimited");
    assert_eq!(quota_text(1048576), b"1048576");
    assert_eq!(quota_text(0), b"0");
}

#[test]
fn pages_are_stamped_with_the_time_of_day() {
    assert_eq!(clock_text(0), b"00:00:00 UTC");
    assert_eq!(clock_text(86_399), b"23:59:59 UTC");
    assert_eq!(clock_text(86_400 * 3 + 3600 * 9 + 60 * 5 + 7), b"09:05:07 UTC");
}

#[test]
fn rows_name_their_level_and_only_users_their_authority() {
    assert_eq!(level_name(LEVEL_COMPANY), "company");
    assert_eq!(level_name(LEVEL_GROUP), "group");
    assert_eq!(level_name(LEVEL_USER), "user");
    assert_eq!(shown_authority(LEVEL_GROUP, 20), "");
    assert_eq!(shown_authority(LEVEL_USER, 20), "group administrator");
    assert_eq!(shown_authority(LEVEL_USER, 25), "unknown authority");
    assert_eq!(yes_no(true), "Yes");
    assert_eq!(yes_no(false), "No");
}

#[test]
fn a_new_user_is_checked_in_order() {
    assert_eq!(new_user_refusal(b"", b"", 99, false, false, true), Some(NewUserRefusal::EmptyUser));
    assert_eq!(new_user_refusal(b"Lenin", b"", 99, false, false, true), Some(NewUserRefusal::EmptyPassword));
    assert_eq!(
        new_user_refusal(b"Lenin", b"SECRET", 25, false, false, true),
        Some(NewUserRefusal::UndefinedAuthority(25))
    );
    assert_eq!(new_user_refusal(b"Lenin", b"SECRET", 0, false, false, true), Some(NewUserRefusal::NoSuchCompany));
    assert_eq!(new_user_refusal(b"Lenin", b"SECRET", 0, true, false, true), Some(NewUserRefusal::NoSuchGroup));
    assert_eq!(new_user_refusal(b"Lenin", b"SECRET", 0, true, true, true), Some(NewUserRefusal::UserExists));
    assert_eq!(new_user_refusal(b"Lenin", b"SECRET", 40, true, true, false), None);
}
