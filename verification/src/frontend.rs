//! What the operator's web pages say of the directory: the words for levels,
//! authorities and quotas, the time stamp of a page, and the checks a new
//! user has to pass.
use vstd::prelude::*;

use crate::bytes::push_all;
use crate::fs_layout::decimal_u64;
use crate::sentry::{spec_decimal, spec_is_defined, Authority, LEVEL_COMPANY, LEVEL_USER};

verus! {

/// "Unlimited"
pub const UNLIMITED: [u8; 9] = [0x55, 0x6e, 0x6c, 0x69, 0x6d, 0x69, 0x74, 0x65, 0x64];

/// " UTC"
pub const UTC_SUFFIX: [u8; 4] = [0x20, 0x55, 0x54, 0x43];

/// The quota a user created from the page starts with: none.
pub const NEW_USER_QUOTA: u32 = 0xffff_ffff;

/// A quota as the page shows it: the saturated field means no limit.
pub open spec fn spec_quota_text(value: u32) -> Seq<u8> {
    if value == u32::MAX {
        UNLIMITED@
    } else {
        spec_decimal(value as nat)
    }
}

pub fn quota_text(value: u32) -> (r: Vec<u8>)
    ensures
        r@ == spec_quota_text(value),
{
    if value == 0xffff_ffff {
        let mut r: Vec<u8> = Vec::new();
        push_all(&mut r, UNLIMITED.as_slice());
        assert(r@ =~= UNLIMITED@);
        r
    } else {
        decimal_u64(value as u64)
    }
}

/// `n`, below a hundred, in two digits.
pub open spec fn two_digits(n: int) -> Seq<u8> {
    seq![(48 + n / 10) as u8, (48 + n % 10) as u8]
}

/// The time of day `secs` seconds after the epoch: `HH:MM:SS UTC`.
pub open spec fn spec_clock_text(secs: u64) -> Seq<u8> {
    let day = secs % 86400;
    two_digits((day / 3600) as int) + seq![0x3au8] + two_digits(((day % 3600) / 60) as int)
        + seq![0x3au8] + two_digits((day % 60) as int) + UTC_SUFFIX@
}

fn push_two_digits(dst: &mut Vec<u8>, n: u64)
    requires
        n < 100,
    ensures
        final(dst)@ == old(dst)@ + two_digits(n as int),
{
    dst.push((48 + n / 10) as u8);
    dst.push((48 + n % 10) as u8);
    assert(final(dst)@ =~= old(dst)@ + two_digits(n as int));
}

/// The stamp a page gets when it is drawn `secs` seconds after the epoch.
pub fn clock_text(secs: u64) -> (r: Vec<u8>)
    ensures
        r@ == spec_clock_text(secs),
{
    let day = secs % 86400;
    let mut r: Vec<u8> = Vec::new();
    push_two_digits(&mut r, day / 3600);
    r.push(0x3a);
    push_two_digits(&mut r, (day % 3600) / 60);
    r.push(0x3a);
    push_two_digits(&mut r, day % 60);
    push_all(&mut r, UTC_SUFFIX.as_slice());
    assert(r@ =~= spec_clock_text(secs));
    r
}

pub fn yes_no(value: bool) -> (r: &'static str)
    ensures
        value ==> r == "Yes",
        !value ==> r == "No",
{
    if value {
        "Yes"
    } else {
        "No"
    }
}

/// The level of a directory row.
pub fn level_name(level: i64) -> (r: &'static str)
    ensures
        level == LEVEL_COMPANY ==> r == "company",
        level == LEVEL_USER ==> r == "user",
        level != LEVEL_COMPANY && level != LEVEL_USER ==> r == "group",
{
    if level == LEVEL_COMPANY {
        "company"
    } else if level == LEVEL_USER {
        "user"
    } else {
        "group"
    }
}

/// The authority a row shows: only a user has one of its own; a company or a
/// group has its level's, which is not worth printing.
pub fn shown_authority(level: i64, authority: u16) -> (r: &'static str)
    ensures
        level != LEVEL_USER ==> r == "",
        level == LEVEL_USER && authority == crate::sentry::NORMAL ==> r == "normal user",
        level == LEVEL_USER && authority == crate::sentry::GROUP_ADMIN ==> r == "group administrator",
        level == LEVEL_USER && authority == crate::sentry::COMPANY_ADMIN ==> r
            == "company administrator",
        level == LEVEL_USER && authority == crate::sentry::SYSTEM_ADMIN ==> r
            == "system administrator",
        level == LEVEL_USER && !spec_is_defined(authority) ==> r == "unknown authority",
{
    if level == LEVEL_USER {
        Authority::from_stored(authority).name()
    } else {
        ""
    }
}

/// Why the page refuses to create a user.
#[derive(Clone, Copy, Debug, PartialEq, Eq)]
pub enum NewUserRefusal {
    EmptyUser,
    EmptyPassword,
    UndefinedAuthority(u16),
    NoSuchCompany,
    NoSuchGroup,
    UserExists,
}

/// The first check a new user fails, given what the directory holds of its
/// company, its group and itself; `None` when it may be created. The page
/// makes every check itself: the same form can be posted without being drawn.
pub fn new_user_refusal(
    user: &[u8],
    password: &[u8],
    authority: u16,
    company_found: bool,
    group_found: bool,
    user_found: bool,
) -> (r: Option<NewUserRefusal>)
    ensures
        r == (if user@.len() == 0 {
            Some(NewUserRefusal::EmptyUser)
        } else if password@.len() == 0 {
            Some(NewUserRefusal::EmptyPassword)
        } else if !spec_is_defined(authority) {
            Some(NewUserRefusal::UndefinedAuthority(authority))
        } else if !company_found {
            Some(NewUserRefusal::NoSuchCompany)
        } else if !group_found {
            Some(NewUserRefusal::NoSuchGroup)
        } else if user_found {
            Some(NewUserRefusal::UserExists)
        } else {
            None
        }),
{
    if user.len() == 0 {
        Some(NewUserRefusal::EmptyUser)
    } else if password.len() == 0 {
        Some(NewUserRefusal::EmptyPassword)
    } else if !Authority::from_stored(authority).is_defined() {
        Some(NewUserRefusal::UndefinedAuthority(authority))
    } else if !company_found {
        Some(NewUserRefusal::NoSuchCompany)
    } else if !group_found {
        Some(NewUserRefusal::NoSuchGroup)
    } else if user_found {
        Some(NewUserRefusal::UserExists)
    } else {
        None
    }
}

} // verus!
