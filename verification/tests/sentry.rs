use setochka::sentry::{
    password_response, store_response, write_response, StoreOutcome,
    record, records, status_response, Account, Directory, DirectoryRequest, DirectoryStep,
    SentryServer, SentryStep, COMMAND_VARIANT_QUERY, LEVEL_COMPANY, LEVEL_GROUP, LEVEL_USER,
    PROPERTY_COMPANY, PROPERTY_GROUP, PROPERTY_USER, STATUS_INSUFFICIENT_AUTHORITY,
    STATUS_INVALID_AUTHORITY, STATUS_OK, TAG_AUTHORITY, TAG_QUOTA,
};

#[test]
fn sentry_parses_add_user_fields() {
    let request = [
        0x07, 0x0c, b'T', b'e', b's', b't', b' ', b'C', b'o', b'm', b'p', b'a', b'n', b'y', // Company
        0x09, 0x05, b'L', b'e', b'n', b'i', b'n', // User
        0x1a, 0x02, 0x00, 0x28, // System administrator
        0x26, 0x04, 0xff, 0xff, 0xff, 0xff, // Unlimited
    ];

    let records = records(&request).unwrap();

    assert_eq!(record(&records, PROPERTY_COMPANY), Some(b"Test Company".as_slice()));
    assert_eq!(record(&records, PROPERTY_USER), Some(b"Lenin".as_slice()));
    assert_eq!(record(&records, PROPERTY_GROUP), None);
    assert_eq!(record(&records, TAG_AUTHORITY), Some([0x00, 0x28].as_slice()));
    assert_eq!(record(&records, TAG_QUOTA), Some([0xff; 4].as_slice()));
}

#[test]
fn sentry_rejects_truncated_records() {
    assert!(records(&[0x09, 0x07, b'Z']).is_none());
    assert!(records(&[0x09]).is_none());
}

fn account(level: i64, company: &str, group: &str, user: &str, authority: u16) -> Account {
    Account {
        level,
        company: company.as_bytes().to_vec(),
        group: group.as_bytes().to_vec(),
        user: user.as_bytes().to_vec(),
        password: Vec::new(),
        authority,
        quota: 0,
        used: 0,
    }
}

fn manager() -> Account {
    account(LEVEL_USER, "GRiD", "Systems", "MANAGER", 40)
}

fn guest() -> Account {
    account(LEVEL_USER, "GRiD", "Demo", "GUEST", 0)
}

fn demo_directory() -> Directory {
    Directory::from_accounts(vec![
        account(LEVEL_COMPANY, "GRiD", "", "", 30),
        account(LEVEL_GROUP, "GRiD", "Demo", "", 20),
        account(LEVEL_USER, "GRiD", "Demo", "GUEST", 0),
        account(LEVEL_USER, "GRiD", "Demo", "OPERATOR", 20),
        account(LEVEL_GROUP, "GRiD", "Systems", "", 20),
        account(LEVEL_USER, "GRiD", "Systems", "MANAGER", 40),
    ])
}

fn reply(step: SentryStep) -> Vec<u8> {
    match step {
        SentryStep::Reply(v) => v,
        other => panic!("expected a reply, got {other:?}"),
    }
}

#[test]
fn answers_variant_query() {
    let sentry = SentryServer::new(manager());

    assert_eq!(reply(sentry.process(&[COMMAND_VARIANT_QUERY])), [0x03, 0x25, 0x01, b'3']);
}

#[test]
fn a_normal_user_is_told_the_unsupported_variant() {
    let sentry = SentryServer::new(guest());

    assert_eq!(reply(sentry.process(&[COMMAND_VARIANT_QUERY])), [0x03, 0x25, 0x01, b'1']);
}

#[test]
fn ignores_unsupported_commands() {
    let sentry = SentryServer::new(manager());

    assert!(matches!(sentry.process(&[0x7f]), SentryStep::Ignore));
    assert!(matches!(sentry.process(&[]), SentryStep::Ignore));
}

#[test]
fn add_user_carries_the_fields_to_the_store() {
    let sentry = SentryServer::new(manager());
    let request = [
        0x06, // Add User
        0x07, 0x04, b'G', b'R', b'i', b'D', // Company
        0x08, 0x04, b'D', b'e', b'm', b'o', // Group
        0x09, 0x07, b'Z', b'Z', b'C', b'A', b'P', b'0', b'1', // User
        0x0a, 0x05, b'T', b'E', b'S', b'T', b'1', // Password
        0x1a, 0x02, 0x00, 0x00, // Normal user
        0x26, 0x04, 0x00, 0x04, 0x00, 0x00, // 1024 bytes
        0x1b, 0x01, b'1', // Disk space text
    ];

    match sentry.process(&request) {
        SentryStep::AddUser { company, group, user, password, authority, quota } => {
            assert_eq!(company, b"GRiD");
            assert_eq!(group, b"Demo");
            assert_eq!(user, b"ZZCAP01");
            assert_eq!(password, b"TEST1");
            assert_eq!(authority, 0);
            assert_eq!(quota, 1024);
        }
        other => panic!("expected an add-user step, got {other:?}"),
    }
}

#[test]
fn a_normal_user_may_not_add_users() {
    let sentry = SentryServer::new(guest());
    let request = [0x06, 0x09, 0x01, b'X'];

    assert_eq!(
        reply(sentry.process(&request)),
        status_response(STATUS_INSUFFICIENT_AUTHORITY)
    );
}

#[test]
fn an_undefined_authority_is_refused() {
    let sentry = SentryServer::new(manager());
    let request = [0x06, 0x1a, 0x02, 0xff, 0xff];

    assert_eq!(reply(sentry.process(&request)), status_response(STATUS_INVALID_AUTHORITY));
}

#[test]
fn an_empty_name_is_a_missing_property() {
    let sentry = SentryServer::new(manager());
    let request = [0x0a];

    assert_eq!(reply(sentry.process(&request)), status_response(1001));
}

#[test]
fn listing_starts_at_the_first_row_and_ends_with_the_end_status() {
    let sentry = SentryServer::new(manager());
    let directory = demo_directory();

    let step = sentry.process(&[0x1e]);
    let SentryStep::ReadDirectory(request) = step else {
        panic!("expected a directory read");
    };
    let DirectoryStep::Reply(first) = sentry.answer(&request, &directory) else {
        panic!("expected a row");
    };
    assert_eq!(&first[..6], [0x03, 0x27, 0x01, b'0', 0x07, 0x04]);

    let past = DirectoryRequest::ListNext { start: Some(6) };
    let DirectoryStep::Reply(end) = sentry.answer(&past, &directory) else {
        panic!("expected the end of the listing");
    };
    assert_eq!(end, status_response(1005));
}

#[test]
fn a_group_administrator_lists_only_its_own_group() {
    let operator = account(LEVEL_USER, "GRiD", "Demo", "OPERATOR", 20);
    let sentry = SentryServer::new(operator);
    let directory = demo_directory();

    // Rows 4 and 5 belong to the Systems group, outside the operator's scope.
    let request = DirectoryRequest::ListNext { start: Some(4) };
    let DirectoryStep::Reply(end) = sentry.answer(&request, &directory) else {
        panic!("expected the end of the listing");
    };
    assert_eq!(end, status_response(1005));
}

#[test]
fn deleting_the_signed_on_account_is_refused() {
    let sentry = SentryServer::new(manager());
    let directory = demo_directory();

    let request = DirectoryRequest::Delete { cursor: Some(5) };
    let DirectoryStep::Reply(refused) = sentry.answer(&request, &directory) else {
        panic!("expected a refusal");
    };
    assert_eq!(refused, status_response(STATUS_INSUFFICIENT_AUTHORITY));
}

#[test]
fn deleting_a_user_names_the_row() {
    let sentry = SentryServer::new(manager());
    let directory = demo_directory();

    let request = DirectoryRequest::Delete { cursor: Some(2) };
    match sentry.answer(&request, &directory) {
        DirectoryStep::DeleteUser { company, group, user } => {
            assert_eq!(company, b"GRiD");
            assert_eq!(group, b"Demo");
            assert_eq!(user, b"GUEST");
        }
        other => panic!("expected a delete, got {other:?}"),
    }
}

#[test]
fn the_store_outcome_becomes_a_status() {
    assert_eq!(store_response(StoreOutcome::Stored), status_response(STATUS_OK));
    assert_eq!(store_response(StoreOutcome::Duplicate), status_response(1017));
    assert_eq!(store_response(StoreOutcome::Failed), status_response(1004));
    assert_eq!(write_response(Some(1)), [0x01]);
    assert_eq!(write_response(Some(0)), status_response(1016));
    assert_eq!(password_response(Some(1)), status_response(STATUS_OK));
}
