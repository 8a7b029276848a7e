use setochka::sentry::{
    lookup_refusal, password_response, records, record, status_response, store_response,
    unreadable_directory, write_response, Account, Directory, DirectoryStep, Level, SentryServer,
    SentryStep, StoreOutcome, COMMAND_ACK, COMMAND_ADD_COMPANY, COMMAND_ADD_GROUP,
    COMMAND_ADD_USER, COMMAND_CHANGE_PASSWORD, COMMAND_DELETE, COMMAND_LIST_FIRST,
    COMMAND_LIST_NEXT, COMMAND_QUERY, COMMAND_REPLY, COMMAND_STATUS, COMMAND_UPDATE,
    COMMAND_VARIANT_QUERY, COMPANY_ADMIN, FILTER_SKIP, GROUP_ADMIN, LEVEL_COMPANY, LEVEL_GROUP,
    LEVEL_USER, NORMAL, PROPERTY_COMPANY, PROPERTY_GROUP, PROPERTY_PASSWORD, PROPERTY_USER,
    QUERY_COMPANY, QUERY_GROUP, QUERY_USER, QUOTA_UNLIMITED, STATUS_ACCOUNT_NOT_DEFINED,
    STATUS_ALREADY_DEFINED, STATUS_COMPANY_NOT_DEFINED, STATUS_END_OF_LISTING,
    STATUS_INSUFFICIENT_AUTHORITY, STATUS_INVALID_AUTHORITY, STATUS_INVALID_NAME, STATUS_OK,
    STATUS_PROPERTY_MISSING, SYSTEM_ADMIN, TAG_AUTHORITY, TAG_CREATED, TAG_CURSOR, TAG_DEVICE,
    TAG_DISK_USED, TAG_LOCKED, TAG_MODIFIED, TAG_QUERY_LEVEL, TAG_QUOTA, TAG_VARIANT,
};

const MEGABYTE: u32 = 1024 * 1024;

/// The account directory the server keeps in its database, here in memory
/// with the database's rules: names compare without case, a company or a
/// group name is taken once, a user name once per group, and the listing
/// comes in the client's order.
#[derive(Clone, Default)]
struct Store {
    companies: Vec<(i64, String, u32, u32)>,
    groups: Vec<(i64, i64, String, u32, u32)>,
    users: Vec<(i64, String, String, u16, u32, u32)>,
    next_id: i64,
}

fn same(a: &str, b: &str) -> bool {
    a.eq_ignore_ascii_case(b)
}

fn text(bytes: &[u8]) -> &str {
    std::str::from_utf8(bytes).expect("names are text")
}

impl Store {
    fn demo() -> Self {
        let mut store = Store { next_id: 10, ..Default::default() };
        store.companies.push((1, "GRiD".into(), u32::MAX, 0));
        store.groups.push((1, 1, "Demo".into(), u32::MAX, 0));
        store.groups.push((2, 1, "Systems".into(), u32::MAX, 0));
        store.users.push((1, "GUEST".into(), "GUEST".into(), 0, 1048576, 262144));
        store.users.push((1, "OPERATOR".into(), "OPERATOR".into(), 20, u32::MAX, 1048576));
        store.users.push((2, "MANAGER".into(), "MANAGER".into(), 40, u32::MAX, 4194304));
        store
    }

    fn company_name(&self, id: i64) -> String {
        self.companies.iter().find(|c| c.0 == id).unwrap().1.clone()
    }

    fn group(&self, id: i64) -> &(i64, i64, String, u32, u32) {
        self.groups.iter().find(|g| g.0 == id).unwrap()
    }

    fn load(&self) -> Vec<Account> {
        let account = |level, company: &str, group: &str, user: &str, password: &str, authority, quota, used| Account {
            level,
            company: company.as_bytes().to_vec(),
            group: group.as_bytes().to_vec(),
            user: user.as_bytes().to_vec(),
            password: password.as_bytes().to_vec(),
            authority,
            quota,
            used,
        };
        let mut rows = Vec::new();
        for c in &self.companies {
            rows.push(account(LEVEL_COMPANY, &c.1, "", "", "", 30, c.2, c.3));
        }
        for g in &self.groups {
            rows.push(account(LEVEL_GROUP, &self.company_name(g.1), &g.2, "", "", 20, g.3, g.4));
        }
        for u in &self.users {
            let g = self.group(u.0);
            rows.push(account(LEVEL_USER, &self.company_name(g.1), &g.2, &u.1, &u.2, u.3, u.4, u.5));
        }
        let key = |a: &Account| {
            (
                text(&a.company).to_ascii_lowercase(),
                text(&a.group).to_ascii_lowercase(),
                a.level,
                text(&a.user).to_ascii_lowercase(),
            )
        };
        rows.sort_by_key(key);
        rows
    }

    fn find_user(&self, company: &str, group: &str, user: &str) -> Option<Account> {
        self.load().into_iter().find(|a| {
            a.level == LEVEL_USER
                && same(text(&a.company), company)
                && same(text(&a.group), group)
                && same(text(&a.user), user)
        })
    }

    fn find_company(&self, company: &str) -> Option<i64> {
        self.companies.iter().find(|c| same(&c.1, company)).map(|c| c.0)
    }

    fn find_group(&self, company: &str, group: &str) -> Option<i64> {
        self.groups
            .iter()
            .find(|g| same(&g.2, group) && same(&self.company_name(g.1), company))
            .map(|g| g.0)
    }

    fn user_index(&self, company: &str, group: &str, user: &str) -> Option<usize> {
        let group_id = self.find_group(company, group)?;
        self.users.iter().position(|u| u.0 == group_id && same(&u.1, user))
    }

    fn insert_company(&mut self, name: &str, quota: u32) -> StoreOutcome {
        if self.find_company(name).is_some() {
            return StoreOutcome::Duplicate;
        }
        self.next_id += 1;
        self.companies.push((self.next_id, name.into(), quota, 0));
        StoreOutcome::Stored
    }

    fn insert_group(&mut self, company_id: i64, name: &str, quota: u32) -> StoreOutcome {
        if self.groups.iter().any(|g| same(&g.2, name)) {
            return StoreOutcome::Duplicate;
        }
        self.next_id += 1;
        self.groups.push((self.next_id, company_id, name.into(), quota, 0));
        StoreOutcome::Stored
    }

    fn insert_user(&mut self, group_id: i64, name: &str, password: &str, authority: u16, quota: u32) -> StoreOutcome {
        if self.users.iter().any(|u| u.0 == group_id && same(&u.1, name)) {
            return StoreOutcome::Duplicate;
        }
        self.users.push((group_id, name.into(), password.into(), authority, quota, 0));
        StoreOutcome::Stored
    }

    fn update_company(&mut self, company: &str, quota: u32) -> usize {
        let mut n = 0;
        for c in self.companies.iter_mut().filter(|c| same(&c.1, company)) {
            c.2 = quota;
            n += 1;
        }
        n
    }

    fn update_group(&mut self, company: &str, group: &str, quota: u32) -> usize {
        match self.find_group(company, group) {
            Some(id) => {
                self.groups.iter_mut().find(|g| g.0 == id).unwrap().3 = quota;
                1
            },
            None => 0,
        }
    }

    fn update_user(&mut self, company: &str, group: &str, user: &str, authority: u16, quota: u32) -> usize {
        match self.user_index(company, group, user) {
            Some(i) => {
                self.users[i].3 = authority;
                self.users[i].4 = quota;
                1
            },
            None => 0,
        }
    }

    fn set_password(&mut self, company: &str, group: &str, user: &str, password: &str) -> usize {
        match self.user_index(company, group, user) {
            Some(i) => {
                self.users[i].2 = password.into();
                1
            },
            None => 0,
        }
    }

    fn delete_company(&mut self, company: &str) -> usize {
        let Some(id) = self.find_company(company) else {
            return 0;
        };
        let groups: Vec<i64> = self.groups.iter().filter(|g| g.1 == id).map(|g| g.0).collect();
        self.users.retain(|u| !groups.contains(&u.0));
        self.groups.retain(|g| g.1 != id);
        self.companies.retain(|c| c.0 != id);
        1
    }

    fn delete_group(&mut self, company: &str, group: &str) -> usize {
        let Some(id) = self.find_group(company, group) else {
            return 0;
        };
        self.users.retain(|u| u.0 != id);
        self.groups.retain(|g| g.0 != id);
        1
    }

    fn delete_user(&mut self, company: &str, group: &str, user: &str) -> usize {
        match self.user_index(company, group, user) {
            Some(i) => {
                self.users.remove(i);
                1
            },
            None => 0,
        }
    }
}

/// A Sentry session over the store: the library decides, the store is
/// consulted the way the server consults its database.
struct Sentry {
    store: Store,
    server: SentryServer,
}

impl Sentry {
    fn new(store: Store, actor: Account) -> Self {
        Sentry { store, server: SentryServer::new(actor) }
    }

    fn directory(&self) -> Directory {
        Directory::from_accounts(self.store.load())
    }

    fn process(&mut self, payload: &[u8]) -> Option<Vec<u8>> {
        match self.server.process(payload) {
            SentryStep::Ignore => None,
            SentryStep::Reply(payload) => Some(payload),
            SentryStep::AddCompany { company, quota } => {
                Some(store_response(self.store.insert_company(text(&company), quota)))
            },
            SentryStep::AddGroup { company, group, quota } => {
                match lookup_refusal(Some(self.store.find_company(text(&company))), setochka::sentry::STATUS_COMPANY_NOT_DEFINED) {
                    Ok(id) => Some(store_response(self.store.insert_group(id, text(&group), quota))),
                    Err(refusal) => Some(refusal),
                }
            },
            SentryStep::AddUser { company, group, user, password, authority, quota } => {
                match lookup_refusal(
                    Some(self.store.find_group(text(&company), text(&group))),
                    STATUS_ACCOUNT_NOT_DEFINED,
                ) {
                    Ok(id) => Some(store_response(self.store.insert_user(
                        id,
                        text(&user),
                        text(&password),
                        authority,
                        quota,
                    ))),
                    Err(refusal) => Some(refusal),
                }
            },
            SentryStep::ChangePassword { company, group, user, password } => {
                let n = self.store.set_password(text(&company), text(&group), text(&user), text(&password));
                Some(password_response(Some(n)))
            },
            SentryStep::ReadDirectory(request) => {
                let directory = self.directory();
                match self.server.answer(&request, &directory) {
                    DirectoryStep::Ignore => None,
                    DirectoryStep::Reply(payload) => Some(payload),
                    DirectoryStep::UpdateCompany { company, quota } => {
                        Some(write_response(Some(self.store.update_company(text(&company), quota))))
                    },
                    DirectoryStep::UpdateGroup { company, group, quota } => Some(write_response(Some(
                        self.store.update_group(text(&company), text(&group), quota),
                    ))),
                    DirectoryStep::UpdateUser { company, group, user, authority, quota } => {
                        Some(write_response(Some(self.store.update_user(
                            text(&company),
                            text(&group),
                            text(&user),
                            authority,
                            quota,
                        ))))
                    },
                    DirectoryStep::DeleteCompany { company } => {
                        Some(write_response(Some(self.store.delete_company(text(&company)))))
                    },
                    DirectoryStep::DeleteGroup { company, group } => {
                        Some(write_response(Some(self.store.delete_group(text(&company), text(&group)))))
                    },
                    DirectoryStep::DeleteUser { company, group, user } => Some(write_response(Some(
                        self.store.delete_user(text(&company), text(&group), text(&user)),
                    ))),
                }
            },
        }
    }
}

/// Signed on as the only account entitled to every administrative command.
fn sentry() -> Sentry {
    sentry_as(SYSTEM_ADMIN)
}

fn sentry_as(authority: u16) -> Sentry {
    let store = Store::demo();
    let (group, user) = match authority {
        NORMAL => ("Demo", "GUEST"),
        GROUP_ADMIN => ("Demo", "OPERATOR"),
        SYSTEM_ADMIN => ("Systems", "MANAGER"),
        _ => panic!("the demo directory holds no {authority} account"),
    };
    let actor = store.find_user("GRiD", group, user).expect("the demo account should exist");
    Sentry::new(store, actor)
}

/// Signing on compares the stored password.
fn authenticate(store: &Store, company: &str, group: &str, user: &str, password: &str) -> Result<Account, ()> {
    match store.find_user(company, group, user) {
        Some(account) if account.password == password.as_bytes() => Ok(account),
        _ => Err(()),
    }
}

fn tagged(tag: u8, value: &[u8]) -> Vec<u8> {
    let mut record = vec![tag, value.len() as u8];
    record.extend_from_slice(value);
    record
}

fn add_company(sentry: &mut Sentry, company: &[u8]) -> Vec<u8> {
    let mut request = vec![COMMAND_ADD_COMPANY];
    request.extend(tagged(PROPERTY_COMPANY, company));
    request.extend(tagged(TAG_QUOTA, &QUOTA_UNLIMITED.to_le_bytes()));
    sentry.process(&request).unwrap()
}

fn add_group(sentry: &mut Sentry, company: &[u8], group: &[u8]) -> Vec<u8> {
    let mut request = vec![COMMAND_ADD_GROUP];
    request.extend(tagged(PROPERTY_COMPANY, company));
    request.extend(tagged(PROPERTY_GROUP, group));
    request.extend(tagged(TAG_QUOTA, &QUOTA_UNLIMITED.to_le_bytes()));
    sentry.process(&request).unwrap()
}

fn add_user(sentry: &mut Sentry, company: &[u8], group: &[u8], user: &[u8], password: &[u8], authority: u16) -> Vec<u8> {
    let mut request = vec![COMMAND_ADD_USER];
    request.extend(tagged(PROPERTY_COMPANY, company));
    request.extend(tagged(PROPERTY_GROUP, group));
    request.extend(tagged(PROPERTY_USER, user));
    request.extend(tagged(PROPERTY_PASSWORD, password));
    request.extend(tagged(TAG_AUTHORITY, &authority.to_be_bytes()));
    request.extend(tagged(TAG_QUOTA, &MEGABYTE.to_le_bytes()));
    sentry.process(&request).unwrap()
}

fn names(sentry: &mut Sentry) -> Vec<(Vec<u8>, Vec<u8>, Vec<u8>)> {
    let mut rows = Vec::new();
    let mut request = list_first(b"", b"", b"");

    while let Some(response) = sentry.process(&request) {
        if response[0] == COMMAND_STATUS {
            break;
        }

        let records = records(&response[1..]).unwrap();
        let text = |tag| record(&records, tag).unwrap().to_vec();
        rows.push((text(PROPERTY_COMPANY), text(PROPERTY_GROUP), text(PROPERTY_USER)));
        request = list_first(&text(PROPERTY_COMPANY), &text(PROPERTY_GROUP), &text(PROPERTY_USER));
    }

    rows
}

/// The `<tag><20 bytes>` filter the client sends: names are padded with
/// zeros, an absent level is all zeros, a finished one all `0xff`.
fn list_filter(tag: u8, name: &[u8]) -> Vec<u8> {
    let mut value = name.to_vec();
    value.resize(20, 0);
    tagged(tag, &value)
}

fn list_first(company: &[u8], group: &[u8], user: &[u8]) -> Vec<u8> {
    let mut request = vec![COMMAND_LIST_FIRST];
    request.extend(list_filter(PROPERTY_COMPANY, company));
    request.extend(list_filter(PROPERTY_GROUP, group));
    request.extend(list_filter(PROPERTY_USER, user));
    request
}

fn query(level: u8, names: &[(u8, &[u8])]) -> Vec<u8> {
    let mut request = vec![COMMAND_QUERY];
    request.extend(tagged(TAG_QUERY_LEVEL, &[level]));
    for (tag, name) in names {
        request.extend(tagged(*tag, name));
    }
    request
}

/// Update and delete address a record by the cursor of a preceding query.
fn cursor_of(sentry: &mut Sentry, level: u8, names: &[(u8, &[u8])]) -> Vec<u8> {
    let response = sentry.process(&query(level, names)).unwrap();
    assert_eq!(response[0], COMMAND_REPLY, "the query should find the row");
    let records = records(&response[1..]).unwrap();
    record(&records, TAG_CURSOR).unwrap().to_vec()
}

fn update(cursor: &[u8], authority: u16, quota: u32) -> Vec<u8> {
    let mut request = vec![COMMAND_UPDATE];
    request.extend(tagged(TAG_CURSOR, cursor));
    request.extend(tagged(TAG_AUTHORITY, &authority.to_be_bytes()));
    request.extend(tagged(TAG_QUOTA, &quota.to_le_bytes()));
    request
}

fn delete(cursor: &[u8]) -> Vec<u8> {
    let mut request = vec![COMMAND_DELETE];
    request.extend(tagged(TAG_CURSOR, cursor));
    request
}

fn change_password(names: &[(u8, &[u8])], password: &[u8]) -> Vec<u8> {
    let mut request = vec![COMMAND_CHANGE_PASSWORD];
    for (tag, name) in names {
        request.extend(tagged(*tag, name));
    }
    request.extend(tagged(PROPERTY_PASSWORD, password));
    request
}

#[test]
fn sentry_answers_variant_query() {
    let mut sentry = sentry();
    assert_eq!(sentry.process(&[COMMAND_VARIANT_QUERY]).unwrap(), [0x03, 0x25, 0x01, b'3']);
}

#[test]
fn sentry_answers_add_user_with_success_status() {
    let mut sentry = sentry();
    let request = [
        0x06, // Add User
        0x07, 0x04, b'G', b'R', b'i', b'D', // Company
        0x08, 0x04, b'D', b'e', b'm', b'o', // Group
        0x09, 0x07, b'Z', b'Z', b'C', b'A', b'P', b'0', b'1', // User
        0x0a, 0x05, b'T', b'E', b'S', b'T', b'1', // Password
        0x1a, 0x02, 0x00, 0x00, // Normal user
        0x26, 0x04, 0x00, 0x04, 0x00, 0x00, // 1024 bytes
        0x1b, 0x01, b'1', // Disk space text
    ];
    assert_eq!(sentry.process(&request).unwrap(), [0x02, 0x00, 0x00]);
}

#[test]
fn sentry_created_company_appears_in_the_listing() {
    let mut sentry = sentry();
    assert_eq!(add_company(&mut sentry, b"Test Company"), status_response(STATUS_OK));

    // Rows come back sorted, so a company named after `GRiD` trails the listing.
    let rows = names(&mut sentry);
    assert_eq!(rows.last().unwrap().0, b"Test Company");
    let directory = sentry.directory();
    assert_eq!(directory.rows.last().unwrap().level(), Level::Company);
}

#[test]
fn sentry_created_group_lands_inside_its_company() {
    let mut sentry = sentry();
    assert_eq!(add_group(&mut sentry, b"GRiD", b"Demo Group"), status_response(STATUS_OK));

    let rows = names(&mut sentry);
    let groups: Vec<_> = rows
        .iter()
        .filter(|(company, group, user)| group == user && company != group)
        .map(|(_, group, _)| group.clone())
        .collect();
    assert_eq!(groups, [b"Demo".to_vec(), b"Demo Group".into(), b"Systems".into()]);
    assert!(rows.iter().all(|(company, _, _)| company == b"GRiD"));
}

#[test]
fn sentry_created_user_lands_inside_its_group() {
    let mut sentry = sentry();
    assert_eq!(
        add_user(&mut sentry, b"GRiD", b"Demo", b"Lenin", b"SECRET", NORMAL),
        status_response(STATUS_OK)
    );

    let rows = names(&mut sentry);
    let demo: Vec<_> = rows.iter().filter(|(_, group, _)| group == b"Demo").map(|(_, _, user)| user.clone()).collect();
    assert_eq!(demo, [b"Demo".to_vec(), b"GUEST".into(), b"Lenin".into(), b"OPERATOR".into()]);
}

#[test]
fn sentry_refuses_an_administrative_command_from_a_normal_user() {
    let mut sentry = sentry_as(NORMAL);
    assert_eq!(add_company(&mut sentry, b"Test Company"), status_response(STATUS_INSUFFICIENT_AUTHORITY));
    assert_eq!(add_group(&mut sentry, b"GRiD", b"Demo Group"), status_response(STATUS_INSUFFICIENT_AUTHORITY));
}

#[test]
fn sentry_allows_only_what_the_authority_covers() {
    let mut sentry = sentry_as(GROUP_ADMIN);
    assert_eq!(
        add_user(&mut sentry, b"GRiD", b"Demo", b"Lenin", b"SECRET", NORMAL),
        status_response(STATUS_OK)
    );
    assert_eq!(add_group(&mut sentry, b"GRiD", b"Demo Group"), status_response(STATUS_INSUFFICIENT_AUTHORITY));
}

#[test]
fn sentry_tells_a_normal_user_the_variant_is_unsupported() {
    let mut sentry = sentry_as(NORMAL);
    assert_eq!(sentry.process(&[COMMAND_VARIANT_QUERY]).unwrap(), [COMMAND_REPLY, TAG_VARIANT, 0x01, b'1']);
}

#[test]
fn sentry_refuses_to_create_a_user_from_a_normal_account() {
    let mut sentry = sentry_as(NORMAL);
    assert_eq!(
        add_user(&mut sentry, b"GRiD", b"Demo", b"Lenin", b"SECRET", NORMAL),
        status_response(STATUS_INSUFFICIENT_AUTHORITY)
    );
    assert!(sentry.store.find_user("GRiD", "Demo", "Lenin").is_none());
}

#[test]
fn sentry_refuses_to_grant_an_authority_above_the_creators_own() {
    let mut sentry = sentry_as(GROUP_ADMIN);
    assert_eq!(
        add_user(&mut sentry, b"GRiD", b"Demo", b"Lenin", b"SECRET", SYSTEM_ADMIN),
        status_response(STATUS_INSUFFICIENT_AUTHORITY)
    );
}

#[test]
fn sentry_refuses_an_authority_outside_the_defined_levels() {
    let mut sentry = sentry();
    assert_eq!(
        add_user(&mut sentry, b"GRiD", b"Demo", b"Lenin", b"SECRET", 25),
        status_response(STATUS_INVALID_AUTHORITY)
    );
}

#[test]
fn sentry_refuses_the_mandatory_fields_when_empty() {
    let mut sentry = sentry();
    assert_eq!(add_company(&mut sentry, b""), status_response(STATUS_PROPERTY_MISSING));
    assert_eq!(add_group(&mut sentry, b"GRiD", b""), status_response(STATUS_PROPERTY_MISSING));
    assert_eq!(
        add_user(&mut sentry, b"GRiD", b"Demo", b"", b"SECRET", NORMAL),
        status_response(STATUS_PROPERTY_MISSING)
    );
    assert_eq!(
        add_user(&mut sentry, b"GRiD", b"Demo", b"Lenin", b"", NORMAL),
        status_response(STATUS_PROPERTY_MISSING)
    );
}

#[test]
fn sentry_stores_the_parent_spelling_the_directory_already_uses() {
    let mut sentry = sentry();
    assert_eq!(
        add_user(&mut sentry, b"grid", b"demo", b"Lenin", b"SECRET", NORMAL),
        status_response(STATUS_OK)
    );

    let account = sentry.store.find_user("GRiD", "Demo", "Lenin").expect("the created user should be stored");
    assert_eq!(account.company, b"GRiD");
    assert_eq!(account.group, b"Demo");

    let rows = names(&mut sentry);
    assert!(rows.iter().all(|(company, _, _)| company == b"GRiD"));
}

#[test]
fn sentry_refuses_a_name_that_is_not_ascii() {
    let mut sentry = sentry();
    assert_eq!(
        add_user(&mut sentry, b"GRiD", b"Demo", "Lénin".as_bytes(), b"SECRET", NORMAL),
        status_response(STATUS_INVALID_NAME)
    );
}

#[test]
fn sentry_reports_a_missing_group_apart_from_a_missing_company() {
    let mut sentry = sentry();
    assert_eq!(
        add_user(&mut sentry, b"GRiD", b"Nowhere", b"Lenin", b"SECRET", NORMAL),
        status_response(STATUS_ACCOUNT_NOT_DEFINED)
    );
    assert_eq!(add_group(&mut sentry, b"Nowhere", b"Demo Group"), status_response(STATUS_COMPANY_NOT_DEFINED));
}

#[test]
fn sentry_a_created_user_can_sign_on() {
    let mut sentry = sentry();
    assert_eq!(
        add_user(&mut sentry, b"GRiD", b"Demo", b"Lenin", b"SECRET", GROUP_ADMIN),
        status_response(STATUS_OK)
    );
    let account = authenticate(&sentry.store, "GRiD", "Demo", "Lenin", "SECRET")
        .expect("the created user should be able to sign on");
    assert_eq!(account.authority, GROUP_ADMIN);
}

#[test]
fn sentry_stores_the_password_of_a_created_user() {
    let mut sentry = sentry();
    add_user(&mut sentry, b"GRiD", b"Demo", b"Lenin", b"SECRET", NORMAL);
    let account = sentry.store.find_user("GRiD", "Demo", "Lenin").expect("the created user should be stored");
    assert_eq!(account.password, b"SECRET");
}

#[test]
fn sentry_rejects_a_duplicate_company() {
    let mut sentry = sentry();
    assert_eq!(add_company(&mut sentry, b"GRiD"), status_response(STATUS_ALREADY_DEFINED));
}

#[test]
fn sentry_rejects_a_group_without_its_company() {
    let mut sentry = sentry();
    assert_eq!(add_group(&mut sentry, b"MISSING", b"Demo Group"), status_response(STATUS_COMPANY_NOT_DEFINED));
}

#[test]
fn sentry_a_created_company_accepts_groups() {
    let mut sentry = sentry();
    add_company(&mut sentry, b"Test Company");
    assert_eq!(add_group(&mut sentry, b"test company", b"Demo Group"), status_response(STATUS_OK));
    let directory = sentry.directory();
    let group = directory.find(&[b"Test Company", b"Demo Group"]).unwrap();
    assert_eq!(directory.rows[group].level(), Level::Group);
}

#[test]
fn sentry_ignores_unsupported_commands() {
    let mut sentry = sentry();
    assert!(sentry.process(&[0x7f]).is_none());
    assert!(sentry.process(&[]).is_none());
}

#[test]
fn sentry_answers_first_listing_request_with_the_first_row() {
    let mut sentry = sentry();
    let response = sentry.process(&list_first(b"", b"", b"")).unwrap();
    assert_eq!(
        response,
        [
            0x03, // Reply
            0x27, 0x01, b'0', // Cursor
            0x07, 0x04, b'G', b'R', b'i', b'D', // Company
            0x08, 0x04, b'G', b'R', b'i', b'D', // Group
            0x09, 0x04, b'G', b'R', b'i', b'D', // User
            0x1a, 0x02, 0x1e, 0x00, // Company administrator
            0x28, 0x09, b'H', b'a', b'r', b'd', b' ', b'D', b'i', b's', b'k', // Device
            0x26, 0x04, 0xff, 0xff, 0xff, 0xff, // MaxDisk
            0x29, 0x04, 0x00, 0x00, 0x00, 0x00, // DiskUsed
            0x2a, 0x11, b'8', b'2', b'/', b'0', b'3', b'/', b'2', b'8', b' ', b'0', b'9', b':', b'0',
            b'0', b':', b'0', b'0', // Created
            0x2b, 0x11, b'8', b'6', b'/', b'0', b'3', b'/', b'0', b'1', b' ', b'0', b'9', b':', b'1',
            b'5', b':', b'0', b'0', // Modified
            0x2c, 0x02, 0x00, 0x00, // Unlocked
        ]
    );
}

#[test]
fn sentry_walks_the_directory_row_by_row() {
    let mut sentry = sentry();
    let mut rows = Vec::new();

    let mut request = list_first(b"", b"", b"");
    while let Some(response) = sentry.process(&request) {
        if response[0] == COMMAND_STATUS {
            assert_eq!(response, status_response(STATUS_END_OF_LISTING));
            break;
        }
        let records = records(&response[1..]).unwrap();
        let text = |tag| record(&records, tag).unwrap().to_vec();
        rows.push((text(PROPERTY_COMPANY), text(PROPERTY_GROUP), text(PROPERTY_USER)));
        request = list_first(&text(PROPERTY_COMPANY), &text(PROPERTY_GROUP), &text(PROPERTY_USER));
    }

    assert_eq!(
        rows,
        [
            (b"GRiD".to_vec(), b"GRiD".to_vec(), b"GRiD".to_vec()),
            (b"GRiD".to_vec(), b"Demo".to_vec(), b"Demo".to_vec()),
            (b"GRiD".to_vec(), b"Demo".to_vec(), b"GUEST".to_vec()),
            (b"GRiD".to_vec(), b"Demo".to_vec(), b"OPERATOR".to_vec()),
            (b"GRiD".to_vec(), b"Systems".to_vec(), b"Systems".to_vec()),
            (b"GRiD".to_vec(), b"Systems".to_vec(), b"MANAGER".to_vec()),
        ]
    );
}

#[test]
fn sentry_skips_the_rest_of_a_subtree() {
    let mut sentry = sentry();
    let mut request = vec![COMMAND_LIST_FIRST];
    request.extend(list_filter(PROPERTY_COMPANY, b"GRiD"));
    request.extend(list_filter(PROPERTY_GROUP, b"Demo"));
    request.extend(tagged(PROPERTY_USER, &[FILTER_SKIP; 20]));

    let response = sentry.process(&request).unwrap();

    let records = records(&response[1..]).unwrap();
    assert_eq!(record(&records, PROPERTY_GROUP), Some(b"Systems".as_slice()));
    assert_eq!(record(&records, PROPERTY_USER), Some(b"Systems".as_slice()));
}

#[test]
fn sentry_continues_a_user_listing_from_the_cursor() {
    let mut sentry = sentry();
    let mut request = vec![COMMAND_LIST_NEXT];
    request.extend(tagged(TAG_CURSOR, b"2"));

    let response = sentry.process(&request).unwrap();

    let records = records(&response[1..]).unwrap();
    assert_eq!(record(&records, TAG_CURSOR), Some(b"3".as_slice()));
    assert_eq!(record(&records, PROPERTY_USER), Some(b"OPERATOR".as_slice()));
}

#[test]
fn sentry_ends_the_listing_after_the_last_row() {
    let mut sentry = sentry();
    let response = sentry.process(&list_first(b"GRiD", b"Systems", b"MANAGER")).unwrap();
    assert_eq!(response, [0x02, 0xed, 0x03]);
}

#[test]
fn sentry_ends_the_listing_when_the_whole_company_is_skipped() {
    let mut sentry = sentry();
    let mut request = vec![COMMAND_LIST_FIRST];
    request.extend(tagged(PROPERTY_COMPANY, &[FILTER_SKIP; 20]));
    request.extend(tagged(PROPERTY_GROUP, &[FILTER_SKIP; 20]));
    request.extend(tagged(PROPERTY_USER, &[FILTER_SKIP; 20]));
    assert_eq!(sentry.process(&request).unwrap(), status_response(STATUS_END_OF_LISTING));
}

#[test]
fn sentry_ends_the_listing_for_an_unknown_filter() {
    let mut sentry = sentry();
    assert_eq!(sentry.process(&list_first(b"MISSING", b"", b"")).unwrap(), status_response(STATUS_END_OF_LISTING));
}

#[test]
fn answers_a_query_without_names_with_the_signed_on_account() {
    let mut sentry = sentry();
    let response = sentry.process(&query(QUERY_USER, &[])).unwrap();
    let records = records(&response[1..]).unwrap();
    assert_eq!(response[0], COMMAND_REPLY);
    assert_eq!(record(&records, PROPERTY_COMPANY), Some(b"GRiD".as_slice()));
    assert_eq!(record(&records, PROPERTY_GROUP), Some(b"Systems".as_slice()));
    assert_eq!(record(&records, PROPERTY_USER), Some(b"MANAGER".as_slice()));
    assert_eq!(record(&records, TAG_AUTHORITY), Some([40, 0].as_slice()));
}

#[test]
fn answers_a_query_for_each_level() {
    let mut sentry = sentry();
    let group = sentry
        .process(&query(
            QUERY_GROUP,
            &[(PROPERTY_COMPANY, b"GRiD"), (PROPERTY_GROUP, b"Demo"), (PROPERTY_USER, b"GUEST")],
        ))
        .unwrap();
    let group = records(&group[1..]).unwrap();
    assert_eq!(record(&group, PROPERTY_GROUP), Some(b"Demo".as_slice()));
    assert_eq!(record(&group, PROPERTY_USER), Some(b"Demo".as_slice()));

    let company = sentry.process(&query(QUERY_COMPANY, &[(PROPERTY_COMPANY, b"grid")])).unwrap();
    let company = records(&company[1..]).unwrap();
    assert_eq!(record(&company, PROPERTY_COMPANY), Some(b"GRiD".as_slice()));
    assert_eq!(record(&company, PROPERTY_USER), Some(b"GRiD".as_slice()));
}

#[test]
fn reports_a_queried_record_that_is_not_defined() {
    let mut sentry = sentry();
    assert_eq!(
        sentry.process(&query(QUERY_COMPANY, &[(PROPERTY_COMPANY, b"MISSING")])).unwrap(),
        status_response(STATUS_COMPANY_NOT_DEFINED)
    );
    assert_eq!(
        sentry
            .process(&query(
                QUERY_USER,
                &[(PROPERTY_COMPANY, b"GRiD"), (PROPERTY_GROUP, b"Demo"), (PROPERTY_USER, b"NOBODY")],
            ))
            .unwrap(),
        status_response(STATUS_ACCOUNT_NOT_DEFINED)
    );
}

#[test]
fn a_query_answers_with_the_records_of_a_listing_row() {
    let mut sentry = sentry();
    let queried = sentry.process(&query(QUERY_USER, &[])).unwrap();
    let listed = sentry.process(&list_first(b"GRiD", b"Systems", b"Systems")).unwrap();
    let tags = |response: &[u8]| records(&response[1..]).unwrap().iter().map(|entry| entry.tag).collect::<Vec<_>>();
    assert_eq!(tags(&queried), tags(&listed));
}

#[test]
fn updates_the_record_the_cursor_addresses() {
    let mut sentry = sentry();
    let cursor = cursor_of(
        &mut sentry,
        QUERY_USER,
        &[(PROPERTY_COMPANY, b"GRiD"), (PROPERTY_GROUP, b"Demo"), (PROPERTY_USER, b"GUEST")],
    );
    assert_eq!(sentry.process(&update(&cursor, GROUP_ADMIN, MEGABYTE)).unwrap(), [COMMAND_ACK]);
    let account = sentry.store.find_user("GRiD", "Demo", "GUEST").unwrap();
    assert_eq!(account.authority, GROUP_ADMIN);
    assert_eq!(account.quota, MEGABYTE);
}

#[test]
fn updates_the_quota_of_a_group() {
    let mut sentry = sentry();
    let cursor = cursor_of(&mut sentry, QUERY_GROUP, &[(PROPERTY_COMPANY, b"GRiD"), (PROPERTY_GROUP, b"Demo")]);
    assert_eq!(sentry.process(&update(&cursor, GROUP_ADMIN, MEGABYTE)).unwrap(), [COMMAND_ACK]);
    let directory = sentry.directory();
    let group = directory.find(&[b"GRiD", b"Demo", b"Demo"]).unwrap();
    assert_eq!(directory.rows[group].quota, MEGABYTE);
}

#[test]
fn deletes_the_record_the_cursor_addresses() {
    let mut sentry = sentry();
    let cursor = cursor_of(
        &mut sentry,
        QUERY_USER,
        &[(PROPERTY_COMPANY, b"GRiD"), (PROPERTY_GROUP, b"Demo"), (PROPERTY_USER, b"GUEST")],
    );
    assert_eq!(sentry.process(&delete(&cursor)).unwrap(), [COMMAND_ACK]);
    assert!(sentry.store.find_user("GRiD", "Demo", "GUEST").is_none());
}

#[test]
fn deleting_a_group_takes_its_users_with_it() {
    let mut sentry = sentry();
    let cursor = cursor_of(&mut sentry, QUERY_GROUP, &[(PROPERTY_COMPANY, b"GRiD"), (PROPERTY_GROUP, b"Demo")]);
    assert_eq!(sentry.process(&delete(&cursor)).unwrap(), [COMMAND_ACK]);
    let rows = names(&mut sentry);
    assert!(rows.iter().all(|(_, group, _)| group != b"Demo"));
}

#[test]
fn refuses_to_delete_the_signed_on_account() {
    let mut sentry = sentry();
    let cursor = cursor_of(&mut sentry, QUERY_USER, &[]);
    assert_eq!(sentry.process(&delete(&cursor)).unwrap(), status_response(STATUS_INSUFFICIENT_AUTHORITY));
    assert!(sentry.store.find_user("GRiD", "Systems", "MANAGER").is_some());
}

#[test]
fn refuses_an_update_or_delete_without_a_valid_cursor() {
    let mut sentry = sentry();
    assert_eq!(
        sentry.process(&update(b"99", NORMAL, MEGABYTE)).unwrap(),
        status_response(STATUS_ACCOUNT_NOT_DEFINED)
    );
    assert_eq!(sentry.process(&[COMMAND_DELETE]).unwrap(), status_response(STATUS_ACCOUNT_NOT_DEFINED));
}

#[test]
fn a_group_administrator_may_edit_only_its_own_group() {
    let mut admin = sentry_as(GROUP_ADMIN);
    let guest = cursor_of(
        &mut admin,
        QUERY_USER,
        &[(PROPERTY_COMPANY, b"GRiD"), (PROPERTY_GROUP, b"Demo"), (PROPERTY_USER, b"GUEST")],
    );
    assert_eq!(admin.process(&update(&guest, NORMAL, MEGABYTE)).unwrap(), [COMMAND_ACK]);

    let group = cursor_of(&mut admin, QUERY_GROUP, &[(PROPERTY_COMPANY, b"GRiD"), (PROPERTY_GROUP, b"Demo")]);
    assert_eq!(
        admin.process(&update(&group, NORMAL, MEGABYTE)).unwrap(),
        status_response(STATUS_INSUFFICIENT_AUTHORITY)
    );
}

#[test]
fn refuses_to_read_or_write_outside_the_own_subtree() {
    let mut sentry = sentry();
    add_group(&mut sentry, b"GRiD", b"Demo Group");
    add_user(&mut sentry, b"GRiD", b"Demo Group", b"Lenin", b"SECRET", GROUP_ADMIN);

    let actor = sentry.store.find_user("GRiD", "Demo Group", "Lenin").unwrap();
    let mut admin = Sentry::new(sentry.store.clone(), actor);

    assert_eq!(
        admin
            .process(&query(
                QUERY_USER,
                &[(PROPERTY_COMPANY, b"GRiD"), (PROPERTY_GROUP, b"Demo"), (PROPERTY_USER, b"GUEST")],
            ))
            .unwrap(),
        status_response(STATUS_INSUFFICIENT_AUTHORITY)
    );
}

#[test]
fn a_normal_user_may_query_only_its_own_record() {
    let mut sentry = sentry_as(NORMAL);

    let response = sentry.process(&query(QUERY_USER, &[])).unwrap();
    assert_eq!(response[0], COMMAND_REPLY);
    let records = records(&response[1..]).unwrap();
    assert_eq!(record(&records, PROPERTY_COMPANY).unwrap(), b"GRiD");
    assert_eq!(record(&records, PROPERTY_GROUP).unwrap(), b"Demo");

    assert_eq!(
        sentry.process(&query(QUERY_COMPANY, &[(PROPERTY_COMPANY, b"GRiD")])).unwrap(),
        status_response(STATUS_INSUFFICIENT_AUTHORITY)
    );
    assert_eq!(
        sentry.process(&query(QUERY_GROUP, &[(PROPERTY_COMPANY, b"GRiD"), (PROPERTY_GROUP, b"Demo")])).unwrap(),
        status_response(STATUS_INSUFFICIENT_AUTHORITY)
    );
    assert_eq!(
        sentry
            .process(&query(
                QUERY_USER,
                &[(PROPERTY_COMPANY, b"GRiD"), (PROPERTY_GROUP, b"Systems"), (PROPERTY_USER, b"MANAGER")],
            ))
            .unwrap(),
        status_response(STATUS_INSUFFICIENT_AUTHORITY)
    );
}

#[test]
fn refuses_the_listing_to_an_account_that_administers_nothing() {
    let mut sentry = sentry_as(NORMAL);
    assert_eq!(sentry.process(&list_first(b"", b"", b"")).unwrap(), status_response(STATUS_INSUFFICIENT_AUTHORITY));
    assert_eq!(sentry.process(&[COMMAND_LIST_NEXT]).unwrap(), status_response(STATUS_INSUFFICIENT_AUTHORITY));
}

#[test]
fn the_listing_shows_an_administrator_only_its_own_subtree() {
    let mut sentry = sentry();
    add_company(&mut sentry, b"Test Company");
    add_group(&mut sentry, b"Test Company", b"Demo Group");
    add_user(&mut sentry, b"Test Company", b"Demo Group", b"Lenin", b"SECRET", GROUP_ADMIN);

    let actor = sentry.store.find_user("Test Company", "Demo Group", "Lenin").unwrap();
    let mut admin = Sentry::new(sentry.store.clone(), actor);

    let rows = names(&mut admin);
    assert!(rows.iter().all(|(company, ..)| company == b"Test Company"), "the listing leaked rows outside the company: {rows:?}");
    assert!(
        rows.iter().all(|(_, group, _)| group == b"Test Company" || group == b"Demo Group"),
        "the listing leaked rows outside the group: {rows:?}"
    );
    assert!(rows.iter().any(|(.., user)| user == b"Lenin"));
}

#[test]
fn refuses_an_update_that_grants_more_than_the_actor_holds() {
    let mut admin = sentry_as(GROUP_ADMIN);
    let cursor = cursor_of(
        &mut admin,
        QUERY_USER,
        &[(PROPERTY_COMPANY, b"GRiD"), (PROPERTY_GROUP, b"Demo"), (PROPERTY_USER, b"GUEST")],
    );
    assert_eq!(
        admin.process(&update(&cursor, SYSTEM_ADMIN, MEGABYTE)).unwrap(),
        status_response(STATUS_INSUFFICIENT_AUTHORITY)
    );
}

#[test]
fn every_account_may_change_its_own_password() {
    let mut sentry = sentry_as(NORMAL);
    assert_eq!(sentry.process(&change_password(&[], b"NEW")).unwrap(), status_response(STATUS_OK));
    let account = sentry.store.find_user("GRiD", "Demo", "GUEST").unwrap();
    assert_eq!(account.password, b"NEW");
}

#[test]
fn an_administrator_may_change_the_password_of_another_account() {
    let mut sentry = sentry();
    assert_eq!(
        sentry
            .process(&change_password(
                &[(PROPERTY_COMPANY, b"GRiD"), (PROPERTY_GROUP, b"Demo"), (PROPERTY_USER, b"GUEST")],
                b"NEW",
            ))
            .unwrap(),
        status_response(STATUS_OK)
    );
    let account = sentry.store.find_user("GRiD", "Demo", "GUEST").unwrap();
    assert_eq!(account.password, b"NEW");
}

#[test]
fn refuses_to_change_the_password_of_another_account_without_the_authority() {
    let mut sentry = sentry_as(NORMAL);
    assert_eq!(
        sentry
            .process(&change_password(
                &[(PROPERTY_COMPANY, b"GRiD"), (PROPERTY_GROUP, b"Systems"), (PROPERTY_USER, b"MANAGER")],
                b"NEW",
            ))
            .unwrap(),
        status_response(STATUS_INSUFFICIENT_AUTHORITY)
    );
    let account = sentry.store.find_user("GRiD", "Systems", "MANAGER").unwrap();
    assert_eq!(account.password, b"MANAGER");
}

#[test]
fn reports_a_password_change_for_an_account_that_is_not_defined() {
    let mut sentry = sentry();
    assert_eq!(
        sentry
            .process(&change_password(
                &[(PROPERTY_COMPANY, b"GRiD"), (PROPERTY_GROUP, b"Demo"), (PROPERTY_USER, b"NOBODY")],
                b"NEW",
            ))
            .unwrap(),
        status_response(STATUS_ACCOUNT_NOT_DEFINED)
    );
}

#[test]
fn refuses_a_password_change_with_an_empty_password() {
    let mut sentry = sentry();
    assert_eq!(sentry.process(&change_password(&[], b"")).unwrap(), status_response(STATUS_PROPERTY_MISSING));
}

#[test]
fn a_changed_password_is_the_one_sign_on_accepts() {
    let mut sentry = sentry();
    sentry
        .process(&change_password(
            &[(PROPERTY_COMPANY, b"GRiD"), (PROPERTY_GROUP, b"Demo"), (PROPERTY_USER, b"GUEST")],
            b"NEW",
        ))
        .unwrap();
    assert!(authenticate(&sentry.store, "GRiD", "Demo", "GUEST", "GUEST").is_err());
    assert!(authenticate(&sentry.store, "GRiD", "Demo", "GUEST", "NEW").is_ok());
}

#[test]
fn sentry_listing_records_fit_the_client_buffers() {
    let mut sentry = sentry();
    let response = sentry.process(&list_first(b"", b"", b"")).unwrap();
    let records = records(&response[1..]).unwrap();
    let capacities = [
        (TAG_CURSOR, 100),
        (PROPERTY_COMPANY, 20),
        (PROPERTY_GROUP, 20),
        (PROPERTY_USER, 20),
        (TAG_AUTHORITY, 2),
        (TAG_DEVICE, 40),
        (TAG_QUOTA, 4),
        (TAG_DISK_USED, 4),
        (TAG_CREATED, 18),
        (TAG_MODIFIED, 18),
        (TAG_LOCKED, 2),
    ];
    for (tag, capacity) in capacities {
        let value = record(&records, tag).unwrap_or_else(|| panic!("missing tag {tag:#04x}"));
        assert!(value.len() <= capacity, "tag {tag:#04x} overflows the client");
    }
}

#[test]
fn an_unreadable_directory_is_no_empty_one() {
    assert_eq!(unreadable_directory(), status_response(setochka::sentry::STATUS_AUTHORIZATION_FILE));
    assert_eq!(
        lookup_refusal(None, STATUS_COMPANY_NOT_DEFINED),
        Err(status_response(setochka::sentry::STATUS_AUTHORIZATION_FILE))
    );
    assert_eq!(COMPANY_ADMIN, 30);
}
