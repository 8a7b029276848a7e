use setochka::postoffice::{MailQuery, MailServer};
use setochka::sentry::{store_response, Account, SentryStep, StoreOutcome, LEVEL_USER};
use setochka::session::{mail_replies, sentry_reply, Vipc, VipcStep};
use setochka::vfs::BackendOp;
use setochka::vfs_protocol::VfsRequestCode;

fn signed_on_manager() -> Vipc {
    Vipc::new(Account {
        level: LEVEL_USER,
        company: b"GRiD".to_vec(),
        group: b"Systems".to_vec(),
        user: b"MANAGER".to_vec(),
        password: Vec::new(),
        authority: 40,
        quota: 0,
        used: 0,
    })
}

/// The replies a message comes to when it needs nothing from outside.
fn replies(vipc: &mut Vipc, request: &[u8]) -> Vec<Vec<u8>> {
    match vipc.process_message(request).unwrap() {
        VipcStep::Reply(messages) => messages.iter().map(|m| m.to_bytes()).collect(),
        other => panic!("expected replies, got {other:?}"),
    }
}

#[test]
fn mod_serializes_mail_initialization_response() {
    let mut vipc = signed_on_manager();
    let request = [0x44, 0x74, 0, 0, 11, 0, 0, 5, 0, 0, 0xfe, 4, 0, b'a', 0x88, 0x2c, 1];

    let responses = replies(&mut vipc, &request);

    assert_eq!(responses.len(), 1);
    assert_eq!(responses[0], [0x44, 0x74, 0, 0x80, 8, 0, 0, 5, 0, 0, 0xfe, 1, 0, b'z']);
}

#[test]
fn serializes_broadcast_initialization_response() {
    let mut vipc = signed_on_manager();
    let request = [0x00, 0x70, 0, 0, 11, 0, 0, 1, 0, 0, 0xfe, 4, 0, b'a', 0xec, 0x2c, 1];

    let responses = replies(&mut vipc, &request);

    assert_eq!(responses.len(), 1);
    assert_eq!(responses[0], [0x00, 0x70, 0, 0x80, 8, 0, 0, 1, 0, 0, 0xfe, 1, 0, b'z']);
}

#[test]
fn ignores_unknown_broadcast_frames() {
    let mut vipc = signed_on_manager();
    let request = [0x00, 0x70, 0, 0, 4, 0, 0, 1, 0, 0];

    assert!(replies(&mut vipc, &request).is_empty());
}

#[test]
fn mod_serializes_initial_message_drain_response() {
    let mut vipc = signed_on_manager();
    let request = [0x44, 0x74, 0x10, 0, 4, 0, 0, 1, 0, 0];

    let responses = replies(&mut vipc, &request);

    assert_eq!(responses.len(), 1);
    assert_eq!(responses[0], [0x44, 0x74, 0x10, 0x80, 8, 0, 0, 1, 0, 0, 0xfd, 1, 0, b'z']);
}

#[test]
fn mod_serializes_sentry_variant_response() {
    let mut vipc = signed_on_manager();
    let request = [0xff, 0xff, 0xff, 0xff, 1, 0, 4];

    let responses = replies(&mut vipc, &request);

    assert_eq!(responses.len(), 1);
    assert_eq!(responses[0], [0xff, 0xff, 0xff, 0xff, 4, 0, 3, 0x25, 1, b'3']);
}

#[test]
fn mod_serializes_sentry_add_user_response() {
    let mut vipc = signed_on_manager();
    let payload = [
        6, 7, 4, b'G', b'R', b'i', b'D', 8, 4, b'D', b'e', b'm', b'o', 9, 3, b'B', b'O', b'B', 0x0a,
        2, b'P', b'W', 0x1a, 2, 0, 0, 0x26, 4, 0, 4, 0, 0,
    ];
    let mut request = vec![0xff, 0xff, 0xff, 0xff];
    request.extend((payload.len() as u16).to_le_bytes());
    request.extend_from_slice(&payload);

    let VipcStep::Sentry { note, step } = vipc.process_message(&request).unwrap() else {
        panic!("adding a user consults the store");
    };
    let SentryStep::AddUser { company, group, user, password, authority, quota } = step else {
        panic!("expected the user to be added");
    };
    assert_eq!((company, group, user, password), (
        b"GRiD".to_vec(),
        b"Demo".to_vec(),
        b"BOB".to_vec(),
        b"PW".to_vec()
    ));
    assert_eq!(authority, 0);
    assert_eq!(quota, 0x400);

    // The demo directory has a Demo group and no BOB yet: the store takes him.
    let reply = sentry_reply(note, store_response(StoreOutcome::Stored));
    assert_eq!(reply.to_bytes(), [0xff, 0xff, 0xff, 0xff, 3, 0, 2, 0, 0]);
}

#[test]
fn serializes_empty_mail_list_response() {
    let mut vipc = signed_on_manager();
    let request =
        [0x44, 0x74, 7, 0, 17, 0, 0, 5, 0, 0, 0xfd, 10, 0, b'S', 1, 0, 1, 0, 0, 0, 0, 0, 0];

    let VipcStep::Mail { note, connection_id, query } = vipc.process_message(&request).unwrap()
    else {
        panic!("a list request reads the mailbox");
    };
    assert_eq!(query, MailQuery::List);

    // A fresh mailbox holds nothing.
    let responses = mail_replies(MailServer::answer_list(note, connection_id, &[]));

    assert_eq!(responses.len(), 1);
    assert_eq!(responses[0].to_bytes(), [0x44, 0x74, 7, 0x80, 8, 0, 0, 5, 0, 0, 0xfd, 1, 0, b'z']);
}

#[test]
fn a_vfs_request_goes_to_the_storage_or_is_answered() {
    let mut vipc = signed_on_manager();
    // A detach of a connection nothing is attached on is answered at once.
    let mut request = vec![83, 0, 9, 0, 6, 0];
    request.extend(VfsRequestCode::Detach.to_repr().to_le_bytes());
    request.extend(7u16.to_le_bytes());
    request.extend(3u16.to_le_bytes());
    let responses = replies(&mut vipc, &request);
    assert_eq!(responses.len(), 1);
    let reply = &responses[0];
    assert_eq!(&reply[..4], [83, 0, 9, 0]);
    // The status of the reply is "bad connection".
    assert_eq!(&reply[reply.len() - 2..], 221u16.to_le_bytes());

    // An attach asks the storage first.
    let path = b"`server:Mail`Inbox~Subject~";
    let mut body = vec![];
    body.extend(VfsRequestCode::Attach.to_repr().to_le_bytes());
    body.extend(7u16.to_le_bytes());
    body.extend(0u16.to_le_bytes());
    body.push(1);
    body.push(1);
    body.extend([0u8; 17]);
    body.push(path.len() as u8);
    body.extend(path);
    let mut request = vec![83, 0, 9, 0];
    request.extend((body.len() as u16).to_le_bytes());
    request.extend(body);
    match vipc.process_message(&request) {
        Ok(VipcStep::Vfs { note, op: BackendOp::Attach { path: p, .. }, .. }) => {
            assert_eq!(note, 9);
            assert_eq!(p, path.to_vec());
        },
        Ok(other) => panic!("expected the storage to be asked, got {other:?}"),
        Err(e) => panic!("the attach request was refused: {e:?}"),
    }
}

#[test]
fn a_message_with_trailing_bytes_is_refused() {
    let mut vipc = signed_on_manager();
    assert!(vipc.process_message(&[0x00, 0x70, 0, 0, 0, 0, 1]).is_err());
    assert!(vipc.process_message(&[0x00, 0x70, 0, 0]).is_err());
}
