use setochka::mail_protocol::{
    app_frame, transport, MailId, SessionInitialize, MAIL_SERVICE_ID, MORE, PROTOCOL_VERSION,
    RECORD_MARKER, TAG_TERMINATOR,
};
use setochka::postoffice::{
    empty_mail_result, mail_detail, mailbox_list, tagged_record, MailQuery, MailResponse,
    MailServer, MailStep, Message,
};

const STORED_BODY: &str = "Stored body";

/// The mail session of GUEST together with its mailbox, which the server
/// keeps in its database: here a list in memory.
struct Session {
    mail: MailServer,
    mailbox: Vec<Message>,
}

fn mail_server() -> Session {
    Session { mail: MailServer::new(b"GUEST".to_vec()), mailbox: Vec::new() }
}

impl Session {
    /// Takes one fragment and serves the mailbox read it may ask for; a
    /// fragment that is not answered gives `None`.
    fn process(&mut self, note: u16, payload: &[u8]) -> Option<Vec<MailResponse>> {
        match self.mail.process(note, payload) {
            MailStep::Ignored => None,
            MailStep::Respond(responses) => Some(responses),
            MailStep::Query { note, connection_id, query } => Some(match query {
                MailQuery::List => MailServer::answer_list(note, connection_id, &self.mailbox),
                MailQuery::Find(id) => MailServer::answer_message(
                    note,
                    connection_id,
                    self.mailbox.iter().find(|m| m.mail_id == id),
                ),
                MailQuery::FirstUnread => {
                    let unread = self.mailbox.iter_mut().find(|m| !m.is_read);
                    let found = unread.map(|m| {
                        m.is_read = true;
                        m.clone()
                    });
                    MailServer::answer_message(note, connection_id, found.as_ref())
                },
            }),
        }
    }

    /// Stores an outgoing mail object the way the server does, if the
    /// session accepts it; GUEST is the only recipient there is.
    fn accept_outgoing(&mut self, data: Vec<u8>) -> bool {
        let Some(outgoing) = self.mail.prepare_outgoing(&data) else {
            return false;
        };
        if outgoing.recipient != b"GUEST" {
            return false;
        }
        let mail_id = self.mailbox.len() as u32 + 1;
        self.mailbox.push(Message {
            id: mail_id as i64,
            mail_id,
            sender: b"GUEST".to_vec(),
            recipient: outgoing.recipient.to_vec(),
            subject: outgoing.subject.to_vec(),
            body: outgoing.body.to_vec(),
            attachment_path: None,
            is_read: false,
        });
        true
    }
}

/// Every test that reads a mailbox has to fill it first.
fn with_one_message() -> Session {
    let mut mail = mail_server();
    assert!(mail.accept_outgoing(outgoing("Stored subject", STORED_BODY)));
    mail
}

/// GUEST addresses itself.
fn outgoing(subject: &str, body: &str) -> Vec<u8> {
    let mut data = app_frame(RECORD_MARKER, b"tGUEST");
    data.extend(tagged_record(b's', subject.as_bytes()));
    data.extend(tagged_record(b'n', body.as_bytes()));
    data.extend(app_frame(RECORD_MARKER, &[TAG_TERMINATOR]));
    data
}

fn stored_message(mail: &Session, mail_id: u32) -> Message {
    mail.mailbox.iter().find(|m| m.mail_id == mail_id).cloned().expect("the message should be stored")
}

fn detail_query(mail_id: u32) -> Vec<u8> {
    let mut query = vec![0xfd, 27, 0, b'S', 7, 0, 0];
    query.extend(MailId::from_u32(mail_id).wire_bytes());
    query.extend(b"kuvspoftcandgbzxy");
    query
}

fn mail_request(more: bool, data: &[u8]) -> Vec<u8> {
    let mut payload = vec![more as u8, 5, 0, 0];
    payload.extend_from_slice(data);
    payload
}

fn mail_response(note: u16, marker: u8, data: &[u8]) -> Vec<MailResponse> {
    vec![MailResponse { note, payload: transport(0, 5, &app_frame(marker, data)) }]
}

#[test]
fn tests_initializes_session_from_observed_payload() {
    let mut mail = mail_server();
    let initialize =
        SessionInitialize { service_id: MAIL_SERVICE_ID, protocol_version: PROTOCOL_VERSION }
            .encode();
    let mut request = vec![0, 5, 0, 0];
    request.extend(initialize);
    assert_eq!(mail.process(0, &request), Some(mail_response(0, 0xfe, b"z")));
}

#[test]
fn tests_assembles_transport_fragments() {
    let mut mail = mail_server();
    assert_eq!(mail.process(6, &mail_request(true, &[0xfd, 2, 0, b't', b'x'])), None);
    assert_eq!(mail.process(6, &mail_request(false, &[])), Some(mail_response(6, 0xfd, b"T")));
}

#[test]
fn tests_drops_interleaved_connection() {
    let mut mail = mail_server();
    assert_eq!(mail.process(6, &mail_request(true, &[0xfd, 2, 0, b't', b'x'])), None);
    assert_eq!(mail.process(6, &[0, 6, 0, 0]), None);
}

#[test]
fn tests_rejects_malformed_commands() {
    let mut mail = mail_server();
    assert_eq!(mail.process(7, &mail_request(false, &[])), None);
    assert_eq!(mail.process(8, &mail_request(false, b"x")), None);
    assert_eq!(mail.process(0x0d, &mail_request(false, &[0xfd, 3, 0, b'I'])), None);
}

#[test]
fn tests_completes_initial_server_message_drain() {
    let mut mail = mail_server();
    assert_eq!(
        mail.process(0x10, &[0, 1, 0, 0]),
        Some(vec![MailResponse {
            note: 0x10,
            payload: transport(0, 1, &app_frame(RECORD_MARKER, &[TAG_TERMINATOR])),
        }])
    );
}

#[test]
fn tests_an_empty_mailbox_lists_nothing() {
    let mut mail = mail_server();
    let query = [0xfd, 10, 0, b'S', 7, 0, 1, 0, 0, 0, 0, 0, 0];
    assert_eq!(
        mail.process(7, &mail_request(false, &query)),
        Some(vec![MailResponse { note: 7, payload: transport(0, 5, &empty_mail_result()) }])
    );
}

#[test]
fn tests_returns_the_stored_mail_list() {
    let mut mail = with_one_message();
    let query = [0xfd, 10, 0, b'S', 7, 0, 1, 0, 0, 0, 0, 0, 0];
    let [response] = <[_; 1]>::try_from(mailbox_list(&[stored_message(&mail, 1)])).unwrap();
    assert_eq!(
        mail.process(7, &mail_request(false, &query)),
        Some(vec![MailResponse { note: 7, payload: transport(response.flags, 5, &response.data) }])
    );
}

#[test]
fn tests_returns_complete_mail_for_detail_query() {
    let mut mail = with_one_message();
    let expected = mail_detail(&stored_message(&mail, 1));

    let responses = mail.process(7, &mail_request(false, &detail_query(1))).unwrap();
    let [response] = responses.as_slice() else {
        panic!("detail query returned more than one response");
    };
    assert_eq!(response.note, 7);
    assert_eq!(response.payload, transport(0, 5, &expected));

    let tagged_end = response
        .payload
        .windows(4)
        .position(|bytes| bytes == [0xfd, 1, 0, b'z'])
        .unwrap()
        + 4;
    assert_eq!(&response.payload[tagged_end..], STORED_BODY.as_bytes());
    assert_eq!(response.payload[0] & MORE, 0);
}

/// The upper two bytes of a mail id are always zero, so a query that sets
/// them addresses no message the server could have handed out.
#[test]
fn tests_a_detail_query_for_an_unknown_id_returns_nothing() {
    let mut mail = with_one_message();
    let mut query = vec![0xfd, 27, 0, b'S', 7, 0, 0];
    query.extend([1, 0, 0, 0, 1, 0]);
    query.extend(b"kuvspoftcandgbzxy");

    assert_eq!(
        mail.process(7, &mail_request(false, &query)),
        Some(vec![MailResponse { note: 7, payload: transport(0, 5, &empty_mail_result()) }])
    );
}

fn read_new_query() -> Vec<u8> {
    let mut query = vec![0xfd, 27, 0, b'S', 1, 0, 1];
    query.extend([0; 6]);
    query.extend(b"kuvspoftcandgbzxy");
    query
}

#[test]
fn tests_returns_stored_mail_once_for_read_new_query() {
    let mut mail = with_one_message();
    let query = read_new_query();
    let expected = mail_detail(&stored_message(&mail, 1));

    assert_eq!(
        mail.process(7, &mail_request(false, &query)),
        Some(vec![MailResponse { note: 7, payload: transport(0, 5, &expected) }])
    );
    assert_eq!(
        mail.process(7, &mail_request(false, &query)),
        Some(vec![MailResponse { note: 7, payload: transport(0, 5, &empty_mail_result()) }])
    );
}

#[test]
fn tests_read_new_state_does_not_hide_mail_from_normal_detail_query() {
    let mut mail = with_one_message();
    let expected = mail_detail(&stored_message(&mail, 1));
    mail.process(7, &mail_request(false, &read_new_query())).unwrap();

    assert_eq!(
        mail.process(7, &mail_request(false, &detail_query(1))),
        Some(vec![MailResponse { note: 7, payload: transport(0, 5, &expected) }])
    );
}

#[test]
fn tests_returns_each_mailbox_item_in_its_own_response() {
    let mut mail = with_one_message();
    assert!(mail.accept_outgoing(outgoing("Second", "Second body")));

    let query = [0xfd, 10, 0, b'S', 7, 0, 1, 0, 0, 0, 0, 0, 0];
    let responses = mail.process(7, &mail_request(false, &query)).unwrap();
    assert_eq!(responses.len(), 2);
    assert_eq!(responses[0].payload[0] & MORE, MORE);
    assert_eq!(responses[1].payload[0] & MORE, 0);

    for response in &responses {
        let mut offset = 4;
        let mut tags = Vec::new();
        while offset < response.payload.len() {
            assert_eq!(response.payload[offset], 0xfd);
            let length =
                u16::from_le_bytes([response.payload[offset + 1], response.payload[offset + 2]])
                    as usize;
            tags.push(response.payload[offset + 3]);
            offset += 3 + length;
        }
        assert_eq!(tags, [b'b', b'k', b's', b'z']);
    }

    assert_ne!(&responses[0].payload[8..14], &responses[1].payload[8..14]);
}

#[test]
fn tests_accepts_outgoing_mail_and_selects_it_by_id() {
    let mut data = app_frame(RECORD_MARKER, b"tGUEST");
    data.extend(app_frame(RECORD_MARKER, b"sSent subject"));
    data.extend(app_frame(RECORD_MARKER, b"DDemo attachment nnoise"));
    data.extend(app_frame(RECORD_MARKER, b"nSent body"));
    data.extend(app_frame(RECORD_MARKER, &[TAG_TERMINATOR]));

    let mut mail = with_one_message();
    assert!(mail.accept_outgoing(data));

    let stored = stored_message(&mail, 2);
    assert_eq!(stored.subject, b"Sent subject");
    assert_eq!(stored.body, b"Sent body");

    let responses = mail.process(7, &mail_request(false, &detail_query(2))).unwrap();
    let [response] = responses.as_slice() else {
        panic!("detail query returned more than one response");
    };
    assert!(response.payload.windows(b"Sent subject".len()).any(|bytes| bytes == b"Sent subject"));
    assert!(response.payload.ends_with(b"Sent body"));
}

#[test]
fn tests_accepts_outgoing_mail_with_a_stale_tail() {
    let mut data = outgoing("Short", "Short body");
    data.extend_from_slice(b" leftovers of a longer object");

    let mut mail = mail_server();
    assert!(mail.accept_outgoing(data));

    let stored = stored_message(&mail, 1);
    assert_eq!(stored.subject, b"Short");
    assert_eq!(stored.body, b"Short body");
}

#[test]
fn tests_read_new_iterates_all_mail_then_terminates() {
    let mut mail = with_one_message();
    assert!(mail.accept_outgoing(outgoing("Second", "Second body")));

    let query = read_new_query();
    let first = mail.process(7, &mail_request(false, &query)).unwrap();
    let second = mail.process(7, &mail_request(false, &query)).unwrap();
    let third = mail.process(7, &mail_request(false, &query)).unwrap();
    assert!(first[0].payload.ends_with(STORED_BODY.as_bytes()));
    assert!(second[0].payload.ends_with(b"Second body"));
    assert_eq!(third[0].payload, transport(0, 5, &empty_mail_result()));
}

#[test]
fn tests_rejects_mail_that_cannot_fit_in_one_vipc_response() {
    let mut mail = mail_server();

    assert!(!mail.accept_outgoing(outgoing("Large", &"x".repeat(40_000))));
    assert!(mail.mailbox.is_empty());
}

#[test]
fn tests_rejects_transport_error() {
    assert_eq!(mail_server().process(0, &[0, 5, 1, 0]), None);
}
