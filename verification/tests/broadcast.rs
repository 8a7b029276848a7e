use setochka::broadcast::{BroadcastServer, MailBroadcastServer, INITIALIZE};
use setochka::mail_protocol::{SessionInitialize, BROADCAST_SERVICE_ID, MORE, PROTOCOL_VERSION};

fn request(flags: u8, data: &[u8]) -> Vec<u8> {
    let mut payload = vec![flags, 1, 0, 0];
    payload.extend_from_slice(data);
    payload
}

fn initialize() -> Vec<u8> {
    SessionInitialize { service_id: BROADCAST_SERVICE_ID, protocol_version: PROTOCOL_VERSION }
        .encode()
}

#[test]
fn broadcast_answers_initialization() {
    let mut server = BroadcastServer::new();

    let response = server.process(&request(0, &INITIALIZE));

    assert_eq!(response, Some(vec![0, 1, 0, 0, 0xfe, 1, 0, b'z']));
}

#[test]
fn broadcast_keeps_the_connection_id_of_the_request() {
    let mut server = BroadcastServer::new();
    let mut payload = vec![0, 7, 0, 0];
    payload.extend_from_slice(&INITIALIZE);

    let response = server.process(&payload).unwrap();

    assert_eq!(response[1], 7);
}

#[test]
fn broadcast_ignores_continuation_fragments() {
    let mut server = BroadcastServer::new();

    assert_eq!(server.process(&request(MORE, &INITIALIZE)), None);
}

#[test]
fn broadcast_ignores_frames_reporting_an_error() {
    let mut server = BroadcastServer::new();
    let mut payload = vec![0, 1, 5, 0];
    payload.extend_from_slice(&INITIALIZE);

    assert_eq!(server.process(&payload), None);
}

#[test]
fn broadcast_ignores_unknown_frames() {
    let mut server = BroadcastServer::new();

    assert_eq!(server.process(&request(0, &[0xfd, 1, 0, b'z'])), None);
    assert_eq!(server.process(&request(0, &[])), None);
    assert_eq!(server.process(&[]), None);
}

#[test]
fn tests_answers_initialization() {
    let mut server = MailBroadcastServer::new();

    let response = server.process(&request(0, &initialize()));

    assert_eq!(response, Some(vec![0, 1, 0, 0, 0xfe, 1, 0, b'z']));
}

#[test]
fn tests_keeps_the_connection_id_of_the_request() {
    let mut server = MailBroadcastServer::new();
    let mut payload = vec![0, 7, 0, 0];
    payload.extend(initialize());

    let response = server.process(&payload).unwrap();

    assert_eq!(response[1], 7);
}

#[test]
fn tests_ignores_continuation_fragments() {
    let mut server = MailBroadcastServer::new();

    assert_eq!(server.process(&request(MORE, &initialize())), None);
}

#[test]
fn tests_ignores_frames_reporting_an_error() {
    let mut server = MailBroadcastServer::new();
    let mut payload = vec![0, 1, 5, 0];
    payload.extend(initialize());

    assert_eq!(server.process(&payload), None);
}

#[test]
fn tests_ignores_unknown_frames() {
    let mut server = MailBroadcastServer::new();

    assert_eq!(server.process(&request(0, &[0xfd, 1, 0, b'z'])), None);
    assert_eq!(server.process(&request(0, &[])), None);
    assert_eq!(server.process(&[]), None);
}
