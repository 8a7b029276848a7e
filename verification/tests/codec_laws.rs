use setochka::data_frame::DataFrameRequest;
use setochka::error::FrameError;
use setochka::frame::Frame;
use setochka::raw_frame::RawFrame;
use setochka::vipc::IncomingMessage;
use setochka::vfs_protocol::VfsRequest;
use setochka::tlv::{Tlv, TlvEntry};
use setochka::vfs_protocol::VfsSetStatusAction;
use setochka::wire::with_u16_len;

fn encode_tag_u8(entries: &[TlvEntry]) -> Vec<u8> {
    let mut out = Vec::new();
    for e in entries {
        out.push(e.tag);
        out.push(e.value.len() as u8);
        out.extend_from_slice(e.value);
    }
    out
}

fn encode_marker_u16(entries: &[TlvEntry], marker: u8) -> Vec<u8> {
    let mut out = Vec::new();
    for e in entries {
        out.push(marker);
        out.extend_from_slice(&((e.value.len() + 1) as u16).to_le_bytes());
        out.push(e.tag);
        out.extend_from_slice(e.value);
    }
    out
}

#[test]
fn u16_prefixed_block_appends_its_length_and_body() {
    let mut dst = vec![9u8];
    with_u16_len(&mut dst, b"abc").unwrap();
    assert_eq!(dst, [9, 3, 0, b'a', b'b', b'c']);
}

#[test]
fn u16_prefixed_block_that_overflows_is_a_validation_error() {
    let mut dst = vec![9u8];
    let body = vec![0x55u8; 70_000];
    let r = with_u16_len(&mut dst, &body);
    assert!(matches!(
        r,
        Err(FrameError::Validation { reason }) if reason == "a block of 70000 bytes overruns its u16 length prefix"
    ));
    assert_eq!(dst.len(), 1 + 2 + 70_000);
    assert_eq!(&dst[..3], &[9, 0, 0]);
    assert!(dst[3..].iter().all(|b| *b == 0x55));
}

#[test]
fn tag_u8_records_round_trip_through_their_encoding() {
    let big = [b'x'; 255];
    let entries = [
        TlvEntry { tag: 1, value: b"name" },
        TlvEntry { tag: 2, value: b"" },
        TlvEntry { tag: 3, value: &big },
    ];
    let bytes = encode_tag_u8(&entries);
    let walked = Tlv::tag_u8(&bytes).collect_all().unwrap();
    assert_eq!(walked, entries);
    assert_eq!(encode_tag_u8(&walked), bytes);
}

#[test]
fn marker_u16_records_round_trip_through_their_encoding() {
    let big = vec![b'y'; 1000];
    let entries = [
        TlvEntry { tag: b't', value: b"ab" },
        TlvEntry { tag: b'z', value: b"" },
        TlvEntry { tag: b'q', value: &big },
    ];
    let bytes = encode_marker_u16(&entries, 0xfd);
    let walked = Tlv::marker_u16(&bytes, 0xfd).collect_all().unwrap();
    assert_eq!(walked, entries);
    assert_eq!(encode_marker_u16(&walked, 0xfd), bytes);
}

#[test]
fn set_status_actions_keep_their_declared_type() {
    let wildcard = VfsSetStatusAction::from_raw(254, b"*.TXT").unwrap();
    assert!(matches!(wildcard, VfsSetStatusAction::SetWildcard { pattern } if pattern == b"*.TXT"));
    let gpib = VfsSetStatusAction::from_raw(252, b"\x01").unwrap();
    assert!(matches!(gpib, VfsSetStatusAction::SetGpibAddress { raw } if raw == b"\x01"));
    let other = VfsSetStatusAction::from_raw(7, b"x").unwrap();
    assert!(matches!(other, VfsSetStatusAction::Unknown { ty: 7, raw } if raw == b"x"));
}

#[test]
fn crc16_matches_the_arc_check_value() {
    assert_eq!(setochka::raw_frame::crc16(b"123456789"), 0xbb3d);
    assert_eq!(setochka::raw_frame::crc16(b""), 0);
}

fn reason_of<T>(r: Result<T, FrameError>) -> String {
    match r {
        Err(FrameError::Validation { reason }) => reason,
        _ => panic!("expected a validation error"),
    }
}

#[test]
fn validation_errors_name_the_offending_value() {
    let raw = RawFrame { data: vec![0x0a, 0, 0, 0, 0] };
    assert_eq!(reason_of(Frame::try_from_raw(&raw)), "unknown frame type 0x0a");
    assert_eq!(reason_of(DataFrameRequest::try_from_slice(&[99, 0])), "unknown data frame type 99");
    assert_eq!(
        reason_of(DataFrameRequest::try_from_slice(&[2, 0])),
        "unsupported data frame type ConnectResponse"
    );
    assert_eq!(
        reason_of(IncomingMessage::try_from_slice(&[1, 0, 0, 0, 1, 0, b'x', 7, 7])),
        "VIPC message: 2 trailing bytes"
    );
    assert_eq!(
        reason_of(Tlv::marker_u16(&[0xfe, 1, 0, b'z'], 0xfd).collect_all()),
        "expected record marker 0xfd, found 0xfe"
    );
    assert_eq!(
        reason_of(VfsSetStatusAction::from_raw(255, b"")),
        "invalid VFS set direction length: expected 1, found 0"
    );
    assert_eq!(reason_of(VfsSetStatusAction::from_raw(255, &[9])), "invalid VFS read direction: 9");
    assert_eq!(
        reason_of(VfsSetStatusAction::from_raw(253, &[1, 2, 3])),
        "invalid VFS set object mode length: expected 1, found 3"
    );
}

#[test]
fn vfs_payload_errors_count_the_trailing_bytes() {
    // A detach (code 9) with three bytes after its header.
    let mut data = vec![9, 0, 1, 0, 1, 0];
    data.extend_from_slice(&[1, 2, 3]);
    assert_eq!(reason_of(VfsRequest::try_from_slice(&data)), "VFS detach payload: 3 trailing bytes");
}
