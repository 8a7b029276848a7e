use setochka::data_frame::DataFrameRequest;
use setochka::frame::{Frame, FrameBody};
use setochka::session::{route, VipcRoute};
use setochka::vfs_protocol::VfsRequestBody;
use setochka::error::FrameError;
use setochka::raw_frame::{RawFrame, DLE, MAX_FRAME_SIZE, STX};
use setochka::tlv::{Tlv, TlvEntry};
use setochka::vipc::{IncomingMessage, MessageType, OutgoingMessage, OutgoingMessageBody};

#[test]
fn accepts_maximum_unstuffed_frame() {
    let data = vec![DLE; MAX_FRAME_SIZE];
    let mut encoded = Vec::new();
    RawFrame::new(data.clone()).write_to_io(&mut encoded).unwrap();

    let decoded = RawFrame::read_from_io(encoded.as_slice()).unwrap();
    assert_eq!(decoded.data, data);
}

#[test]
fn rejects_frame_one_byte_over_maximum() {
    let mut encoded = vec![DLE, STX];
    encoded.extend(std::iter::repeat_n(0x55, MAX_FRAME_SIZE + 1));

    assert!(matches!(
        RawFrame::read_from_io(encoded.as_slice()),
        Err(FrameError::FrameTooLarge { max: MAX_FRAME_SIZE })
    ));
}

#[test]
fn walks_tag_u8_records() {
    let entries = Tlv::tag_u8(&[0x07, 0x02, b'h', b'i', 0x09, 0x00])
        .collect_all()
        .unwrap();

    assert_eq!(
        entries,
        [
            TlvEntry { tag: 0x07, value: b"hi" },
            TlvEntry { tag: 0x09, value: b"" },
        ]
    );
}

#[test]
fn walks_marker_u16_records() {
    let entries = Tlv::marker_u16(&[0xfd, 3, 0, b't', b'a', b'b', 0xfd, 1, 0, b'z'], 0xfd)
        .collect_all()
        .unwrap();

    assert_eq!(
        entries,
        [
            TlvEntry { tag: b't', value: b"ab" },
            TlvEntry { tag: b'z', value: b"" },
        ]
    );
}

#[test]
fn tlv_rejects_truncated_records() {
    assert!(Tlv::tag_u8(&[0x09, 0x07, b'Z']).collect_all().is_err());
    assert!(Tlv::tag_u8(&[0x09]).collect_all().is_err());
    assert!(Tlv::marker_u16(&[0xfd, 9, 0, b't'], 0xfd).collect_all().is_err());
}

#[test]
fn rejects_a_wrong_marker() {
    assert!(Tlv::marker_u16(&[0xfe, 1, 0, b'z'], 0xfd).collect_all().is_err());
}

#[test]
fn rejects_a_record_that_cannot_hold_a_tag() {
    assert!(Tlv::marker_u16(&[0xfd, 0, 0], 0xfd).collect_all().is_err());
}

#[test]
fn stops_after_the_first_malformed_record() {
    let mut tlv = Tlv::tag_u8(&[0x07, 0x01, b'a', 0x09, 0x07, b'Z']);

    assert!(tlv.next().unwrap().is_ok());
    assert!(tlv.next().unwrap().is_err());
    assert!(tlv.next().is_none());
}

#[test]
fn keeps_the_records_before_a_trailing_tail() {
    let data = [0xfd, 2, 0, b't', b'a', 0xfd, 1, 0, b'z', b'j', b'u', b'n', b'k'];

    assert_eq!(
        Tlv::marker_u16(&data, 0xfd).well_formed_prefix(),
        [
            TlvEntry { tag: b't', value: b"a" },
            TlvEntry { tag: b'z', value: b"" },
        ]
    );
}

#[test]
fn finds_a_tag_without_collecting() {
    let data = [0xfd, 5, 0, b't', b'U', b's', b'e', b'r', 0xfd, 1, 0, b'z'];

    assert_eq!(Tlv::marker_u16(&data, 0xfd).find_tag(b't'), Some(&b"User"[..]));
    assert_eq!(Tlv::marker_u16(&data, 0xfd).find_tag(b'q'), None);
}

#[test]
fn parses_generic_message() {
    let message = IncomingMessage::try_from_slice(&[83, 0, 7, 0, 3, 0, 1, 2, 3]).unwrap();

    assert_eq!(message.note, 7);
    assert_eq!(message.body.ty, MessageType(83));
    assert_eq!(message.body.payload, [1, 2, 3]);
}

#[test]
fn serializes_generic_message() {
    let message = OutgoingMessage {
        note: 7,
        body: OutgoingMessageBody { ty: MessageType(83), payload: vec![1, 2, 3] },
    };

    assert_eq!(message.to_bytes(), [83, 0, 7, 0, 3, 0, 1, 2, 3]);
}

#[test]
fn rejects_trailing_bytes() {
    assert!(IncomingMessage::try_from_slice(&[83, 0, 7, 0, 1, 0, 1, 2]).is_err());
}

#[test]
fn accepts_full_vfs_write_frame() {
    let mut vipc = Vec::with_capacity(518);
    vipc.extend(83u16.to_le_bytes());
    vipc.extend(3u16.to_le_bytes());
    vipc.extend(512u16.to_le_bytes());
    vipc.extend(5u16.to_le_bytes());
    vipc.extend(0x7db2u16.to_le_bytes());
    vipc.extend(3u16.to_le_bytes());
    vipc.extend(504u16.to_le_bytes());
    vipc.extend(std::iter::repeat_n(DLE, 504));

    let mut data_frame = Vec::with_capacity(524);
    data_frame.extend(0u16.to_le_bytes());
    data_frame.extend(0x6542u16.to_le_bytes());
    data_frame.extend(1u16.to_le_bytes());
    data_frame.extend(vipc);

    let frame = Frame::data(1, 54, &data_frame).into_raw();
    assert_eq!(frame.data.len(), 528);

    let mut encoded = Vec::new();
    frame.write_to_io(&mut encoded).unwrap();
    let decoded = RawFrame::read_from_io(encoded.as_slice()).unwrap();
    let parsed = Frame::try_from_raw(&decoded).unwrap();
    let FrameBody::Data(data) = parsed.body else {
        panic!("expected data frame");
    };
    let DataFrameRequest::Msg { payload, .. } = DataFrameRequest::try_from_slice(data).unwrap()
    else {
        panic!("expected VIPC message");
    };
    let VipcRoute::Vfs { request, .. } = route(payload).unwrap() else {
        panic!("expected VFS request");
    };
    let VfsRequestBody::Write(write) = request.body else {
        panic!("expected VFS write");
    };
    assert_eq!(write.data.len(), 504);
    assert!(write.data.iter().all(|&byte| byte == DLE));
}
