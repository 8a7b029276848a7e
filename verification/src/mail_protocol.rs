//! The application framing GRiDMail and the broadcast service share inside a
//! VIPC message: a four byte transport header, then
//! `<marker><u16 length><tag + value>` records.
use vstd::prelude::*;

use crate::bytes::{push_all, push_u16, spec_u16_le, spec_u16_le_bytes};
use crate::cursor::Cursor;
use crate::tlv::{spec_walk, Tlv, TlvKind};

verus! {

pub const RECORD_MARKER: u8 = 0xfd;

pub const SESSION_MARKER: u8 = 0xfe;

pub const TAG_TERMINATOR: u8 = 0x7a;

pub const SESSION_COMMAND: u8 = 0x61;

pub const MAIL_SERVICE_ID: u16 = 11400;

pub const BROADCAST_SERVICE_ID: u16 = 11500;

pub const PROTOCOL_VERSION: u8 = 1;

/// Set in the transport header while a request continues in a later frame.
pub const MORE: u8 = 1;

pub const TRANSPORT_HEADER_LEN: usize = 4;

pub const TRANSPORT_SUCCESS: u16 = 0;

pub const RECORD_HEADER_LEN: usize = 3;

pub const MAIL_ID_LEN: usize = 6;

/// The value of the one record `data` consists of, if it consists of exactly
/// one well-formed record with the given marker and tag.
pub open spec fn spec_single_record(data: Seq<u8>, marker: u8, tag: u8) -> Option<Seq<u8>> {
    let w = spec_walk(data, 0, TlvKind::MarkerU16 { marker });
    if w.1 is None && w.0.len() == 1 && w.0[0].0 == tag {
        Some(w.0[0].1)
    } else {
        None
    }
}

/// `payload` cut down to what a `u16` length can describe.
pub open spec fn spec_record_payload(payload: Seq<u8>) -> Seq<u8> {
    if payload.len() > 0xffff {
        payload.subrange(0, 0xffff)
    } else {
        payload
    }
}

/// The record `<marker><u16 length><payload>`.
pub open spec fn spec_app_frame(marker: u8, payload: Seq<u8>) -> Seq<u8> {
    seq![marker] + spec_u16_le_bytes(spec_record_payload(payload).len() as u16)
        + spec_record_payload(payload)
}

/// The transport header followed by `data`.
pub open spec fn spec_transport(flags: u8, connection_id: u8, data: Seq<u8>) -> Seq<u8> {
    seq![flags, connection_id, 0u8, 0u8] + data
}

#[derive(Clone, Copy, Debug, PartialEq, Eq, Structural)]
pub struct SessionInitialize {
    pub service_id: u16,
    pub protocol_version: u8,
}

/// The value of an initialization record: the command tag, the service id
/// and the protocol version.
pub open spec fn spec_session_value(s: SessionInitialize) -> Seq<u8> {
    seq![SESSION_COMMAND] + spec_u16_le_bytes(s.service_id) + seq![s.protocol_version]
}

impl SessionInitialize {
    /// What `data` reads as: one session record whose value is exactly a
    /// service id and a protocol version.
    pub open spec fn spec_parse(data: Seq<u8>) -> Option<SessionInitialize> {
        match spec_single_record(data, SESSION_MARKER, SESSION_COMMAND) {
            Some(v) => if v.len() == 3 {
                Some(
                    SessionInitialize {
                        service_id: spec_u16_le(v[0], v[1]),
                        protocol_version: v[2],
                    },
                )
            } else {
                None
            },
            None => None,
        }
    }

    pub fn parse(data: &[u8]) -> (r: Option<Self>)
        ensures
            r == Self::spec_parse(data@),
    {
        let value = single_record(data, SESSION_MARKER, SESSION_COMMAND)?;
        let mut cursor = Cursor::new(value);
        let service_id = match cursor.read_u16() {
            Ok(v) => v,
            Err(_) => {
                return None;
            },
        };
        let protocol_version = match cursor.read_u8() {
            Ok(v) => v,
            Err(_) => {
                return None;
            },
        };
        if cursor.is_empty() {
            Some(Self { service_id, protocol_version })
        } else {
            None
        }
    }

    /// The initialization record a client sends.
    pub fn encode(self) -> (r: Vec<u8>)
        ensures
            r@ == spec_app_frame(SESSION_MARKER, spec_session_value(self)),
    {
        let mut value: Vec<u8> = Vec::new();
        value.push(SESSION_COMMAND);
        push_u16(&mut value, self.service_id);
        value.push(self.protocol_version);
        assert(value@ =~= spec_session_value(self));
        app_frame(SESSION_MARKER, value.as_slice())
    }
}

#[derive(Clone, Copy, Debug, PartialEq, Eq)]
pub struct MailId(pub [u8; 6]);

/// The wire form of a mail id: the value in the lower four bytes, little
/// endian, and two zero bytes.
pub open spec fn spec_mail_id_bytes(value: u32) -> Seq<u8> {
    crate::bytes::spec_u32_le_bytes(value) + seq![0u8, 0u8]
}

impl MailId {
    pub fn from_wire(bytes: [u8; 6]) -> (r: Self)
        ensures
            r.0@ == bytes@,
    {
        MailId(bytes)
    }

    pub fn from_u32(value: u32) -> (r: Self)
        ensures
            r.0@ == spec_mail_id_bytes(value),
    {
        let le = crate::bytes::u32_to_le(value);
        let r = MailId([le[0], le[1], le[2], le[3], 0, 0]);
        assert(r.0@ =~= spec_mail_id_bytes(value));
        r
    }

    pub fn wire_bytes(self) -> (r: [u8; 6])
        ensures
            r@ == self.0@,
    {
        self.0
    }

    /// The wire form of a mail id is six bytes of which the client only ever
    /// fills the lower four, so a query naming the upper two addresses no
    /// stored message.
    pub fn value(self) -> (r: Option<u32>)
        ensures
            self.0@[4] == 0 && self.0@[5] == 0 ==> r == Some(
                crate::bytes::spec_u32_le(self.0@),
            ),
            !(self.0@[4] == 0 && self.0@[5] == 0) ==> r is None,
    {
        if self.0[4] == 0 && self.0[5] == 0 {
            Some(crate::bytes::u32_from_le(self.0[0], self.0[1], self.0[2], self.0[3]))
        } else {
            None
        }
    }
}

/// A stored id comes back out of its wire form unchanged.
pub proof fn lemma_mail_id_roundtrip(value: u32)
    ensures
        spec_mail_id_bytes(value)[4] == 0 && spec_mail_id_bytes(value)[5] == 0,
        crate::bytes::spec_u32_le(spec_mail_id_bytes(value)) == value,
{
    crate::bytes::lemma_u32_le_roundtrip(value);
}

/// One VIPC mail or broadcast payload: the transport header and its data.
#[derive(Clone, Copy, Debug)]
pub struct TransportFragment<'a> {
    pub flags: u8,
    pub connection_id: u8,
    pub error: u16,
    pub data: &'a [u8],
}

impl<'a> TransportFragment<'a> {
    pub fn parse(data: &'a [u8]) -> (r: Option<Self>)
        ensures
            data@.len() < 4 ==> r is None,
            data@.len() >= 4 ==> (r matches Some(f) && f.flags == data@[0] && f.connection_id
                == data@[1] && f.error == spec_u16_le(data@[2], data@[3]) && f.data@
                == data@.subrange(4, data@.len() as int)),
    {
        if data.len() < 4 {
            return None;
        }
        let mut cursor = Cursor::new(data);
        let flags = match cursor.read_u8() {
            Ok(v) => v,
            Err(_) => {
                return None;
            },
        };
        let connection_id = match cursor.read_u8() {
            Ok(v) => v,
            Err(_) => {
                return None;
            },
        };
        let error = match cursor.read_u16() {
            Ok(v) => v,
            Err(_) => {
                return None;
            },
        };
        let rest = cursor.read_remainder();
        Some(Self { flags, connection_id, error, data: rest })
    }
}

/// The value of the one record `data` consists of, if it is exactly one
/// well-formed record with the given marker and tag.
pub fn single_record<'a>(data: &'a [u8], marker: u8, tag: u8) -> (r: Option<&'a [u8]>)
    ensures
        match spec_single_record(data@, marker, tag) {
            Some(v) => (r matches Some(x) && x@ == v),
            None => r is None,
        },
{
    let entries = match Tlv::marker_u16(data, marker).collect_all() {
        Ok(entries) => entries,
        Err(_) => {
            return None;
        },
    };
    if entries.len() == 1 && entries[0].tag == tag {
        Some(entries[0].value)
    } else {
        None
    }
}

/// The length field cannot describe a payload longer than `u16::MAX`, so the
/// record is cut down to what the field can name: a client reading a
/// truncated record stays in sync with the stream, one reading a record whose
/// header lies does not.
pub fn app_frame(marker: u8, payload: &[u8]) -> (r: Vec<u8>)
    ensures
        r@ == spec_app_frame(marker, payload@),
{
    let kept = if payload.len() > 0xffff {
        &payload[0..0xffff]
    } else {
        payload
    };
    let mut frame: Vec<u8> = Vec::with_capacity(3);
    frame.push(marker);
    push_u16(&mut frame, kept.len() as u16);
    push_all(&mut frame, kept);
    assert(frame@ =~= spec_app_frame(marker, payload@));
    frame
}

/// Prefixes `data` with the transport header of a successful response.
pub fn transport(flags: u8, connection_id: u8, data: &[u8]) -> (r: Vec<u8>)
    ensures
        r@ == spec_transport(flags, connection_id, data@),
{
    let mut payload: Vec<u8> = Vec::with_capacity(4);
    payload.push(flags);
    payload.push(connection_id);
    push_u16(&mut payload, TRANSPORT_SUCCESS);
    push_all(&mut payload, data);
    assert(payload@ =~= spec_transport(flags, connection_id, data@));
    payload
}

/// One record written with [`app_frame`] reads back as that one record.
pub proof fn lemma_single_record_roundtrip(marker: u8, tag: u8, value: Seq<u8>)
    requires
        value.len() < 0xffff,
    ensures
        spec_single_record(spec_app_frame(marker, seq![tag] + value), marker, tag) == Some(value),
{
    let payload = seq![tag] + value;
    let d = spec_app_frame(marker, payload);
    crate::bytes::lemma_u16_le_roundtrip(payload.len() as u16);
    assert(d.len() == 3 + payload.len());
    assert(d[0] == marker);
    assert(spec_u16_le(d[1], d[2]) == payload.len());
    assert(d[3] == tag);
    assert(d.subrange(4, 3 + payload.len() as int) =~= value);
    let kind = TlvKind::MarkerU16 { marker };
    assert(spec_walk(d, d.len() as int, kind) == (Seq::<(u8, Seq<u8>)>::empty(), None::<crate::error::FrameErrorView>));
    assert(spec_walk(d, 0, kind).0 =~= seq![(tag, value)]);
}

/// An initialization record reads back as the service id and version it was
/// written with.
pub proof fn lemma_session_roundtrip(s: SessionInitialize)
    ensures
        SessionInitialize::spec_parse(spec_app_frame(SESSION_MARKER, spec_session_value(s)))
            == Some(s),
{
    let v = spec_u16_le_bytes(s.service_id) + seq![s.protocol_version];
    assert(spec_session_value(s) =~= seq![SESSION_COMMAND] + v);
    lemma_single_record_roundtrip(SESSION_MARKER, SESSION_COMMAND, v);
    crate::bytes::lemma_u16_le_roundtrip(s.service_id);
}

} // verus!
