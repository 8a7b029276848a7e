//! The phone data link frames carried inside a [`RawFrame`]:
//! `<type> <flags> <window size> <sequence number> <body>`.
use vstd::prelude::*;

use crate::bytes::push_all;
use crate::cursor::Cursor;
use crate::error::{err_view, invalid, push_hex_byte, spec_hex_byte, FrameError, FrameErrorView};
use crate::raw_frame::RawFrame;

verus! {

/// End-of-message flag.
pub const EOM_FLAG_ON: u8 = 1;

/// Phone data link protocol version bytes, `"02"`.
pub const PDL_VERSION: [u8; 2] = [0x30, 0x32];

#[derive(Clone, Copy, Debug)]
pub struct Frame<'a> {
    pub flags: u8,
    pub window_size: u8,
    pub seq_number: u8,
    /// The frame type together with its data.
    pub body: FrameBody<'a>,
}

#[derive(Clone, Copy, Debug, PartialEq, Eq)]
pub enum FrameType {
    Rfc,
    Ack,
    Disc,
    Ping,
    Data,
}

impl FrameType {
    pub open spec fn spec_from_repr(value: u8) -> Option<FrameType> {
        if value == 1 {
            Some(FrameType::Rfc)
        } else if value == 2 {
            Some(FrameType::Ack)
        } else if value == 3 {
            Some(FrameType::Disc)
        } else if value == 4 {
            Some(FrameType::Ping)
        } else if value == 5 {
            Some(FrameType::Data)
        } else {
            None
        }
    }

    pub fn from_repr(value: u8) -> (r: Option<FrameType>)
        ensures
            r == Self::spec_from_repr(value),
    {
        match value {
            1 => Some(FrameType::Rfc),
            2 => Some(FrameType::Ack),
            3 => Some(FrameType::Disc),
            4 => Some(FrameType::Ping),
            5 => Some(FrameType::Data),
            _ => None,
        }
    }
}

#[derive(Clone, Copy, Debug)]
pub enum FrameBody<'a> {
    Rfc(RfcFrameBody),
    Ack(ShortFrameBody),
    Disc(ShortFrameBody),
    Ping(ShortFrameBody),
    Data(&'a [u8]),
}

/// The body of a request for connection.
#[derive(Clone, Copy, Debug, PartialEq, Eq)]
pub struct RfcFrameBody {
    pub connection_id: u8,
    pub version: [u8; 2],
}

/// The body of the frames that name only a connection.
#[derive(Clone, Copy, Debug, PartialEq, Eq)]
pub struct ShortFrameBody {
    pub connection_id: u8,
}

/// The type byte of a body.
pub open spec fn spec_body_repr(body: FrameBody) -> u8 {
    match body {
        FrameBody::Rfc(_) => 1,
        FrameBody::Ack(_) => 2,
        FrameBody::Disc(_) => 3,
        FrameBody::Ping(_) => 4,
        FrameBody::Data(_) => 5,
    }
}

/// The bytes of a body on the wire.
pub open spec fn spec_body_bytes(body: FrameBody) -> Seq<u8> {
    match body {
        FrameBody::Rfc(b) => seq![b.connection_id, b.version[0], b.version[1]],
        FrameBody::Ack(b) => seq![b.connection_id],
        FrameBody::Disc(b) => seq![b.connection_id],
        FrameBody::Ping(b) => seq![b.connection_id],
        FrameBody::Data(d) => d@,
    }
}

/// The bytes of a whole frame.
pub open spec fn spec_frame_bytes(f: Frame) -> Seq<u8> {
    seq![spec_body_repr(f.body), f.flags, f.window_size, f.seq_number] + spec_body_bytes(f.body)
}

/// How many body bytes a frame of the given type byte needs at least.
pub open spec fn spec_min_body_len(ty: u8) -> int {
    if ty == 1 {
        3
    } else if ty == 5 {
        0
    } else {
        1
    }
}

/// What reading a frame from `d` fails with, if it fails.
pub open spec fn spec_frame_error(d: Seq<u8>) -> Option<FrameErrorView> {
    if d.len() < 4 {
        Some(FrameErrorView::UnexpectedEof)
    } else if FrameType::spec_from_repr(d[0]) is None {
        Some(invalid("unknown frame type "@ + spec_hex_byte(d[0])))
    } else if d.len() < 4 + spec_min_body_len(d[0]) {
        Some(FrameErrorView::UnexpectedEof)
    } else {
        None
    }
}

/// `f` is what reading `d` yields: its bytes start `d`, and a data frame takes
/// all of it. The fields of the shorter frames are read from the front of
/// their body; bytes after them are not looked at.
pub open spec fn spec_frame_read_from(f: Frame, d: Seq<u8>) -> bool {
    &&& spec_frame_bytes(f).len() <= d.len()
    &&& d.subrange(0, spec_frame_bytes(f).len() as int) == spec_frame_bytes(f)
    &&& f.body is Data ==> spec_frame_bytes(f) == d
}

impl<'a> Frame<'a> {
    pub fn rfc(conn_id: u8, seq_number: u8) -> (r: Self)
        ensures
            r.flags == EOM_FLAG_ON,
            r.window_size == 1,
            r.seq_number == seq_number,
            r.body == FrameBody::Rfc(RfcFrameBody { connection_id: conn_id, version: PDL_VERSION }),
    {
        Frame {
            flags: EOM_FLAG_ON,
            window_size: 1,
            seq_number,
            body: FrameBody::Rfc(RfcFrameBody { connection_id: conn_id, version: PDL_VERSION }),
        }
    }

    pub fn ack(conn_id: u8, seq_number: u8) -> (r: Self)
        ensures
            r.flags == EOM_FLAG_ON,
            r.window_size == 0x41,
            r.seq_number == seq_number,
            r.body == FrameBody::Ack(ShortFrameBody { connection_id: conn_id }),
    {
        Self {
            flags: EOM_FLAG_ON,
            window_size: 0x41,
            seq_number,
            body: FrameBody::Ack(ShortFrameBody { connection_id: conn_id }),
        }
    }

    pub fn data(flags: u8, seq_number: u8, body: &'a [u8]) -> (r: Self)
        ensures
            r.flags == flags,
            r.window_size == 0x44,
            r.seq_number == seq_number,
            r.body == FrameBody::Data(body),
    {
        Self { flags, window_size: 0x44, seq_number, body: FrameBody::Data(body) }
    }

    /// Reads the frame a raw frame carries.
    pub fn try_from_raw(raw: &'a RawFrame) -> (r: Result<Self, FrameError>)
        ensures
            spec_frame_error(raw.data@) matches Some(e) ==> err_view(r) == Some(e),
            spec_frame_error(raw.data@) is None ==> (r matches Ok(f) && spec_frame_read_from(
                f,
                raw.data@,
            )),
    {
        let mut cursor = Cursor::new(raw.data.as_slice());
        let ty = cursor.read_u8()?;
        let flags = cursor.read_u8()?;
        let window_size = cursor.read_u8()?;
        let seq_number = cursor.read_u8()?;
        let ghost d = raw.data@;
        let ty = match FrameType::from_repr(ty) {
            Some(ty) => ty,
            None => {
                let mut reason = String::from_str("unknown frame type ");
                push_hex_byte(&mut reason, ty);
                return Err(FrameError::Validation { reason });
            },
        };
        let body = match ty {
            FrameType::Rfc => {
                let connection_id = cursor.read_u8()?;
                let v0 = cursor.read_u8()?;
                let v1 = cursor.read_u8()?;
                FrameBody::Rfc(RfcFrameBody { connection_id, version: [v0, v1] })
            },
            FrameType::Ack => FrameBody::Ack(ShortFrameBody { connection_id: cursor.read_u8()? }),
            FrameType::Disc => FrameBody::Disc(ShortFrameBody { connection_id: cursor.read_u8()? }),
            FrameType::Ping => FrameBody::Ping(ShortFrameBody { connection_id: cursor.read_u8()? }),
            FrameType::Data => FrameBody::Data(cursor.read_remainder()),
        };
        let f = Self { flags, window_size, seq_number, body };
        proof {
            assert(d.subrange(0, spec_frame_bytes(f).len() as int) =~= spec_frame_bytes(f));
            if f.body is Data {
                assert(spec_frame_bytes(f) =~= d);
            }
        }
        Ok(f)
    }

    /// Writing into a caller owned buffer lets a session reuse one allocation
    /// for every frame it sends instead of building a fresh `Vec` per response.
    pub fn write_into(&self, dst: &mut Vec<u8>)
        ensures
            final(dst)@ == old(dst)@ + spec_frame_bytes(*self),
    {
        let ghost start = dst@;
        dst.push(self.body.repr());
        dst.push(self.flags);
        dst.push(self.window_size);
        dst.push(self.seq_number);
        match self.body {
            FrameBody::Rfc(body) => {
                dst.push(body.connection_id);
                dst.push(body.version[0]);
                dst.push(body.version[1]);
            },
            FrameBody::Ack(body) => {
                dst.push(body.connection_id);
            },
            FrameBody::Disc(body) => {
                dst.push(body.connection_id);
            },
            FrameBody::Ping(body) => {
                dst.push(body.connection_id);
            },
            FrameBody::Data(body) => {
                push_all(dst, body);
            },
        }
        assert(dst@ =~= start + spec_frame_bytes(*self));
    }

    pub fn into_raw(self) -> (r: RawFrame)
        ensures
            r.data@ == spec_frame_bytes(self),
    {
        let mut data: Vec<u8> = Vec::with_capacity(5);
        self.write_into(&mut data);
        assert(data@ =~= spec_frame_bytes(self));
        RawFrame::new(data)
    }
}

impl<'a> FrameBody<'a> {
    pub fn repr(&self) -> (r: u8)
        ensures
            r == spec_body_repr(*self),
    {
        match self {
            FrameBody::Rfc(_) => 1,
            FrameBody::Ack(_) => 2,
            FrameBody::Disc(_) => 3,
            FrameBody::Ping(_) => 4,
            FrameBody::Data(_) => 5,
        }
    }
}

/// Every frame reads back from its own bytes: the bytes it is written as parse
/// without error, and whatever they parse to is written as the same bytes.
pub proof fn lemma_frame_roundtrip<'a>(f: Frame<'a>, g: Frame<'a>)
    ensures
        spec_frame_error(spec_frame_bytes(f)) is None,
        spec_frame_read_from(g, spec_frame_bytes(f)) ==> spec_frame_bytes(g) == spec_frame_bytes(f),
{
    let d = spec_frame_bytes(f);
    if spec_frame_read_from(g, d) {
        let n = spec_frame_bytes(g).len() as int;
        assert(d[0] == spec_frame_bytes(g)[0]);
        assert(spec_body_repr(g.body) == spec_body_repr(f.body));
        assert(d.subrange(0, n) == spec_frame_bytes(g));
        if !(g.body is Data) {
            assert(spec_body_bytes(g.body).len() == spec_body_bytes(f.body).len());
            assert(d.subrange(0, n) =~= d);
        }
    }
}

} // verus!
