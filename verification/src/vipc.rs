//! VIPC messages: `<u16 class><u16 note><u16 payload length><payload>`.
use vstd::prelude::*;

use crate::bytes::{push_all, push_u16, spec_u16_le, spec_u16_le_bytes};
use crate::cursor::Cursor;
use crate::error::{err_view, invalid, spec_decimal, FrameError, FrameErrorView};

verus! {

/// The service class a message is addressed to.
#[derive(Clone, Copy, Debug, PartialEq, Eq, Structural)]
pub struct MessageType(pub u16);

#[derive(Clone, Copy, Debug)]
pub struct IncomingMessage<'a> {
    pub note: u16,
    pub body: IncomingMessageBody<'a>,
}

#[derive(Clone, Copy, Debug)]
pub struct IncomingMessageBody<'a> {
    pub ty: MessageType,
    pub payload: &'a [u8],
}

#[derive(Clone, Debug)]
pub struct OutgoingMessage {
    pub note: u16,
    pub body: OutgoingMessageBody,
}

#[derive(Clone, Debug)]
pub struct OutgoingMessageBody {
    pub ty: MessageType,
    pub payload: Vec<u8>,
}

/// The wire form of a message with the given fields.
pub open spec fn spec_message_bytes(ty: u16, note: u16, payload: Seq<u8>) -> Seq<u8> {
    spec_u16_le_bytes(ty) + spec_u16_le_bytes(note) + spec_u16_le_bytes(payload.len() as u16)
        + payload
}

/// The declared payload length of the message in `d`.
pub open spec fn spec_declared_len(d: Seq<u8>) -> int {
    spec_u16_le(d[4], d[5]) as int
}

impl<'a> IncomingMessage<'a> {
    /// Reads one message that must fill `data` exactly.
    pub fn try_from_slice(data: &'a [u8]) -> (r: Result<Self, FrameError>)
        ensures
            data@.len() < 6 || data@.len() < 6 + spec_declared_len(data@) ==> r
                == Err::<Self, FrameError>(FrameError::UnexpectedEof),
            data@.len() >= 6 && data@.len() > 6 + spec_declared_len(data@) ==> err_view(r) == Some(
                invalid(
                    "VIPC message: "@ + spec_decimal((data@.len() - 6 - spec_declared_len(data@)) as nat)
                        + " trailing bytes"@,
                ),
            ),
            data@.len() >= 6 && data@.len() == 6 + spec_declared_len(data@) ==> (r matches Ok(m)
                && spec_message_bytes(m.body.ty.0, m.note, m.body.payload@) == data@
                && m.body.ty.0 == spec_u16_le(data@[0], data@[1]) && m.note == spec_u16_le(
                data@[2],
                data@[3],
            ) && m.body.payload@ == data@.subrange(6, data@.len() as int)),
    {
        let mut cursor = Cursor::new(data);
        let ty = MessageType(cursor.read_u16()?);
        let note = cursor.read_u16()?;
        let payload_length = cursor.read_u16()?;
        let payload = cursor.read_slice(payload_length as usize)?;
        let remaining = cursor.remaining();
        if remaining != 0 {
            return Err(FrameError::validation_with("VIPC message: ", remaining as u64, " trailing bytes"));
        }
        let m = Self { note, body: IncomingMessageBody { ty, payload } };
        assert(spec_message_bytes(m.body.ty.0, m.note, m.body.payload@) =~= data@);
        Ok(m)
    }
}

impl OutgoingMessage {
    /// The wire form. The payload must fit its `u16` length.
    pub fn to_bytes(&self) -> (r: Vec<u8>)
        requires
            self.body.payload@.len() <= 0xffff,
        ensures
            r@ == spec_message_bytes(self.body.ty.0, self.note, self.body.payload@),
    {
        let payload_length = self.body.payload.len() as u16;
        let mut data: Vec<u8> = Vec::with_capacity(6 + self.body.payload.len());
        push_u16(&mut data, self.body.ty.0);
        push_u16(&mut data, self.note);
        push_u16(&mut data, payload_length);
        push_all(&mut data, self.body.payload.as_slice());
        assert(data@ =~= spec_message_bytes(self.body.ty.0, self.note, self.body.payload@));
        data
    }
}

/// What is sent reads back as the same class, note and payload.
pub proof fn lemma_message_roundtrip(ty: u16, note: u16, payload: Seq<u8>)
    requires
        payload.len() <= 0xffff,
    ensures
        ({
            let d = spec_message_bytes(ty, note, payload);
            &&& d.len() >= 6
            &&& d.len() == 6 + spec_declared_len(d)
            &&& spec_u16_le(d[0], d[1]) == ty
            &&& spec_u16_le(d[2], d[3]) == note
            &&& d.subrange(6, d.len() as int) == payload
        }),
{
    let d = spec_message_bytes(ty, note, payload);
    crate::bytes::lemma_u16_le_roundtrip(ty);
    crate::bytes::lemma_u16_le_roundtrip(note);
    crate::bytes::lemma_u16_le_roundtrip(payload.len() as u16);
    assert(d.subrange(6, d.len() as int) =~= payload);
}

} // verus!
