//! The broadcast service: it answers the session-open handshake and nothing
//! else. Without the reply the GRiD client waits about 47 seconds.
use vstd::prelude::*;

use crate::bytes::bytes_equal;
use crate::mail_protocol::{
    app_frame, spec_app_frame, spec_transport, transport, SessionInitialize, BROADCAST_SERVICE_ID,
    MORE, PROTOCOL_VERSION, SESSION_MARKER, TAG_TERMINATOR,
};

verus! {

/// The one frame the client sends: `0xfe`, length 4, then `'a'` and the word
/// 11500. Byte for byte this is Mail's initialization frame with 11400 bumped
/// to 11500, which matches GRiD's habit of numbering server components in
/// blocks of 100.
pub const INITIALIZE: [u8; 7] = [0xfe, 4, 0, 0x61, 0xec, 0x2c, 1];

/// The reply to a handshake on `connection_id`.
pub open spec fn spec_handshake_reply(connection_id: u8) -> Seq<u8> {
    spec_transport(0, connection_id, spec_app_frame(SESSION_MARKER, seq![TAG_TERMINATOR]))
}

/// Whether `payload` is a complete, error-free transport fragment whose data
/// satisfies `is_open`.
pub open spec fn spec_is_handshake(payload: Seq<u8>, data_ok: bool) -> bool {
    &&& payload.len() >= 4
    &&& payload[2] == 0
    &&& payload[3] == 0
    &&& payload[0] & MORE == 0
    &&& data_ok
}

pub struct BroadcastServer;

impl BroadcastServer {
    pub fn new() -> (r: Self) {
        Self
    }

    /// Answers the session-open handshake and nothing else. Continuation
    /// fragments and unknown frames are dropped.
    pub fn process(&mut self, payload: &[u8]) -> (r: Option<Vec<u8>>)
        ensures
            spec_is_handshake(
                payload@,
                payload@.len() >= 4 && payload@.subrange(4, payload@.len() as int) == INITIALIZE@,
            ) ==> (r matches Some(v) && v@ == spec_handshake_reply(payload@[1])),
            !spec_is_handshake(
                payload@,
                payload@.len() >= 4 && payload@.subrange(4, payload@.len() as int) == INITIALIZE@,
            ) ==> r is None,
    {
        if payload.len() < 4 || payload[2] != 0 || payload[3] != 0 {
            return None;
        }
        let flags = payload[0];
        let connection_id = payload[1];
        let data = &payload[4..payload.len()];
        if flags & MORE != 0 || !bytes_equal(data, &INITIALIZE) {
            return None;
        }
        let frame = app_frame(SESSION_MARKER, &[TAG_TERMINATOR]);
        assert(seq![TAG_TERMINATOR] =~= [TAG_TERMINATOR]@);
        Some(transport(0, connection_id, frame.as_slice()))
    }
}

/// The reply to `payload`, if it is the broadcast handshake the mail client
/// sends: a complete, error-free fragment that opens service 11500.
pub open spec fn spec_mail_broadcast_reply(payload: Seq<u8>) -> Option<Seq<u8>> {
    if spec_is_handshake(
        payload,
        payload.len() >= 4 && SessionInitialize::spec_parse(payload.subrange(4, payload.len() as int))
            == Some(
            SessionInitialize { service_id: BROADCAST_SERVICE_ID, protocol_version: PROTOCOL_VERSION },
        ),
    ) {
        Some(spec_handshake_reply(payload[1]))
    } else {
        None
    }
}

/// Broadcast remains a handshake stub: it answers the initialization the mail
/// client sends for service 11500 and drops everything else.
pub struct MailBroadcastServer;

impl MailBroadcastServer {
    pub fn new() -> (r: Self) {
        Self
    }

    pub fn process(&mut self, payload: &[u8]) -> (r: Option<Vec<u8>>)
        ensures
            match spec_mail_broadcast_reply(payload@) {
                Some(b) => (r matches Some(v) && v@ == b),
                None => r is None,
            },
    {
        if payload.len() < 4 || payload[2] != 0 || payload[3] != 0 {
            return None;
        }
        let flags = payload[0];
        let connection_id = payload[1];
        let data = &payload[4..payload.len()];
        let parsed = SessionInitialize::parse(data);
        let is_initialize = match parsed {
            Some(s) => s.service_id == BROADCAST_SERVICE_ID && s.protocol_version
                == PROTOCOL_VERSION,
            None => false,
        };
        if flags & MORE != 0 || !is_initialize {
            return None;
        }
        let frame = app_frame(SESSION_MARKER, &[TAG_TERMINATOR]);
        assert(seq![TAG_TERMINATOR] =~= [TAG_TERMINATOR]@);
        Some(transport(0, connection_id, frame.as_slice()))
    }
}


} // verus!
