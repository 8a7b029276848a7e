//! One signed-on VIPC session: every message is routed to the service its
//! class names, and every reply is addressed back.
use vstd::prelude::*;

use crate::bytes::spec_u16_le;
use crate::error::{err_view, invalid, spec_decimal, FrameError, FrameErrorView};
use crate::broadcast::{spec_mail_broadcast_reply, MailBroadcastServer};
use crate::postoffice::{mail_responses_view, spec_process_step, MailQuery, MailResponse, MailServer, MailStep, CHANNEL_COUNT};
use crate::sentry::{copy_bytes, spec_process, Account, SentryServer, SentryStep};
use crate::vfs::{spec_begin, spec_begin_files, spec_begin_ids, BackendOp, Vfs, VfsStep};
use crate::vfs_protocol::{long_response, spec_parse_vfs_request, spec_response_write, VfsRequest, VfsRequestHeader, VfsResponse, VFS_MAX_MESSAGE_LENGTH};
use crate::vipc::{spec_declared_len, IncomingMessage, MessageType, OutgoingMessage, OutgoingMessageBody};

verus! {

pub const CLASS_VFS: u16 = 83;

pub const CLASS_MAIL: u16 = 0x7444;

pub const CLASS_BROADCAST: u16 = 0x7000;

pub const CLASS_SENTRY: u16 = 0xffff;

/// Set in the note of a mail or broadcast reply.
pub const REPLY_NOTE_BIT: u16 = 0x8000;

/// Where a message goes.
#[derive(Debug)]
pub enum VipcRoute<'a> {
    Vfs { note: u16, request: VfsRequest<'a> },
    Mail { note: u16, payload: &'a [u8] },
    Sentry { note: u16, payload: &'a [u8] },
    Broadcast { note: u16, payload: &'a [u8] },
    /// A class no service answers to: nothing is sent back.
    Unknown { class: u16 },
}

/// The error for the bytes of `d` past the message it declares.
pub open spec fn spec_vipc_trailing(d: Seq<u8>) -> FrameErrorView {
    invalid("VIPC message: "@ + spec_decimal((d.len() - 6 - spec_declared_len(d)) as nat) + " trailing bytes"@)
}

/// Where the message `d` goes: `Ok(None)` for an unknown class, or why it is
/// no message, or no VFS request where it is addressed to the VFS.
pub open spec fn spec_route_ok(d: Seq<u8>, r: Result<VipcRoute, FrameError>) -> bool {
    if d.len() < 6 || d.len() < 6 + spec_declared_len(d) {
        r == Err::<VipcRoute, FrameError>(FrameError::UnexpectedEof)
    } else if d.len() > 6 + spec_declared_len(d) {
        err_view(r) == Some(spec_vipc_trailing(d))
    } else {
        let class = spec_u16_le(d[0], d[1]);
        let note = spec_u16_le(d[2], d[3]);
        let payload = d.subrange(6, d.len() as int);
        if class == CLASS_VFS {
            match spec_parse_vfs_request(payload) {
                Err(e) => err_view(r) == Some(e),
                Ok((header, body)) => (r matches Ok(VipcRoute::Vfs { note: n, request })
                    && n == note && request.header == header && request.body@ == body),
            }
        } else if class == CLASS_MAIL {
            r matches Ok(VipcRoute::Mail { note: n, payload: p }) && n == note && p@ == payload
        } else if class == CLASS_SENTRY {
            r matches Ok(VipcRoute::Sentry { note: n, payload: p }) && n == note && p@ == payload
        } else if class == CLASS_BROADCAST {
            r matches Ok(VipcRoute::Broadcast { note: n, payload: p }) && n == note && p@
                == payload
        } else {
            r matches Ok(VipcRoute::Unknown { class: c }) && c == class
        }
    }
}

/// Reads a message and the request it carries for the service its class
/// names.
pub fn route<'a>(payload: &'a [u8]) -> (r: Result<VipcRoute<'a>, FrameError>)
    ensures
        spec_route_ok(payload@, r),
{
    let message = IncomingMessage::try_from_slice(payload)?;
    let note = message.note;
    let body = message.body.payload;
    let class = message.body.ty.0;
    if class == CLASS_VFS {
        let request = VfsRequest::try_from_slice(body)?;
        Ok(VipcRoute::Vfs { note, request })
    } else if class == CLASS_MAIL {
        Ok(VipcRoute::Mail { note, payload: body })
    } else if class == CLASS_SENTRY {
        Ok(VipcRoute::Sentry { note, payload: body })
    } else if class == CLASS_BROADCAST {
        Ok(VipcRoute::Broadcast { note, payload: body })
    } else {
        Ok(VipcRoute::Unknown { class })
    }
}

pub open spec fn message_is(m: OutgoingMessage, class: u16, note: u16, payload: Seq<u8>) -> bool {
    m.body.ty.0 == class && m.note == note && m.body.payload@ == payload
}

/// The VFS reply to `response` on `note`, or why it cannot be written.
pub open spec fn spec_vfs_reply(note: u16, response: VfsResponse, r: Result<OutgoingMessage, FrameError>) -> bool {
    let (written, failure) = spec_response_write(response);
    match failure {
        Some(e) => err_view(r) == Some(e),
        None => if written.len() > VFS_MAX_MESSAGE_LENGTH {
            err_view(r) == Some(long_response())
        } else {
            r matches Ok(m) && message_is(m, CLASS_VFS, note, written)
        },
    }
}

/// The VFS reply to the request on `note`, or why the response could not be
/// written.
pub fn vfs_reply(note: u16, response: &VfsResponse) -> (r: Result<OutgoingMessage, FrameError>)
    ensures
        spec_vfs_reply(note, *response, r),
{
    let mut payload: Vec<u8> = Vec::new();
    response.write_into(&mut payload)?;
    assert(payload@ =~= Seq::<u8>::empty() + payload@);
    Ok(OutgoingMessage { note, body: OutgoingMessageBody { ty: MessageType(CLASS_VFS), payload } })
}

/// The note of a mail or broadcast reply to `note`.
pub open spec fn spec_reply_note(note: u16) -> u16 {
    (note | REPLY_NOTE_BIT) as u16
}

/// The mail replies, each addressed to the note it answers with the reply
/// bit set.
pub fn mail_replies(responses: Vec<MailResponse>) -> (r: Vec<OutgoingMessage>)
    ensures
        r@.len() == responses@.len(),
        forall|i: int|
            0 <= i < r@.len() ==> message_is(
                #[trigger] r@[i],
                CLASS_MAIL,
                spec_reply_note(mail_responses_view(responses@)[i].0),
                mail_responses_view(responses@)[i].1,
            ),
{
    let mut out: Vec<OutgoingMessage> = Vec::new();
    let mut i: usize = 0;
    while i < responses.len()
        invariant
            i <= responses@.len(),
            out@.len() == i,
            forall|k: int|
                0 <= k < i ==> message_is(
                    #[trigger] out@[k],
                    CLASS_MAIL,
                    spec_reply_note(responses@[k].note),
                    responses@[k].payload@,
                ),
        decreases responses@.len() - i,
    {
        let response = &responses[i];
        out.push(
            OutgoingMessage {
                note: response.note | REPLY_NOTE_BIT,
                body: OutgoingMessageBody {
                    ty: MessageType(CLASS_MAIL),
                    payload: crate::sentry::copy_bytes(response.payload.as_slice()),
                },
            },
        );
        i = i + 1;
    }
    out
}

/// The Sentry reply to the request on `note`.
pub fn sentry_reply(note: u16, payload: Vec<u8>) -> (r: OutgoingMessage)
    ensures
        message_is(r, CLASS_SENTRY, note, payload@),
{
    OutgoingMessage { note, body: OutgoingMessageBody { ty: MessageType(CLASS_SENTRY), payload } }
}

/// The broadcast reply to the request on `note`, with the reply bit set.
pub fn broadcast_reply(note: u16, payload: Vec<u8>) -> (r: OutgoingMessage)
    ensures
        message_is(r, CLASS_BROADCAST, spec_reply_note(note), payload@),
{
    OutgoingMessage {
        note: note | REPLY_NOTE_BIT,
        body: OutgoingMessageBody { ty: MessageType(CLASS_BROADCAST), payload },
    }
}

/// The mail replies `w` to the responses `v`: each addressed to the note it
/// answers, with the reply bit set.
pub open spec fn mail_messages_are(w: Seq<OutgoingMessage>, v: Seq<(u16, Seq<u8>)>) -> bool {
    &&& w.len() == v.len()
    &&& forall|i: int|
        0 <= i < w.len() ==> message_is(
            #[trigger] w[i],
            CLASS_MAIL,
            spec_reply_note(v[i].0),
            v[i].1,
        )
}

/// What a message comes to.
#[derive(Debug)]
pub enum VipcStep {
    /// These messages are sent back.
    Reply(Vec<OutgoingMessage>),
    /// The storage performs `op` for the VFS request with `header` on `note`;
    /// the outcome goes to the matching `finish_` function of the VFS, and its
    /// response to [`vfs_reply`].
    Vfs { note: u16, header: VfsRequestHeader, op: BackendOp },
    /// The object on `id` is detached and its handle is to be released; then
    /// the reply is sent back, or the failure to write it reported.
    VfsReleased { id: u16, reply: Result<OutgoingMessage, FrameError> },
    /// The mailbox is read; the answer goes to [`MailServer::answer_list`] or
    /// [`MailServer::answer_message`] and its responses to [`mail_replies`].
    Mail { note: u16, connection_id: u8, query: MailQuery },
    /// The store is consulted for the Sentry request on `note`, and the
    /// payload it comes to goes to [`sentry_reply`].
    Sentry { note: u16, step: SentryStep },
}

/// The services of one signed-on session.
pub struct Vipc {
    pub vfs: Vfs,
    pub mail: MailServer,
    pub broadcast: MailBroadcastServer,
    pub sentry: SentryServer,
}

/// What a VFS step comes to for the request with `header` on `note`.
pub open spec fn spec_vfs_outcome(
    note: u16,
    header: VfsRequestHeader,
    step: VfsStep,
    r: Result<VipcStep, FrameError>,
) -> bool {
    match step {
        VfsStep::Respond(response) => match r {
            Ok(VipcStep::Reply(v)) => v@.len() == 1 && spec_vfs_reply(note, response, Ok(v@[0])),
            Err(e) => spec_vfs_reply(note, response, Err(e)),
            _ => false,
        },
        VfsStep::Released { id, response } => (r matches Ok(VipcStep::VfsReleased { id: i, reply })
            && i == id && spec_vfs_reply(note, response, reply)),
        VfsStep::Backend(op) => r == Ok::<VipcStep, FrameError>(VipcStep::Vfs { note, header, op }),
    }
}

/// What a mail step comes to.
pub open spec fn spec_mail_outcome(step: MailStep, r: Result<VipcStep, FrameError>) -> bool {
    match step {
        MailStep::Ignored => (r matches Ok(VipcStep::Reply(v)) && v@.len() == 0),
        MailStep::Respond(responses) => (r matches Ok(VipcStep::Reply(v)) && mail_messages_are(
            v@,
            mail_responses_view(responses@),
        )),
        MailStep::Query { note, connection_id, query } => r == Ok::<VipcStep, FrameError>(
            VipcStep::Mail { note, connection_id, query },
        ),
    }
}

/// What a Sentry step comes to for the request on `note`.
pub open spec fn spec_sentry_outcome(note: u16, step: SentryStep, r: Result<VipcStep, FrameError>) -> bool {
    match step {
        SentryStep::Ignore => (r matches Ok(VipcStep::Reply(v)) && v@.len() == 0),
        SentryStep::Reply(p) => (r matches Ok(VipcStep::Reply(v)) && v@.len() == 1 && message_is(
            v@[0],
            CLASS_SENTRY,
            note,
            p@,
        )),
        _ => r == Ok::<VipcStep, FrameError>(VipcStep::Sentry { note, step }),
    }
}

/// What the message `d` comes to, and how it leaves the services: a message
/// that is none, or a VFS request that is none, is refused; every other one
/// goes to the service its class names, and a class no service answers to
/// is answered with nothing.
pub open spec fn spec_vipc_step(before: Vipc, after: Vipc, d: Seq<u8>, r: Result<VipcStep, FrameError>) -> bool {
    if d.len() < 6 || d.len() < 6 + spec_declared_len(d) {
        r == Err::<VipcStep, FrameError>(FrameError::UnexpectedEof) && after == before
    } else if d.len() > 6 + spec_declared_len(d) {
        err_view(r) == Some(spec_vipc_trailing(d)) && after == before
    } else {
        let class = spec_u16_le(d[0], d[1]);
        let note = spec_u16_le(d[2], d[3]);
        let payload = d.subrange(6, d.len() as int);
        if class == CLASS_VFS {
            match spec_parse_vfs_request(payload) {
                Err(e) => err_view(r) == Some(e) && after == before,
                Ok((header, body)) => {
                    &&& after.mail == before.mail
                    &&& after.sentry == before.sentry
                    &&& after.vfs.files() == spec_begin_files(before.vfs.files(), header, body)
                    &&& after.vfs.ids() == spec_begin_ids(
                        before.vfs.files(),
                        before.vfs.ids(),
                        header,
                        body,
                    )
                    &&& exists|step: VfsStep|
                        spec_begin(before.vfs.files(), before.vfs.ids(), header, body, step)
                            && #[trigger] spec_vfs_outcome(note, header, step, r)
                },
            }
        } else if class == CLASS_MAIL {
            &&& after.vfs == before.vfs
            &&& after.sentry == before.sentry
            &&& after.mail.owner_name() == before.mail.owner_name()
            &&& exists|step: MailStep|
                spec_process_step(before.mail.pending(), note, payload, after.mail.pending(), step)
                    && #[trigger] spec_mail_outcome(step, r)
        } else if class == CLASS_SENTRY {
            &&& after == before
            &&& exists|step: SentryStep|
                spec_process(before.sentry.actor(), payload, step) && #[trigger] spec_sentry_outcome(
                    note,
                    step,
                    r,
                )
        } else if class == CLASS_BROADCAST {
            &&& after == before
            &&& match spec_mail_broadcast_reply(payload) {
                Some(b) => (r matches Ok(VipcStep::Reply(v)) && v@.len() == 1 && message_is(
                    v@[0],
                    CLASS_BROADCAST,
                    spec_reply_note(note),
                    b,
                )),
                None => (r matches Ok(VipcStep::Reply(v)) && v@.len() == 0),
            }
        } else {
            &&& after == before
            &&& (r matches Ok(VipcStep::Reply(v)) && v@.len() == 0)
        }
    }
}

impl Vipc {
    /// The services of a session signed on as `actor`, none of them busy.
    pub fn new(actor: Account) -> (r: Self)
        ensures
            r.vfs.wf(),
            r.vfs.files() == Map::<u16, crate::vfs::VfsFile>::empty(),
            r.mail.owner_name() == actor.user@,
            r.mail.pending().len() == CHANNEL_COUNT,
            forall|i: int|
                0 <= i < CHANNEL_COUNT ==> #[trigger] r.mail.pending()[i] == (
                    0u8,
                    Seq::<u8>::empty(),
                ),
            r.sentry.actor() == actor,
    {
        let owner_name = copy_bytes(actor.user.as_slice());
        Vipc {
            vfs: Vfs::new(),
            mail: MailServer::new(owner_name),
            broadcast: MailBroadcastServer::new(),
            sentry: SentryServer::new(actor),
        }
    }

    /// Takes one VIPC message and gives it to the service its class names.
    pub fn process_message(&mut self, payload: &[u8]) -> (r: Result<VipcStep, FrameError>)
        requires
            old(self).vfs.wf(),
        ensures
            final(self).vfs.wf(),
            spec_vipc_step(*old(self), *final(self), payload@, r),
    {
        let route = match route(payload) {
            Ok(route) => route,
            Err(e) => {
                return Err(e);
            },
        };
        match route {
            VipcRoute::Vfs { note, request } => {
                let step = self.vfs.process_request(&request);
                let ghost g = step;
                let r = match step {
                    VfsStep::Respond(response) => match vfs_reply(note, &response) {
                        Ok(message) => {
                            let mut v: Vec<OutgoingMessage> = Vec::new();
                            v.push(message);
                            Ok(VipcStep::Reply(v))
                        },
                        Err(e) => Err(e),
                    },
                    VfsStep::Released { id, response } => Ok(
                        VipcStep::VfsReleased { id, reply: vfs_reply(note, &response) },
                    ),
                    VfsStep::Backend(op) => Ok(VipcStep::Vfs { note, header: request.header, op }),
                };
                assert(spec_vfs_outcome(note, request.header, g, r));
                r
            },
            VipcRoute::Mail { note, payload } => {
                let step = self.mail.process(note, payload);
                let ghost g = step;
                let r = match step {
                    MailStep::Ignored => Ok(VipcStep::Reply(Vec::new())),
                    MailStep::Respond(responses) => Ok(VipcStep::Reply(mail_replies(responses))),
                    MailStep::Query { note, connection_id, query } => Ok(
                        VipcStep::Mail { note, connection_id, query },
                    ),
                };
                assert(spec_mail_outcome(g, r));
                r
            },
            VipcRoute::Sentry { note, payload } => {
                let step = self.sentry.process(payload);
                let ghost g = step;
                let r = match step {
                    SentryStep::Ignore => Ok(VipcStep::Reply(Vec::new())),
                    SentryStep::Reply(p) => {
                        let mut v: Vec<OutgoingMessage> = Vec::new();
                        v.push(sentry_reply(note, p));
                        Ok(VipcStep::Reply(v))
                    },
                    other => Ok(VipcStep::Sentry { note, step: other }),
                };
                assert(spec_sentry_outcome(note, g, r));
                r
            },
            VipcRoute::Broadcast { note, payload } => {
                let mut v: Vec<OutgoingMessage> = Vec::new();
                if let Some(p) = self.broadcast.process(payload) {
                    v.push(broadcast_reply(note, p));
                }
                Ok(VipcStep::Reply(v))
            },
            VipcRoute::Unknown { .. } => Ok(VipcStep::Reply(Vec::new())),
        }
    }
}

} // verus!
