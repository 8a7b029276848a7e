//! GRiDMail: the reassembly of request fragments per channel, the parsing of
//! the client's requests, and the records of every reply. The mailbox itself
//! lives in the database, which the caller reads when [`MailServer::process`]
//! asks it to and whose answer it hands back to [`MailServer::answer_list`] or
//! [`MailServer::answer_message`].
use vstd::prelude::*;

use crate::bytes::{contains_byte, push_all, spec_u16_le};
use crate::mail_protocol::{
    app_frame, single_record, spec_app_frame, spec_mail_id_bytes, spec_single_record,
    spec_transport, transport, MailId, SessionInitialize, TransportFragment, MAIL_SERVICE_ID,
    MORE, PROTOCOL_VERSION, RECORD_MARKER, SESSION_MARKER, TAG_TERMINATOR,
};
use crate::tlv::{
    lemma_encode_push, lemma_encoded_prefix_walks, lemma_find_in_prefix, spec_encode_entries,
    spec_encode_entry, spec_entry_fits, spec_find, spec_walk, Tlv, TlvEntry, TlvKind,
};

verus! {

pub const TAG_HEADER: u8 = 0x62;

pub const TAG_RECIPIENT: u8 = 0x74;

pub const TAG_SENDER: u8 = 0x66;

pub const TAG_DISPLAY_SENDER: u8 = 0x6b;

pub const TAG_SUBJECT: u8 = 0x73;

pub const TAG_BODY: u8 = 0x6e;

pub const TAG_SELECT: u8 = 0x53;

pub const TAG_INITIALIZE: u8 = 0x49;

pub const TAG_REQUEST_ACCEPTED: u8 = 0x54;

pub const CHANNEL_SESSION: u16 = 0;

pub const CHANNEL_CLOSE: u16 = 4;

pub const CHANNEL_TAGGED_REQUEST: u16 = 6;

pub const CHANNEL_SELECT: u16 = 7;

pub const CHANNEL_FLUSH: u16 = 8;

pub const CHANNEL_INITIALIZE: u16 = 0x0d;

pub const CHANNEL_FINALIZE: u16 = 0x0e;

pub const CHANNEL_DRAIN: u16 = 0x10;

pub const CHANNEL_COUNT: usize = 17;

pub const MAIL_HEADER_RESERVED_LEN: usize = 4;

pub const TAG_LEN: usize = 1;

/// The tag, the id, the reserved bytes and the status byte of a mail header.
pub const MAIL_HEADER_VALUE_LEN: usize = 12;

pub const MAX_REQUEST: usize = 65536;

pub const MAX_TAG_VALUE: usize = 65534;

pub const INITIALIZE_VALUE_LEN: usize = 2;

/// The observed 1/7 values match a bit mask over the confirmed 0/1/2 mail
/// statuses.
pub const NEW_MAIL_FILTER: u8 = 1;

pub const ALL_MAIL_FILTER: u8 = 7;

/// The third S control byte is 1 in every observed read-new request.
pub const READ_NEW_OPERATION: u8 = 1;

/// A stored message as the mail service reads it.
#[derive(Clone, Debug)]
pub struct Message {
    pub id: i64,
    pub mail_id: u32,
    pub sender: Vec<u8>,
    pub recipient: Vec<u8>,
    pub subject: Vec<u8>,
    pub body: Vec<u8>,
    pub attachment_path: Option<Vec<u8>>,
    pub is_read: bool,
}

/// A message about to be stored.
#[derive(Clone, Debug)]
pub struct NewMessage<'a> {
    pub sender_id: i64,
    pub recipient_id: i64,
    pub subject: &'a [u8],
    pub body: &'a [u8],
    /// Where the attachment lives, relative to the directory holding the
    /// database, so a mailbox stays valid when the server is moved.
    pub attachment_path: Option<&'a [u8]>,
}

/// One answer on a channel: its transport flags and its data.
#[derive(Debug, Clone, PartialEq, Eq)]
pub struct ChannelResponse {
    pub flags: u8,
    pub data: Vec<u8>,
}

impl ChannelResponse {
    pub fn final_message(data: Vec<u8>) -> (r: Self)
        ensures
            r.flags == 0,
            r.data@ == data@,
    {
        Self { flags: 0, data }
    }
}

/// One VIPC mail payload to send back, and the note it answers.
#[derive(Debug, Clone, PartialEq, Eq)]
pub struct MailResponse {
    pub note: u16,
    pub payload: Vec<u8>,
}

#[derive(Clone, Copy, Debug, PartialEq, Eq)]
pub enum MailStatusFilter {
    NewOnly,
    All,
    Other,
}

#[derive(Clone, Copy, Debug, PartialEq, Eq)]
pub enum MailOrder {
    OldestFirst,
    NewestFirst,
    Other,
}

#[derive(Clone, Copy, Debug, PartialEq, Eq)]
pub struct SelectControl {
    pub status_filter: MailStatusFilter,
    pub order: MailOrder,
    pub operation: u8,
}

/// What an `S` request asks for.
#[derive(Clone, Copy, Debug, PartialEq, Eq)]
pub enum SRequest {
    List,
    Detail([u8; 6]),
    ReadNew,
}

/// The mailbox read a request needs.
#[derive(Clone, Copy, Debug, PartialEq, Eq)]
pub enum MailQuery {
    /// Every message, oldest first.
    List,
    /// The message with this id.
    Find(u32),
    /// The oldest unread message, which is then to be marked read.
    FirstUnread,
}

/// What to do with one fragment.
#[derive(Debug, PartialEq, Eq)]
pub enum MailStep {
    /// Nothing is sent back.
    Ignored,
    /// These payloads are sent back.
    Respond(Vec<MailResponse>),
    /// The mailbox has to be read first; the answer goes to
    /// [`MailServer::answer_list`] or [`MailServer::answer_message`] with this
    /// note and connection id. A read that fails is answered with nothing.
    Query { note: u16, connection_id: u8, query: MailQuery },
}

/// The fields of an outgoing mail object.
#[derive(Clone, Copy, Debug)]
pub struct Outgoing<'a> {
    pub recipient: &'a [u8],
    pub subject: &'a [u8],
    pub body: &'a [u8],
}

#[derive(Clone, Copy, Debug, PartialEq, Eq)]
pub enum MailStatus {
    New,
    Read,
    Sent,
}

impl MailStatus {
    pub open spec fn spec_repr(self) -> u8 {
        match self {
            MailStatus::New => 0,
            MailStatus::Read => 1,
            MailStatus::Sent => 2,
        }
    }

    pub fn repr(self) -> (r: u8)
        ensures
            r == self.spec_repr(),
    {
        match self {
            MailStatus::New => 0,
            MailStatus::Read => 1,
            MailStatus::Sent => 2,
        }
    }
}

#[derive(Clone, Copy, Debug)]
pub struct MailHeader {
    pub id: [u8; 6],
    pub status: MailStatus,
}

// ---------------------------------------------------------------------------
// Records of the replies
// ---------------------------------------------------------------------------

/// The record `<0xfd><length><tag><value>`.
pub open spec fn spec_tagged_record(tag: u8, value: Seq<u8>) -> Seq<u8> {
    spec_app_frame(RECORD_MARKER, seq![tag] + value)
}

/// The reply that says "no mail": a lone terminator record.
pub open spec fn spec_empty_mail_result() -> Seq<u8> {
    spec_app_frame(RECORD_MARKER, seq![TAG_TERMINATOR])
}

/// The header record of a stored message, always reported as read.
pub open spec fn spec_mail_header(m: Message) -> Seq<u8> {
    spec_app_frame(
        RECORD_MARKER,
        seq![TAG_HEADER] + spec_mail_id_bytes(m.mail_id) + seq![0u8, 0u8, 0u8, 0u8, 1u8],
    )
}

/// One line of a mailbox listing.
pub open spec fn spec_list_item(m: Message) -> Seq<u8> {
    spec_mail_header(m) + spec_tagged_record(TAG_DISPLAY_SENDER, m.sender@) + spec_tagged_record(
        TAG_SUBJECT,
        m.subject@,
    ) + spec_empty_mail_result()
}

/// The whole of one message. After parsing `z`, GRiDMail directly drains the
/// remaining response stream, which is why the body follows once more.
pub open spec fn spec_mail_detail(m: Message) -> Seq<u8> {
    spec_mail_header(m) + spec_tagged_record(TAG_RECIPIENT, m.recipient@) + spec_tagged_record(
        TAG_SENDER,
        m.sender@,
    ) + spec_tagged_record(TAG_DISPLAY_SENDER, m.sender@) + spec_tagged_record(
        TAG_SUBJECT,
        m.subject@,
    ) + spec_tagged_record(TAG_BODY, m.body@) + spec_empty_mail_result() + m.body@
}

/// A channel response as plain values.
pub open spec fn channel_view(r: ChannelResponse) -> (u8, Seq<u8>) {
    (r.flags, r.data@)
}

pub open spec fn channels_view(v: Seq<ChannelResponse>) -> Seq<(u8, Seq<u8>)> {
    v.map_values(|r: ChannelResponse| channel_view(r))
}

/// The listing replies: one per message, every one but the last flagged as
/// continued; an empty mailbox is a lone "no mail".
pub open spec fn spec_mailbox_list(ms: Seq<Message>) -> Seq<(u8, Seq<u8>)> {
    if ms.len() == 0 {
        seq![(0u8, spec_empty_mail_result())]
    } else {
        Seq::new(
            ms.len(),
            |i: int| (if i == ms.len() - 1 { 0u8 } else { MORE }, spec_list_item(ms[i])),
        )
    }
}

/// The mail payloads that carry `responses` on `note` for `connection_id`.
pub open spec fn spec_responses(note: u16, connection_id: u8, responses: Seq<(u8, Seq<u8>)>) -> Seq<
    (u16, Seq<u8>),
> {
    responses.map_values(
        |r: (u8, Seq<u8>)| (note, spec_transport(r.0, connection_id, r.1)),
    )
}

pub open spec fn mail_responses_view(v: Seq<MailResponse>) -> Seq<(u16, Seq<u8>)> {
    v.map_values(|r: MailResponse| (r.note, r.payload@))
}

impl MailHeader {
    pub fn encode(&self) -> (r: Vec<u8>)
        ensures
            r@ == spec_app_frame(
                RECORD_MARKER,
                seq![TAG_HEADER] + self.id@ + seq![0u8, 0u8, 0u8, 0u8, self.status.spec_repr()],
            ),
    {
        let mut value: Vec<u8> = Vec::with_capacity(MAIL_HEADER_VALUE_LEN);
        value.push(TAG_HEADER);
        push_all(&mut value, &self.id);
        value.push(0);
        value.push(0);
        value.push(0);
        value.push(0);
        value.push(self.status.repr());
        assert(value@ =~= seq![TAG_HEADER] + self.id@ + seq![0u8, 0u8, 0u8, 0u8, self.status.spec_repr()]);
        app_frame(RECORD_MARKER, value.as_slice())
    }
}

pub fn mail_header(message: &Message) -> (r: Vec<u8>)
    ensures
        r@ == spec_mail_header(*message),
{
    let h = MailHeader { id: MailId::from_u32(message.mail_id).wire_bytes(), status: MailStatus::Read };
    let r = h.encode();
    assert(seq![TAG_HEADER] + h.id@ + seq![0u8, 0u8, 0u8, 0u8, 1u8] =~= seq![TAG_HEADER]
        + spec_mail_id_bytes(message.mail_id) + seq![0u8, 0u8, 0u8, 0u8, 1u8]);
    r
}

pub fn empty_mail_result() -> (r: Vec<u8>)
    ensures
        r@ == spec_empty_mail_result(),
{
    let r = app_frame(RECORD_MARKER, &[TAG_TERMINATOR]);
    assert([TAG_TERMINATOR]@ =~= seq![TAG_TERMINATOR]);
    r
}

pub fn tagged_record(tag: u8, value: &[u8]) -> (r: Vec<u8>)
    ensures
        r@ == spec_tagged_record(tag, value@),
{
    let mut record: Vec<u8> = Vec::new();
    record.push(tag);
    push_all(&mut record, value);
    assert(record@ =~= seq![tag] + value@);
    app_frame(RECORD_MARKER, record.as_slice())
}

pub fn mail_detail(message: &Message) -> (r: Vec<u8>)
    ensures
        r@ == spec_mail_detail(*message),
{
    let mut data: Vec<u8> = Vec::with_capacity(64);
    push_all(&mut data, mail_header(message).as_slice());
    push_all(&mut data, tagged_record(TAG_RECIPIENT, message.recipient.as_slice()).as_slice());
    push_all(&mut data, tagged_record(TAG_SENDER, message.sender.as_slice()).as_slice());
    push_all(&mut data, tagged_record(TAG_DISPLAY_SENDER, message.sender.as_slice()).as_slice());
    push_all(&mut data, tagged_record(TAG_SUBJECT, message.subject.as_slice()).as_slice());
    push_all(&mut data, tagged_record(TAG_BODY, message.body.as_slice()).as_slice());
    push_all(&mut data, empty_mail_result().as_slice());
    push_all(&mut data, message.body.as_slice());
    assert(data@ =~= spec_mail_detail(*message));
    data
}

/// One response per message, every one but the last flagged as continued.
pub fn mailbox_list(messages: &[Message]) -> (r: Vec<ChannelResponse>)
    ensures
        channels_view(r@) == spec_mailbox_list(messages@),
{
    if messages.len() == 0 {
        let r = vec![ChannelResponse::final_message(empty_mail_result())];
        assert(channels_view(r@) =~= spec_mailbox_list(messages@));
        return r;
    }
    let last = messages.len() - 1;
    let mut out: Vec<ChannelResponse> = Vec::new();
    let mut index: usize = 0;
    while index < messages.len()
        invariant
            last == messages@.len() - 1,
            index <= messages@.len(),
            out@.len() == index,
            forall|i: int|
                0 <= i < index ==> channel_view(#[trigger] out@[i]) == spec_mailbox_list(
                    messages@,
                )[i],
        decreases messages@.len() - index,
    {
        let message = &messages[index];
        let mut data = mail_header(message);
        push_all(&mut data, tagged_record(TAG_DISPLAY_SENDER, message.sender.as_slice()).as_slice());
        push_all(&mut data, tagged_record(TAG_SUBJECT, message.subject.as_slice()).as_slice());
        push_all(&mut data, empty_mail_result().as_slice());
        let flags = if index == last {
            0
        } else {
            MORE
        };
        assert(data@ =~= spec_list_item(messages@[index as int]));
        out.push(ChannelResponse { flags, data });
        index = index + 1;
    }
    assert(channels_view(out@) =~= spec_mailbox_list(messages@));
    out
}

// ---------------------------------------------------------------------------
// What a reader finds in the replies
// ---------------------------------------------------------------------------

/// The dialect the mail replies are written in.
pub open spec fn reply_records() -> TlvKind {
    TlvKind::MarkerU16 { marker: RECORD_MARKER }
}

/// The value of the header record of `m`: its id and its status bytes.
pub open spec fn spec_header_value(m: Message) -> Seq<u8> {
    spec_mail_id_bytes(m.mail_id) + seq![0u8, 0u8, 0u8, 0u8, 1u8]
}

/// A record written with [`tagged_record`] is one record of the reply dialect.
proof fn lemma_record_is_entry(tag: u8, value: Seq<u8>)
    requires
        value.len() < 0xffff,
    ensures
        spec_tagged_record(tag, value) == spec_encode_entry((tag, value), reply_records()),
        spec_entry_fits((tag, value), reply_records()),
{
    assert(spec_tagged_record(tag, value) =~= spec_encode_entry((tag, value), reply_records()));
}

/// The records `es`, written one after the other, begin `data`: a reader of
/// `data` finds in it what it finds in `es`, under every tag `es` holds.
proof fn lemma_reads_records(data: Seq<u8>, es: Seq<(u8, Seq<u8>)>, wanted: u8)
    requires
        spec_encode_entries(es, reply_records()).len() <= data.len(),
        data.subrange(0, spec_encode_entries(es, reply_records()).len() as int) == spec_encode_entries(
            es,
            reply_records(),
        ),
        forall|i: int| 0 <= i < es.len() ==> spec_entry_fits(#[trigger] es[i], reply_records()),
        spec_find(es, wanted) is Some,
    ensures
        spec_find(spec_walk(data, 0, reply_records()).0, wanted) == spec_find(es, wanted),
{
    lemma_encoded_prefix_walks(data, 0, es, reply_records());
    lemma_find_in_prefix(spec_walk(data, 0, reply_records()).0, es, wanted);
}

/// A reader of the detail reply of `m` that looks its records up by tag finds
/// the message's recipient under the recipient tag, its sender under the
/// sender tag and under the tag the client shows as the sender, its subject,
/// its body, and a header that carries the message's id.
#[verifier::spinoff_prover]
#[verifier::rlimit(40)]
pub proof fn lemma_mail_detail_records(m: Message)
    requires
        m.recipient@.len() < 0xffff,
        m.sender@.len() < 0xffff,
        m.subject@.len() < 0xffff,
        m.body@.len() < 0xffff,
    ensures
        ({
            let es = spec_walk(spec_mail_detail(m), 0, reply_records()).0;
            &&& spec_find(es, TAG_HEADER) matches Some(h) && h.subrange(0, 6) == spec_mail_id_bytes(
                m.mail_id,
            )
            &&& spec_find(es, TAG_RECIPIENT) == Some(m.recipient@)
            &&& spec_find(es, TAG_SENDER) == Some(m.sender@)
            &&& spec_find(es, TAG_DISPLAY_SENDER) == Some(m.sender@)
            &&& spec_find(es, TAG_SUBJECT) == Some(m.subject@)
            &&& spec_find(es, TAG_BODY) == Some(m.body@)
        }),
{
    let k = reply_records();
    let h = (TAG_HEADER, spec_header_value(m));
    let e1 = (TAG_RECIPIENT, m.recipient@);
    let e2 = (TAG_SENDER, m.sender@);
    let e3 = (TAG_DISPLAY_SENDER, m.sender@);
    let e4 = (TAG_SUBJECT, m.subject@);
    let e5 = (TAG_BODY, m.body@);
    let s0 = Seq::<(u8, Seq<u8>)>::empty();
    let s1 = s0.push(h);
    let s2 = s1.push(e1);
    let s3 = s2.push(e2);
    let s4 = s3.push(e3);
    let s5 = s4.push(e4);
    let es = s5.push(e5);
    lemma_encode_push(s0, h, k);
    lemma_encode_push(s1, e1, k);
    lemma_encode_push(s2, e2, k);
    lemma_encode_push(s3, e3, k);
    lemma_encode_push(s4, e4, k);
    lemma_encode_push(s5, e5, k);
    assert(spec_header_value(m).len() == 11);
    assert(spec_mail_header(m) == spec_tagged_record(TAG_HEADER, spec_header_value(m))) by {
        assert(seq![TAG_HEADER] + spec_mail_id_bytes(m.mail_id) + seq![0u8, 0u8, 0u8, 0u8, 1u8]
            =~= seq![TAG_HEADER] + spec_header_value(m));
    }
    lemma_record_is_entry(TAG_HEADER, spec_header_value(m));
    lemma_record_is_entry(TAG_RECIPIENT, m.recipient@);
    lemma_record_is_entry(TAG_SENDER, m.sender@);
    lemma_record_is_entry(TAG_DISPLAY_SENDER, m.sender@);
    lemma_record_is_entry(TAG_SUBJECT, m.subject@);
    lemma_record_is_entry(TAG_BODY, m.body@);
    let enc = spec_encode_entries(es, k);
    let d = spec_mail_detail(m);
    assert(spec_encode_entries(s0, k) =~= Seq::<u8>::empty());
    assert(d =~= enc + (spec_empty_mail_result() + m.body@));
    assert(d.subrange(0, enc.len() as int) =~= enc);
    assert(es =~= seq![h, e1, e2, e3, e4, e5]);
    assert forall|i: int| 0 <= i < es.len() implies spec_entry_fits(#[trigger] es[i], k) by {}
    reveal_with_fuel(spec_find, 7);
    assert(spec_find(es, TAG_HEADER) == Some(spec_header_value(m)));
    assert(spec_header_value(m).subrange(0, 6) =~= spec_mail_id_bytes(m.mail_id));
    lemma_reads_records(d, es, TAG_HEADER);
    lemma_reads_records(d, es, TAG_RECIPIENT);
    lemma_reads_records(d, es, TAG_SENDER);
    lemma_reads_records(d, es, TAG_DISPLAY_SENDER);
    lemma_reads_records(d, es, TAG_SUBJECT);
    lemma_reads_records(d, es, TAG_BODY);
}

/// A mailbox listing has one item per message, in the mailbox's order, every
/// one but the last flagged as continued. A reader of item `i` finds message
/// `i`'s id in its header, message `i`'s sender under the tag the client shows
/// as the sender, and message `i`'s subject.
#[verifier::spinoff_prover]
pub proof fn lemma_mailbox_list_items(ms: Seq<Message>, i: int)
    requires
        0 <= i < ms.len(),
        ms[i].sender@.len() < 0xffff,
        ms[i].subject@.len() < 0xffff,
    ensures
        spec_mailbox_list(ms).len() == ms.len(),
        spec_mailbox_list(ms)[i].0 == (if i == ms.len() - 1 {
            0u8
        } else {
            MORE
        }),
        ({
            let es = spec_walk(spec_mailbox_list(ms)[i].1, 0, reply_records()).0;
            &&& spec_find(es, TAG_HEADER) matches Some(h) && h.subrange(0, 6) == spec_mail_id_bytes(
                ms[i].mail_id,
            )
            &&& spec_find(es, TAG_DISPLAY_SENDER) == Some(ms[i].sender@)
            &&& spec_find(es, TAG_SUBJECT) == Some(ms[i].subject@)
        }),
{
    let m = ms[i];
    let k = reply_records();
    let h = (TAG_HEADER, spec_header_value(m));
    let e1 = (TAG_DISPLAY_SENDER, m.sender@);
    let e2 = (TAG_SUBJECT, m.subject@);
    let s0 = Seq::<(u8, Seq<u8>)>::empty();
    let s1 = s0.push(h);
    let s2 = s1.push(e1);
    let es = s2.push(e2);
    lemma_encode_push(s0, h, k);
    lemma_encode_push(s1, e1, k);
    lemma_encode_push(s2, e2, k);
    assert(spec_header_value(m).len() == 11);
    assert(spec_mail_header(m) == spec_tagged_record(TAG_HEADER, spec_header_value(m))) by {
        assert(seq![TAG_HEADER] + spec_mail_id_bytes(m.mail_id) + seq![0u8, 0u8, 0u8, 0u8, 1u8]
            =~= seq![TAG_HEADER] + spec_header_value(m));
    }
    lemma_record_is_entry(TAG_HEADER, spec_header_value(m));
    lemma_record_is_entry(TAG_DISPLAY_SENDER, m.sender@);
    lemma_record_is_entry(TAG_SUBJECT, m.subject@);
    let enc = spec_encode_entries(es, k);
    let d = spec_mailbox_list(ms)[i].1;
    assert(d == spec_list_item(m));
    assert(spec_encode_entries(s0, k) =~= Seq::<u8>::empty());
    assert(d =~= enc + spec_empty_mail_result());
    assert(d.subrange(0, enc.len() as int) =~= enc);
    assert(es =~= seq![h, e1, e2]);
    assert forall|j: int| 0 <= j < es.len() implies spec_entry_fits(#[trigger] es[j], k) by {}
    reveal_with_fuel(spec_find, 4);
    assert(spec_find(es, TAG_HEADER) == Some(spec_header_value(m)));
    assert(spec_header_value(m).subrange(0, 6) =~= spec_mail_id_bytes(m.mail_id));
    lemma_reads_records(d, es, TAG_HEADER);
    lemma_reads_records(d, es, TAG_DISPLAY_SENDER);
    lemma_reads_records(d, es, TAG_SUBJECT);
}

// ---------------------------------------------------------------------------
// Requests
// ---------------------------------------------------------------------------

impl SelectControl {
    pub open spec fn spec_parse(b: Seq<u8>) -> SelectControl {
        SelectControl {
            status_filter: if b[0] == NEW_MAIL_FILTER {
                MailStatusFilter::NewOnly
            } else if b[0] == ALL_MAIL_FILTER {
                MailStatusFilter::All
            } else {
                MailStatusFilter::Other
            },
            order: if b[1] == 0 {
                MailOrder::OldestFirst
            } else if b[1] == 1 {
                MailOrder::NewestFirst
            } else {
                MailOrder::Other
            },
            operation: b[2],
        }
    }

    pub fn parse(bytes: [u8; 3]) -> (r: Self)
        ensures
            r == Self::spec_parse(bytes@),
    {
        Self {
            status_filter: if bytes[0] == NEW_MAIL_FILTER {
                MailStatusFilter::NewOnly
            } else if bytes[0] == ALL_MAIL_FILTER {
                MailStatusFilter::All
            } else {
                MailStatusFilter::Other
            },
            // These values are protocol literals emitted by Mail_GetQueryOrder.
            order: if bytes[1] == 0 {
                MailOrder::OldestFirst
            } else if bytes[1] == 1 {
                MailOrder::NewestFirst
            } else {
                MailOrder::Other
            },
            operation: bytes[2],
        }
    }

    pub open spec fn spec_reads_new_mail(self) -> bool {
        self.status_filter == MailStatusFilter::NewOnly && self.order == MailOrder::OldestFirst
            && self.operation == READ_NEW_OPERATION
    }

    pub fn reads_new_mail(&self) -> (r: bool)
        ensures
            r == self.spec_reads_new_mail(),
    {
        let filter_new = match self.status_filter {
            MailStatusFilter::NewOnly => true,
            _ => false,
        };
        let oldest = match self.order {
            MailOrder::OldestFirst => true,
            _ => false,
        };
        filter_new && oldest && self.operation == READ_NEW_OPERATION
    }
}

impl SRequest {
    /// What the payload of a select request asks for: exactly one `S` record
    /// of three control bytes, a six byte mail id and the tags wanted.
    pub open spec fn spec_parse(data: Seq<u8>) -> Option<SRequest> {
        match spec_single_record(data, RECORD_MARKER, TAG_SELECT) {
            None => None,
            Some(v) => if v.len() < 9 {
                None
            } else if !v.subrange(9, v.len() as int).contains(TAG_BODY) {
                Some(SRequest::List)
            } else if SelectControl::spec_parse(v.subrange(0, 3)).spec_reads_new_mail() {
                Some(SRequest::ReadNew)
            } else {
                Some(
                    SRequest::Detail(
                        [v[3], v[4], v[5], v[6], v[7], v[8]],
                    ),
                )
            },
        }
    }

    pub fn parse(data: &[u8]) -> (r: Option<Self>)
        ensures
            match Self::spec_parse(data@) {
                None => r is None,
                Some(SRequest::List) => r == Some(SRequest::List),
                Some(SRequest::ReadNew) => r == Some(SRequest::ReadNew),
                Some(SRequest::Detail(id)) => (r matches Some(SRequest::Detail(x)) && x@ == id@),
            },
    {
        // The whole payload must be exactly one `S` record: a trailing second
        // record would mean the client asked for something this parse ignores.
        let value = single_record(data, RECORD_MARKER, TAG_SELECT)?;
        if value.len() < 9 {
            return None;
        }
        let control = SelectControl::parse([value[0], value[1], value[2]]);
        let id: [u8; 6] = [value[3], value[4], value[5], value[6], value[7], value[8]];
        let requested_tags = &value[9..value.len()];
        proof {
            assert([value[0], value[1], value[2]]@ =~= value@.subrange(0, 3));
        }
        if !contains_byte(requested_tags, TAG_BODY) {
            return Some(Self::List);
        }
        if control.reads_new_mail() {
            Some(Self::ReadNew)
        } else {
            Some(Self::Detail(id))
        }
    }
}


/// An `I` request is one record holding a two byte value.
pub open spec fn spec_valid_i_request(data: Seq<u8>) -> bool {
    spec_single_record(data, RECORD_MARKER, TAG_INITIALIZE) matches Some(v) && v.len()
        == INITIALIZE_VALUE_LEN
}

pub fn valid_i_request(data: &[u8]) -> (r: bool)
    ensures
        r == spec_valid_i_request(data@),
{
    match single_record(data, RECORD_MARKER, TAG_INITIALIZE) {
        Some(value) => value.len() == INITIALIZE_VALUE_LEN,
        None => false,
    }
}

/// Whether every byte is ASCII. GRiD text is ASCII, which every byte the
/// client sends should already satisfy; anything above it is not text this
/// server can store, and the message is refused rather than mangled.
pub open spec fn spec_is_ascii(value: Seq<u8>) -> bool {
    forall|i: int| 0 <= i < value.len() ==> value[i] < 128
}

pub fn is_ascii(value: &[u8]) -> (r: bool)
    ensures
        r == spec_is_ascii(value@),
{
    let mut i: usize = 0;
    while i < value.len()
        invariant
            i <= value@.len(),
            forall|k: int| 0 <= k < i ==> value@[k] < 128,
        decreases value@.len() - i,
    {
        if value[i] >= 128 {
            return false;
        }
        i = i + 1;
    }
    true
}

/// `value`, if it is text.
pub fn text(value: &[u8]) -> (r: Option<&[u8]>)
    ensures
        spec_is_ascii(value@) ==> (r matches Some(v) && v@ == value@),
        !spec_is_ascii(value@) ==> r is None,
{
    if is_ascii(value) {
        Some(value)
    } else {
        None
    }
}

/// The value of the first `n` record that is immediately followed by an empty
/// `z` record.
pub open spec fn spec_body_of(es: Seq<(u8, Seq<u8>)>) -> Option<Seq<u8>>
    decreases es.len(),
{
    if es.len() < 2 {
        None
    } else if es[0].0 == TAG_BODY && es[1].0 == TAG_TERMINATOR && es[1].1.len() == 0 {
        Some(es[0].1)
    } else {
        spec_body_of(es.drop_first())
    }
}

/// The body of an outgoing mail object: the `n` record that is immediately
/// followed by the `z` terminator, which is where GRiDMail stops writing. A
/// rewritten mail object can keep a tail of the longer version it replaced, so
/// the records before it are read rather than the whole buffer rejected.
pub fn outgoing_body(data: &[u8]) -> (r: Option<&[u8]>)
    ensures
        match spec_body_of(spec_walk(data@, 0, TlvKind::MarkerU16 { marker: RECORD_MARKER }).0) {
            Some(v) => (r matches Some(x) && x@ == v),
            None => r is None,
        },
{
    let entries = Tlv::marker_u16(data, RECORD_MARKER).well_formed_prefix();
    let ghost es = crate::tlv::entries_view(entries@);
    let mut i: usize = 0;
    assert(es.subrange(0, es.len() as int) =~= es);
    while entries.len() - i >= 2
        invariant
            es == crate::tlv::entries_view(entries@),
            es == spec_walk(data@, 0, TlvKind::MarkerU16 { marker: RECORD_MARKER }).0,
            es.len() == entries@.len(),
            i <= entries@.len(),
            spec_body_of(es) == spec_body_of(es.subrange(i as int, es.len() as int)),
        decreases entries@.len() - i,
    {
        let first = entries[i];
        let second = entries[i + 1];
        let ghost rest = es.subrange(i as int, es.len() as int);
        assert(rest[0] == first@ && rest[1] == second@);
        if first.tag == TAG_BODY && second.tag == TAG_TERMINATOR && second.value.len() == 0 {
            return Some(first.value);
        }
        assert(rest.drop_first() =~= es.subrange(i + 1, es.len() as int));
        i = i + 1;
    }
    None
}

/// The fields of an outgoing mail object, if each is present and text.
pub open spec fn spec_outgoing_fields(data: Seq<u8>) -> Option<(Seq<u8>, Seq<u8>, Seq<u8>)> {
    let es = spec_walk(data, 0, TlvKind::MarkerU16 { marker: RECORD_MARKER }).0;
    match (
        crate::tlv::spec_find(es, TAG_RECIPIENT),
        crate::tlv::spec_find(es, TAG_SUBJECT),
        spec_body_of(es),
    ) {
        (Some(r), Some(s), Some(b)) => if spec_is_ascii(r) && spec_is_ascii(s) && spec_is_ascii(
            b,
        ) {
            Some((r, s, b))
        } else {
            None
        },
        _ => None,
    }
}

/// The size of the largest reply a message with these fields causes: its
/// detail, which repeats the body after the terminator.
pub open spec fn spec_detail_len(recipient: int, sender: int, subject: int, body: int) -> int {
    43 + recipient + 2 * sender + subject + 2 * body
}

impl<'a> Outgoing<'a> {
    pub fn parse(data: &'a [u8]) -> (r: Option<Self>)
        ensures
            match spec_outgoing_fields(data@) {
                Some((rc, s, b)) => (r matches Some(o) && o.recipient@ == rc && o.subject@ == s
                    && o.body@ == b),
                None => r is None,
            },
    {
        let recipient = text(Tlv::marker_u16(data, RECORD_MARKER).find_tag(TAG_RECIPIENT)?)?;
        let subject = text(Tlv::marker_u16(data, RECORD_MARKER).find_tag(TAG_SUBJECT)?)?;
        let body = text(outgoing_body(data)?)?;
        Some(Self { recipient, subject, body })
    }

    pub fn as_new_message(&self, sender_id: i64, recipient_id: i64) -> (r: NewMessage<'a>)
        ensures
            r.sender_id == sender_id,
            r.recipient_id == recipient_id,
            r.subject@ == self.subject@,
            r.body@ == self.body@,
            r.attachment_path is None,
    {
        NewMessage {
            sender_id,
            recipient_id,
            subject: self.subject,
            body: self.body,
            attachment_path: None,
        }
    }

    /// Whether the detail reply for this message, sent by `sender`, fits one
    /// VIPC payload and every field fits its record.
    pub fn fits_vipc_payload(&self, sender: &[u8]) -> (r: bool)
        ensures
            r == (self.recipient@.len() <= MAX_TAG_VALUE && sender@.len() <= MAX_TAG_VALUE
                && self.subject@.len() <= MAX_TAG_VALUE && self.body@.len() <= MAX_TAG_VALUE
                && spec_detail_len(
                self.recipient@.len() as int,
                sender@.len() as int,
                self.subject@.len() as int,
                self.body@.len() as int,
            ) <= 0xffff),
    {
        if self.recipient.len() > MAX_TAG_VALUE || sender.len() > MAX_TAG_VALUE
            || self.subject.len() > MAX_TAG_VALUE || self.body.len() > MAX_TAG_VALUE {
            return false;
        }
        let total: u64 = 43 + self.recipient.len() as u64 + 2 * sender.len() as u64
            + self.subject.len() as u64 + 2 * self.body.len() as u64;
        total <= 0xffff
    }
}

// ---------------------------------------------------------------------------
// The session
// ---------------------------------------------------------------------------

/// The part of a request received so far on one channel.
#[derive(Clone, Debug)]
pub struct Pending {
    pub connection_id: u8,
    pub data: Vec<u8>,
}

pub open spec fn pending_view(p: Pending) -> (u8, Seq<u8>) {
    (p.connection_id, p.data@)
}

/// The answer, if any, to a complete request `data` on `note`. Select requests
/// are left to [`spec_select`].
pub open spec fn spec_answer(note: u16, data: Seq<u8>) -> Option<Seq<(u8, Seq<u8>)>> {
    if note == CHANNEL_SESSION {
        if SessionInitialize::spec_parse(data) == Some(
            SessionInitialize { service_id: MAIL_SERVICE_ID, protocol_version: PROTOCOL_VERSION },
        ) {
            Some(seq![(0u8, spec_app_frame(SESSION_MARKER, seq![TAG_TERMINATOR]))])
        } else {
            None
        }
    } else if note == CHANNEL_TAGGED_REQUEST {
        let w = spec_walk(data, 0, TlvKind::MarkerU16 { marker: RECORD_MARKER });
        if w.1 is None && w.0.len() > 0 {
            Some(seq![(0u8, spec_app_frame(RECORD_MARKER, seq![TAG_REQUEST_ACCEPTED]))])
        } else {
            None
        }
    } else if note == CHANNEL_INITIALIZE {
        if spec_valid_i_request(data) {
            Some(seq![(0u8, spec_empty_mail_result())])
        } else {
            None
        }
    } else if note == CHANNEL_CLOSE || note == CHANNEL_FLUSH || note == CHANNEL_FINALIZE || note
        == CHANNEL_DRAIN {
        if data.len() == 0 {
            Some(seq![(0u8, spec_empty_mail_result())])
        } else {
            None
        }
    } else {
        None
    }
}

/// How a select request is served: either at once, or by a mailbox read.
pub open spec fn spec_select(request: SRequest) -> Result<MailQuery, Seq<(u8, Seq<u8>)>> {
    match request {
        SRequest::List => Ok(MailQuery::List),
        SRequest::ReadNew => Ok(MailQuery::FirstUnread),
        SRequest::Detail(id) => if id@[4] == 0 && id@[5] == 0 {
            Ok(MailQuery::Find(crate::bytes::spec_u32_le(id@)))
        } else {
            Err(seq![(0u8, spec_empty_mail_result())])
        },
    }
}

/// The reply to a mailbox read that found `message`, or nothing.
pub open spec fn spec_message_answer(message: Option<Message>) -> Seq<(u8, Seq<u8>)> {
    match message {
        Some(m) => seq![(0u8, spec_mail_detail(m))],
        None => seq![(0u8, spec_empty_mail_result())],
    }
}

/// What a complete request `data` on `note` from `connection_id` comes to:
/// `None` when nothing is sent back, `Ok` with the mailbox read it waits for,
/// or `Err` with the payloads that answer it at once.
pub open spec fn spec_request_outcome(note: u16, connection_id: u8, data: Seq<u8>) -> Option<
    Result<MailQuery, Seq<(u16, Seq<u8>)>>,
> {
    if note == CHANNEL_SELECT {
        match SRequest::spec_parse(data) {
            None => None,
            Some(request) => match spec_select(request) {
                Ok(query) => Some(Ok(query)),
                Err(rs) => Some(Err(spec_responses(note, connection_id, rs))),
            },
        }
    } else {
        match spec_answer(note, data) {
            Some(rs) => Some(Err(spec_responses(note, connection_id, rs))),
            None => None,
        }
    }
}

/// Whether the step `r` is the outcome `o` of a request on `note` from
/// `connection_id`.
pub open spec fn step_is(
    r: MailStep,
    note: u16,
    connection_id: u8,
    o: Option<Result<MailQuery, Seq<(u16, Seq<u8>)>>>,
) -> bool {
    match o {
        None => r is Ignored,
        Some(Ok(query)) => r == MailStep::Query { note, connection_id, query },
        Some(Err(payloads)) => (r matches MailStep::Respond(v) && mail_responses_view(v@)
            == payloads),
    }
}

/// One fragment `payload` on `note`, taken with the channels holding `before`,
/// leaves them holding `after` and comes to `r`.
pub open spec fn spec_process_step(
    before: Seq<(u8, Seq<u8>)>,
    note: u16,
    payload: Seq<u8>,
    after: Seq<(u8, Seq<u8>)>,
    r: MailStep,
) -> bool {
    let ch = note as int;
    let cleared = before.update(ch, (0u8, Seq::<u8>::empty()));
    if ch >= before.len() {
        r is Ignored && after == before
    } else if payload.len() < 4 || spec_u16_le(payload[2], payload[3]) != 0 {
        r is Ignored && after == cleared
    } else {
        let flags = payload[0];
        let connection_id = payload[1];
        let data = payload.subrange(4, payload.len() as int);
        let held = if before[ch].1.len() != 0 && before[ch].0 != connection_id {
            Seq::<u8>::empty()
        } else {
            before[ch].1
        };
        if held.len() + data.len() > MAX_REQUEST {
            r is Ignored && after == cleared
        } else if flags & MORE != 0 {
            r is Ignored && after == before.update(ch, (connection_id, held + data))
        } else {
            after == cleared && step_is(
                r,
                note,
                connection_id,
                spec_request_outcome(note, connection_id, held + data),
            )
        }
    }
}

/// A request sent in two fragments on an idle channel, the first flagged as
/// continued and both from the same connection, is answered as the request
/// the two make together.
pub proof fn lemma_fragments_reassemble(
    before: Seq<(u8, Seq<u8>)>,
    note: u16,
    first: Seq<u8>,
    second: Seq<u8>,
    middle: Seq<(u8, Seq<u8>)>,
    after: Seq<(u8, Seq<u8>)>,
    r1: MailStep,
    r2: MailStep,
)
    requires
        (note as int) < before.len(),
        before[note as int].1.len() == 0,
        first.len() >= 4,
        second.len() >= 4,
        spec_u16_le(first[2], first[3]) == 0,
        spec_u16_le(second[2], second[3]) == 0,
        first[0] & MORE != 0,
        second[0] & MORE == 0,
        first[1] == second[1],
        (first.len() - 4) + (second.len() - 4) <= MAX_REQUEST,
        spec_process_step(before, note, first, middle, r1),
        spec_process_step(middle, note, second, after, r2),
    ensures
        r1 is Ignored,
        step_is(
            r2,
            note,
            first[1],
            spec_request_outcome(
                note,
                first[1],
                first.subrange(4, first.len() as int) + second.subrange(4, second.len() as int),
            ),
        ),
        after[note as int] == (0u8, Seq::<u8>::empty()),
{
    assert(Seq::<u8>::empty() + first.subrange(4, first.len() as int) =~= first.subrange(
        4,
        first.len() as int,
    ));
}

/// The mail service of one session: the reassembly buffer of each channel,
/// and the name its owner appears under in the mail it sends.
pub struct MailServer {
    fragments: Vec<Pending>,
    owner_name: Vec<u8>,
}

impl MailServer {
    /// The part of a request received so far on each channel.
    pub closed spec fn pending(self) -> Seq<(u8, Seq<u8>)> {
        self.fragments@.map_values(|p: Pending| pending_view(p))
    }

    pub closed spec fn owner_name(self) -> Seq<u8> {
        self.owner_name@
    }

    /// The name is held here rather than read back per message because the
    /// size of a response has to be known before the message is stored.
    pub fn new(owner_name: Vec<u8>) -> (r: Self)
        ensures
            r.owner_name() == owner_name@,
            r.pending().len() == CHANNEL_COUNT,
            forall|i: int| 0 <= i < CHANNEL_COUNT ==> #[trigger] r.pending()[i] == (0u8, Seq::<u8>::empty()),
    {
        let mut fragments: Vec<Pending> = Vec::new();
        let mut i: usize = 0;
        while i < CHANNEL_COUNT
            invariant
                i <= CHANNEL_COUNT,
                fragments@.len() == i,
                forall|k: int| 0 <= k < i ==> #[trigger] pending_view(fragments@[k]) == (0u8, Seq::<u8>::empty()),
            decreases CHANNEL_COUNT - i,
        {
            fragments.push(Pending { connection_id: 0, data: Vec::new() });
            i = i + 1;
        }
        Self { fragments, owner_name }
    }

    /// The fields of an outgoing message this session may send, if it is well
    /// formed and its replies fit one VIPC payload; the caller resolves the
    /// recipient and stores it.
    pub fn prepare_outgoing<'a>(&self, data: &'a [u8]) -> (r: Option<Outgoing<'a>>)
        ensures
            match spec_outgoing_fields(data@) {
                Some((rc, s, b)) => {
                    let fits = rc.len() <= MAX_TAG_VALUE && self.owner_name().len() <= MAX_TAG_VALUE
                        && s.len() <= MAX_TAG_VALUE && b.len() <= MAX_TAG_VALUE && spec_detail_len(
                        rc.len() as int,
                        self.owner_name().len() as int,
                        s.len() as int,
                        b.len() as int,
                    ) <= 0xffff;
                    &&& fits ==> (r matches Some(o) && o.recipient@ == rc && o.subject@ == s
                        && o.body@ == b)
                    &&& !fits ==> r is None
                },
                None => r is None,
            },
    {
        let outgoing = Outgoing::parse(data)?;
        if !outgoing.fits_vipc_payload(self.owner_name.as_slice()) {
            return None;
        }
        Some(outgoing)
    }

    /// Takes one fragment of a request on channel `note`. A fragment flagged
    /// as continued is kept until the rest arrives; a fragment from another
    /// connection, a malformed one or one that would make the request larger
    /// than [`MAX_REQUEST`] drops what the channel held.
    pub fn process(&mut self, note: u16, payload: &[u8]) -> (r: MailStep)
        ensures
            spec_process_step(old(self).pending(), note, payload@, final(self).pending(), r),
            final(self).owner_name() == old(self).owner_name(),
    {
        assert(self.fragments@.len() == self.pending().len());
        let ghost before = self.pending();
        let channel = note as usize;
        if channel >= self.fragments.len() {
            return MailStep::Ignored;
        }
        let fragment = match TransportFragment::parse(payload) {
            Some(fragment) => fragment,
            None => {
                self.reset(channel);
                return MailStep::Ignored;
            },
        };
        if fragment.error != 0 {
            self.reset(channel);
            return MailStep::Ignored;
        }
        if self.fragments[channel].data.len() != 0 && self.fragments[channel].connection_id
            != fragment.connection_id {
            self.reset(channel);
        }
        assert(self.fragments@.len() == self.pending().len());
        let ghost held_data = if before[channel as int].1.len() != 0 && before[channel as int].0
            != fragment.connection_id {
            Seq::<u8>::empty()
        } else {
            before[channel as int].1
        };
        assert(pending_view(self.fragments@[channel as int]) == self.pending()[channel as int]);
        assert(self.fragments@[channel as int].data@ == held_data);
        assert(self.pending().update(channel as int, (0u8, Seq::<u8>::empty())) =~= before.update(
            channel as int,
            (0u8, Seq::<u8>::empty()),
        ));
        let held = self.fragments[channel].data.len();
        if held > MAX_REQUEST || fragment.data.len() > MAX_REQUEST - held {
            self.reset(channel);
            return MailStep::Ignored;
        }
        let mut pending = self.take(channel);
        pending.connection_id = fragment.connection_id;
        push_all(&mut pending.data, fragment.data);
        assert(pending.data@ == held_data + fragment.data@);
        assert(self.pending() =~= before.update(channel as int, (0u8, Seq::<u8>::empty())));
        if fragment.flags & MORE != 0 {
            self.put(channel, pending);
            assert(self.pending() =~= before.update(
                channel as int,
                (fragment.connection_id, held_data + fragment.data@),
            ));
            return MailStep::Ignored;
        }
        let connection_id = pending.connection_id;
        let data = pending.data.as_slice();
        if note == CHANNEL_SELECT {
            let request = match SRequest::parse(data) {
                Some(request) => request,
                None => {
                    return MailStep::Ignored;
                },
            };
            return match request {
                SRequest::List => MailStep::Query { note, connection_id, query: MailQuery::List },
                SRequest::ReadNew => MailStep::Query {
                    note,
                    connection_id,
                    query: MailQuery::FirstUnread,
                },
                SRequest::Detail(id) => match MailId::from_wire(id).value() {
                    Some(mail_id) => MailStep::Query {
                        note,
                        connection_id,
                        query: MailQuery::Find(mail_id),
                    },
                    None => {
                        let responses = vec![ChannelResponse::final_message(empty_mail_result())];
                        assert(channels_view(responses@) =~= seq![(0u8, spec_empty_mail_result())]);
                        MailStep::Respond(Self::wrap(note, connection_id, responses))
                    },
                },
            };
        }
        match Self::answer(note, data) {
            Some(responses) => MailStep::Respond(Self::wrap(note, connection_id, responses)),
            None => MailStep::Ignored,
        }
    }

    /// The replies to a complete request other than a select.
    pub fn answer(note: u16, data: &[u8]) -> (r: Option<Vec<ChannelResponse>>)
        ensures
            match spec_answer(note, data@) {
                Some(rs) => (r matches Some(v) && channels_view(v@) == rs),
                None => r is None,
            },
    {
        let response = if note == CHANNEL_SESSION {
            match SessionInitialize::parse(data) {
                Some(s) => if s.service_id == MAIL_SERVICE_ID && s.protocol_version
                    == PROTOCOL_VERSION {
                    let frame = app_frame(SESSION_MARKER, &[TAG_TERMINATOR]);
                    assert([TAG_TERMINATOR]@ =~= seq![TAG_TERMINATOR]);
                    frame
                } else {
                    return None;
                },
                None => {
                    return None;
                },
            }
        } else if note == CHANNEL_TAGGED_REQUEST {
            if Tlv::marker_u16(data, RECORD_MARKER).all_records_valid() {
                let frame = app_frame(RECORD_MARKER, &[TAG_REQUEST_ACCEPTED]);
                assert([TAG_REQUEST_ACCEPTED]@ =~= seq![TAG_REQUEST_ACCEPTED]);
                frame
            } else {
                return None;
            }
        } else if note == CHANNEL_INITIALIZE {
            if valid_i_request(data) {
                empty_mail_result()
            } else {
                return None;
            }
        } else if note == CHANNEL_CLOSE || note == CHANNEL_FLUSH || note == CHANNEL_FINALIZE
            || note == CHANNEL_DRAIN {
            if data.len() == 0 {
                empty_mail_result()
            } else {
                return None;
            }
        } else {
            return None;
        };
        let r = vec![ChannelResponse::final_message(response)];
        assert(channels_view(r@) =~= spec_answer(note, data@).unwrap());
        Some(r)
    }

    /// Sends each reply on `note` to `connection_id`.
    pub fn wrap(note: u16, connection_id: u8, responses: Vec<ChannelResponse>) -> (r: Vec<
        MailResponse,
    >)
        ensures
            mail_responses_view(r@) == spec_responses(note, connection_id, channels_view(responses@)),
    {
        let mut out: Vec<MailResponse> = Vec::new();
        let mut i: usize = 0;
        while i < responses.len()
            invariant
                i <= responses@.len(),
                out@.len() == i,
                forall|k: int|
                    0 <= k < i ==> (#[trigger] out@[k]).note == note && out@[k].payload@
                        == spec_transport(responses@[k].flags, connection_id, responses@[k].data@),
            decreases responses@.len() - i,
        {
            let response = &responses[i];
            out.push(
                MailResponse {
                    note,
                    payload: transport(response.flags, connection_id, response.data.as_slice()),
                },
            );
            i = i + 1;
        }
        assert(mail_responses_view(out@) =~= spec_responses(
            note,
            connection_id,
            channels_view(responses@),
        ));
        out
    }

    /// The replies to a listing, given the mailbox that was read.
    pub fn answer_list(note: u16, connection_id: u8, messages: &[Message]) -> (r: Vec<MailResponse>)
        ensures
            mail_responses_view(r@) == spec_responses(note, connection_id, spec_mailbox_list(messages@)),
    {
        Self::wrap(note, connection_id, mailbox_list(messages))
    }

    /// The reply to a read of one message, given what the read found.
    pub fn answer_message(note: u16, connection_id: u8, message: Option<&Message>) -> (r: Vec<
        MailResponse,
    >)
        ensures
            mail_responses_view(r@) == spec_responses(
                note,
                connection_id,
                spec_message_answer(
                    match message {
                        Some(m) => Some(*m),
                        None => None,
                    },
                ),
            ),
    {
        let data = match message {
            Some(m) => mail_detail(m),
            None => empty_mail_result(),
        };
        let responses = vec![ChannelResponse::final_message(data)];
        proof {
            let mm = match message {
                Some(m) => Some(*m),
                None => None,
            };
            assert(channels_view(responses@) =~= spec_message_answer(mm));
        }
        Self::wrap(note, connection_id, responses)
    }

    fn reset(&mut self, channel: usize)
        requires
            channel < old(self).pending().len(),
        ensures
            final(self).pending() == old(self).pending().update(channel as int, (0u8, Seq::<u8>::empty())),
            final(self).owner_name() == old(self).owner_name(),
    {
        self.fragments.set(channel, Pending { connection_id: 0, data: Vec::new() });
        assert(self.pending() =~= old(self).pending().update(channel as int, (0u8, Seq::<u8>::empty())));
    }

    fn take(&mut self, channel: usize) -> (r: Pending)
        requires
            channel < old(self).pending().len(),
        ensures
            pending_view(r) == old(self).pending()[channel as int],
            final(self).pending() == old(self).pending().update(channel as int, (0u8, Seq::<u8>::empty())),
            final(self).owner_name() == old(self).owner_name(),
    {
        let mut taken = Pending { connection_id: 0, data: Vec::new() };
        std::mem::swap(&mut taken, &mut self.fragments[channel]);
        assert(self.pending() =~= old(self).pending().update(channel as int, (0u8, Seq::<u8>::empty())));
        taken
    }

    fn put(&mut self, channel: usize, pending: Pending)
        requires
            channel < old(self).pending().len(),
        ensures
            final(self).pending() == old(self).pending().update(channel as int, pending_view(pending)),
            final(self).owner_name() == old(self).owner_name(),
    {
        self.fragments.set(channel, pending);
        assert(self.pending() =~= old(self).pending().update(channel as int, pending_view(pending)));
    }
}

} // verus!
