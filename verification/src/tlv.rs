//! Sentry and GRiDMail records differ only in their header, so both dialects
//! share one walk here. Truncated input ends as an error, never as a panic or
//! a silent stop.
use vstd::prelude::*;

use crate::bytes::{lemma_u16_le_bytes_roundtrip, lemma_u16_le_roundtrip, spec_u16_le, spec_u16_le_bytes};
use crate::cursor::Cursor;
use crate::error::{err_view, invalid, push_hex_byte, spec_hex_byte, FrameError, FrameErrorView};

verus! {

#[derive(Clone, Copy, Debug, PartialEq, Eq)]
pub enum TlvKind {
    /// `<tag><u8 length><value>`, the Sentry admin protocol.
    TagU8,
    /// `<marker><u16 length><tag + value>`, the GRiDMail application framing.
    /// The length counts the tag byte, so a length of zero is malformed.
    MarkerU16 { marker: u8 },
}

/// One record: its tag and the value bytes that follow it.
#[derive(Clone, Copy, Debug, PartialEq, Eq)]
pub struct TlvEntry<'a> {
    pub tag: u8,
    pub value: &'a [u8],
}

impl<'a> View for TlvEntry<'a> {
    type V = (u8, Seq<u8>);

    open spec fn view(&self) -> (u8, Seq<u8>) {
        (self.tag, self.value@)
    }
}

/// The records of a sequence of entries, as tags and values.
pub open spec fn entries_view<'a>(v: Seq<TlvEntry<'a>>) -> Seq<(u8, Seq<u8>)> {
    v.map_values(|e: TlvEntry<'a>| e@)
}

/// The record that starts at `p`: its tag, its value and where the next one
/// starts.
pub open spec fn spec_read_entry(data: Seq<u8>, p: int, kind: TlvKind) -> Result<
    (u8, Seq<u8>, int),
    FrameErrorView,
> {
    match kind {
        TlvKind::TagU8 => {
            if p + 2 > data.len() {
                Err(FrameErrorView::UnexpectedEof)
            } else {
                let length = data[p + 1] as int;
                if p + 2 + length > data.len() {
                    Err(FrameErrorView::UnexpectedEof)
                } else {
                    Ok((data[p], data.subrange(p + 2, p + 2 + length), p + 2 + length))
                }
            }
        },
        TlvKind::MarkerU16 { marker } => {
            if p + 1 > data.len() {
                Err(FrameErrorView::UnexpectedEof)
            } else if data[p] != marker {
                Err(invalid("expected record marker "@ + spec_hex_byte(marker) + ", found "@ + spec_hex_byte(data[p])))
            } else if p + 3 > data.len() {
                Err(FrameErrorView::UnexpectedEof)
            } else {
                let length = spec_u16_le(data[p + 1], data[p + 2]) as int;
                if length == 0 {
                    Err(invalid("record length must cover the tag byte"@))
                } else if p + 3 + length > data.len() {
                    Err(FrameErrorView::UnexpectedEof)
                } else {
                    Ok((data[p + 3], data.subrange(p + 4, p + 3 + length), p + 3 + length))
                }
            }
        },
    }
}

/// The records from `p` to the end of `data`, and the error that stopped the
/// walk early, if one did. Nothing after a malformed record is read.
pub open spec fn spec_walk(data: Seq<u8>, p: int, kind: TlvKind) -> (
    Seq<(u8, Seq<u8>)>,
    Option<FrameErrorView>,
)
    decreases data.len() - p,
{
    if p < 0 || p >= data.len() {
        (Seq::empty(), None)
    } else {
        match spec_read_entry(data, p, kind) {
            Err(e) => (Seq::empty(), Some(e)),
            Ok((tag, value, q)) => {
                let rest = spec_walk(data, q, kind);
                (seq![(tag, value)] + rest.0, rest.1)
            },
        }
    }
}

/// The bytes of one record `e`, tag and value, in the dialect `kind`.
pub open spec fn spec_encode_entry(e: (u8, Seq<u8>), kind: TlvKind) -> Seq<u8> {
    match kind {
        TlvKind::TagU8 => seq![e.0, e.1.len() as u8] + e.1,
        TlvKind::MarkerU16 { marker } => seq![marker] + spec_u16_le_bytes((e.1.len() + 1) as u16)
            + seq![e.0] + e.1,
    }
}

/// The bytes of the records `es`, one after the other.
pub open spec fn spec_encode_entries(es: Seq<(u8, Seq<u8>)>, kind: TlvKind) -> Seq<u8>
    decreases es.len(),
{
    if es.len() == 0 {
        Seq::empty()
    } else {
        spec_encode_entry(es[0], kind) + spec_encode_entries(es.drop_first(), kind)
    }
}

/// Whether the value of `e` fits the length field of the dialect `kind`.
pub open spec fn spec_entry_fits(e: (u8, Seq<u8>), kind: TlvKind) -> bool {
    match kind {
        TlvKind::TagU8 => e.1.len() <= 255,
        TlvKind::MarkerU16 { .. } => e.1.len() + 1 <= 0xffff,
    }
}

proof fn lemma_walk_encodes(data: Seq<u8>, p: int, kind: TlvKind)
    requires
        0 <= p <= data.len(),
        spec_walk(data, p, kind).1 is None,
    ensures
        data.subrange(p, data.len() as int) == spec_encode_entries(spec_walk(data, p, kind).0, kind),
    decreases data.len() - p,
{
    if p == data.len() {
        assert(data.subrange(p, data.len() as int) =~= Seq::<u8>::empty());
    } else {
        let (tag, value, q) = spec_read_entry(data, p, kind)->Ok_0;
        let rest = spec_walk(data, q, kind);
        lemma_walk_encodes(data, q, kind);
        let w = spec_walk(data, p, kind).0;
        assert(w == seq![(tag, value)] + rest.0);
        assert(w.drop_first() =~= rest.0);
        assert(w[0] == (tag, value));
        match kind {
            TlvKind::TagU8 => {
                assert(data.subrange(p, data.len() as int) =~= seq![data[p], data[p + 1]]
                    + data.subrange(p + 2, q) + data.subrange(q, data.len() as int));
            },
            TlvKind::MarkerU16 { marker } => {
                lemma_u16_le_bytes_roundtrip(data[p + 1], data[p + 2]);
                assert(data.subrange(p, data.len() as int) =~= seq![data[p]] + seq![data[p + 1], data[p + 2]]
                    + seq![data[p + 3]] + data.subrange(p + 4, q) + data.subrange(q, data.len() as int));
            },
        }
    }
}

proof fn lemma_encoded_walks(data: Seq<u8>, p: int, es: Seq<(u8, Seq<u8>)>, kind: TlvKind)
    requires
        0 <= p <= data.len(),
        data.subrange(p, data.len() as int) == spec_encode_entries(es, kind),
        forall|i: int| 0 <= i < es.len() ==> spec_entry_fits(#[trigger] es[i], kind),
    ensures
        spec_walk(data, p, kind) == (es, None::<FrameErrorView>),
    decreases es.len(),
{
    let tail = data.subrange(p, data.len() as int);
    if es.len() == 0 {
        assert(tail.len() == 0);
        assert(es =~= Seq::<(u8, Seq<u8>)>::empty());
    } else {
        let e = es[0];
        assert(spec_entry_fits(es[0], kind));
        let one = spec_encode_entry(e, kind);
        let more = spec_encode_entries(es.drop_first(), kind);
        assert(tail == one + more);
        let q = p + one.len();
        assert(data.subrange(q, data.len() as int) =~= more) by {
            assert forall|j: int| 0 <= j < more.len() implies data.subrange(q, data.len() as int)[j]
                == more[j] by {
                assert(tail[one.len() + j] == (one + more)[one.len() + j]);
            }
        }
        assert forall|i: int| 0 <= i < one.len() implies data[p + i] == one[i] by {
            assert(tail[i] == (one + more)[i]);
        }
        assert(data.subrange(p + one.len() - e.1.len(), q) =~= e.1) by {
            assert forall|j: int| 0 <= j < e.1.len() implies data.subrange(
                p + one.len() - e.1.len(),
                q,
            )[j] == e.1[j] by {
                assert(data[p + one.len() - e.1.len() + j] == one[one.len() - e.1.len() + j]);
            }
        }
        assert forall|i: int| 0 <= i < es.drop_first().len() implies spec_entry_fits(
            #[trigger] es.drop_first()[i],
            kind,
        ) by {
            assert(spec_entry_fits(es[i + 1], kind));
        }
        lemma_encoded_walks(data, q, es.drop_first(), kind);
        match kind {
            TlvKind::TagU8 => {
                assert(tail[0] == (one + more)[0] && tail[1] == (one + more)[1]);
                assert(data[p] == e.0);
                assert(data[p + 1] == e.1.len() as u8);
            },
            TlvKind::MarkerU16 { marker } => {
                lemma_u16_le_roundtrip((e.1.len() + 1) as u16);
                assert(tail[0] == (one + more)[0] && tail[1] == (one + more)[1]);
                assert(tail[2] == (one + more)[2] && tail[3] == (one + more)[3]);
                assert(data[p] == marker);
                assert(data[p + 1] == spec_u16_le_bytes((e.1.len() + 1) as u16)[0]);
                assert(data[p + 2] == spec_u16_le_bytes((e.1.len() + 1) as u16)[1]);
                assert(data[p + 3] == e.0);
            },
        }
        assert(spec_read_entry(data, p, kind) == Ok::<(u8, Seq<u8>, int), FrameErrorView>((e.0, e.1, q)));
        assert(seq![e] + es.drop_first() =~= es);
    }
}

/// The encoding of records with one more at the end is their encoding
/// followed by that record's.
pub proof fn lemma_encode_push(es: Seq<(u8, Seq<u8>)>, e: (u8, Seq<u8>), kind: TlvKind)
    ensures
        spec_encode_entries(es.push(e), kind) == spec_encode_entries(es, kind) + spec_encode_entry(e, kind),
    decreases es.len(),
{
    if es.len() == 0 {
        let one = es.push(e);
        assert(one.len() == 1 && one[0] == e);
        assert(one.drop_first() =~= Seq::<(u8, Seq<u8>)>::empty());
        assert(spec_encode_entries(one.drop_first(), kind) == Seq::<u8>::empty());
        assert(spec_encode_entries(one, kind) == spec_encode_entry(e, kind) + Seq::<u8>::empty());
        assert(spec_encode_entries(es, kind) == Seq::<u8>::empty());
        assert(spec_encode_entries(one, kind) =~= spec_encode_entries(es, kind) + spec_encode_entry(e, kind));
    } else {
        assert(es.push(e).drop_first() =~= es.drop_first().push(e));
        lemma_encode_push(es.drop_first(), e, kind);
        assert(spec_encode_entries(es.push(e), kind) =~= spec_encode_entries(es, kind)
            + spec_encode_entry(e, kind));
    }
}

/// The encoding of records whose values fit, followed by any bytes at all,
/// walks back to those records first: what follows cannot change them.
pub proof fn lemma_encoded_prefix_walks(
    data: Seq<u8>,
    p: int,
    es: Seq<(u8, Seq<u8>)>,
    kind: TlvKind,
)
    requires
        0 <= p,
        p + spec_encode_entries(es, kind).len() <= data.len(),
        data.subrange(p, p + spec_encode_entries(es, kind).len()) == spec_encode_entries(es, kind),
        forall|i: int| 0 <= i < es.len() ==> spec_entry_fits(#[trigger] es[i], kind),
    ensures
        spec_walk(data, p, kind).0.len() >= es.len(),
        spec_walk(data, p, kind).0.subrange(0, es.len() as int) == es,
    decreases es.len(),
{
    let enc = spec_encode_entries(es, kind);
    if es.len() == 0 {
        assert(spec_walk(data, p, kind).0.subrange(0, 0) =~= es);
    } else {
        let e = es[0];
        assert(spec_entry_fits(es[0], kind));
        let one = spec_encode_entry(e, kind);
        let more = spec_encode_entries(es.drop_first(), kind);
        let tail = data.subrange(p, p + enc.len());
        assert(tail == one + more);
        let q = p + one.len();
        assert(data.subrange(q, q + more.len()) =~= more) by {
            assert forall|j: int| 0 <= j < more.len() implies data.subrange(q, q + more.len())[j]
                == more[j] by {
                assert(tail[one.len() + j] == (one + more)[one.len() + j]);
            }
        }
        assert(data.subrange(q - e.1.len(), q) =~= e.1) by {
            assert forall|j: int| 0 <= j < e.1.len() implies data.subrange(q - e.1.len(), q)[j]
                == e.1[j] by {
                assert(tail[one.len() - e.1.len() + j] == (one + more)[one.len() - e.1.len() + j]);
            }
        }
        assert forall|i: int| 0 <= i < es.drop_first().len() implies spec_entry_fits(
            #[trigger] es.drop_first()[i],
            kind,
        ) by {
            assert(spec_entry_fits(es[i + 1], kind));
        }
        lemma_encoded_prefix_walks(data, q, es.drop_first(), kind);
        match kind {
            TlvKind::TagU8 => {
                assert(tail[0] == (one + more)[0] && tail[1] == (one + more)[1]);
            },
            TlvKind::MarkerU16 { marker } => {
                lemma_u16_le_roundtrip((e.1.len() + 1) as u16);
                assert(tail[0] == (one + more)[0] && tail[1] == (one + more)[1]);
                assert(tail[2] == (one + more)[2] && tail[3] == (one + more)[3]);
                assert(data[p + 1] == spec_u16_le_bytes((e.1.len() + 1) as u16)[0]);
                assert(data[p + 2] == spec_u16_le_bytes((e.1.len() + 1) as u16)[1]);
            },
        }
        assert(spec_read_entry(data, p, kind) == Ok::<(u8, Seq<u8>, int), FrameErrorView>((e.0, e.1, q)));
        let w = spec_walk(data, p, kind).0;
        let rest = spec_walk(data, q, kind).0;
        assert(w == seq![e] + rest);
        assert(w.subrange(0, es.len() as int) =~= seq![e] + rest.subrange(0, es.len() - 1));
        assert(seq![e] + es.drop_first() =~= es);
    }
}

/// Looking a tag up in records that begin with `es` finds what looking it up
/// in `es` finds, once `es` holds it.
pub proof fn lemma_find_in_prefix(s: Seq<(u8, Seq<u8>)>, es: Seq<(u8, Seq<u8>)>, wanted: u8)
    requires
        s.len() >= es.len(),
        s.subrange(0, es.len() as int) == es,
        spec_find(es, wanted) is Some,
    ensures
        spec_find(s, wanted) == spec_find(es, wanted),
    decreases es.len(),
{
    assert(s[0] == es[0]);
    if es[0].0 != wanted {
        assert(s.drop_first().subrange(0, es.len() - 1) =~= es.drop_first());
        lemma_find_in_prefix(s.drop_first(), es.drop_first(), wanted);
    }
}

/// The record walk and the record encoding undo each other. Input that walks to
/// the end without an error is exactly the encoding of the records it yields,
/// and the encoding of records whose values fit the length field walks back to
/// those records and no error.
pub proof fn lemma_records_roundtrip(data: Seq<u8>, es: Seq<(u8, Seq<u8>)>, kind: TlvKind)
    ensures
        spec_walk(data, 0, kind).1 is None ==> data == spec_encode_entries(spec_walk(data, 0, kind).0, kind),
        (forall|i: int| 0 <= i < es.len() ==> spec_entry_fits(#[trigger] es[i], kind)) ==> spec_walk(
            spec_encode_entries(es, kind),
            0,
            kind,
        ) == (es, None::<FrameErrorView>),
{
    if spec_walk(data, 0, kind).1 is None {
        lemma_walk_encodes(data, 0, kind);
        assert(data.subrange(0, data.len() as int) =~= data);
    }
    if forall|i: int| 0 <= i < es.len() ==> spec_entry_fits(#[trigger] es[i], kind) {
        let d = spec_encode_entries(es, kind);
        assert(d.subrange(0, d.len() as int) =~= d);
        lemma_encoded_walks(d, 0, es, kind);
    }
}

/// The value of the first record in `es` with tag `wanted`.
pub open spec fn spec_find(es: Seq<(u8, Seq<u8>)>, wanted: u8) -> Option<Seq<u8>>
    decreases es.len(),
{
    if es.len() == 0 {
        None
    } else if es[0].0 == wanted {
        Some(es[0].1)
    } else {
        spec_find(es.drop_first(), wanted)
    }
}

/// How one step of a walk moves from the records still to come, `before`, to
/// those after it, `after`, yielding `r`.
pub open spec fn spec_next<'a>(
    before: (Seq<(u8, Seq<u8>)>, Option<FrameErrorView>),
    after: (Seq<(u8, Seq<u8>)>, Option<FrameErrorView>),
    r: Option<Result<TlvEntry<'a>, FrameError>>,
) -> bool {
    if before.0.len() > 0 {
        &&& r matches Some(Ok(e)) && e@ == before.0[0]
        &&& after.0 == before.0.drop_first()
        &&& after.1 == before.1
    } else if before.1 is Some {
        &&& r matches Some(Err(e)) && Some(e@) == before.1
        &&& after.0.len() == 0
        &&& after.1 is None
    } else {
        &&& r is None
        &&& after == before
    }
}

/// A walk over the records of a buffer. It yields each record in turn and,
/// after the first malformed one, nothing more.
pub struct Tlv<'a> {
    cursor: Cursor<'a>,
    kind: TlvKind,
    failed: bool,
}

impl<'a> Tlv<'a> {
    pub closed spec fn data(self) -> Seq<u8> {
        self.cursor.bytes()
    }

    pub closed spec fn pos(self) -> int {
        self.cursor.pos()
    }

    pub closed spec fn kind(self) -> TlvKind {
        self.kind
    }

    pub closed spec fn failed(self) -> bool {
        self.failed
    }

    /// What the rest of the walk yields.
    pub open spec fn walk(self) -> (Seq<(u8, Seq<u8>)>, Option<FrameErrorView>) {
        if self.failed() {
            (Seq::empty(), None)
        } else {
            spec_walk(self.data(), self.pos(), self.kind())
        }
    }

    pub fn new(data: &'a [u8], kind: TlvKind) -> (r: Self)
        ensures
            r.data() == data@,
            r.pos() == 0,
            r.kind() == kind,
            !r.failed(),
            r.walk() == spec_walk(data@, 0, kind),
    {
        Self { cursor: Cursor::new(data), kind, failed: false }
    }

    pub fn tag_u8(data: &'a [u8]) -> (r: Self)
        ensures
            r.data() == data@,
            r.pos() == 0,
            r.kind() == TlvKind::TagU8,
            !r.failed(),
            r.walk() == spec_walk(data@, 0, TlvKind::TagU8),
    {
        Self::new(data, TlvKind::TagU8)
    }

    pub fn marker_u16(data: &'a [u8], marker: u8) -> (r: Self)
        ensures
            r.data() == data@,
            r.pos() == 0,
            r.kind() == (TlvKind::MarkerU16 { marker }),
            !r.failed(),
            r.walk() == spec_walk(data@, 0, TlvKind::MarkerU16 { marker }),
    {
        Self::new(data, TlvKind::MarkerU16 { marker })
    }

    pub fn position(&self) -> (r: usize)
        ensures
            r == self.pos(),
    {
        self.cursor.position()
    }

    fn read_entry(&mut self) -> (r: Result<TlvEntry<'a>, FrameError>)
        ensures
            final(self).data() == old(self).data(),
            final(self).kind() == old(self).kind(),
            final(self).failed() == old(self).failed(),
            match spec_read_entry(old(self).data(), old(self).pos(), old(self).kind()) {
                Ok((tag, value, q)) => (r matches Ok(e) && e@ == (tag, value) && final(self).pos()
                    == q),
                Err(e) => err_view(r) == Some(e),
            },
    {
        match self.kind {
            TlvKind::TagU8 => {
                let tag = self.cursor.read_u8()?;
                let length = self.cursor.read_u8()?;
                let value = self.cursor.read_slice(length as usize)?;
                Ok(TlvEntry { tag, value })
            },
            TlvKind::MarkerU16 { marker } => {
                let found = self.cursor.read_u8()?;
                if found != marker {
                    let mut reason = String::from_str("expected record marker ");
                    push_hex_byte(&mut reason, marker);
                    reason.append(", found ");
                    push_hex_byte(&mut reason, found);
                    return Err(FrameError::Validation { reason });
                }
                let length = self.cursor.read_u16()?;
                // The length covers the tag byte, so an empty record cannot
                // carry one and the walk would not advance.
                if length == 0 {
                    return Err(FrameError::validation("record length must cover the tag byte"));
                }
                let ghost start = self.cursor.pos();
                let record = self.cursor.read_slice(length as usize)?;
                let value = &record[1..record.len()];
                assert(value@ =~= self.data().subrange(start + 1, start + length));
                Ok(TlvEntry { tag: record[0], value })
            },
        }
    }

    /// The next record, or `None` once the input is used up or a record was
    /// malformed. An error is yielded once; the walk ends after it.
    pub fn next(&mut self) -> (r: Option<Result<TlvEntry<'a>, FrameError>>)
        ensures
            spec_next(old(self).walk(), final(self).walk(), r),
    {
        if self.failed || self.cursor.position() >= self.cursor.get_ref().len() {
            return None;
        }
        let entry = self.read_entry();
        if entry.is_err() {
            // One malformed record makes everything after it meaningless, so
            // the walk stops instead of resynchronising on arbitrary bytes.
            self.failed = true;
        }
        proof {
            let before = old(self).walk();
            assert(before == spec_walk(old(self).data(), old(self).pos(), old(self).kind()));
            match spec_read_entry(old(self).data(), old(self).pos(), old(self).kind()) {
                Ok((tag, value, q)) => {
                    assert(self.walk() == spec_walk(old(self).data(), q, old(self).kind()));
                    assert(before.0 == seq![(tag, value)] + self.walk().0);
                    assert(before.0.drop_first() =~= self.walk().0);
                },
                Err(e) => {
                    assert(before == (Seq::<(u8, Seq<u8>)>::empty(), Some(e)));
                },
            }
        }
        Some(entry)
    }

    /// Every record, or the first error.
    pub fn collect_all(self) -> (r: Result<Vec<TlvEntry<'a>>, FrameError>)
        ensures
            self.walk().1 is None ==> (r matches Ok(v) && entries_view(v@) == self.walk().0),
            self.walk().1 matches Some(e) ==> err_view(r) == Some(e),
    {
        let mut tlv = self;
        let mut out: Vec<TlvEntry<'a>> = Vec::new();
        assert(entries_view(out@) + tlv.walk().0 =~= tlv.walk().0);
        loop
            invariant
                self.walk().0 == entries_view(out@) + tlv.walk().0,
                self.walk().1 == tlv.walk().1,
            decreases tlv.walk().0.len(),
        {
            let ghost w0 = tlv.walk();
            match tlv.next() {
                None => {
                    assert(entries_view(out@) + tlv.walk().0 =~= entries_view(out@));
                    return Ok(out);
                },
                Some(Ok(e)) => {
                    let ghost old_out = out@;
                    out.push(e);
                    proof {
                        assert(entries_view(out@) =~= entries_view(old_out).push(e@));
                        assert(w0.0 =~= seq![e@] + tlv.walk().0);
                        assert(entries_view(old_out) + w0.0 =~= entries_view(out@) + tlv.walk().0);
                    }
                },
                Some(Err(e)) => {
                    return Err(e);
                },
            }
        }
    }

    /// Every record up to the first malformed one, which is as far as a stream
    /// that may carry trailing non-record bytes can be trusted.
    pub fn well_formed_prefix(self) -> (r: Vec<TlvEntry<'a>>)
        ensures
            entries_view(r@) == self.walk().0,
    {
        let mut tlv = self;
        let mut out: Vec<TlvEntry<'a>> = Vec::new();
        assert(entries_view(out@) + tlv.walk().0 =~= tlv.walk().0);
        loop
            invariant
                self.walk().0 == entries_view(out@) + tlv.walk().0,
            decreases tlv.walk().0.len(),
        {
            let ghost w0 = tlv.walk();
            match tlv.next() {
                Some(Ok(e)) => {
                    let ghost old_out = out@;
                    out.push(e);
                    proof {
                        assert(entries_view(out@) =~= entries_view(old_out).push(e@));
                        assert(w0.0 =~= seq![e@] + tlv.walk().0);
                        assert(entries_view(old_out) + w0.0 =~= entries_view(out@) + tlv.walk().0);
                    }
                },
                _ => {
                    assert(w0.0.len() == 0);
                    assert(entries_view(out@) + w0.0 =~= entries_view(out@));
                    return out;
                },
            }
        }
    }

    /// The value of the first well-formed record with tag `wanted`.
    pub fn find_tag(self, wanted: u8) -> (r: Option<&'a [u8]>)
        ensures
            match spec_find(self.walk().0, wanted) {
                Some(v) => (r matches Some(x) && x@ == v),
                None => r is None,
            },
    {
        let mut tlv = self;
        loop
            invariant
                spec_find(self.walk().0, wanted) == spec_find(tlv.walk().0, wanted),
            decreases tlv.walk().0.len(),
        {
            let ghost w0 = tlv.walk();
            match tlv.next() {
                Some(Ok(e)) => {
                    if e.tag == wanted {
                        return Some(e.value);
                    }
                    assert(w0.0.drop_first() =~= tlv.walk().0);
                },
                _ => {
                    return None;
                },
            }
        }
    }

    /// Whether the input is one or more records and nothing else.
    pub fn all_records_valid(self) -> (r: bool)
        ensures
            r == (self.walk().1 is None && self.walk().0.len() > 0),
    {
        let mut tlv = self;
        let mut any = false;
        loop
            invariant
                self.walk().1 == tlv.walk().1,
                any ==> self.walk().0.len() > 0,
                !any ==> self.walk().0 == tlv.walk().0,
            decreases tlv.walk().0.len(),
        {
            match tlv.next() {
                None => {
                    return any;
                },
                Some(Ok(_)) => {
                    any = true;
                },
                Some(Err(_)) => {
                    return false;
                },
            }
        }
    }
}

} // verus!
