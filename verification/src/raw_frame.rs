//! The byte-stuffed outer framing of the GRiDLink transport:
//! `DLE STX <data with every DLE doubled> DLE ETX <CRC-16/ARC little endian>`.
use vstd::prelude::*;

use crate::bytes::{push_all, push_u16, spec_u16_le, spec_u16_le_bytes, u16_from_le};
use crate::error::FrameError;

verus! {

/// Data Link Escape. Used to prefix special commands or escape data bytes.
pub const DLE: u8 = 0x10;

/// Start of Text. Marks the beginning of the payload.
pub const STX: u8 = 0x02;

/// End of Text. Marks the end of the payload.
pub const ETX: u8 = 0x03;

/// Size of the preallocated buffer for a frame.
pub const AVERAGE_FRAME_SIZE: usize = 64;

/// Four-byte PDL header plus the maximum 526-byte DLC data area.
pub const MAX_FRAME_SIZE: usize = 530;

/// The unstuffed contents of one frame.
#[derive(Clone, Debug)]
pub struct RawFrame {
    pub data: Vec<u8>,
}

// ---------------------------------------------------------------------------
// CRC-16/ARC
// ---------------------------------------------------------------------------

/// `n` rounds of the reflected CRC-16 shift with polynomial 0xA001.
pub open spec fn crc_shift(crc: u16, n: nat) -> u16
    decreases n,
{
    if n == 0 {
        crc
    } else {
        let c = crc_shift(crc, (n - 1) as nat);
        if c & 1 != 0 {
            (c >> 1) ^ 0xA001
        } else {
            c >> 1
        }
    }
}

/// The checksum after one more byte.
pub open spec fn crc_update(crc: u16, byte: u8) -> u16 {
    crc_shift(crc ^ (byte as u16), 8)
}

/// CRC-16/ARC of `data`: initial value 0, reflected, polynomial 0x8005.
pub open spec fn spec_crc16(data: Seq<u8>) -> u16
    decreases data.len(),
{
    if data.len() == 0 {
        0
    } else {
        crc_update(spec_crc16(data.drop_last()), data.last())
    }
}

/// Calculates the CRC16 ARC checksum for the given data.
pub fn crc16(data: &[u8]) -> (r: u16)
    ensures
        r == spec_crc16(data@),
{
    let mut crc: u16 = 0;
    let mut i: usize = 0;
    assert(data@.subrange(0, 0) =~= Seq::<u8>::empty());
    while i < data.len()
        invariant
            i <= data@.len(),
            crc == spec_crc16(data@.subrange(0, i as int)),
        decreases data@.len() - i,
    {
        let start = crc ^ (data[i] as u16);
        crc = start;
        let mut j: usize = 0;
        while j < 8
            invariant
                j <= 8,
                crc == crc_shift(start, j as nat),
            decreases 8 - j,
        {
            if (crc & 0x0001) != 0 {
                crc = (crc >> 1) ^ 0xA001;
            } else {
                crc = crc >> 1;
            }
            j = j + 1;
        }
        assert(data@.subrange(0, i + 1).drop_last() =~= data@.subrange(0, i as int));
        i = i + 1;
    }
    assert(data@.subrange(0, i as int) =~= data@);
    crc
}

// ---------------------------------------------------------------------------
// Stuffing
// ---------------------------------------------------------------------------

/// What one data byte becomes on the wire.
pub open spec fn stuffed_byte(b: u8) -> Seq<u8> {
    if b == DLE {
        seq![DLE, DLE]
    } else {
        seq![b]
    }
}

/// `data` with every `DLE` doubled.
pub open spec fn spec_stuff(data: Seq<u8>) -> Seq<u8>
    decreases data.len(),
{
    if data.len() == 0 {
        Seq::empty()
    } else {
        stuffed_byte(data[0]) + spec_stuff(data.drop_first())
    }
}

/// The complete wire form of a frame carrying `data`.
pub open spec fn spec_encode(data: Seq<u8>) -> Seq<u8> {
    seq![DLE, STX] + spec_stuff(data) + seq![DLE, ETX] + spec_u16_le_bytes(spec_crc16(data))
}

pub proof fn lemma_stuff_push(a: Seq<u8>, b: u8)
    ensures
        spec_stuff(a.push(b)) == spec_stuff(a) + stuffed_byte(b),
    decreases a.len(),
{
    if a.len() == 0 {
        assert(a.push(b).drop_first() =~= Seq::<u8>::empty());
        assert(a.push(b)[0] == b);
        assert(spec_stuff(Seq::<u8>::empty()) =~= Seq::<u8>::empty());
        assert(spec_stuff(a) =~= Seq::<u8>::empty());
        assert(spec_stuff(a.push(b)) =~= stuffed_byte(b) + spec_stuff(Seq::<u8>::empty()));
        assert(spec_stuff(a.push(b)) =~= stuffed_byte(b));
    } else {
        assert(a.push(b).drop_first() =~= a.drop_first().push(b));
        lemma_stuff_push(a.drop_first(), b);
        assert(spec_stuff(a.push(b)) =~= spec_stuff(a) + stuffed_byte(b));
    }
}

// ---------------------------------------------------------------------------
// Unstuffing
// ---------------------------------------------------------------------------

/// One step of the receiver: the buffer so far, whether the previous byte was
/// an unpaired `DLE`, and the next byte. On success the result is the new
/// buffer, the new escape state, and whether the frame has ended.
pub open spec fn spec_feed(buffer: Seq<u8>, escaped: bool, b: u8) -> Result<
    (Seq<u8>, bool, bool),
    FrameError,
> {
    if escaped {
        if b == DLE {
            if buffer.len() >= MAX_FRAME_SIZE {
                Err(FrameError::FrameTooLarge { max: MAX_FRAME_SIZE })
            } else {
                Ok((buffer.push(DLE), false, false))
            }
        } else if b == STX {
            Ok((Seq::empty(), false, false))
        } else if b == ETX {
            Ok((buffer, false, true))
        } else {
            Err(FrameError::MalformedFrameMarker { marker: b })
        }
    } else if b == DLE {
        Ok((buffer, true, false))
    } else if buffer.len() >= MAX_FRAME_SIZE {
        Err(FrameError::FrameTooLarge { max: MAX_FRAME_SIZE })
    } else {
        Ok((buffer.push(b), false, false))
    }
}

/// Runs the receiver over `s` from index `i` until the frame ends: the
/// unstuffed data and the index just past the closing `DLE ETX`.
pub open spec fn spec_unstuff(s: Seq<u8>, i: int, buffer: Seq<u8>, escaped: bool) -> Result<
    (Seq<u8>, int),
    FrameError,
>
    decreases s.len() - i,
{
    if i < 0 || i >= s.len() {
        Err(FrameError::UnexpectedEof)
    } else {
        match spec_feed(buffer, escaped, s[i]) {
            Err(e) => Err(e),
            Ok((b2, e2, done)) => if done {
                Ok((b2, i + 1))
            } else {
                spec_unstuff(s, i + 1, b2, e2)
            },
        }
    }
}

/// Reading one frame off the front of `s`: the frame's data and how many bytes
/// of `s` it took, checksum included.
pub open spec fn spec_read_frame(s: Seq<u8>) -> Result<(Seq<u8>, int), FrameError> {
    match spec_unstuff(s, 0, Seq::empty(), false) {
        Err(e) => Err(e),
        Ok((data, j)) => if j + 2 > s.len() {
            Err(FrameError::UnexpectedEof)
        } else {
            let found = spec_u16_le(s[j], s[j + 1]);
            if found != spec_crc16(data) {
                Err(FrameError::InvalidCrc { expected: spec_crc16(data), found })
            } else {
                Ok((data, j + 2))
            }
        },
    }
}

/// The receiver of a byte-stuffed frame, fed one byte at a time so that a
/// caller reading from a stream can stop exactly at the end of the frame.
pub struct Unstuffer {
    buffer: Vec<u8>,
    escaped: bool,
}

impl Unstuffer {
    pub closed spec fn buffer(self) -> Seq<u8> {
        self.buffer@
    }

    pub closed spec fn escaped(self) -> bool {
        self.escaped
    }

    pub fn new() -> (r: Self)
        ensures
            r.buffer() == Seq::<u8>::empty(),
            !r.escaped(),
    {
        Unstuffer { buffer: Vec::with_capacity(AVERAGE_FRAME_SIZE), escaped: false }
    }

    /// Takes the next wire byte. `Ok(true)` means the frame has ended and
    /// [`Self::buffer`] holds its data.
    pub fn feed(&mut self, byte: u8) -> (r: Result<bool, FrameError>)
        ensures
            match spec_feed(old(self).buffer(), old(self).escaped(), byte) {
                Err(e) => r == Err::<bool, FrameError>(e),
                Ok((b2, e2, done)) => r == Ok::<bool, FrameError>(done) && final(self).buffer()
                    == b2 && final(self).escaped() == e2,
            },
    {
        if self.escaped {
            if byte == DLE {
                Self::push_unstuffed(&mut self.buffer, DLE)?;
                self.escaped = false;
                Ok(false)
            } else if byte == STX {
                self.buffer.clear();
                self.escaped = false;
                Ok(false)
            } else if byte == ETX {
                self.escaped = false;
                Ok(true)
            } else {
                Err(FrameError::MalformedFrameMarker { marker: byte })
            }
        } else if byte == DLE {
            self.escaped = true;
            Ok(false)
        } else {
            Self::push_unstuffed(&mut self.buffer, byte)?;
            Ok(false)
        }
    }

    /// Appends a data byte unless the buffer already holds a whole frame.
    pub fn push_unstuffed(buffer: &mut Vec<u8>, byte: u8) -> (r: Result<(), FrameError>)
        ensures
            old(buffer)@.len() >= MAX_FRAME_SIZE ==> r == Err::<(), FrameError>(
                FrameError::FrameTooLarge { max: MAX_FRAME_SIZE },
            ) && final(buffer)@ == old(buffer)@,
            old(buffer)@.len() < MAX_FRAME_SIZE ==> r == Ok::<(), FrameError>(())
                && final(buffer)@ == old(buffer)@.push(byte),
    {
        if buffer.len() >= MAX_FRAME_SIZE {
            return Err(FrameError::FrameTooLarge { max: MAX_FRAME_SIZE });
        }
        buffer.push(byte);
        Ok(())
    }

    /// The data received so far, leaving the receiver empty.
    pub fn take_data(&mut self) -> (r: Vec<u8>)
        ensures
            r@ == old(self).buffer(),
            final(self).buffer() == Seq::<u8>::empty(),
            !final(self).escaped(),
    {
        let mut data: Vec<u8> = Vec::new();
        std::mem::swap(&mut data, &mut self.buffer);
        self.escaped = false;
        data
    }
}

impl RawFrame {
    pub fn new(data: Vec<u8>) -> (r: Self)
        ensures
            r.data@ == data@,
    {
        Self { data }
    }

    /// Unstuffs the frame at the front of `src`: its data and the index just
    /// past the closing `DLE ETX`.
    pub fn read_unstuffed(src: &[u8]) -> (r: Result<(Vec<u8>, usize), FrameError>)
        ensures
            match spec_unstuff(src@, 0, Seq::empty(), false) {
                Ok((data, j)) => r matches Ok((v, n)) && v@ == data && n == j,
                Err(e) => r == Err::<(Vec<u8>, usize), FrameError>(e),
            },
            r matches Ok((v, n)) ==> n <= src@.len(),
    {
        let mut unstuffer = Unstuffer::new();
        let mut i: usize = 0;
        while i < src.len()
            invariant
                i <= src@.len(),
                spec_unstuff(src@, 0, Seq::empty(), false) == spec_unstuff(
                    src@,
                    i as int,
                    unstuffer.buffer(),
                    unstuffer.escaped(),
                ),
            decreases src@.len() - i,
        {
            let done = unstuffer.feed(src[i])?;
            i = i + 1;
            if done {
                return Ok((unstuffer.take_data(), i));
            }
        }
        Err(FrameError::UnexpectedEof)
    }

    /// Reads and unstuffs the frame at the front of `src`, checking its
    /// checksum. Bytes after the checksum are left alone.
    pub fn read_from_io(src: &[u8]) -> (r: Result<Self, FrameError>)
        ensures
            match spec_read_frame(src@) {
                Ok((data, _)) => r matches Ok(f) && f.data@ == data,
                Err(e) => r matches Err(e2) && e2 == e,
            },
    {
        let (buffer, end) = Self::read_unstuffed(src)?;
        let buffer_crc = crc16(buffer.as_slice());
        if src.len() - end < 2 {
            return Err(FrameError::UnexpectedEof);
        }
        let crc = u16_from_le(src[end], src[end + 1]);
        if crc != buffer_crc {
            return Err(FrameError::InvalidCrc { expected: buffer_crc, found: crc });
        }
        Ok(Self::new(buffer))
    }

    /// Stuffs the frame and appends its wire form to `dst`.
    pub fn write_to_io(&self, dst: &mut Vec<u8>) -> (r: Result<(), FrameError>)
        ensures
            r is Ok,
            final(dst)@ == old(dst)@ + spec_encode(self.data@),
    {
        let crc = crc16(self.data.as_slice());
        let mut stuffed: Vec<u8> = Vec::with_capacity(self.data.len());
        let mut i: usize = 0;
        assert(self.data@.subrange(0, 0) =~= Seq::<u8>::empty());
        while i < self.data.len()
            invariant
                i <= self.data@.len(),
                stuffed@ == spec_stuff(self.data@.subrange(0, i as int)),
            decreases self.data@.len() - i,
        {
            let b = self.data[i];
            proof {
                lemma_stuff_push(self.data@.subrange(0, i as int), b);
                assert(self.data@.subrange(0, i as int).push(b) =~= self.data@.subrange(
                    0,
                    i + 1,
                ));
            }
            stuffed.push(b);
            if b == DLE {
                stuffed.push(DLE);
            }
            assert(stuffed@ =~= spec_stuff(self.data@.subrange(0, i + 1)));
            i = i + 1;
        }
        assert(self.data@.subrange(0, i as int) =~= self.data@);
        Self::write_stuffed(dst, stuffed.as_slice(), crc)
    }

    /// Appends `DLE STX <data> DLE ETX <crc>`; `data` is already stuffed.
    pub fn write_stuffed(dst: &mut Vec<u8>, data: &[u8], crc: u16) -> (r: Result<(), FrameError>)
        ensures
            r is Ok,
            final(dst)@ == old(dst)@ + seq![DLE, STX] + data@ + seq![DLE, ETX]
                + spec_u16_le_bytes(crc),
    {
        let ghost start = dst@;
        dst.push(DLE);
        dst.push(STX);
        push_all(dst, data);
        dst.push(DLE);
        dst.push(ETX);
        push_u16(dst, crc);
        assert(dst@ =~= start + seq![DLE, STX] + data@ + seq![DLE, ETX] + spec_u16_le_bytes(crc));
        Ok(())
    }
}

// ---------------------------------------------------------------------------
// The round trip
// ---------------------------------------------------------------------------

/// Feeding the stuffed form of `d` to a receiver that is not escaped appends
/// exactly `d` to its buffer, as long as the frame stays within its limit.
proof fn lemma_unstuff_stuffed(s: Seq<u8>, i: int, buffer: Seq<u8>, d: Seq<u8>)
    requires
        0 <= i,
        i + spec_stuff(d).len() <= s.len(),
        s.subrange(i, i + spec_stuff(d).len()) == spec_stuff(d),
        buffer.len() + d.len() <= MAX_FRAME_SIZE,
    ensures
        spec_unstuff(s, i, buffer, false) == spec_unstuff(
            s,
            i + spec_stuff(d).len(),
            buffer + d,
            false,
        ),
    decreases d.len(),
{
    if d.len() == 0 {
        assert(buffer + d =~= buffer);
    } else {
        let piece = stuffed_byte(d[0]);
        let rest = spec_stuff(d.drop_first());
        assert(spec_stuff(d) == piece + rest);
        assert(s[i] == spec_stuff(d)[0]);
        if d[0] == DLE {
            assert(s[i + 1] == spec_stuff(d)[1]);
            assert(s.subrange(i + 2, i + 2 + rest.len()) =~= rest) by {
                assert forall|k: int| 0 <= k < rest.len() implies s.subrange(
                    i + 2,
                    i + 2 + rest.len(),
                )[k] == rest[k] by {
                    assert(s[i + 2 + k] == s.subrange(i, i + spec_stuff(d).len())[2 + k]);
                    assert(spec_stuff(d)[2 + k] == rest[k]);
                }
            }
            assert(spec_unstuff(s, i, buffer, false) == spec_unstuff(s, i + 1, buffer, true));
            assert(spec_unstuff(s, i + 1, buffer, true) == spec_unstuff(
                s,
                i + 2,
                buffer.push(DLE),
                false,
            ));
            lemma_unstuff_stuffed(s, i + 2, buffer.push(DLE), d.drop_first());
            assert(buffer.push(DLE) + d.drop_first() =~= buffer + d);
        } else {
            assert(s.subrange(i + 1, i + 1 + rest.len()) =~= rest) by {
                assert forall|k: int| 0 <= k < rest.len() implies s.subrange(
                    i + 1,
                    i + 1 + rest.len(),
                )[k] == rest[k] by {
                    assert(s[i + 1 + k] == s.subrange(i, i + spec_stuff(d).len())[1 + k]);
                    assert(spec_stuff(d)[1 + k] == rest[k]);
                }
            }
            assert(spec_unstuff(s, i, buffer, false) == spec_unstuff(
                s,
                i + 1,
                buffer.push(d[0]),
                false,
            ));
            lemma_unstuff_stuffed(s, i + 1, buffer.push(d[0]), d.drop_first());
            assert(buffer.push(d[0]) + d.drop_first() =~= buffer + d);
        }
    }
}

/// A frame of at most [`MAX_FRAME_SIZE`] bytes reads back as exactly the data
/// it was written from, whatever bytes follow it on the wire, and the reader
/// consumes exactly the bytes the writer produced.
pub proof fn lemma_frame_roundtrip(data: Seq<u8>, rest: Seq<u8>)
    requires
        data.len() <= MAX_FRAME_SIZE,
    ensures
        spec_read_frame(spec_encode(data) + rest) == Ok::<(Seq<u8>, int), FrameError>(
            (data, spec_encode(data).len() as int),
        ),
{
    let st = spec_stuff(data);
    let crc = spec_u16_le_bytes(spec_crc16(data));
    let s = spec_encode(data) + rest;
    let n = st.len() as int;
    assert(s =~= seq![DLE, STX] + st + seq![DLE, ETX] + crc + rest);
    assert(s[0] == DLE && s[1] == STX);
    assert(s.subrange(2, 2 + n) =~= st);
    assert(s[2 + n] == DLE && s[3 + n] == ETX);
    assert(s[4 + n] == crc[0] && s[5 + n] == crc[1]);
    assert(spec_unstuff(s, 0, Seq::empty(), false) == spec_unstuff(s, 1, Seq::empty(), true));
    assert(spec_unstuff(s, 1, Seq::empty(), true) == spec_unstuff(s, 2, Seq::empty(), false));
    lemma_unstuff_stuffed(s, 2, Seq::empty(), data);
    assert(Seq::<u8>::empty() + data =~= data);
    assert(spec_unstuff(s, 2 + n, data, false) == spec_unstuff(s, 3 + n, data, true));
    assert(spec_unstuff(s, 3 + n, data, true) == Ok::<(Seq<u8>, int), FrameError>(
        (data, 4 + n),
    ));
    crate::bytes::lemma_u16_le_roundtrip(spec_crc16(data));
}

} // verus!
