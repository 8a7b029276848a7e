//! Little-endian integer encodings shared by every wire format.
use vstd::prelude::*;

verus! {

/// The value of two bytes read little endian.
pub open spec fn spec_u16_le(lo: u8, hi: u8) -> u16 {
    (lo as int + 256 * hi as int) as u16
}

/// The value of the first four bytes of `b` read little endian.
pub open spec fn spec_u32_le(b: Seq<u8>) -> u32 {
    (b[0] as int + 256 * b[1] as int + 65536 * b[2] as int + 16777216 * b[3] as int) as u32
}

/// The two bytes of `value` in little-endian order.
pub open spec fn spec_u16_le_bytes(value: u16) -> Seq<u8> {
    seq![(value % 256) as u8, (value / 256) as u8]
}

/// The four bytes of `value` in little-endian order.
pub open spec fn spec_u32_le_bytes(value: u32) -> Seq<u8> {
    seq![
        (value % 256) as u8,
        ((value / 256) % 256) as u8,
        ((value / 65536) % 256) as u8,
        (value / 16777216) as u8,
    ]
}

pub proof fn lemma_u16_le_roundtrip(value: u16)
    ensures
        spec_u16_le(spec_u16_le_bytes(value)[0], spec_u16_le_bytes(value)[1]) == value,
{
}

pub proof fn lemma_u16_le_bytes_roundtrip(lo: u8, hi: u8)
    ensures
        spec_u16_le_bytes(spec_u16_le(lo, hi)) == seq![lo, hi],
{
    let v = lo as int + 256 * hi as int;
    assert(v % 256 == lo as int && v / 256 == hi as int) by (nonlinear_arith)
        requires
            v == lo as int + 256 * hi as int,
            0 <= lo < 256,
            0 <= hi < 256,
    ;
    assert(spec_u16_le_bytes(spec_u16_le(lo, hi)) =~= seq![lo, hi]);
}

pub proof fn lemma_u32_le_bytes_roundtrip(b0: u8, b1: u8, b2: u8, b3: u8)
    ensures
        spec_u32_le_bytes(spec_u32_le(seq![b0, b1, b2, b3])) == seq![b0, b1, b2, b3],
{
    let v = b0 as int + 256 * b1 as int + 65536 * b2 as int + 16777216 * b3 as int;
    assert(v % 256 == b0 as int && (v / 256) % 256 == b1 as int && (v / 65536) % 256 == b2 as int
        && (v / 16777216) % 256 == b3 as int) by (nonlinear_arith)
        requires
            v == b0 as int + 256 * b1 as int + 65536 * b2 as int + 16777216 * b3 as int,
            0 <= b0 < 256,
            0 <= b1 < 256,
            0 <= b2 < 256,
            0 <= b3 < 256,
    ;
    assert(spec_u32_le_bytes(spec_u32_le(seq![b0, b1, b2, b3])) =~= seq![b0, b1, b2, b3]);
}

pub proof fn lemma_u32_le_roundtrip(value: u32)
    ensures
        spec_u32_le(spec_u32_le_bytes(value)) == value,
{
}

pub fn u16_from_le(lo: u8, hi: u8) -> (r: u16)
    ensures
        r == spec_u16_le(lo, hi),
        r as int == lo as int + 256 * hi as int,
{
    (lo as u16) + (hi as u16) * 256
}

pub fn u32_from_le(b0: u8, b1: u8, b2: u8, b3: u8) -> (r: u32)
    ensures
        r == spec_u32_le(seq![b0, b1, b2, b3]),
{
    (b0 as u32) + (b1 as u32) * 256 + (b2 as u32) * 65536 + (b3 as u32) * 16777216
}

pub fn u16_to_le(value: u16) -> (r: [u8; 2])
    ensures
        r@ == spec_u16_le_bytes(value),
{
    [(value % 256) as u8, (value / 256) as u8]
}

pub fn u32_to_le(value: u32) -> (r: [u8; 4])
    ensures
        r@ == spec_u32_le_bytes(value),
{
    [
        (value % 256) as u8,
        ((value / 256) % 256) as u8,
        ((value / 65536) % 256) as u8,
        (value / 16777216) as u8,
    ]
}

/// Appends `value` little endian.
pub fn push_u16(dst: &mut Vec<u8>, value: u16)
    ensures
        final(dst)@ == old(dst)@ + spec_u16_le_bytes(value),
{
    dst.push((value % 256) as u8);
    dst.push((value / 256) as u8);
}

/// Appends `value` little endian.
pub fn push_u32(dst: &mut Vec<u8>, value: u32)
    ensures
        final(dst)@ == old(dst)@ + spec_u32_le_bytes(value),
{
    dst.push((value % 256) as u8);
    dst.push(((value / 256) % 256) as u8);
    dst.push(((value / 65536) % 256) as u8);
    dst.push((value / 16777216) as u8);
}

/// Appends every byte of `src`.
pub fn push_all(dst: &mut Vec<u8>, src: &[u8])
    ensures
        final(dst)@ == old(dst)@ + src@,
{
    let ghost start = dst@;
    let mut i: usize = 0;
    while i < src.len()
        invariant
            i <= src@.len(),
            dst@ == start + src@.subrange(0, i as int),
        decreases src@.len() - i,
    {
        dst.push(src[i]);
        i = i + 1;
        assert(dst@ =~= start + src@.subrange(0, i as int));
    }
    assert(src@.subrange(0, i as int) =~= src@);
}

/// Whether two byte strings are equal.
pub fn bytes_equal(a: &[u8], b: &[u8]) -> (r: bool)
    ensures
        r == (a@ == b@),
{
    if a.len() != b.len() {
        return false;
    }
    let mut i: usize = 0;
    while i < a.len()
        invariant
            a@.len() == b@.len(),
            i <= a@.len(),
            a@.subrange(0, i as int) == b@.subrange(0, i as int),
        decreases a@.len() - i,
    {
        if a[i] != b[i] {
            assert(a@[i as int] != b@[i as int]);
            return false;
        }
        assert(a@.subrange(0, i + 1) =~= a@.subrange(0, i as int).push(a@[i as int]));
        assert(b@.subrange(0, i + 1) =~= b@.subrange(0, i as int).push(b@[i as int]));
        i = i + 1;
    }
    assert(a@ =~= a@.subrange(0, i as int));
    assert(b@ =~= b@.subrange(0, i as int));
    true
}

/// Whether `data` holds `b`.
pub fn contains_byte(data: &[u8], b: u8) -> (r: bool)
    ensures
        r == data@.contains(b),
{
    let mut i: usize = 0;
    while i < data.len()
        invariant
            i <= data@.len(),
            forall|k: int| 0 <= k < i ==> data@[k] != b,
        decreases data@.len() - i,
    {
        if data[i] == b {
            assert(data@[i as int] == b);
            return true;
        }
        i = i + 1;
    }
    false
}

/// Whether `i` is where `b` first occurs in `s`.
pub open spec fn is_first(s: Seq<u8>, b: u8, i: int) -> bool {
    0 <= i < s.len() && s[i] == b && forall|k: int| 0 <= k < i ==> s[k] != b
}

/// Where `b` first occurs in `s`.
pub open spec fn spec_position(s: Seq<u8>, b: u8) -> Option<int> {
    if exists|i: int| is_first(s, b, i) {
        Some(choose|i: int| is_first(s, b, i))
    } else {
        None
    }
}

pub proof fn lemma_position(s: Seq<u8>, b: u8)
    ensures
        spec_position(s, b) matches Some(i) ==> is_first(s, b, i),
        spec_position(s, b) is None <==> !s.contains(b),
{
    if s.contains(b) {
        let j = choose|j: int| 0 <= j < s.len() && s[j] == b;
        lemma_first_exists(s, b, j);
    }
}

proof fn lemma_first_exists(s: Seq<u8>, b: u8, j: int)
    requires
        0 <= j < s.len(),
        s[j] == b,
    ensures
        exists|i: int| is_first(s, b, i),
    decreases j,
{
    if forall|k: int| 0 <= k < j ==> s[k] != b {
        assert(is_first(s, b, j));
    } else {
        let k = choose|k: int| 0 <= k < j && s[k] == b;
        lemma_first_exists(s, b, k);
    }
}

/// Where `b` first occurs in `s`.
pub fn position(s: &[u8], b: u8) -> (r: Option<usize>)
    ensures
        match r {
            Some(i) => spec_position(s@, b) == Some(i as int),
            None => spec_position(s@, b) is None,
        },
{
    let mut i: usize = 0;
    while i < s.len()
        invariant
            i <= s@.len(),
            forall|k: int| 0 <= k < i ==> s@[k] != b,
        decreases s@.len() - i,
    {
        if s[i] == b {
            proof {
                assert(is_first(s@, b, i as int));
                let j = choose|j: int| is_first(s@, b, j);
                assert(j == i as int) by {
                    if j < i {
                        assert(s@[j] != b);
                    } else if j > i {
                        assert(s@[i as int] != b);
                    }
                }
            }
            return Some(i);
        }
        i = i + 1;
    }
    proof {
        lemma_position(s@, b);
        assert(!s@.contains(b));
    }
    None
}

} // verus!
