//! Maps of allocated ids: one bit per id, id 1 in the lowest bit of the first
//! byte, and a search for the lowest id still free.
use vstd::prelude::*;

verus! {

/// Whether bit `k` of `b` is set.
pub open spec fn bit_of(b: u8, k: u8) -> bool {
    (b >> k) & 1u8 == 1u8
}

/// Whether `id` is marked in the bytes of a map.
pub open spec fn spec_has(bytes: Seq<u8>, id: int) -> bool {
    bit_of(bytes[(id - 1) / 8], ((id - 1) % 8) as u8)
}

proof fn lemma_set_bit(b: u8, k: u8, j: u8)
    requires
        k < 8,
        j < 8,
    ensures
        bit_of(b | (1u8 << k), j) == (j == k || bit_of(b, j)),
{
    assert(((b | (1u8 << k)) >> j) & 1u8 == 1u8 <==> (j == k || (b >> j) & 1u8 == 1u8))
        by (bit_vector)
        requires
            k < 8,
            j < 8,
    ;
}

proof fn lemma_clear_bit(b: u8, k: u8, j: u8)
    requires
        k < 8,
        j < 8,
    ensures
        bit_of(b & !(1u8 << k), j) == (j != k && bit_of(b, j)),
{
    assert(((b & !(1u8 << k)) >> j) & 1u8 == 1u8 <==> (j != k && (b >> j) & 1u8 == 1u8))
        by (bit_vector)
        requires
            k < 8,
            j < 8,
    ;
}

proof fn lemma_full_byte(j: u8)
    requires
        j < 8,
    ensures
        bit_of(0xffu8, j),
{
    assert((0xffu8 >> j) & 1u8 == 1u8) by (bit_vector)
        requires
            j < 8,
    ;
}

proof fn lemma_empty_byte(j: u8)
    requires
        j < 8,
    ensures
        !bit_of(0u8, j),
{
    assert((0u8 >> j) & 1u8 != 1u8) by (bit_vector)
        requires
            j < 8,
    ;
}

proof fn lemma_not_full_byte(b: u8)
    requires
        b != 0xff,
    ensures
        exists|j: u8| j < 8 && !bit_of(b, j),
{
    if forall|j: u8| j < 8 ==> bit_of(b, j) {
        assert(bit_of(b, 0u8));
        assert(bit_of(b, 1u8));
        assert(bit_of(b, 2u8));
        assert(bit_of(b, 3u8));
        assert(bit_of(b, 4u8));
        assert(bit_of(b, 5u8));
        assert(bit_of(b, 6u8));
        assert(bit_of(b, 7u8));
        assert(b == 0xffu8) by (bit_vector)
            requires
                (b >> 0u8) & 1u8 == 1u8,
                (b >> 1u8) & 1u8 == 1u8,
                (b >> 2u8) & 1u8 == 1u8,
                (b >> 3u8) & 1u8 == 1u8,
                (b >> 4u8) & 1u8 == 1u8,
                (b >> 5u8) & 1u8 == 1u8,
                (b >> 6u8) & 1u8 == 1u8,
                (b >> 7u8) & 1u8 == 1u8,
        ;
    }
}

/// Marks `id`.
fn set_bit(bytes: &mut Vec<u8>, id: usize)
    requires
        1 <= id <= 8 * old(bytes)@.len(),
    ensures
        final(bytes)@.len() == old(bytes)@.len(),
        spec_has(final(bytes)@, id as int),
        forall|j: int|
            1 <= j <= 8 * old(bytes)@.len() && j != id ==> spec_has(final(bytes)@, j) == spec_has(
                old(bytes)@,
                j,
            ),
{
    let bit = id - 1;
    let byte = bit / 8;
    let k = (bit % 8) as u8;
    let updated = bytes[byte] | (1u8 << k);
    bytes.set(byte, updated);
    proof {
        assert forall|j: int| 1 <= j <= 8 * old(bytes)@.len() implies spec_has(bytes@, j) == (j
            == id || spec_has(old(bytes)@, j)) by {
            let jb = (j - 1) / 8;
            let jk = ((j - 1) % 8) as u8;
            if jb == byte {
                lemma_set_bit(old(bytes)@[byte as int], k, jk);
            }
        }
    }
}

/// Unmarks `id`.
fn clear_bit(bytes: &mut Vec<u8>, id: usize)
    requires
        1 <= id <= 8 * old(bytes)@.len(),
    ensures
        final(bytes)@.len() == old(bytes)@.len(),
        !spec_has(final(bytes)@, id as int),
        forall|j: int|
            1 <= j <= 8 * old(bytes)@.len() && j != id ==> spec_has(final(bytes)@, j) == spec_has(
                old(bytes)@,
                j,
            ),
{
    let bit = id - 1;
    let byte = bit / 8;
    let k = (bit % 8) as u8;
    let updated = bytes[byte] & !(1u8 << k);
    bytes.set(byte, updated);
    proof {
        assert forall|j: int| 1 <= j <= 8 * old(bytes)@.len() implies spec_has(bytes@, j) == (j
            != id && spec_has(old(bytes)@, j)) by {
            let jb = (j - 1) / 8;
            let jk = ((j - 1) % 8) as u8;
            if jb == byte {
                lemma_clear_bit(old(bytes)@[byte as int], k, jk);
            }
        }
    }
}

/// Whether `id` is marked.
fn test_bit(bytes: &Vec<u8>, id: usize) -> (r: bool)
    requires
        1 <= id <= 8 * bytes@.len(),
    ensures
        r == spec_has(bytes@, id as int),
{
    let bit = id - 1;
    let byte = bit / 8;
    let k = (bit % 8) as u8;
    (bytes[byte] >> k) & 1u8 == 1u8
}

/// The lowest unmarked id up to `max`.
fn first_free(bytes: &Vec<u8>, max: usize) -> (r: Option<usize>)
    requires
        max <= 65535,
        max <= 8 * bytes@.len(),
        8 * bytes@.len() <= max + 8,
    ensures
        match r {
            Some(id) => 1 <= id <= max && !spec_has(bytes@, id as int) && forall|j: int|
                1 <= j < id ==> spec_has(bytes@, j),
            None => forall|j: int| 1 <= j <= max ==> spec_has(bytes@, j),
        },
{
    let mut i: usize = 0;
    while i < bytes.len()
        invariant
            max <= 65535,
            max <= 8 * bytes@.len(),
            8 * bytes@.len() <= max + 8,
            i <= bytes@.len(),
            forall|j: int| 1 <= j <= 8 * i ==> spec_has(bytes@, j),
        decreases bytes@.len() - i,
    {
        let byte = bytes[i];
        if byte != 0xff {
            let mut k: u8 = 0;
            while k < 8 && (byte >> k) & 1u8 == 1u8
                invariant
                    k <= 8,
                    i < bytes@.len(),
                    byte == bytes@[i as int],
                    forall|j: u8| j < k ==> bit_of(byte, j),
                decreases 8 - k,
            {
                k = k + 1;
            }
            proof {
                if k == 8 {
                    lemma_not_full_byte(byte);
                    let j = choose|j: u8| j < 8 && !bit_of(byte, j);
                    assert(bit_of(byte, j));
                }
            }
            let candidate = 1 + i * 8 + k as usize;
            proof {
                assert forall|j: int| 1 <= j < candidate implies spec_has(bytes@, j) by {
                    if j > 8 * i {
                        assert((j - 1) / 8 == i);
                        assert((((j - 1) % 8) as u8) < k);
                    }
                }
                assert((candidate - 1) / 8 == i);
                assert(((candidate - 1) % 8) as u8 == k);
            }
            if candidate > max {
                return None;
            }
            return Some(candidate);
        }
        proof {
            assert forall|j: int| 1 <= j <= 8 * (i + 1) implies spec_has(bytes@, j) by {
                if j > 8 * i {
                    assert((j - 1) / 8 == i);
                    lemma_full_byte(((j - 1) % 8) as u8);
                }
            }
        }
        i = i + 1;
    }
    None
}

/// A map of `u16` ids 1 to 65535.
pub struct IdMap16(Vec<u8>);

/// A map of `u8` ids 1 to 255.
pub struct IdMap8(Vec<u8>);

impl IdMap16 {
    /// The map holds one bit for every id.
    pub closed spec fn wf(self) -> bool {
        self.0@.len() == 8192
    }

    /// Whether `id` is allocated.
    pub closed spec fn has(self, id: int) -> bool {
        spec_has(self.0@, id)
    }

    /// The bytes of the map.
    pub closed spec fn bytes(self) -> Seq<u8> {
        self.0@
    }

    /// A map with no id allocated.
    pub fn new() -> (r: Self)
        ensures
            r.wf(),
            forall|id: int| 1 <= id <= 65535 ==> !r.has(id),
            forall|i: int| 0 <= i < 8192 ==> r.bytes()[i] == 0,
            r.bytes().len() == 8192,
    {
        let bytes = vec![0u8; 8192];
        proof {
            assert forall|id: int| 1 <= id <= 65535 implies !spec_has(bytes@, id) by {
                lemma_empty_byte(((id - 1) % 8) as u8);
            }
        }
        IdMap16(bytes)
    }

    pub fn set(&mut self, id: u16)
        requires
            old(self).wf(),
            id != 0,
        ensures
            final(self).wf(),
            final(self).has(id as int),
            forall|j: int| 1 <= j <= 65535 && j != id ==> final(self).has(j) == old(self).has(j),
    {
        set_bit(&mut self.0, id as usize);
    }

    pub fn clear(&mut self, id: u16)
        requires
            old(self).wf(),
            id != 0,
        ensures
            final(self).wf(),
            !final(self).has(id as int),
            forall|j: int| 1 <= j <= 65535 && j != id ==> final(self).has(j) == old(self).has(j),
    {
        clear_bit(&mut self.0, id as usize);
    }

    pub fn is_set(&self, id: u16) -> (r: bool)
        requires
            self.wf(),
            id != 0,
        ensures
            r == self.has(id as int),
    {
        test_bit(&self.0, id as usize)
    }

    /// The lowest id not allocated, if any is left.
    pub fn find_free(&self) -> (r: Option<u16>)
        requires
            self.wf(),
        ensures
            match r {
                Some(id) => id != 0 && !self.has(id as int) && forall|j: int|
                    1 <= j < id ==> self.has(j),
                None => forall|j: int| 1 <= j <= 65535 ==> self.has(j),
            },
    {
        match first_free(&self.0, 65535) {
            Some(id) => Some(id as u16),
            None => None,
        }
    }

    /// The byte at `index` of the map: ids `8 * index + 1` to `8 * index + 8`,
    /// lowest first.
    pub fn byte(&self, index: usize) -> (r: u8)
        requires
            self.wf(),
            index < 8192,
        ensures
            r == self.bytes()[index as int],
    {
        self.0[index]
    }
}

impl IdMap8 {
    /// The map holds one bit for every id.
    pub closed spec fn wf(self) -> bool {
        self.0@.len() == 32
    }

    /// Whether `id` is allocated.
    pub closed spec fn has(self, id: int) -> bool {
        spec_has(self.0@, id)
    }

    /// The bytes of the map.
    pub closed spec fn bytes(self) -> Seq<u8> {
        self.0@
    }

    /// A map with no id allocated.
    pub fn new() -> (r: Self)
        ensures
            r.wf(),
            forall|id: int| 1 <= id <= 255 ==> !r.has(id),
            forall|i: int| 0 <= i < 32 ==> r.bytes()[i] == 0,
            r.bytes().len() == 32,
    {
        let bytes = vec![0u8; 32];
        proof {
            assert forall|id: int| 1 <= id <= 255 implies !spec_has(bytes@, id) by {
                lemma_empty_byte(((id - 1) % 8) as u8);
            }
        }
        IdMap8(bytes)
    }

    pub fn set(&mut self, id: u8)
        requires
            old(self).wf(),
            id != 0,
        ensures
            final(self).wf(),
            final(self).has(id as int),
            forall|j: int| 1 <= j <= 255 && j != id ==> final(self).has(j) == old(self).has(j),
    {
        set_bit(&mut self.0, id as usize);
    }

    pub fn clear(&mut self, id: u8)
        requires
            old(self).wf(),
            id != 0,
        ensures
            final(self).wf(),
            !final(self).has(id as int),
            forall|j: int| 1 <= j <= 255 && j != id ==> final(self).has(j) == old(self).has(j),
    {
        clear_bit(&mut self.0, id as usize);
    }

    pub fn is_set(&self, id: u8) -> (r: bool)
        requires
            self.wf(),
            id != 0,
        ensures
            r == self.has(id as int),
    {
        test_bit(&self.0, id as usize)
    }

    /// The lowest id not allocated, if any is left.
    pub fn find_free(&self) -> (r: Option<u8>)
        requires
            self.wf(),
        ensures
            match r {
                Some(id) => id != 0 && !self.has(id as int) && forall|j: int|
                    1 <= j < id ==> self.has(j),
                None => forall|j: int| 1 <= j <= 255 ==> self.has(j),
            },
    {
        match first_free(&self.0, 255) {
            Some(id) => Some(id as u8),
            None => None,
        }
    }

    /// The byte at `index` of the map: ids `8 * index + 1` to `8 * index + 8`,
    /// lowest first.
    pub fn byte(&self, index: usize) -> (r: u8)
        requires
            self.wf(),
            index < 32,
        ensures
            r == self.bytes()[index as int],
    {
        self.0[index]
    }
}

} // verus!
