//! GRiD file names: `title~kind~`, stored as a length byte and eighty bytes.
use vstd::prelude::*;

verus! {

pub const MAX_LENGTH: usize = 80;

/// The length byte and the eighty bytes of a stored name.
pub const STORAGE_LENGTH: usize = 81;

/// Separates the title from the kind, and ends the kind.
pub const KIND_SEPARATOR: u8 = 0x7e;

/// Starts a password.
pub const PASSWORD_SEPARATOR: u8 = 0x7c;

/// Separates the components of a path.
pub const PATH_SEPARATOR: u8 = 0x60;

#[derive(Clone, Copy, Debug, PartialEq, Eq)]
pub enum GRiDFileNameError {
    TooLong,
    InvalidFormat,
    ForbiddenCharacter(char),
}

/// A file name as it is stored: the bytes past `length` are not part of it.
#[derive(Clone, Copy, Debug, PartialEq, Eq)]
pub struct GRiDFileName {
    length: u8,
    bytes: [u8; 80],
}

/// The character of a separator byte.
pub open spec fn spec_char(b: u8) -> char {
    if b == KIND_SEPARATOR {
        '~'
    } else if b == PASSWORD_SEPARATOR {
        '|'
    } else {
        '`'
    }
}

/// Whether the byte at `i` of the title and kind `h` may not stand there: a
/// password or path separator anywhere, a kind separator after the first.
pub open spec fn forbidden_at(h: Seq<u8>, i: int) -> bool {
    h[i] == PASSWORD_SEPARATOR || h[i] == PATH_SEPARATOR || (h[i] == KIND_SEPARATOR && h.take(
        i,
    ).contains(KIND_SEPARATOR))
}

/// Whether `i` is the first place in `h` where a byte may not stand.
pub open spec fn first_forbidden(h: Seq<u8>, i: int) -> bool {
    0 <= i < h.len() && forbidden_at(h, i) && forall|k: int| 0 <= k < i ==> !forbidden_at(h, k)
}

/// Why `value` is not a file name, if it is not one.
pub open spec fn spec_check_name(value: Seq<u8>) -> Result<(), GRiDFileNameError> {
    if value.len() > MAX_LENGTH {
        Err(GRiDFileNameError::TooLong)
    } else if value.len() == 0 || value.last() != KIND_SEPARATOR {
        Err(GRiDFileNameError::InvalidFormat)
    } else {
        let head = value.drop_last();
        if exists|i: int| first_forbidden(head, i) {
            Err(
                GRiDFileNameError::ForbiddenCharacter(
                    spec_char(head[choose|i: int| first_forbidden(head, i)]),
                ),
            )
        } else if !head.contains(KIND_SEPARATOR) {
            Err(GRiDFileNameError::InvalidFormat)
        } else {
            Ok(())
        }
    }
}

proof fn lemma_first_forbidden_unique(h: Seq<u8>, i: int, j: int)
    requires
        first_forbidden(h, i),
        first_forbidden(h, j),
    ensures
        i == j,
{
    if i < j {
        assert(!forbidden_at(h, i));
    } else if j < i {
        assert(!forbidden_at(h, j));
    }
}

/// The name bytes of stored storage `(length, bytes)`: the first `length` of
/// them, or all of them when `length` overruns the storage.
pub open spec fn spec_name_bytes(length: u8, bytes: Seq<u8>) -> Seq<u8> {
    if length as int <= bytes.len() {
        bytes.take(length as int)
    } else {
        bytes
    }
}

impl GRiDFileName {
    pub closed spec fn length(self) -> u8 {
        self.length
    }

    /// The eighty bytes of storage.
    pub closed spec fn storage(self) -> Seq<u8> {
        self.bytes@
    }

    /// The eighty-one stored bytes: the length, then the storage.
    pub open spec fn stored(self) -> Seq<u8> {
        seq![self.length()] + self.storage()
    }

    pub proof fn lemma_stored_len(self)
        ensures
            self.storage().len() == 80,
            self.stored().len() == STORAGE_LENGTH,
    {
    }

    /// Two names with the same stored bytes are the same name.
    pub proof fn lemma_stored_injective(self, other: Self)
        requires
            self.stored() == other.stored(),
        ensures
            self == other,
    {
        assert(self.stored()[0] == other.stored()[0]);
        assert(self.stored().skip(1) =~= self.bytes@);
        assert(other.stored().skip(1) =~= other.bytes@);
        assert(self.bytes@ == other.bytes@);
        assert forall|i: int| 0 <= i < 80 implies self.bytes[i] == other.bytes[i] by {
            assert(self.bytes@[i] == other.bytes@[i]);
        }
        assert(self.bytes =~= other.bytes);
        assert(self.stored()[0] == self.length);
        assert(other.stored()[0] == other.length);
    }

    /// Why the stored name is not a file name, if it is not one.
    pub open spec fn spec_validate(self) -> Result<(), GRiDFileNameError> {
        if self.length() > MAX_LENGTH {
            Err(GRiDFileNameError::TooLong)
        } else {
            spec_check_name(self.name())
        }
    }

    /// Storage that is all zero: the empty name.
    pub fn zeroed() -> (r: Self)
        ensures
            r.stored() == Seq::new(81, |i: int| 0u8),
    {
        let r = Self { length: 0, bytes: [0u8; 80] };
        assert(r.stored() =~= Seq::new(81, |i: int| 0u8));
        r
    }

    /// The name.
    pub open spec fn name(self) -> Seq<u8> {
        spec_name_bytes(self.length(), self.storage())
    }

    /// Checks that `value` has the shape `title~kind~`.
    pub fn is_valid_name(value: &[u8]) -> (r: Result<(), GRiDFileNameError>)
        ensures
            r == spec_check_name(value@),
    {
        if value.len() > MAX_LENGTH {
            return Err(GRiDFileNameError::TooLong);
        }
        if value.len() == 0 || value[value.len() - 1] != KIND_SEPARATOR {
            return Err(GRiDFileNameError::InvalidFormat);
        }
        let head = &value[0..value.len() - 1];
        let ghost h = value@.drop_last();
        assert(head@ =~= h);
        let mut has_separator = false;
        let mut i: usize = 0;
        while i < head.len()
            invariant
                head@ == h,
                h == value@.drop_last(),
                value@.len() <= MAX_LENGTH,
                value@.len() > 0,
                value@.last() == KIND_SEPARATOR,
                i <= h.len(),
                has_separator == h.take(i as int).contains(KIND_SEPARATOR),
                forall|k: int| 0 <= k < i ==> !forbidden_at(h, k),
            decreases h.len() - i,
        {
            let byte = head[i];
            assert(h.take(i + 1) =~= h.take(i as int).push(byte));
            proof {
                let t = h.take(i + 1);
                if byte == KIND_SEPARATOR {
                    assert(t[i as int] == KIND_SEPARATOR);
                } else if t.contains(KIND_SEPARATOR) {
                    let k = choose|k: int| 0 <= k < t.len() && t[k] == KIND_SEPARATOR;
                    assert(h.take(i as int)[k] == KIND_SEPARATOR);
                }
            }
            if byte == KIND_SEPARATOR && !has_separator {
                has_separator = true;
            } else if byte == KIND_SEPARATOR || byte == PASSWORD_SEPARATOR || byte
                == PATH_SEPARATOR {
                proof {
                    assert(first_forbidden(h, i as int));
                    let j = choose|j: int| first_forbidden(h, j);
                    lemma_first_forbidden_unique(h, i as int, j);
                }
                let chr = if byte == KIND_SEPARATOR {
                    '~'
                } else if byte == PASSWORD_SEPARATOR {
                    '|'
                } else {
                    '`'
                };
                return Err(GRiDFileNameError::ForbiddenCharacter(chr));
            }
            i = i + 1;
        }
        assert(h.take(i as int) =~= h);
        if !has_separator {
            return Err(GRiDFileNameError::InvalidFormat);
        }
        Ok(())
    }

    /// The name `value`, if it has the shape `title~kind~`.
    pub fn new(value: &[u8]) -> (r: Result<Self, GRiDFileNameError>)
        ensures
            match spec_check_name(value@) {
                Ok(()) => (r matches Ok(n) && n.name() == value@ && n.length() == value@.len()),
                Err(e) => r == Err::<Self, GRiDFileNameError>(e),
            },
    {
        Self::is_valid_name(value)?;
        let mut bytes = [0u8; 80];
        let mut i: usize = 0;
        while i < value.len()
            invariant
                value@.len() <= 80,
                i <= value@.len(),
                forall|k: int| 0 <= k < i ==> bytes@[k] == value@[k],
            decreases value@.len() - i,
        {
            bytes[i] = value[i];
            i = i + 1;
        }
        let name = Self { length: value.len() as u8, bytes };
        assert(name.name() =~= value@);
        Ok(name)
    }

    /// The name stored in the eighty-one bytes `raw`, exactly as they hold it:
    /// the length byte first, unchecked.
    pub fn read_from_bytes(raw: &[u8]) -> (r: Option<Self>)
        ensures
            raw@.len() != STORAGE_LENGTH ==> r is None,
            raw@.len() == STORAGE_LENGTH ==> (r matches Some(n) && n.length() == raw@[0]
                && n.storage() == raw@.skip(1) && n.stored() == raw@),
    {
        if raw.len() != STORAGE_LENGTH {
            return None;
        }
        let mut bytes = [0u8; 80];
        let mut i: usize = 0;
        while i < 80
            invariant
                raw@.len() == STORAGE_LENGTH,
                i <= 80,
                forall|k: int| 0 <= k < i ==> bytes@[k] == raw@[k + 1],
            decreases 80 - i,
        {
            bytes[i] = raw[i + 1];
            i = i + 1;
        }
        assert(bytes@ =~= raw@.skip(1));
        let name = Self { length: raw[0], bytes };
        assert(name.stored() =~= raw@);
        Some(name)
    }

    /// The eighty-one stored bytes: the length, then the storage.
    pub fn to_bytes(&self) -> (r: Vec<u8>)
        ensures
            r@ == self.stored(),
    {
        let mut out: Vec<u8> = Vec::with_capacity(STORAGE_LENGTH);
        out.push(self.length);
        let mut i: usize = 0;
        while i < 80
            invariant
                i <= 80,
                out@ == seq![self.length()] + self.storage().take(i as int),
            decreases 80 - i,
        {
            out.push(self.bytes[i]);
            i = i + 1;
            assert(out@ =~= seq![self.length()] + self.storage().take(i as int));
        }
        assert(self.storage().take(80) =~= self.storage());
        out
    }

    /// Names decoded straight from the wire skip the constructor, so the
    /// length prefix has to be checked before it is used as an index.
    pub fn validate(&self) -> (r: Result<(), GRiDFileNameError>)
        ensures
            r == self.spec_validate(),
    {
        if self.length as usize > MAX_LENGTH {
            return Err(GRiDFileNameError::TooLong);
        }
        Self::is_valid_name(self.as_bytes())
    }

    pub fn as_bytes(&self) -> (r: &[u8])
        ensures
            r@ == self.name(),
    {
        if self.length as usize <= 80 {
            let r = self.bytes.as_slice();
            let n = &r[0..self.length as usize];
            assert(n@ =~= self.bytes@.take(self.length as int));
            n
        } else {
            self.bytes.as_slice()
        }
    }
}

} // verus!
