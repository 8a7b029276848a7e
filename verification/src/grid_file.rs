//! The on-disk form of a GRiD file: a sixteen byte header, then the logical
//! body, whose first `property_length` bytes are its properties.
use vstd::prelude::*;

use crate::bytes::{lemma_u32_le_bytes_roundtrip, spec_u32_le, spec_u32_le_bytes, u32_from_le, u32_to_le};
use crate::file_name::GRiDFileName;

verus! {

/// "GRiDiRG"
pub const HEADER_MAGIC: [u8; 7] = [0x47, 0x52, 0x69, 0x44, 0x69, 0x52, 0x47];

pub const HEADER_FORMAT_VERSION: u8 = 1;

pub const HEADER_LENGTH: usize = 16;

/// Why a header or a layout is not a GRiD file's.
#[derive(Clone, Copy, Debug, PartialEq, Eq)]
pub enum GRiDFileError {
    InvalidHeaderMagic,
    UnsupportedHeaderVersion(u8),
    DataTooShort { actual: u64, minimum: u64 },
    DataTooLarge,
}

#[derive(Clone, Copy, Debug, PartialEq, Eq)]
pub struct GRiDFileHeader {
    pub magic: [u8; 7],
    pub format_version: u8,
    pub version_major: u8,
    pub version_minor: u8,
    pub version_patch: u8,
    pub flags: u8,
    pub property_length: u32,
}

/// The sixteen bytes of `h`.
pub open spec fn spec_header_bytes(h: GRiDFileHeader) -> Seq<u8> {
    h.magic@ + seq![h.format_version, h.version_major, h.version_minor, h.version_patch, h.flags]
        + spec_u32_le_bytes(h.property_length)
}

/// Why `h` is not the header of a GRiD file, if it is not.
pub open spec fn spec_header_check(h: GRiDFileHeader) -> Result<(), GRiDFileError> {
    if h.magic@ != HEADER_MAGIC@ {
        Err(GRiDFileError::InvalidHeaderMagic)
    } else if h.format_version != HEADER_FORMAT_VERSION {
        Err(GRiDFileError::UnsupportedHeaderVersion(h.format_version))
    } else {
        Ok(())
    }
}

/// Why a body of `body_length` bytes does not fit a header announcing
/// `property_length` bytes of properties, if it does not: it must hold them,
/// and what follows them must fit a `u32`.
pub open spec fn spec_body_check(property_length: u32, body_length: u64) -> Result<(), GRiDFileError> {
    if body_length < property_length {
        Err(GRiDFileError::DataTooShort { actual: body_length, minimum: property_length as u64 })
    } else if body_length - property_length > u32::MAX {
        Err(GRiDFileError::DataTooLarge)
    } else {
        Ok(())
    }
}

impl GRiDFileHeader {
    /// The header of a new file: the magic, the current format, nothing else.
    pub fn new() -> (r: Self)
        ensures
            r.magic@ == HEADER_MAGIC@,
            r.format_version == HEADER_FORMAT_VERSION,
            r.version_major == 0 && r.version_minor == 0 && r.version_patch == 0,
            r.flags == 0,
            r.property_length == 0,
    {
        GRiDFileHeader {
            magic: HEADER_MAGIC,
            format_version: HEADER_FORMAT_VERSION,
            version_major: 0,
            version_minor: 0,
            version_patch: 0,
            flags: 0,
            property_length: 0,
        }
    }

    pub fn validate(&self) -> (r: Result<(), GRiDFileError>)
        ensures
            r == spec_header_check(*self),
    {
        let mut i: usize = 0;
        while i < 7
            invariant
                i <= 7,
                forall|k: int| 0 <= k < i ==> self.magic@[k] == HEADER_MAGIC@[k],
            decreases 7 - i,
        {
            if self.magic[i] != HEADER_MAGIC[i] {
                return Err(GRiDFileError::InvalidHeaderMagic);
            }
            i = i + 1;
        }
        assert(self.magic@ =~= HEADER_MAGIC@);
        if self.format_version != HEADER_FORMAT_VERSION {
            return Err(GRiDFileError::UnsupportedHeaderVersion(self.format_version));
        }
        Ok(())
    }

    /// The header sixteen bytes hold, if it is a GRiD file's.
    pub fn from_bytes(bytes: &[u8; 16]) -> (r: Result<Self, GRiDFileError>)
        ensures
            match r {
                Ok(h) => spec_header_bytes(h) == bytes@ && spec_header_check(h) is Ok,
                Err(e) => exists|h: GRiDFileHeader|
                    spec_header_bytes(h) == bytes@ && spec_header_check(h) == Err::<(), GRiDFileError>(e),
            },
    {
        let header = GRiDFileHeader {
            magic: [bytes[0], bytes[1], bytes[2], bytes[3], bytes[4], bytes[5], bytes[6]],
            format_version: bytes[7],
            version_major: bytes[8],
            version_minor: bytes[9],
            version_patch: bytes[10],
            flags: bytes[11],
            property_length: u32_from_le(bytes[12], bytes[13], bytes[14], bytes[15]),
        };
        proof {
            lemma_u32_le_bytes_roundtrip(bytes@[12], bytes@[13], bytes@[14], bytes@[15]);
            assert(spec_header_bytes(header) =~= bytes@);
        }
        header.validate()?;
        Ok(header)
    }

    /// The sixteen bytes of the header, if it is a GRiD file's.
    pub fn to_bytes(&self) -> (r: Result<[u8; 16], GRiDFileError>)
        ensures
            match spec_header_check(*self) {
                Ok(()) => (r matches Ok(b) && b@ == spec_header_bytes(*self)),
                Err(e) => r == Err::<[u8; 16], GRiDFileError>(e),
            },
    {
        self.validate()?;
        let p = u32_to_le(self.property_length);
        let b = [
            self.magic[0],
            self.magic[1],
            self.magic[2],
            self.magic[3],
            self.magic[4],
            self.magic[5],
            self.magic[6],
            self.format_version,
            self.version_major,
            self.version_minor,
            self.version_patch,
            self.flags,
            p[0],
            p[1],
            p[2],
            p[3],
        ];
        assert(b@ =~= spec_header_bytes(*self));
        Ok(b)
    }
}

/// A body of `body_length` bytes under `header` must hold its properties, and
/// what follows them must fit a `u32`.
pub fn validate_body_length(header: &GRiDFileHeader, body_length: u64) -> (r: Result<(), GRiDFileError>)
    ensures
        r == spec_body_check(header.property_length, body_length),
{
    let property_length = header.property_length as u64;
    if body_length < property_length {
        return Err(GRiDFileError::DataTooShort { actual: body_length, minimum: property_length });
    }
    if body_length - property_length > 0xffff_ffff {
        return Err(GRiDFileError::DataTooLarge);
    }
    Ok(())
}

/// Whether a file of `physical_length` bytes can hold `header` and the
/// properties it announces, with a body that fits a `u32` after them.
pub fn check_physical_length(header: &GRiDFileHeader, physical_length: u64) -> (r: Result<(), GRiDFileError>)
    ensures
        physical_length < HEADER_LENGTH + header.property_length ==> r == Err::<(), GRiDFileError>(
            GRiDFileError::DataTooShort {
                actual: physical_length,
                minimum: (HEADER_LENGTH + header.property_length) as u64,
            },
        ),
        physical_length >= HEADER_LENGTH + header.property_length && physical_length - (
        HEADER_LENGTH + header.property_length) > u32::MAX ==> r == Err::<(), GRiDFileError>(
            GRiDFileError::DataTooLarge,
        ),
        physical_length >= HEADER_LENGTH + header.property_length && physical_length - (
        HEADER_LENGTH + header.property_length) <= u32::MAX ==> r is Ok,
{
    let minimum_length = HEADER_LENGTH as u64 + header.property_length as u64;
    if physical_length < minimum_length {
        return Err(GRiDFileError::DataTooShort { actual: physical_length, minimum: minimum_length });
    }
    if physical_length - minimum_length > 0xffff_ffff {
        return Err(GRiDFileError::DataTooLarge);
    }
    Ok(())
}

/// Where a signed seek from `start` lands, or nothing when it leaves the range
/// of a `u64` — before the logical body in particular.
pub fn seek_target(start: u64, offset: i64) -> (r: Option<u64>)
    ensures
        0 <= start + offset <= u64::MAX ==> r == Some((start + offset) as u64),
        !(0 <= start + offset <= u64::MAX) ==> r is None,
{
    if offset >= 0 {
        start.checked_add(offset as u64)
    } else {
        let back: u64 = if offset == i64::MIN {
            0x8000_0000_0000_0000
        } else {
            (-offset) as u64
        };
        start.checked_sub(back)
    }
}

/// Where byte `position` of the logical body lies in the file.
pub fn body_offset(position: u64) -> (r: Option<u64>)
    ensures
        position + HEADER_LENGTH <= u64::MAX ==> r == Some((position + HEADER_LENGTH) as u64),
        position + HEADER_LENGTH > u64::MAX ==> r is None,
{
    position.checked_add(HEADER_LENGTH as u64)
}

/// How many bytes a read of `wanted` at `position` of a body of `body_length`
/// takes: none at or past its end, else as many as are wanted and there.
pub fn read_length(position: u64, body_length: u64, wanted: usize) -> (r: usize)
    ensures
        position >= body_length ==> r == 0,
        position < body_length ==> r == (if wanted <= body_length - position {
            wanted as int
        } else {
            body_length - position
        }),
{
    if position >= body_length || wanted == 0 {
        return 0;
    }
    let available = body_length - position;
    if (wanted as u64) <= available {
        wanted
    } else {
        available as usize
    }
}

/// Where a seek moves to: from the start of the body, from the current
/// position, or from the end of the body.
#[derive(Clone, Copy, Debug, PartialEq, Eq)]
pub enum SeekFrom {
    Start(u64),
    Current(i64),
    End(i64),
}

/// Why a write into the body is refused.
#[derive(Clone, Copy, Debug, PartialEq, Eq)]
pub enum WriteRefusal {
    /// The end of the write lies past the range of a `u64`.
    LengthOverflow,
    /// The body it leaves would not fit the header.
    Layout(GRiDFileError),
}

/// Why a file whose header is `h` and which is `physical_length` bytes long
/// cannot be opened, if it cannot.
pub open spec fn spec_open_refusal(h: GRiDFileHeader, physical_length: u64) -> Option<GRiDFileError> {
    match spec_header_check(h) {
        Err(e) => Some(e),
        Ok(()) => if physical_length < HEADER_LENGTH + h.property_length {
            Some(
                GRiDFileError::DataTooShort {
                    actual: physical_length,
                    minimum: (HEADER_LENGTH + h.property_length) as u64,
                },
            )
        } else if physical_length - (HEADER_LENGTH + h.property_length) > u32::MAX {
            Some(GRiDFileError::DataTooLarge)
        } else {
            None
        },
    }
}

/// An open GRiD file, apart from the host file that holds it: its name, its
/// header and the position in its logical body. Every operation is given the
/// body's length as the host file reports it.
#[derive(Clone, Copy, Debug)]
pub struct GRiDFileState {
    pub name: GRiDFileName,
    pub header: GRiDFileHeader,
    /// The position relative to the start of the logical body.
    pub position: u64,
}

/// A header is fixed by its sixteen bytes.
pub proof fn lemma_header_bytes_injective(a: GRiDFileHeader, b: GRiDFileHeader)
    requires
        spec_header_bytes(a) == spec_header_bytes(b),
    ensures
        a == b,
{
    let x = spec_header_bytes(a);
    let y = spec_header_bytes(b);
    assert(x.subrange(0, 7) =~= a.magic@);
    assert(y.subrange(0, 7) =~= b.magic@);
    assert forall|i: int| 0 <= i < 7 implies a.magic[i] == b.magic[i] by {
        assert(a.magic@[i] == x[i]);
        assert(b.magic@[i] == y[i]);
    }
    assert(a.magic =~= b.magic);
    assert(x.subrange(12, 16) =~= spec_u32_le_bytes(a.property_length));
    assert(y.subrange(12, 16) =~= spec_u32_le_bytes(b.property_length));
    crate::bytes::lemma_u32_le_roundtrip(a.property_length);
    crate::bytes::lemma_u32_le_roundtrip(b.property_length);
    assert(x[7] == y[7] && x[8] == y[8] && x[9] == y[9] && x[10] == y[10] && x[11] == y[11]);
}

impl GRiDFileState {
    /// A file opened with the first sixteen bytes `header_bytes` and
    /// `physical_length` bytes in all, at the start of its body: the header
    /// must be a GRiD file's, and the file must hold the properties it
    /// announces and a body that fits a `u32` after them.
    pub fn open(name: GRiDFileName, header_bytes: &[u8; 16], physical_length: u64) -> (r: Result<
        Self,
        GRiDFileError,
    >)
        ensures
            match r {
                Ok(s) => s.name == name && spec_header_bytes(s.header) == header_bytes@
                    && spec_header_check(s.header) is Ok && s.position == 0 && physical_length
                    >= HEADER_LENGTH + s.header.property_length && physical_length - (HEADER_LENGTH
                    + s.header.property_length) <= u32::MAX,
                Err(e) => exists|h: GRiDFileHeader|
                    spec_header_bytes(h) == header_bytes@ && spec_open_refusal(h, physical_length)
                        == Some(e),
            },
            forall|h: GRiDFileHeader|
                spec_header_bytes(h) == header_bytes@ && spec_open_refusal(h, physical_length)
                    is None ==> (r matches Ok(s) && s.header == h),
    {
        let header = match GRiDFileHeader::from_bytes(header_bytes) {
            Ok(h) => h,
            Err(e) => {
                proof {
                    let w = choose|h: GRiDFileHeader|
                        spec_header_bytes(h) == header_bytes@ && spec_header_check(h) == Err::<
                            (),
                            GRiDFileError,
                        >(e);
                    assert forall|h: GRiDFileHeader| spec_header_bytes(h) == header_bytes@ implies h
                        == w by {
                        lemma_header_bytes_injective(h, w);
                    }
                    assert(spec_open_refusal(w, physical_length) == Some(e));
                }
                return Err(e);
            },
        };
        proof {
            assert forall|h: GRiDFileHeader| spec_header_bytes(h) == header_bytes@ implies h
                == header by {
                lemma_header_bytes_injective(h, header);
            }
        }
        check_physical_length(&header, physical_length)?;
        Ok(GRiDFileState { name, header, position: 0 })
    }

    /// A new file with `header` and a body of `body_length` bytes, at the
    /// start of its body, and the header bytes to write before the body.
    pub fn create(name: GRiDFileName, header: GRiDFileHeader, body_length: u64) -> (r: Result<
        (Self, [u8; 16]),
        GRiDFileError,
    >)
        ensures
            spec_body_check(header.property_length, body_length) is Err ==> r == Err::<
                (Self, [u8; 16]),
                GRiDFileError,
            >(spec_body_check(header.property_length, body_length)->Err_0),
            spec_body_check(header.property_length, body_length) is Ok && spec_header_check(header)
                is Err ==> r == Err::<(Self, [u8; 16]), GRiDFileError>(
                spec_header_check(header)->Err_0,
            ),
            spec_body_check(header.property_length, body_length) is Ok && spec_header_check(header)
                is Ok ==> (r matches Ok((s, b)) && s.name == name && s.header == header
                && s.position == 0 && b@ == spec_header_bytes(header)),
    {
        validate_body_length(&header, body_length)?;
        let bytes = header.to_bytes()?;
        Ok((GRiDFileState { name, header, position: 0 }, bytes))
    }

    /// Moves to where `from` points in a body of `body_length` bytes; a seek
    /// before the start of the body is refused and moves nothing.
    pub fn seek(&mut self, from: SeekFrom, body_length: u64) -> (r: Option<u64>)
        ensures
            final(self).name == old(self).name,
            final(self).header == old(self).header,
            ({
                let target: Option<int> = match from {
                    SeekFrom::Start(p) => Some(p as int),
                    SeekFrom::Current(o) => if 0 <= old(self).position + o <= u64::MAX {
                        Some(old(self).position + o)
                    } else {
                        None
                    },
                    SeekFrom::End(o) => if 0 <= body_length + o <= u64::MAX {
                        Some(body_length + o)
                    } else {
                        None
                    },
                };
                match target {
                    Some(t) => r == Some(t as u64) && final(self).position == t,
                    None => r is None && final(self).position == old(self).position,
                }
            }),
    {
        let target = match from {
            SeekFrom::Start(p) => Some(p),
            SeekFrom::Current(o) => seek_target(self.position, o),
            SeekFrom::End(o) => seek_target(body_length, o),
        };
        if let Some(t) = target {
            self.position = t;
        }
        target
    }

    /// The length the host file is cut to when the body ends at the current
    /// position; the properties cannot be cut.
    pub fn truncated_length(&self) -> (r: Result<u64, GRiDFileError>)
        ensures
            match spec_body_check(self.header.property_length, self.position) {
                Ok(()) => r == Ok::<u64, GRiDFileError>((HEADER_LENGTH + self.position) as u64),
                Err(e) => r == Err::<u64, GRiDFileError>(e),
            },
    {
        validate_body_length(&self.header, self.position)?;
        Ok(HEADER_LENGTH as u64 + self.position)
    }

    /// Replaces the header of a file whose body is `body_length` bytes long,
    /// and gives the bytes to write in place of the old one; the body and the
    /// position stay.
    pub fn set_header(&mut self, header: GRiDFileHeader, body_length: u64) -> (r: Result<
        [u8; 16],
        GRiDFileError,
    >)
        ensures
            final(self).name == old(self).name,
            final(self).position == old(self).position,
            spec_body_check(header.property_length, body_length) is Err ==> r == Err::<
                [u8; 16],
                GRiDFileError,
            >(spec_body_check(header.property_length, body_length)->Err_0) && final(self).header
                == old(self).header,
            spec_body_check(header.property_length, body_length) is Ok && spec_header_check(header)
                is Err ==> r == Err::<[u8; 16], GRiDFileError>(spec_header_check(header)->Err_0)
                && final(self).header == old(self).header,
            spec_body_check(header.property_length, body_length) is Ok && spec_header_check(header)
                is Ok ==> (r matches Ok(b) && b@ == spec_header_bytes(header) && final(self).header
                == header),
    {
        validate_body_length(&header, body_length)?;
        let bytes = header.to_bytes()?;
        self.header = header;
        Ok(bytes)
    }

    /// Whether `length` bytes may be written at the current position of a body
    /// of `body_length` bytes: the body they leave must still fit the header.
    pub fn check_write(&self, length: usize, body_length: u64) -> (r: Result<(), WriteRefusal>)
        ensures
            self.position + length > u64::MAX ==> r == Err::<(), WriteRefusal>(
                WriteRefusal::LengthOverflow,
            ),
            self.position + length <= u64::MAX ==> ({
                let end = self.position + length;
                let longest = if end > body_length {
                    end
                } else {
                    body_length as int
                };
                match spec_body_check(self.header.property_length, longest as u64) {
                    Ok(()) => r is Ok,
                    Err(e) => r == Err::<(), WriteRefusal>(WriteRefusal::Layout(e)),
                }
            }),
    {
        let end = match self.position.checked_add(length as u64) {
            Some(end) => end,
            None => {
                return Err(WriteRefusal::LengthOverflow);
            },
        };
        let longest = if end > body_length {
            end
        } else {
            body_length
        };
        match validate_body_length(&self.header, longest) {
            Ok(()) => Ok(()),
            Err(e) => Err(WriteRefusal::Layout(e)),
        }
    }

    /// Moves past `count` bytes just read or written.
    pub fn advance(&mut self, count: usize)
        requires
            old(self).position + count <= u64::MAX,
        ensures
            final(self).position == old(self).position + count,
            final(self).name == old(self).name,
            final(self).header == old(self).header,
    {
        self.position = self.position + count as u64;
    }
}

} // verus!
