//! The descriptor of a GRiD file: the 198 bytes of metadata the client reads
//! and writes beside the file's contents.
use vstd::prelude::*;

use crate::bytes::{
    lemma_u16_le_bytes_roundtrip, lemma_u16_le_roundtrip, lemma_u32_le_bytes_roundtrip,
    lemma_u32_le_roundtrip, push_all, push_u16, push_u32, spec_u16_le_bytes, spec_u32_le,
    spec_u32_le_bytes, u16_from_le, u32_from_le,
};
use crate::date::{lemma_bytes_roundtrip, lemma_date_roundtrip, spec_date_bytes, GRiDDate};
use crate::file_name::{spec_check_name, GRiDFileName, GRiDFileNameError, MAX_LENGTH};

verus! {

pub const DESCRIPTOR_LENGTH: usize = 198;

/// Why bytes are no descriptor.
#[derive(Clone, Copy, Debug, PartialEq, Eq)]
pub enum DescriptorError {
    /// A descriptor is exactly [`DESCRIPTOR_LENGTH`] bytes.
    WrongLength,
    /// The file name it holds is not one.
    InvalidName(GRiDFileNameError),
}

/// The flag fields are `u8` rather than `bool` because the wire carries
/// whatever the client sent, and only 0 and 1 are valid `bool` bit patterns.
#[derive(Clone, Copy, Debug, PartialEq, Eq)]
pub struct GRiDFileDescriptor {
    pub file_length: u32,
    pub file_name: GRiDFileName,
    pub creation_date: GRiDDate,
    pub dir_file_id: u16,
    pub last_modified_date: GRiDDate,
    pub expiration_date: GRiDDate,
    pub machine_id: u32,
    pub compressed: u8,
    pub encrypted: u8,
    pub protected: u8,
    pub password: [u8; 5],
    pub dir_length: u32,
    pub dir_count: u16,
    pub grid_write1: [u8; 6],
    pub machine_id2: u8,
    pub uses_8087: u8,
    pub version1: u8,
    pub version2: u8,
    pub machine_id3: u32,
    pub grid_write2: [u8; 11],
    pub version3: u8,
    pub property_length: u32,
    pub rom: u8,
    pub rom_id: u16,
    pub mode: u16,
    pub rainy_day_bytes: [u8; 3],
    pub user_defined_bytes: [u8; 20],
    pub grid_central_use: u16,
}

/// The bytes of `d`, every field in order, little endian.
pub open spec fn spec_descriptor_bytes(d: GRiDFileDescriptor) -> Seq<u8> {
    spec_descriptor_part1(d) + spec_descriptor_part2(d) + spec_descriptor_part3(d) + spec_descriptor_part4(d) + spec_descriptor_part5(d)
}

pub open spec fn spec_descriptor_part1(d: GRiDFileDescriptor) -> Seq<u8> {
    spec_u32_le_bytes(d.file_length)
        + d.file_name.stored()
}

pub open spec fn spec_descriptor_part2(d: GRiDFileDescriptor) -> Seq<u8> {
    spec_date_bytes(d.creation_date)
        + spec_u16_le_bytes(d.dir_file_id)
        + spec_date_bytes(d.last_modified_date)
        + spec_date_bytes(d.expiration_date)
}

pub open spec fn spec_descriptor_part3(d: GRiDFileDescriptor) -> Seq<u8> {
    spec_u32_le_bytes(d.machine_id)
        + seq![d.compressed]
        + seq![d.encrypted]
        + seq![d.protected]
        + d.password@
        + spec_u32_le_bytes(d.dir_length)
        + spec_u16_le_bytes(d.dir_count)
        + d.grid_write1@
}

pub open spec fn spec_descriptor_part4(d: GRiDFileDescriptor) -> Seq<u8> {
    seq![d.machine_id2]
        + seq![d.uses_8087]
        + seq![d.version1]
        + seq![d.version2]
        + spec_u32_le_bytes(d.machine_id3)
        + d.grid_write2@
        + seq![d.version3]
        + spec_u32_le_bytes(d.property_length)
        + seq![d.rom]
}

pub open spec fn spec_descriptor_part5(d: GRiDFileDescriptor) -> Seq<u8> {
    spec_u16_le_bytes(d.rom_id)
        + spec_u16_le_bytes(d.mode)
        + d.rainy_day_bytes@
        + d.user_defined_bytes@
        + spec_u16_le_bytes(d.grid_central_use)
}

/// The `N` bytes of `b` from `at`.
fn array_at<const N: usize>(b: &[u8], at: usize) -> (r: [u8; N])
    requires
        at + N <= b@.len(),
    ensures
        r@ == b@.subrange(at as int, at + N),
{
    let mut r = [0u8; N];
    let n = b.len();
    let mut i: usize = 0;
    while i < N
        invariant
            n == b@.len(),
            at + N <= b@.len(),
            i <= N,
            forall|k: int| 0 <= k < i ==> r@[k] == b@[at + k],
        decreases N - i,
    {
        r[i] = b[at + i];
        i = i + 1;
    }
    assert(r@ =~= b@.subrange(at as int, at + N));
    r
}

fn u32_at(b: &[u8], at: usize) -> (r: u32)
    requires
        at + 4 <= b@.len(),
    ensures
        spec_u32_le_bytes(r) == b@.subrange(at as int, at + 4),
{
    let r = u32_from_le(b[at], b[at + 1], b[at + 2], b[at + 3]);
    proof {
        lemma_u32_le_bytes_roundtrip(b@[at as int], b@[at + 1], b@[at + 2], b@[at + 3]);
        assert(b@.subrange(at as int, at + 4) =~= seq![b@[at as int], b@[at + 1], b@[at + 2], b@[at + 3]]);
    }
    r
}

fn u16_at(b: &[u8], at: usize) -> (r: u16)
    requires
        at + 2 <= b@.len(),
    ensures
        spec_u16_le_bytes(r) == b@.subrange(at as int, at + 2),
{
    let r = u16_from_le(b[at], b[at + 1]);
    proof {
        lemma_u16_le_bytes_roundtrip(b@[at as int], b@[at + 1]);
        assert(b@.subrange(at as int, at + 2) =~= seq![b@[at as int], b@[at + 1]]);
    }
    r
}

fn date_at(b: &[u8], at: usize) -> (r: GRiDDate)
    requires
        at + 11 <= b@.len(),
    ensures
        spec_date_bytes(r) == b@.subrange(at as int, at + 11),
{
    let raw: [u8; 11] = array_at(b, at);
    let r = GRiDDate::from_bytes(&raw);
    proof {
        lemma_bytes_roundtrip(raw@);
    }
    r
}

impl Default for GRiDFileDescriptor {
    /// The descriptor whose every byte is zero.
    fn default() -> (r: Self)
        ensures
            spec_descriptor_bytes(r) == Seq::new(198, |i: int| 0u8),
    {
        let r = GRiDFileDescriptor {
            file_length: 0,
            file_name: GRiDFileName::zeroed(),
            creation_date: GRiDDate::never(),
            dir_file_id: 0,
            last_modified_date: GRiDDate::never(),
            expiration_date: GRiDDate::never(),
            machine_id: 0,
            compressed: 0,
            encrypted: 0,
            protected: 0,
            password: [0u8; 5],
            dir_length: 0,
            dir_count: 0,
            grid_write1: [0u8; 6],
            machine_id2: 0,
            uses_8087: 0,
            version1: 0,
            version2: 0,
            machine_id3: 0,
            grid_write2: [0u8; 11],
            version3: 0,
            property_length: 0,
            rom: 0,
            rom_id: 0,
            mode: 0,
            rainy_day_bytes: [0u8; 3],
            user_defined_bytes: [0u8; 20],
            grid_central_use: 0,
        };
        assert(spec_u32_le_bytes(0) =~= seq![0u8, 0u8, 0u8, 0u8]);
        assert(spec_u16_le_bytes(0) =~= seq![0u8, 0u8]);
        assert(spec_descriptor_bytes(r) =~= Seq::new(198, |i: int| 0u8));
        r
    }
}

impl GRiDFileDescriptor {
    /// The descriptor `bytes` hold, which must be exactly
    /// [`DESCRIPTOR_LENGTH`] of them and name a valid file.
    pub fn from_bytes(bytes: &[u8]) -> (r: Result<Self, DescriptorError>)
        ensures
            bytes@.len() != DESCRIPTOR_LENGTH ==> r == Err::<Self, DescriptorError>(
                DescriptorError::WrongLength,
            ),
            bytes@.len() == DESCRIPTOR_LENGTH ==> match r {
                Ok(d) => spec_descriptor_bytes(d) == bytes@ && d.file_name.spec_validate() is Ok,
                Err(e) => e matches DescriptorError::InvalidName(n) && (bytes@[4] > MAX_LENGTH
                    ==> n == GRiDFileNameError::TooLong) && (bytes@[4] <= MAX_LENGTH ==> spec_check_name(
                    bytes@.subrange(5, 5 + bytes@[4]),
                ) == Err::<(), GRiDFileNameError>(n)),
            },
    {
        if bytes.len() != DESCRIPTOR_LENGTH {
            return Err(DescriptorError::WrongLength);
        }
        let name_bytes: [u8; 81] = array_at(bytes, 4);
        let file_name = match GRiDFileName::read_from_bytes(name_bytes.as_slice()) {
            Some(name) => name,
            None => {
                return Err(DescriptorError::WrongLength);
            },
        };
        proof {
            if bytes@[4] <= MAX_LENGTH {
                assert(file_name.name() =~= bytes@.subrange(5, 5 + bytes@[4]));
            }
        }
        match file_name.validate() {
            Ok(()) => {},
            Err(e) => {
                return Err(DescriptorError::InvalidName(e));
            },
        }
        let d = GRiDFileDescriptor {
            file_length: u32_at(bytes, 0),
            file_name: file_name,
            creation_date: date_at(bytes, 85),
            dir_file_id: u16_at(bytes, 96),
            last_modified_date: date_at(bytes, 98),
            expiration_date: date_at(bytes, 109),
            machine_id: u32_at(bytes, 120),
            compressed: bytes[124],
            encrypted: bytes[125],
            protected: bytes[126],
            password: array_at(bytes, 127),
            dir_length: u32_at(bytes, 132),
            dir_count: u16_at(bytes, 136),
            grid_write1: array_at(bytes, 138),
            machine_id2: bytes[144],
            uses_8087: bytes[145],
            version1: bytes[146],
            version2: bytes[147],
            machine_id3: u32_at(bytes, 148),
            grid_write2: array_at(bytes, 152),
            version3: bytes[163],
            property_length: u32_at(bytes, 164),
            rom: bytes[168],
            rom_id: u16_at(bytes, 169),
            mode: u16_at(bytes, 171),
            rainy_day_bytes: array_at(bytes, 173),
            user_defined_bytes: array_at(bytes, 176),
            grid_central_use: u16_at(bytes, 196),
        };
        assert(spec_descriptor_bytes(d) =~= bytes@);
        Ok(d)
    }

    /// The bytes of the descriptor.
    pub fn to_bytes(&self) -> (r: Vec<u8>)
        ensures
            r@ == spec_descriptor_bytes(*self),
    {
        let mut out: Vec<u8> = Vec::with_capacity(DESCRIPTOR_LENGTH);
        push_u32(&mut out, self.file_length);
        push_all(&mut out, self.file_name.to_bytes().as_slice());
        push_all(&mut out, self.creation_date.to_bytes().as_slice());
        push_u16(&mut out, self.dir_file_id);
        push_all(&mut out, self.last_modified_date.to_bytes().as_slice());
        push_all(&mut out, self.expiration_date.to_bytes().as_slice());
        push_u32(&mut out, self.machine_id);
        out.push(self.compressed);
        out.push(self.encrypted);
        out.push(self.protected);
        push_all(&mut out, self.password.as_slice());
        push_u32(&mut out, self.dir_length);
        push_u16(&mut out, self.dir_count);
        push_all(&mut out, self.grid_write1.as_slice());
        out.push(self.machine_id2);
        out.push(self.uses_8087);
        out.push(self.version1);
        out.push(self.version2);
        push_u32(&mut out, self.machine_id3);
        push_all(&mut out, self.grid_write2.as_slice());
        out.push(self.version3);
        push_u32(&mut out, self.property_length);
        out.push(self.rom);
        push_u16(&mut out, self.rom_id);
        push_u16(&mut out, self.mode);
        push_all(&mut out, self.rainy_day_bytes.as_slice());
        push_all(&mut out, self.user_defined_bytes.as_slice());
        push_u16(&mut out, self.grid_central_use);
        assert(out@ =~= spec_descriptor_bytes(*self));
        out
    }
}

#[verifier::rlimit(30)]
proof fn lemma_part1_injective(a: GRiDFileDescriptor, b: GRiDFileDescriptor)
    requires
        spec_descriptor_part1(a) == spec_descriptor_part1(b),
    ensures
        a.file_length == b.file_length,
        a.file_name == b.file_name,
{
    let x = spec_descriptor_part1(a);
    let y = spec_descriptor_part1(b);
    a.file_name.lemma_stored_len();
    b.file_name.lemma_stored_len();
    assert(x.subrange(0, 4) =~= spec_u32_le_bytes(a.file_length));
    assert(y.subrange(0, 4) =~= spec_u32_le_bytes(b.file_length));
    lemma_u32_le_roundtrip(a.file_length);
    lemma_u32_le_roundtrip(b.file_length);
    assert(x.subrange(4, 85) =~= a.file_name.stored());
    assert(y.subrange(4, 85) =~= b.file_name.stored());
    a.file_name.lemma_stored_injective(b.file_name);
}

#[verifier::rlimit(30)]
proof fn lemma_part2_injective(a: GRiDFileDescriptor, b: GRiDFileDescriptor)
    requires
        spec_descriptor_part2(a) == spec_descriptor_part2(b),
    ensures
        a.creation_date == b.creation_date,
        a.dir_file_id == b.dir_file_id,
        a.last_modified_date == b.last_modified_date,
        a.expiration_date == b.expiration_date,
{
    let x = spec_descriptor_part2(a);
    let y = spec_descriptor_part2(b);
    assert(x.subrange(0, 11) =~= spec_date_bytes(a.creation_date));
    assert(y.subrange(0, 11) =~= spec_date_bytes(b.creation_date));
    lemma_date_roundtrip(a.creation_date);
    lemma_date_roundtrip(b.creation_date);
    assert(x.subrange(11, 13) =~= spec_u16_le_bytes(a.dir_file_id));
    assert(y.subrange(11, 13) =~= spec_u16_le_bytes(b.dir_file_id));
    lemma_u16_le_roundtrip(a.dir_file_id);
    lemma_u16_le_roundtrip(b.dir_file_id);
    assert(x.subrange(13, 24) =~= spec_date_bytes(a.last_modified_date));
    assert(y.subrange(13, 24) =~= spec_date_bytes(b.last_modified_date));
    lemma_date_roundtrip(a.last_modified_date);
    lemma_date_roundtrip(b.last_modified_date);
    assert(x.subrange(24, 35) =~= spec_date_bytes(a.expiration_date));
    assert(y.subrange(24, 35) =~= spec_date_bytes(b.expiration_date));
    lemma_date_roundtrip(a.expiration_date);
    lemma_date_roundtrip(b.expiration_date);
}

#[verifier::rlimit(30)]
proof fn lemma_part3_injective(a: GRiDFileDescriptor, b: GRiDFileDescriptor)
    requires
        spec_descriptor_part3(a) == spec_descriptor_part3(b),
    ensures
        a.machine_id == b.machine_id,
        a.compressed == b.compressed,
        a.encrypted == b.encrypted,
        a.protected == b.protected,
        a.password == b.password,
        a.dir_length == b.dir_length,
        a.dir_count == b.dir_count,
        a.grid_write1 == b.grid_write1,
{
    let x = spec_descriptor_part3(a);
    let y = spec_descriptor_part3(b);
    assert(x.subrange(0, 4) =~= spec_u32_le_bytes(a.machine_id));
    assert(y.subrange(0, 4) =~= spec_u32_le_bytes(b.machine_id));
    lemma_u32_le_roundtrip(a.machine_id);
    lemma_u32_le_roundtrip(b.machine_id);
    assert(x.subrange(4, 5) =~= seq![a.compressed]);
    assert(y.subrange(4, 5) =~= seq![b.compressed]);
    assert(x[4] == a.compressed && y[4] == b.compressed);
    assert(x.subrange(5, 6) =~= seq![a.encrypted]);
    assert(y.subrange(5, 6) =~= seq![b.encrypted]);
    assert(x[5] == a.encrypted && y[5] == b.encrypted);
    assert(x.subrange(6, 7) =~= seq![a.protected]);
    assert(y.subrange(6, 7) =~= seq![b.protected]);
    assert(x[6] == a.protected && y[6] == b.protected);
    assert(x.subrange(7, 12) =~= a.password@);
    assert(y.subrange(7, 12) =~= b.password@);
    assert(a.password =~= b.password);
    assert(x.subrange(12, 16) =~= spec_u32_le_bytes(a.dir_length));
    assert(y.subrange(12, 16) =~= spec_u32_le_bytes(b.dir_length));
    lemma_u32_le_roundtrip(a.dir_length);
    lemma_u32_le_roundtrip(b.dir_length);
    assert(x.subrange(16, 18) =~= spec_u16_le_bytes(a.dir_count));
    assert(y.subrange(16, 18) =~= spec_u16_le_bytes(b.dir_count));
    lemma_u16_le_roundtrip(a.dir_count);
    lemma_u16_le_roundtrip(b.dir_count);
    assert(x.subrange(18, 24) =~= a.grid_write1@);
    assert(y.subrange(18, 24) =~= b.grid_write1@);
    assert(a.grid_write1 =~= b.grid_write1);
}

#[verifier::rlimit(30)]
proof fn lemma_part4_injective(a: GRiDFileDescriptor, b: GRiDFileDescriptor)
    requires
        spec_descriptor_part4(a) == spec_descriptor_part4(b),
    ensures
        a.machine_id2 == b.machine_id2,
        a.uses_8087 == b.uses_8087,
        a.version1 == b.version1,
        a.version2 == b.version2,
        a.machine_id3 == b.machine_id3,
        a.grid_write2 == b.grid_write2,
        a.version3 == b.version3,
        a.property_length == b.property_length,
        a.rom == b.rom,
{
    let x = spec_descriptor_part4(a);
    let y = spec_descriptor_part4(b);
    assert(x.subrange(0, 1) =~= seq![a.machine_id2]);
    assert(y.subrange(0, 1) =~= seq![b.machine_id2]);
    assert(x[0] == a.machine_id2 && y[0] == b.machine_id2);
    assert(x.subrange(1, 2) =~= seq![a.uses_8087]);
    assert(y.subrange(1, 2) =~= seq![b.uses_8087]);
    assert(x[1] == a.uses_8087 && y[1] == b.uses_8087);
    assert(x.subrange(2, 3) =~= seq![a.version1]);
    assert(y.subrange(2, 3) =~= seq![b.version1]);
    assert(x[2] == a.version1 && y[2] == b.version1);
    assert(x.subrange(3, 4) =~= seq![a.version2]);
    assert(y.subrange(3, 4) =~= seq![b.version2]);
    assert(x[3] == a.version2 && y[3] == b.version2);
    assert(x.subrange(4, 8) =~= spec_u32_le_bytes(a.machine_id3));
    assert(y.subrange(4, 8) =~= spec_u32_le_bytes(b.machine_id3));
    lemma_u32_le_roundtrip(a.machine_id3);
    lemma_u32_le_roundtrip(b.machine_id3);
    assert(x.subrange(8, 19) =~= a.grid_write2@);
    assert(y.subrange(8, 19) =~= b.grid_write2@);
    assert(a.grid_write2 =~= b.grid_write2);
    assert(x.subrange(19, 20) =~= seq![a.version3]);
    assert(y.subrange(19, 20) =~= seq![b.version3]);
    assert(x[19] == a.version3 && y[19] == b.version3);
    assert(x.subrange(20, 24) =~= spec_u32_le_bytes(a.property_length));
    assert(y.subrange(20, 24) =~= spec_u32_le_bytes(b.property_length));
    lemma_u32_le_roundtrip(a.property_length);
    lemma_u32_le_roundtrip(b.property_length);
    assert(x.subrange(24, 25) =~= seq![a.rom]);
    assert(y.subrange(24, 25) =~= seq![b.rom]);
    assert(x[24] == a.rom && y[24] == b.rom);
}

#[verifier::rlimit(30)]
proof fn lemma_part5_injective(a: GRiDFileDescriptor, b: GRiDFileDescriptor)
    requires
        spec_descriptor_part5(a) == spec_descriptor_part5(b),
    ensures
        a.rom_id == b.rom_id,
        a.mode == b.mode,
        a.rainy_day_bytes == b.rainy_day_bytes,
        a.user_defined_bytes == b.user_defined_bytes,
        a.grid_central_use == b.grid_central_use,
{
    let x = spec_descriptor_part5(a);
    let y = spec_descriptor_part5(b);
    assert(x.subrange(0, 2) =~= spec_u16_le_bytes(a.rom_id));
    assert(y.subrange(0, 2) =~= spec_u16_le_bytes(b.rom_id));
    lemma_u16_le_roundtrip(a.rom_id);
    lemma_u16_le_roundtrip(b.rom_id);
    assert(x.subrange(2, 4) =~= spec_u16_le_bytes(a.mode));
    assert(y.subrange(2, 4) =~= spec_u16_le_bytes(b.mode));
    lemma_u16_le_roundtrip(a.mode);
    lemma_u16_le_roundtrip(b.mode);
    assert(x.subrange(4, 7) =~= a.rainy_day_bytes@);
    assert(y.subrange(4, 7) =~= b.rainy_day_bytes@);
    assert(a.rainy_day_bytes =~= b.rainy_day_bytes);
    assert(x.subrange(7, 27) =~= a.user_defined_bytes@);
    assert(y.subrange(7, 27) =~= b.user_defined_bytes@);
    assert(a.user_defined_bytes =~= b.user_defined_bytes);
    assert(x.subrange(27, 29) =~= spec_u16_le_bytes(a.grid_central_use));
    assert(y.subrange(27, 29) =~= spec_u16_le_bytes(b.grid_central_use));
    lemma_u16_le_roundtrip(a.grid_central_use);
    lemma_u16_le_roundtrip(b.grid_central_use);
}

/// A descriptor is fixed by its bytes: written and read back, it is the same
/// descriptor.
#[verifier::rlimit(50)]
pub proof fn lemma_descriptor_bytes_injective(a: GRiDFileDescriptor, b: GRiDFileDescriptor)
    requires
        spec_descriptor_bytes(a) == spec_descriptor_bytes(b),
    ensures
        a == b,
{
    let x = spec_descriptor_bytes(a);
    let y = spec_descriptor_bytes(b);
    a.file_name.lemma_stored_len();
    b.file_name.lemma_stored_len();
    assert(x.subrange(0, 85) =~= spec_descriptor_part1(a));
    assert(y.subrange(0, 85) =~= spec_descriptor_part1(b));
    lemma_part1_injective(a, b);
    assert(x.subrange(85, 120) =~= spec_descriptor_part2(a));
    assert(y.subrange(85, 120) =~= spec_descriptor_part2(b));
    lemma_part2_injective(a, b);
    assert(x.subrange(120, 144) =~= spec_descriptor_part3(a));
    assert(y.subrange(120, 144) =~= spec_descriptor_part3(b));
    lemma_part3_injective(a, b);
    assert(x.subrange(144, 169) =~= spec_descriptor_part4(a));
    assert(y.subrange(144, 169) =~= spec_descriptor_part4(b));
    lemma_part4_injective(a, b);
    assert(x.subrange(169, 198) =~= spec_descriptor_part5(a));
    assert(y.subrange(169, 198) =~= spec_descriptor_part5(b));
    lemma_part5_injective(a, b);
}

} // verus!
