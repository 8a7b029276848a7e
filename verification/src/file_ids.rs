//! The ids of the objects on a disk: each object keeps its id beside it, and
//! a disk's ids are handed out lowest free first.
use vstd::prelude::*;

use crate::bitmap::IdMap16;
use crate::bytes::{spec_u16_le, spec_u16_le_bytes, u16_from_le, u16_to_le};
use crate::fs_layout::VfsError;

verus! {

/// Why the id an object keeps is no id.
#[derive(Clone, Copy, Debug, PartialEq, Eq)]
pub enum FileIdError {
    /// An id is two bytes.
    Malformed,
    /// Id zero stands for no object.
    Zero,
}

/// The id `raw` holds: two bytes, little endian, not zero.
pub fn parse_file_id(raw: &[u8]) -> (r: Result<u16, FileIdError>)
    ensures
        raw@.len() != 2 ==> r == Err::<u16, FileIdError>(FileIdError::Malformed),
        raw@.len() == 2 && spec_u16_le(raw@[0], raw@[1]) == 0 ==> r == Err::<u16, FileIdError>(
            FileIdError::Zero,
        ),
        raw@.len() == 2 && spec_u16_le(raw@[0], raw@[1]) != 0 ==> r == Ok::<u16, FileIdError>(
            spec_u16_le(raw@[0], raw@[1]),
        ),
{
    if raw.len() != 2 {
        return Err(FileIdError::Malformed);
    }
    let id = u16_from_le(raw[0], raw[1]);
    if id == 0 {
        Err(FileIdError::Zero)
    } else {
        Ok(id)
    }
}

/// The two bytes an object keeps for id `id`.
pub fn file_id_bytes(id: u16) -> (r: [u8; 2])
    ensures
        r@ == spec_u16_le_bytes(id),
{
    u16_to_le(id)
}

/// What an object's id keeps reads back as the id.
pub proof fn lemma_file_id_roundtrip(id: u16)
    requires
        id != 0,
    ensures
        spec_u16_le(spec_u16_le_bytes(id)[0], spec_u16_le_bytes(id)[1]) == id,
{
    crate::bytes::lemma_u16_le_roundtrip(id);
}

/// Which id an object gets.
#[derive(Clone, Copy, Debug, PartialEq, Eq)]
pub enum FileIdChoice {
    /// The one it keeps already.
    Existing(u16),
    /// A new one, to be kept beside it and marked taken.
    New(u16),
}

/// The id of an object that keeps `stored`, on a disk whose taken ids are
/// `ids`: the one it keeps, else the lowest free one; a disk with none free
/// is full.
pub fn choose_file_id(stored: Option<u16>, ids: &IdMap16) -> (r: Result<FileIdChoice, VfsError>)
    requires
        ids.wf(),
    ensures
        stored matches Some(id) ==> r == Ok::<FileIdChoice, VfsError>(FileIdChoice::Existing(id)),
        stored is None ==> match r {
            Ok(FileIdChoice::New(id)) => id != 0 && !ids.has(id as int) && forall|j: int|
                1 <= j < id ==> ids.has(j),
            Err(e) => e == VfsError::DeviceFull && forall|j: int| 1 <= j <= 65535 ==> ids.has(j),
            _ => false,
        },
{
    match stored {
        Some(id) => Ok(FileIdChoice::Existing(id)),
        None => match ids.find_free() {
            Some(id) => Ok(FileIdChoice::New(id)),
            None => Err(VfsError::DeviceFull),
        },
    }
}

} // verus!
