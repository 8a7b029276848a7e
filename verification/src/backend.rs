//! What the VFS asks of the storage behind it, in the storage's own terms.
use vstd::prelude::*;

use crate::vfs_protocol::{VfsAccessMode, VfsAttachMode, VfsObjectMode, VfsReadDirection, VfsSeekMode};

verus! {

#[derive(Clone, Copy, Debug, PartialEq, Eq)]
pub enum AttachMode {
    OldFile,
    UpdateFile,
    NewFile,
}

#[derive(Clone, Copy, Debug, PartialEq, Eq)]
pub enum AccessMode {
    Read,
    Write,
    Update,
    UpdateDescriptor,
    ShortDirectory,
    LongDirectory,
}

#[derive(Clone, Copy, Debug, PartialEq, Eq)]
pub enum SeekMode {
    Backward,
    Absolute,
    Forward,
    FromEnd,
}

#[derive(Clone, Copy, Debug, PartialEq, Eq)]
pub enum ReadDirection {
    Forward,
    Backward,
}

#[derive(Clone, Copy, Debug, PartialEq, Eq)]
pub enum ObjectMode {
    Byte,
    Directory,
    CompleteDirectory,
}

/// What get-status reports of an attached object.
#[derive(Clone, Copy, Debug, PartialEq, Eq)]
pub struct FileStatus {
    pub access: AccessMode,
    pub seek: bool,
    pub file_position: u32,
    pub file_length: u32,
    pub num_pages: u16,
    pub num_pages_alloc: u16,
}

/// One set-status action the storage acts on.
#[derive(Clone, Debug, PartialEq, Eq)]
pub enum StatusAction {
    SetDirection(ReadDirection),
    SetWildcard(Vec<u8>),
    SetObjectMode(ObjectMode),
    Unsupported,
}

pub open spec fn spec_attach_mode(v: VfsAttachMode) -> AttachMode {
    match v {
        VfsAttachMode::OldFile => AttachMode::OldFile,
        VfsAttachMode::UpdateFile => AttachMode::UpdateFile,
        VfsAttachMode::NewFile => AttachMode::NewFile,
    }
}

pub open spec fn spec_access_mode(v: VfsAccessMode) -> AccessMode {
    match v {
        VfsAccessMode::Read => AccessMode::Read,
        VfsAccessMode::Write => AccessMode::Write,
        VfsAccessMode::Update => AccessMode::Update,
        VfsAccessMode::UpdateDescriptor => AccessMode::UpdateDescriptor,
        VfsAccessMode::ShortDirectory => AccessMode::ShortDirectory,
        VfsAccessMode::LongDirectory => AccessMode::LongDirectory,
    }
}

pub open spec fn spec_wire_access_mode(v: AccessMode) -> VfsAccessMode {
    match v {
        AccessMode::Read => VfsAccessMode::Read,
        AccessMode::Write => VfsAccessMode::Write,
        AccessMode::Update => VfsAccessMode::Update,
        AccessMode::UpdateDescriptor => VfsAccessMode::UpdateDescriptor,
        AccessMode::ShortDirectory => VfsAccessMode::ShortDirectory,
        AccessMode::LongDirectory => VfsAccessMode::LongDirectory,
    }
}

pub open spec fn spec_seek_mode(v: VfsSeekMode) -> SeekMode {
    match v {
        VfsSeekMode::Backward => SeekMode::Backward,
        VfsSeekMode::Absolute => SeekMode::Absolute,
        VfsSeekMode::Forward => SeekMode::Forward,
        VfsSeekMode::FromEnd => SeekMode::FromEnd,
    }
}

pub open spec fn spec_read_direction(v: VfsReadDirection) -> ReadDirection {
    match v {
        VfsReadDirection::Forward => ReadDirection::Forward,
        VfsReadDirection::Backward => ReadDirection::Backward,
    }
}

pub open spec fn spec_object_mode(v: VfsObjectMode) -> ObjectMode {
    match v {
        VfsObjectMode::Byte => ObjectMode::Byte,
        VfsObjectMode::Directory => ObjectMode::Directory,
        VfsObjectMode::CompleteDirectory => ObjectMode::CompleteDirectory,
    }
}

pub fn attach_mode(v: VfsAttachMode) -> (r: AttachMode)
    ensures
        r == spec_attach_mode(v),
{
    match v {
        VfsAttachMode::OldFile => AttachMode::OldFile,
        VfsAttachMode::UpdateFile => AttachMode::UpdateFile,
        VfsAttachMode::NewFile => AttachMode::NewFile,
    }
}

pub fn access_mode(v: VfsAccessMode) -> (r: AccessMode)
    ensures
        r == spec_access_mode(v),
{
    match v {
        VfsAccessMode::Read => AccessMode::Read,
        VfsAccessMode::Write => AccessMode::Write,
        VfsAccessMode::Update => AccessMode::Update,
        VfsAccessMode::UpdateDescriptor => AccessMode::UpdateDescriptor,
        VfsAccessMode::ShortDirectory => AccessMode::ShortDirectory,
        VfsAccessMode::LongDirectory => AccessMode::LongDirectory,
    }
}

pub fn wire_access_mode(v: AccessMode) -> (r: VfsAccessMode)
    ensures
        r == spec_wire_access_mode(v),
{
    match v {
        AccessMode::Read => VfsAccessMode::Read,
        AccessMode::Write => VfsAccessMode::Write,
        AccessMode::Update => VfsAccessMode::Update,
        AccessMode::UpdateDescriptor => VfsAccessMode::UpdateDescriptor,
        AccessMode::ShortDirectory => VfsAccessMode::ShortDirectory,
        AccessMode::LongDirectory => VfsAccessMode::LongDirectory,
    }
}

pub fn seek_mode(v: VfsSeekMode) -> (r: SeekMode)
    ensures
        r == spec_seek_mode(v),
{
    match v {
        VfsSeekMode::Backward => SeekMode::Backward,
        VfsSeekMode::Absolute => SeekMode::Absolute,
        VfsSeekMode::Forward => SeekMode::Forward,
        VfsSeekMode::FromEnd => SeekMode::FromEnd,
    }
}

pub fn read_direction(v: VfsReadDirection) -> (r: ReadDirection)
    ensures
        r == spec_read_direction(v),
{
    match v {
        VfsReadDirection::Forward => ReadDirection::Forward,
        VfsReadDirection::Backward => ReadDirection::Backward,
    }
}

pub fn object_mode(v: VfsObjectMode) -> (r: ObjectMode)
    ensures
        r == spec_object_mode(v),
{
    match v {
        VfsObjectMode::Byte => ObjectMode::Byte,
        VfsObjectMode::Directory => ObjectMode::Directory,
        VfsObjectMode::CompleteDirectory => ObjectMode::CompleteDirectory,
    }
}

/// Every wire access mode survives the trip to the storage and back.
pub proof fn lemma_access_mode_roundtrip(v: VfsAccessMode)
    ensures
        spec_wire_access_mode(spec_access_mode(v)) == v,
{
}

} // verus!
