//! The VFS protocol: the requests a GRiD workstation sends to read and write
//! files on the server, and the responses it expects back.
use vstd::prelude::*;

use crate::bytes::{push_all, push_u16, push_u32, spec_u16_le, spec_u16_le_bytes, spec_u32_le, spec_u32_le_bytes};
use crate::cursor::Cursor;
use crate::error::{err_view, invalid, push_decimal, spec_decimal, FrameError, FrameErrorView};
use crate::path::{spec_validate, GRiDPath};
use crate::wire::{close_u16_len, open_u16_len, read_small_slice, spec_patch_u16_len, spec_u16_block_fits};

verus! {

pub const VFS_RESPONSE_BIT: u16 = 0x8000;

pub const VFS_MAX_MESSAGE_LENGTH: usize = 514;

pub const VFS_PAGE_SIZE: usize = 504;

pub const VFS_MAX_DIRECTORY_OBJECTS_PER_PAGE: usize = 30;

pub const VFS_MAX_FILE_NAME_LENGTH: usize = 80;

pub const VFS_MAX_PASSWORD_LENGTH: usize = 16;

/// The password field of an attach request: the password and its terminator.
pub const VFS_PASSWORD_SPACE: usize = 17;

pub const VFS_MAX_DESCRIPTOR_LENGTH: usize = 200;

/// The descriptor without its leading length.
pub const VFS_DESCRIPTOR_LENGTH: usize = 198;

pub const VFS_MAX_READ_LENGTH: usize = 504;

pub const VFS_MAX_WRITE_LENGTH: usize = 504;

/// The bytes of a directory entry before its name: four reserved bytes, the
/// size of the entry and the length of the name.
pub const DIRECTORY_ENTRY_PREAMBLE_LEN: usize = 9;

/// eNotSupport
pub const VFS_ERROR_NOT_SUPPORTED: u16 = 35;

/// eFileExists
pub const VFS_ERROR_FILE_EXISTS: u16 = 32;

/// eDeviceFull
pub const VFS_ERROR_DEVICE_FULL: u16 = 41;

/// eFileNotOpen
pub const VFS_ERROR_FILE_NOT_OPEN: u16 = 205;

/// eBadConn
pub const VFS_ERROR_BAD_CONNECTION: u16 = 221;

/// eOpen
pub const VFS_ERROR_ALREADY_OPEN: u16 = 222;

/// eParam
pub const VFS_ERROR_BAD_PARAMETER: u16 = 225;

/// eGCRscUnav
pub const VFS_ERROR_RESOURCE_UNAVAILABLE: u16 = 601;

/// The operation a VFS request asks for.
#[derive(Clone, Copy, Debug, PartialEq, Eq)]
pub enum VfsRequestCode {
    Initialize,
    GetStatus,
    Open,
    Close,
    Read,
    Write,
    Seek,
    Truncate,
    Attach,
    Detach,
    Rename,
    Delete,
    ReadDesc,
    WriteDesc,
    Flush,
    WaitSrq,
    SelfTest,
    Format,
    SetStatus,
    Deactivate,
    TrackFormat,
    ControllerTest,
    RamTest,
    DriveTest,
    Program,
    WriteProtect,
    BufferCommand,
    ReadDirPage,
    SignOn,
    SignOff,
    Send,
    RemoteCopy,
    GetMoreStatus,
    ReadRamBuffer,
    WriteRamBuffer,
}

impl VfsRequestCode {
    pub open spec fn spec_from_repr(value: u16) -> Option<VfsRequestCode> {
        if value == 0 {
            Some(VfsRequestCode::Initialize)
        } else if value == 1 {
            Some(VfsRequestCode::GetStatus)
        } else if value == 2 {
            Some(VfsRequestCode::Open)
        } else if value == 3 {
            Some(VfsRequestCode::Close)
        } else if value == 4 {
            Some(VfsRequestCode::Read)
        } else if value == 5 {
            Some(VfsRequestCode::Write)
        } else if value == 6 {
            Some(VfsRequestCode::Seek)
        } else if value == 7 {
            Some(VfsRequestCode::Truncate)
        } else if value == 8 {
            Some(VfsRequestCode::Attach)
        } else if value == 9 {
            Some(VfsRequestCode::Detach)
        } else if value == 10 {
            Some(VfsRequestCode::Rename)
        } else if value == 11 {
            Some(VfsRequestCode::Delete)
        } else if value == 12 {
            Some(VfsRequestCode::ReadDesc)
        } else if value == 13 {
            Some(VfsRequestCode::WriteDesc)
        } else if value == 14 {
            Some(VfsRequestCode::Flush)
        } else if value == 15 {
            Some(VfsRequestCode::WaitSrq)
        } else if value == 16 {
            Some(VfsRequestCode::SelfTest)
        } else if value == 17 {
            Some(VfsRequestCode::Format)
        } else if value == 20 {
            Some(VfsRequestCode::SetStatus)
        } else if value == 21 {
            Some(VfsRequestCode::Deactivate)
        } else if value == 22 {
            Some(VfsRequestCode::TrackFormat)
        } else if value == 23 {
            Some(VfsRequestCode::ControllerTest)
        } else if value == 24 {
            Some(VfsRequestCode::RamTest)
        } else if value == 25 {
            Some(VfsRequestCode::DriveTest)
        } else if value == 26 {
            Some(VfsRequestCode::Program)
        } else if value == 27 {
            Some(VfsRequestCode::WriteProtect)
        } else if value == 28 {
            Some(VfsRequestCode::BufferCommand)
        } else if value == 29 {
            Some(VfsRequestCode::ReadDirPage)
        } else if value == 30 {
            Some(VfsRequestCode::SignOn)
        } else if value == 31 {
            Some(VfsRequestCode::SignOff)
        } else if value == 32 {
            Some(VfsRequestCode::Send)
        } else if value == 33 {
            Some(VfsRequestCode::RemoteCopy)
        } else if value == 34 {
            Some(VfsRequestCode::GetMoreStatus)
        } else if value == 35 {
            Some(VfsRequestCode::ReadRamBuffer)
        } else if value == 36 {
            Some(VfsRequestCode::WriteRamBuffer)
        } else {
            None
        }
    }

    pub open spec fn spec_to_repr(self) -> u16 {
        match self {
            VfsRequestCode::Initialize => 0,
            VfsRequestCode::GetStatus => 1,
            VfsRequestCode::Open => 2,
            VfsRequestCode::Close => 3,
            VfsRequestCode::Read => 4,
            VfsRequestCode::Write => 5,
            VfsRequestCode::Seek => 6,
            VfsRequestCode::Truncate => 7,
            VfsRequestCode::Attach => 8,
            VfsRequestCode::Detach => 9,
            VfsRequestCode::Rename => 10,
            VfsRequestCode::Delete => 11,
            VfsRequestCode::ReadDesc => 12,
            VfsRequestCode::WriteDesc => 13,
            VfsRequestCode::Flush => 14,
            VfsRequestCode::WaitSrq => 15,
            VfsRequestCode::SelfTest => 16,
            VfsRequestCode::Format => 17,
            VfsRequestCode::SetStatus => 20,
            VfsRequestCode::Deactivate => 21,
            VfsRequestCode::TrackFormat => 22,
            VfsRequestCode::ControllerTest => 23,
            VfsRequestCode::RamTest => 24,
            VfsRequestCode::DriveTest => 25,
            VfsRequestCode::Program => 26,
            VfsRequestCode::WriteProtect => 27,
            VfsRequestCode::BufferCommand => 28,
            VfsRequestCode::ReadDirPage => 29,
            VfsRequestCode::SignOn => 30,
            VfsRequestCode::SignOff => 31,
            VfsRequestCode::Send => 32,
            VfsRequestCode::RemoteCopy => 33,
            VfsRequestCode::GetMoreStatus => 34,
            VfsRequestCode::ReadRamBuffer => 35,
            VfsRequestCode::WriteRamBuffer => 36,
        }
    }

    pub fn from_repr(value: u16) -> (r: Option<VfsRequestCode>)
        ensures
            r == Self::spec_from_repr(value),
    {
        match value {
            0 => Some(VfsRequestCode::Initialize),
            1 => Some(VfsRequestCode::GetStatus),
            2 => Some(VfsRequestCode::Open),
            3 => Some(VfsRequestCode::Close),
            4 => Some(VfsRequestCode::Read),
            5 => Some(VfsRequestCode::Write),
            6 => Some(VfsRequestCode::Seek),
            7 => Some(VfsRequestCode::Truncate),
            8 => Some(VfsRequestCode::Attach),
            9 => Some(VfsRequestCode::Detach),
            10 => Some(VfsRequestCode::Rename),
            11 => Some(VfsRequestCode::Delete),
            12 => Some(VfsRequestCode::ReadDesc),
            13 => Some(VfsRequestCode::WriteDesc),
            14 => Some(VfsRequestCode::Flush),
            15 => Some(VfsRequestCode::WaitSrq),
            16 => Some(VfsRequestCode::SelfTest),
            17 => Some(VfsRequestCode::Format),
            20 => Some(VfsRequestCode::SetStatus),
            21 => Some(VfsRequestCode::Deactivate),
            22 => Some(VfsRequestCode::TrackFormat),
            23 => Some(VfsRequestCode::ControllerTest),
            24 => Some(VfsRequestCode::RamTest),
            25 => Some(VfsRequestCode::DriveTest),
            26 => Some(VfsRequestCode::Program),
            27 => Some(VfsRequestCode::WriteProtect),
            28 => Some(VfsRequestCode::BufferCommand),
            29 => Some(VfsRequestCode::ReadDirPage),
            30 => Some(VfsRequestCode::SignOn),
            31 => Some(VfsRequestCode::SignOff),
            32 => Some(VfsRequestCode::Send),
            33 => Some(VfsRequestCode::RemoteCopy),
            34 => Some(VfsRequestCode::GetMoreStatus),
            35 => Some(VfsRequestCode::ReadRamBuffer),
            36 => Some(VfsRequestCode::WriteRamBuffer),
            _ => None,
        }
    }

    pub fn to_repr(self) -> (r: u16)
        ensures
            r == self.spec_to_repr(),
    {
        match self {
            VfsRequestCode::Initialize => 0,
            VfsRequestCode::GetStatus => 1,
            VfsRequestCode::Open => 2,
            VfsRequestCode::Close => 3,
            VfsRequestCode::Read => 4,
            VfsRequestCode::Write => 5,
            VfsRequestCode::Seek => 6,
            VfsRequestCode::Truncate => 7,
            VfsRequestCode::Attach => 8,
            VfsRequestCode::Detach => 9,
            VfsRequestCode::Rename => 10,
            VfsRequestCode::Delete => 11,
            VfsRequestCode::ReadDesc => 12,
            VfsRequestCode::WriteDesc => 13,
            VfsRequestCode::Flush => 14,
            VfsRequestCode::WaitSrq => 15,
            VfsRequestCode::SelfTest => 16,
            VfsRequestCode::Format => 17,
            VfsRequestCode::SetStatus => 20,
            VfsRequestCode::Deactivate => 21,
            VfsRequestCode::TrackFormat => 22,
            VfsRequestCode::ControllerTest => 23,
            VfsRequestCode::RamTest => 24,
            VfsRequestCode::DriveTest => 25,
            VfsRequestCode::Program => 26,
            VfsRequestCode::WriteProtect => 27,
            VfsRequestCode::BufferCommand => 28,
            VfsRequestCode::ReadDirPage => 29,
            VfsRequestCode::SignOn => 30,
            VfsRequestCode::SignOff => 31,
            VfsRequestCode::Send => 32,
            VfsRequestCode::RemoteCopy => 33,
            VfsRequestCode::GetMoreStatus => 34,
            VfsRequestCode::ReadRamBuffer => 35,
            VfsRequestCode::WriteRamBuffer => 36,
        }
    }
}

/// Whether an attach names an existing file, one to update or one to create.
#[derive(Clone, Copy, Debug, PartialEq, Eq)]
pub enum VfsAttachMode {
    OldFile,
    UpdateFile,
    NewFile,
}

impl VfsAttachMode {
    pub open spec fn spec_from_repr(value: u8) -> Option<VfsAttachMode> {
        if value == 1 {
            Some(VfsAttachMode::OldFile)
        } else if value == 2 {
            Some(VfsAttachMode::UpdateFile)
        } else if value == 3 {
            Some(VfsAttachMode::NewFile)
        } else {
            None
        }
    }

    pub open spec fn spec_to_repr(self) -> u8 {
        match self {
            VfsAttachMode::OldFile => 1,
            VfsAttachMode::UpdateFile => 2,
            VfsAttachMode::NewFile => 3,
        }
    }

    pub fn from_repr(value: u8) -> (r: Option<VfsAttachMode>)
        ensures
            r == Self::spec_from_repr(value),
    {
        match value {
            1 => Some(VfsAttachMode::OldFile),
            2 => Some(VfsAttachMode::UpdateFile),
            3 => Some(VfsAttachMode::NewFile),
            _ => None,
        }
    }

    pub fn to_repr(self) -> (r: u8)
        ensures
            r == self.spec_to_repr(),
    {
        match self {
            VfsAttachMode::OldFile => 1,
            VfsAttachMode::UpdateFile => 2,
            VfsAttachMode::NewFile => 3,
        }
    }
}

/// The kind of one set-status action.
#[derive(Clone, Copy, Debug, PartialEq, Eq)]
pub enum VfsSetStatusType {
    SetDirection,
    SetWildcard,
    SetObjectMode,
    SetGpibAddress,
    SetDeviceMask,
    SetNoteValue,
    SetNumBuffers,
    SetNameAttributes,
    SetConsoleMode,
    SetAccessRights,
    SetSecureMode,
    SetIpcActivityTimeout,
    GetGenericDeviceName,
    GetDeviceName,
}

impl VfsSetStatusType {
    pub open spec fn spec_from_repr(value: u8) -> Option<VfsSetStatusType> {
        if value == 255 {
            Some(VfsSetStatusType::SetDirection)
        } else if value == 254 {
            Some(VfsSetStatusType::SetWildcard)
        } else if value == 253 {
            Some(VfsSetStatusType::SetObjectMode)
        } else if value == 252 {
            Some(VfsSetStatusType::SetGpibAddress)
        } else if value == 251 {
            Some(VfsSetStatusType::SetDeviceMask)
        } else if value == 250 {
            Some(VfsSetStatusType::SetNoteValue)
        } else if value == 249 {
            Some(VfsSetStatusType::SetNumBuffers)
        } else if value == 248 {
            Some(VfsSetStatusType::SetNameAttributes)
        } else if value == 247 {
            Some(VfsSetStatusType::SetConsoleMode)
        } else if value == 246 {
            Some(VfsSetStatusType::SetAccessRights)
        } else if value == 245 {
            Some(VfsSetStatusType::SetSecureMode)
        } else if value == 244 {
            Some(VfsSetStatusType::SetIpcActivityTimeout)
        } else if value == 243 {
            Some(VfsSetStatusType::GetGenericDeviceName)
        } else if value == 242 {
            Some(VfsSetStatusType::GetDeviceName)
        } else {
            None
        }
    }

    pub open spec fn spec_to_repr(self) -> u8 {
        match self {
            VfsSetStatusType::SetDirection => 255,
            VfsSetStatusType::SetWildcard => 254,
            VfsSetStatusType::SetObjectMode => 253,
            VfsSetStatusType::SetGpibAddress => 252,
            VfsSetStatusType::SetDeviceMask => 251,
            VfsSetStatusType::SetNoteValue => 250,
            VfsSetStatusType::SetNumBuffers => 249,
            VfsSetStatusType::SetNameAttributes => 248,
            VfsSetStatusType::SetConsoleMode => 247,
            VfsSetStatusType::SetAccessRights => 246,
            VfsSetStatusType::SetSecureMode => 245,
            VfsSetStatusType::SetIpcActivityTimeout => 244,
            VfsSetStatusType::GetGenericDeviceName => 243,
            VfsSetStatusType::GetDeviceName => 242,
        }
    }

    pub fn from_repr(value: u8) -> (r: Option<VfsSetStatusType>)
        ensures
            r == Self::spec_from_repr(value),
    {
        match value {
            255 => Some(VfsSetStatusType::SetDirection),
            254 => Some(VfsSetStatusType::SetWildcard),
            253 => Some(VfsSetStatusType::SetObjectMode),
            252 => Some(VfsSetStatusType::SetGpibAddress),
            251 => Some(VfsSetStatusType::SetDeviceMask),
            250 => Some(VfsSetStatusType::SetNoteValue),
            249 => Some(VfsSetStatusType::SetNumBuffers),
            248 => Some(VfsSetStatusType::SetNameAttributes),
            247 => Some(VfsSetStatusType::SetConsoleMode),
            246 => Some(VfsSetStatusType::SetAccessRights),
            245 => Some(VfsSetStatusType::SetSecureMode),
            244 => Some(VfsSetStatusType::SetIpcActivityTimeout),
            243 => Some(VfsSetStatusType::GetGenericDeviceName),
            242 => Some(VfsSetStatusType::GetDeviceName),
            _ => None,
        }
    }

    pub fn to_repr(self) -> (r: u8)
        ensures
            r == self.spec_to_repr(),
    {
        match self {
            VfsSetStatusType::SetDirection => 255,
            VfsSetStatusType::SetWildcard => 254,
            VfsSetStatusType::SetObjectMode => 253,
            VfsSetStatusType::SetGpibAddress => 252,
            VfsSetStatusType::SetDeviceMask => 251,
            VfsSetStatusType::SetNoteValue => 250,
            VfsSetStatusType::SetNumBuffers => 249,
            VfsSetStatusType::SetNameAttributes => 248,
            VfsSetStatusType::SetConsoleMode => 247,
            VfsSetStatusType::SetAccessRights => 246,
            VfsSetStatusType::SetSecureMode => 245,
            VfsSetStatusType::SetIpcActivityTimeout => 244,
            VfsSetStatusType::GetGenericDeviceName => 243,
            VfsSetStatusType::GetDeviceName => 242,
        }
    }
}

/// How a directory is read.
#[derive(Clone, Copy, Debug, PartialEq, Eq)]
pub enum VfsObjectMode {
    Byte,
    Directory,
    CompleteDirectory,
}

impl VfsObjectMode {
    pub open spec fn spec_from_repr(value: u8) -> Option<VfsObjectMode> {
        if value == 0 {
            Some(VfsObjectMode::Byte)
        } else if value == 1 {
            Some(VfsObjectMode::Directory)
        } else if value == 2 {
            Some(VfsObjectMode::CompleteDirectory)
        } else {
            None
        }
    }

    pub open spec fn spec_to_repr(self) -> u8 {
        match self {
            VfsObjectMode::Byte => 0,
            VfsObjectMode::Directory => 1,
            VfsObjectMode::CompleteDirectory => 2,
        }
    }

    pub fn from_repr(value: u8) -> (r: Option<VfsObjectMode>)
        ensures
            r == Self::spec_from_repr(value),
    {
        match value {
            0 => Some(VfsObjectMode::Byte),
            1 => Some(VfsObjectMode::Directory),
            2 => Some(VfsObjectMode::CompleteDirectory),
            _ => None,
        }
    }

    pub fn to_repr(self) -> (r: u8)
        ensures
            r == self.spec_to_repr(),
    {
        match self {
            VfsObjectMode::Byte => 0,
            VfsObjectMode::Directory => 1,
            VfsObjectMode::CompleteDirectory => 2,
        }
    }
}

/// What a seek position is relative to.
#[derive(Clone, Copy, Debug, PartialEq, Eq)]
pub enum VfsSeekMode {
    Backward,
    Absolute,
    Forward,
    FromEnd,
}

impl VfsSeekMode {
    pub open spec fn spec_from_repr(value: u8) -> Option<VfsSeekMode> {
        if value == 1 {
            Some(VfsSeekMode::Backward)
        } else if value == 2 {
            Some(VfsSeekMode::Absolute)
        } else if value == 3 {
            Some(VfsSeekMode::Forward)
        } else if value == 4 {
            Some(VfsSeekMode::FromEnd)
        } else {
            None
        }
    }

    pub open spec fn spec_to_repr(self) -> u8 {
        match self {
            VfsSeekMode::Backward => 1,
            VfsSeekMode::Absolute => 2,
            VfsSeekMode::Forward => 3,
            VfsSeekMode::FromEnd => 4,
        }
    }

    pub fn from_repr(value: u8) -> (r: Option<VfsSeekMode>)
        ensures
            r == Self::spec_from_repr(value),
    {
        match value {
            1 => Some(VfsSeekMode::Backward),
            2 => Some(VfsSeekMode::Absolute),
            3 => Some(VfsSeekMode::Forward),
            4 => Some(VfsSeekMode::FromEnd),
            _ => None,
        }
    }

    pub fn to_repr(self) -> (r: u8)
        ensures
            r == self.spec_to_repr(),
    {
        match self {
            VfsSeekMode::Backward => 1,
            VfsSeekMode::Absolute => 2,
            VfsSeekMode::Forward => 3,
            VfsSeekMode::FromEnd => 4,
        }
    }
}

/// The direction a directory is read in.
#[derive(Clone, Copy, Debug, PartialEq, Eq)]
pub enum VfsReadDirection {
    Forward,
    Backward,
}

impl VfsReadDirection {
    pub open spec fn spec_from_repr(value: u8) -> Option<VfsReadDirection> {
        if value == 0 {
            Some(VfsReadDirection::Forward)
        } else if value == 1 {
            Some(VfsReadDirection::Backward)
        } else {
            None
        }
    }

    pub open spec fn spec_to_repr(self) -> u8 {
        match self {
            VfsReadDirection::Forward => 0,
            VfsReadDirection::Backward => 1,
        }
    }

    pub fn from_repr(value: u8) -> (r: Option<VfsReadDirection>)
        ensures
            r == Self::spec_from_repr(value),
    {
        match value {
            0 => Some(VfsReadDirection::Forward),
            1 => Some(VfsReadDirection::Backward),
            _ => None,
        }
    }

    pub fn to_repr(self) -> (r: u8)
        ensures
            r == self.spec_to_repr(),
    {
        match self {
            VfsReadDirection::Forward => 0,
            VfsReadDirection::Backward => 1,
        }
    }
}

/// What an attached file may be used for.
#[derive(Clone, Copy, Debug, PartialEq, Eq)]
pub enum VfsAccessMode {
    Read,
    Write,
    Update,
    UpdateDescriptor,
    ShortDirectory,
    LongDirectory,
}

impl VfsAccessMode {
    pub open spec fn spec_from_repr(value: u8) -> Option<VfsAccessMode> {
        if value == 1 {
            Some(VfsAccessMode::Read)
        } else if value == 2 {
            Some(VfsAccessMode::Write)
        } else if value == 3 {
            Some(VfsAccessMode::Update)
        } else if value == 4 {
            Some(VfsAccessMode::UpdateDescriptor)
        } else if value == 5 {
            Some(VfsAccessMode::ShortDirectory)
        } else if value == 6 {
            Some(VfsAccessMode::LongDirectory)
        } else {
            None
        }
    }

    pub open spec fn spec_to_repr(self) -> u8 {
        match self {
            VfsAccessMode::Read => 1,
            VfsAccessMode::Write => 2,
            VfsAccessMode::Update => 3,
            VfsAccessMode::UpdateDescriptor => 4,
            VfsAccessMode::ShortDirectory => 5,
            VfsAccessMode::LongDirectory => 6,
        }
    }

    pub fn from_repr(value: u8) -> (r: Option<VfsAccessMode>)
        ensures
            r == Self::spec_from_repr(value),
    {
        match value {
            1 => Some(VfsAccessMode::Read),
            2 => Some(VfsAccessMode::Write),
            3 => Some(VfsAccessMode::Update),
            4 => Some(VfsAccessMode::UpdateDescriptor),
            5 => Some(VfsAccessMode::ShortDirectory),
            6 => Some(VfsAccessMode::LongDirectory),
            _ => None,
        }
    }

    pub fn to_repr(self) -> (r: u8)
        ensures
            r == self.spec_to_repr(),
    {
        match self {
            VfsAccessMode::Read => 1,
            VfsAccessMode::Write => 2,
            VfsAccessMode::Update => 3,
            VfsAccessMode::UpdateDescriptor => 4,
            VfsAccessMode::ShortDirectory => 5,
            VfsAccessMode::LongDirectory => 6,
        }
    }
}

/// Decoding a request code undoes encoding it, and a value decodes to a code
/// only when it is that code's value: every code has one value on the wire and
/// no two codes share one.
pub proof fn lemma_request_code_roundtrip(c: VfsRequestCode, v: u16)
    ensures
        VfsRequestCode::spec_from_repr(c.spec_to_repr()) == Some(c),
        VfsRequestCode::spec_from_repr(v) == Some(c) ==> c.spec_to_repr() == v,
{
}

/// Decoding an attach mode undoes encoding it, and only that value decodes to it.
pub proof fn lemma_attach_mode_roundtrip(c: VfsAttachMode, v: u8)
    ensures
        VfsAttachMode::spec_from_repr(c.spec_to_repr()) == Some(c),
        VfsAttachMode::spec_from_repr(v) == Some(c) ==> c.spec_to_repr() == v,
{
}

/// Decoding a set-status type undoes encoding it, and only that value decodes
/// to it.
pub proof fn lemma_set_status_type_roundtrip(c: VfsSetStatusType, v: u8)
    ensures
        VfsSetStatusType::spec_from_repr(c.spec_to_repr()) == Some(c),
        VfsSetStatusType::spec_from_repr(v) == Some(c) ==> c.spec_to_repr() == v,
{
}

/// Decoding an object mode undoes encoding it, and only that value decodes to
/// it.
pub proof fn lemma_object_mode_roundtrip(c: VfsObjectMode, v: u8)
    ensures
        VfsObjectMode::spec_from_repr(c.spec_to_repr()) == Some(c),
        VfsObjectMode::spec_from_repr(v) == Some(c) ==> c.spec_to_repr() == v,
{
}

/// Decoding a seek mode undoes encoding it, and only that value decodes to it.
pub proof fn lemma_seek_mode_roundtrip(c: VfsSeekMode, v: u8)
    ensures
        VfsSeekMode::spec_from_repr(c.spec_to_repr()) == Some(c),
        VfsSeekMode::spec_from_repr(v) == Some(c) ==> c.spec_to_repr() == v,
{
}

/// Decoding a read direction undoes encoding it, and only that value decodes
/// to it.
pub proof fn lemma_read_direction_roundtrip(c: VfsReadDirection, v: u8)
    ensures
        VfsReadDirection::spec_from_repr(c.spec_to_repr()) == Some(c),
        VfsReadDirection::spec_from_repr(v) == Some(c) ==> c.spec_to_repr() == v,
{
}

/// Decoding an access mode undoes encoding it, and only that value decodes to
/// it.
pub proof fn lemma_vfs_access_mode_roundtrip(c: VfsAccessMode, v: u8)
    ensures
        VfsAccessMode::spec_from_repr(c.spec_to_repr()) == Some(c),
        VfsAccessMode::spec_from_repr(v) == Some(c) ==> c.spec_to_repr() == v,
{
}

#[derive(Clone, Copy, Debug, PartialEq, Eq)]
pub struct VfsRequestHeader {
    pub request: u16,
    pub requestors_conn_id: u16,
    pub servers_conn_id: u16,
}

#[derive(Clone, Copy, Debug)]
pub struct VfsOpenRequest {
    pub num_buf: u8,
}

#[derive(Clone, Copy, Debug)]
pub struct VfsReadRequest {
    pub data_length: u16,
}

impl VfsReadRequest {
    /// The length asked for, cut to the largest read one response carries.
    pub fn bounded_length(self) -> (r: usize)
        ensures
            r == (if self.data_length as usize <= VFS_MAX_READ_LENGTH {
                self.data_length as usize
            } else {
                VFS_MAX_READ_LENGTH
            }),
    {
        let length = self.data_length as usize;
        if length <= VFS_MAX_READ_LENGTH {
            length
        } else {
            VFS_MAX_READ_LENGTH
        }
    }
}

#[derive(Clone, Copy, Debug)]
pub struct VfsSeekRequest {
    pub mode: VfsSeekMode,
    pub position: u32,
}

#[derive(Clone, Copy, Debug)]
pub struct VfsWriteRequest<'a> {
    pub data: &'a [u8],
}

/// Only the path steers the server so far; the rest of the request is decoded
/// because it reaches the operator through the line the dispatcher logs.
#[derive(Clone, Copy, Debug)]
pub struct VfsAttachRequest<'a> {
    pub mode: VfsAttachMode,
    pub access: VfsAccessMode,
    pub password: [u8; 17],
    pub path: GRiDPath<'a>,
}

/// One action of a set-status request.
#[derive(Clone, Copy, Debug)]
pub enum VfsSetStatusAction<'a> {
    SetDirection { direction: VfsReadDirection },
    SetWildcard { pattern: &'a [u8] },
    SetObjectMode { mode: VfsObjectMode },
    SetGpibAddress { raw: &'a [u8] },
    SetDeviceMask { raw: &'a [u8] },
    SetNoteValue { raw: &'a [u8] },
    SetNumBuffers { raw: &'a [u8] },
    SetNameAttributes { raw: &'a [u8] },
    SetConsoleMode { raw: &'a [u8] },
    SetAccessRights { raw: &'a [u8] },
    SetSecureMode { raw: &'a [u8] },
    SetIpcActivityTimeout { raw: &'a [u8] },
    GetGenericDeviceName { raw: &'a [u8] },
    GetDeviceName { raw: &'a [u8] },
    Unknown { ty: u8, raw: &'a [u8] },
}

/// A set-status action as plain values: the two that carry a decoded value,
/// every other declared action as its type and its bytes, and an action of an
/// undeclared type as its type byte and its bytes.
pub enum StatusActionView {
    Direction(VfsReadDirection),
    ObjectMode(VfsObjectMode),
    Declared(VfsSetStatusType, Seq<u8>),
    Unknown(u8, Seq<u8>),
}

impl<'a> View for VfsSetStatusAction<'a> {
    type V = StatusActionView;

    open spec fn view(&self) -> StatusActionView {
        match *self {
            VfsSetStatusAction::SetDirection { direction } => StatusActionView::Direction(direction),
            VfsSetStatusAction::SetWildcard { pattern } => StatusActionView::Declared(VfsSetStatusType::SetWildcard, pattern@),
            VfsSetStatusAction::SetObjectMode { mode } => StatusActionView::ObjectMode(mode),
            VfsSetStatusAction::SetGpibAddress { raw } => StatusActionView::Declared(VfsSetStatusType::SetGpibAddress, raw@),
            VfsSetStatusAction::SetDeviceMask { raw } => StatusActionView::Declared(VfsSetStatusType::SetDeviceMask, raw@),
            VfsSetStatusAction::SetNoteValue { raw } => StatusActionView::Declared(VfsSetStatusType::SetNoteValue, raw@),
            VfsSetStatusAction::SetNumBuffers { raw } => StatusActionView::Declared(VfsSetStatusType::SetNumBuffers, raw@),
            VfsSetStatusAction::SetNameAttributes { raw } => StatusActionView::Declared(VfsSetStatusType::SetNameAttributes, raw@),
            VfsSetStatusAction::SetConsoleMode { raw } => StatusActionView::Declared(VfsSetStatusType::SetConsoleMode, raw@),
            VfsSetStatusAction::SetAccessRights { raw } => StatusActionView::Declared(VfsSetStatusType::SetAccessRights, raw@),
            VfsSetStatusAction::SetSecureMode { raw } => StatusActionView::Declared(VfsSetStatusType::SetSecureMode, raw@),
            VfsSetStatusAction::SetIpcActivityTimeout { raw } => StatusActionView::Declared(VfsSetStatusType::SetIpcActivityTimeout, raw@),
            VfsSetStatusAction::GetGenericDeviceName { raw } => StatusActionView::Declared(VfsSetStatusType::GetGenericDeviceName, raw@),
            VfsSetStatusAction::GetDeviceName { raw } => StatusActionView::Declared(VfsSetStatusType::GetDeviceName, raw@),
            VfsSetStatusAction::Unknown { ty, raw } => StatusActionView::Unknown(ty, raw@),
        }
    }
}

pub open spec fn actions_view<'a>(v: Seq<VfsSetStatusAction<'a>>) -> Seq<StatusActionView> {
    v.map_values(|a: VfsSetStatusAction<'a>| a@)
}

/// Set-status is answered with a bare acknowledgement, so the decoded actions
/// only ever reach the log; they are kept because the shape of the request is
/// what the reverse engineering established.
#[derive(Clone, Debug)]
pub struct VfsSetStatusRequest<'a> {
    pub actions: Vec<VfsSetStatusAction<'a>>,
}

#[derive(Clone, Debug)]
pub enum VfsRequestBody<'a> {
    GetStatus(VfsReadRequest),
    Open(VfsOpenRequest),
    Read(VfsReadRequest),
    ReadDesc(VfsReadRequest),
    ReadDirPage(VfsReadRequest),
    Write(VfsWriteRequest<'a>),
    WriteDesc(VfsWriteRequest<'a>),
    SetStatus(VfsSetStatusRequest<'a>),
    Seek(VfsSeekRequest),
    Attach(VfsAttachRequest<'a>),
    Detach,
    Close,
    Flush,
    Unknown(&'a [u8]),
}

/// A request body as plain values.
pub enum VfsBodyView {
    GetStatus(u16),
    Open(u8),
    Read(u16),
    ReadDesc(u16),
    ReadDirPage(u16),
    Write(Seq<u8>),
    WriteDesc(Seq<u8>),
    SetStatus(Seq<StatusActionView>),
    Seek(VfsSeekMode, u32),
    /// The attach mode, the access mode, the password field and the path.
    Attach(VfsAttachMode, VfsAccessMode, Seq<u8>, Seq<u8>),
    Detach,
    Close,
    Flush,
    Unknown(Seq<u8>),
}

impl<'a> View for VfsRequestBody<'a> {
    type V = VfsBodyView;

    open spec fn view(&self) -> VfsBodyView {
        match self {
            VfsRequestBody::GetStatus(r) => VfsBodyView::GetStatus(r.data_length),
            VfsRequestBody::Open(r) => VfsBodyView::Open(r.num_buf),
            VfsRequestBody::Read(r) => VfsBodyView::Read(r.data_length),
            VfsRequestBody::ReadDesc(r) => VfsBodyView::ReadDesc(r.data_length),
            VfsRequestBody::ReadDirPage(r) => VfsBodyView::ReadDirPage(r.data_length),
            VfsRequestBody::Write(r) => VfsBodyView::Write(r.data@),
            VfsRequestBody::WriteDesc(r) => VfsBodyView::WriteDesc(r.data@),
            VfsRequestBody::SetStatus(r) => VfsBodyView::SetStatus(actions_view(r.actions@)),
            VfsRequestBody::Seek(r) => VfsBodyView::Seek(r.mode, r.position),
            VfsRequestBody::Attach(r) => VfsBodyView::Attach(
                r.mode,
                r.access,
                r.password@,
                r.path.bytes(),
            ),
            VfsRequestBody::Detach => VfsBodyView::Detach,
            VfsRequestBody::Close => VfsBodyView::Close,
            VfsRequestBody::Flush => VfsBodyView::Flush,
            VfsRequestBody::Unknown(rest) => VfsBodyView::Unknown(rest@),
        }
    }
}

#[derive(Clone, Debug)]
pub struct VfsRequest<'a> {
    pub header: VfsRequestHeader,
    pub body: VfsRequestBody<'a>,
}

// ---------------------------------------------------------------------------
// What a request decodes to
// ---------------------------------------------------------------------------

/// The error for `count` bytes left over after the payload named `context`.
pub open spec fn trailing(context: &'static str, count: int) -> FrameErrorView {
    invalid(context@ + ": "@ + spec_decimal(count as nat) + " trailing bytes"@)
}

/// The `u16` at `p`.
pub open spec fn u16_at(d: Seq<u8>, p: int) -> u16 {
    spec_u16_le(d[p], d[p + 1])
}

/// A read-like request at `p`: the length wanted and nothing else.
pub open spec fn spec_read_request(d: Seq<u8>, p: int) -> Result<u16, FrameErrorView> {
    if p + 2 > d.len() {
        Err(FrameErrorView::UnexpectedEof)
    } else if p + 2 != d.len() {
        Err(trailing("VFS read payload", d.len() - (p + 2)))
    } else {
        Ok(u16_at(d, p))
    }
}

/// A write-like request at `p`: `<u16 length><data>` and nothing else.
pub open spec fn spec_write_request(d: Seq<u8>, p: int) -> Result<Seq<u8>, FrameErrorView> {
    if p + 2 > d.len() || p + 2 + u16_at(d, p) > d.len() {
        Err(FrameErrorView::UnexpectedEof)
    } else if p + 2 + u16_at(d, p) != d.len() {
        Err(trailing("VFS write payload", d.len() - (p + 2 + u16_at(d, p))))
    } else {
        Ok(d.subrange(p + 2, p + 2 + u16_at(d, p)))
    }
}

/// The error for a set-status value named `name` that is `found` bytes long
/// instead of one.
pub open spec fn single_byte_error(name: &'static str, found: nat) -> FrameErrorView {
    invalid("invalid VFS set "@ + name@ + " length: expected 1, found "@ + spec_decimal(found))
}

/// One set-status action of type `ty` carrying `raw`.
pub open spec fn spec_status_action(ty: u8, raw: Seq<u8>) -> Result<StatusActionView, FrameErrorView> {
    match VfsSetStatusType::spec_from_repr(ty) {
        Some(VfsSetStatusType::SetDirection) => if raw.len() != 1 {
            Err(single_byte_error("direction", raw.len()))
        } else {
            match VfsReadDirection::spec_from_repr(raw[0]) {
                Some(direction) => Ok(StatusActionView::Direction(direction)),
                None => Err(invalid("invalid VFS read direction: "@ + spec_decimal(raw[0] as nat))),
            }
        },
        Some(VfsSetStatusType::SetObjectMode) => if raw.len() != 1 {
            Err(single_byte_error("object mode", raw.len()))
        } else {
            match VfsObjectMode::spec_from_repr(raw[0]) {
                Some(mode) => Ok(StatusActionView::ObjectMode(mode)),
                None => Err(invalid("invalid VFS object mode: "@ + spec_decimal(raw[0] as nat))),
            }
        },
        Some(kind) => Ok(StatusActionView::Declared(kind, raw)),
        None => Ok(StatusActionView::Unknown(ty, raw)),
    }
}

/// The actions from `p` to the end of `d`: `<type><u16 length><bytes>` each.
pub open spec fn spec_status_actions(d: Seq<u8>, p: int) -> Result<Seq<StatusActionView>, FrameErrorView>
    decreases d.len() - p,
{
    if p < 0 || p >= d.len() {
        Ok(Seq::empty())
    } else if p + 3 > d.len() || p + 3 + u16_at(d, p + 1) > d.len() {
        Err(FrameErrorView::UnexpectedEof)
    } else {
        match spec_status_action(d[p], d.subrange(p + 3, p + 3 + u16_at(d, p + 1))) {
            Err(e) => Err(e),
            Ok(a) => match spec_status_actions(d, p + 3 + u16_at(d, p + 1)) {
                Err(e) => Err(e),
                Ok(rest) => Ok(seq![a] + rest),
            },
        }
    }
}

/// The body of a request for `code` that starts at `p`.
pub open spec fn spec_body(code: Option<VfsRequestCode>, d: Seq<u8>, p: int) -> Result<
    VfsBodyView,
    FrameErrorView,
> {
    match code {
        Some(VfsRequestCode::Attach) => {
            if p + 1 > d.len() {
                Err(FrameErrorView::UnexpectedEof)
            } else if VfsAttachMode::spec_from_repr(d[p]) is None {
                Err(invalid("invalid VFS attach mode"@))
            } else if p + 2 > d.len() {
                Err(FrameErrorView::UnexpectedEof)
            } else if VfsAccessMode::spec_from_repr(d[p + 1]) is None {
                Err(invalid("invalid VFS access mode"@))
            } else if p + 20 > d.len() || p + 20 + d[p + 19] > d.len() {
                Err(FrameErrorView::UnexpectedEof)
            } else if spec_validate(d.subrange(p + 20, p + 20 + d[p + 19])) is Err {
                Err(invalid(spec_validate(d.subrange(p + 20, p + 20 + d[p + 19]))->Err_0@))
            } else if p + 20 + d[p + 19] != d.len() {
                Err(trailing("VFS attach payload", d.len() - (p + 20 + d[p + 19])))
            } else {
                Ok(
                    VfsBodyView::Attach(
                        VfsAttachMode::spec_from_repr(d[p])->Some_0,
                        VfsAccessMode::spec_from_repr(d[p + 1])->Some_0,
                        d.subrange(p + 2, p + 19),
                        d.subrange(p + 20, p + 20 + d[p + 19]),
                    ),
                )
            }
        },
        Some(VfsRequestCode::Open) => if p + 1 > d.len() {
            Err(FrameErrorView::UnexpectedEof)
        } else if p + 1 != d.len() {
            Err(trailing("VFS open payload", d.len() - (p + 1)))
        } else {
            Ok(VfsBodyView::Open(d[p]))
        },
        Some(VfsRequestCode::GetStatus) => match spec_read_request(d, p) {
            Ok(n) => Ok(VfsBodyView::GetStatus(n)),
            Err(e) => Err(e),
        },
        Some(VfsRequestCode::Read) => match spec_read_request(d, p) {
            Ok(n) => Ok(VfsBodyView::Read(n)),
            Err(e) => Err(e),
        },
        Some(VfsRequestCode::ReadDesc) => match spec_read_request(d, p) {
            Ok(n) => Ok(VfsBodyView::ReadDesc(n)),
            Err(e) => Err(e),
        },
        Some(VfsRequestCode::ReadDirPage) => match spec_read_request(d, p) {
            Ok(n) => Ok(VfsBodyView::ReadDirPage(n)),
            Err(e) => Err(e),
        },
        Some(VfsRequestCode::Seek) => if p + 1 > d.len() {
            Err(FrameErrorView::UnexpectedEof)
        } else if VfsSeekMode::spec_from_repr(d[p]) is None {
            Err(invalid("invalid VFS seek mode"@))
        } else if p + 5 > d.len() {
            Err(FrameErrorView::UnexpectedEof)
        } else if p + 5 != d.len() {
            Err(trailing("VFS seek payload", d.len() - (p + 5)))
        } else {
            Ok(
                VfsBodyView::Seek(
                    VfsSeekMode::spec_from_repr(d[p])->Some_0,
                    spec_u32_le(d.subrange(p + 1, p + 5)),
                ),
            )
        },
        Some(VfsRequestCode::Write) => match spec_write_request(d, p) {
            Ok(data) => Ok(VfsBodyView::Write(data)),
            Err(e) => Err(e),
        },
        Some(VfsRequestCode::WriteDesc) => match spec_write_request(d, p) {
            Ok(data) => Ok(VfsBodyView::WriteDesc(data)),
            Err(e) => Err(e),
        },
        Some(VfsRequestCode::SetStatus) => if p + 2 > d.len() || p + 2 + u16_at(d, p) > d.len() {
            Err(FrameErrorView::UnexpectedEof)
        } else if p + 2 + u16_at(d, p) != d.len() {
            Err(trailing("VFS set status payload", d.len() - (p + 2 + u16_at(d, p))))
        } else {
            match spec_status_actions(d.subrange(p + 2, p + 2 + u16_at(d, p)), 0) {
                Ok(actions) => Ok(VfsBodyView::SetStatus(actions)),
                Err(e) => Err(e),
            }
        },
        Some(VfsRequestCode::Detach) => if p != d.len() {
            Err(trailing("VFS detach payload", d.len() - p))
        } else {
            Ok(VfsBodyView::Detach)
        },
        Some(VfsRequestCode::Close) => if p != d.len() {
            Err(trailing("VFS close payload", d.len() - p))
        } else {
            Ok(VfsBodyView::Close)
        },
        Some(VfsRequestCode::Flush) => if p != d.len() {
            Err(trailing("VFS flush payload", d.len() - p))
        } else {
            Ok(VfsBodyView::Flush)
        },
        _ => Ok(VfsBodyView::Unknown(d.subrange(p, d.len() as int))),
    }
}

/// The header of a request.
pub open spec fn spec_request_header(d: Seq<u8>) -> VfsRequestHeader {
    VfsRequestHeader {
        request: u16_at(d, 0),
        requestors_conn_id: u16_at(d, 2),
        servers_conn_id: u16_at(d, 4),
    }
}

/// What `d` decodes to: its header and its body, or why it is no request.
pub open spec fn spec_parse_vfs_request(d: Seq<u8>) -> Result<(VfsRequestHeader, VfsBodyView), FrameErrorView> {
    if d.len() < 6 {
        Err(FrameErrorView::UnexpectedEof)
    } else {
        match spec_body(VfsRequestCode::spec_from_repr(u16_at(d, 0)), d, 6) {
            Ok(body) => Ok((spec_request_header(d), body)),
            Err(e) => Err(e),
        }
    }
}

// ---------------------------------------------------------------------------
// Decoding
// ---------------------------------------------------------------------------

/// Fails unless every byte has been read, counting the bytes left over after
/// the payload named `context`.
pub fn ensure_empty(cursor: &Cursor, context: &'static str) -> (r: Result<(), FrameError>)
    ensures
        cursor.pos() == cursor.bytes().len() ==> r is Ok,
        cursor.pos() != cursor.bytes().len() ==> err_view(r) == Some(
            trailing(context, cursor.bytes().len() - cursor.pos()),
        ),
{
    let remaining = cursor.remaining();
    if remaining == 0 {
        Ok(())
    } else {
        let mut reason = String::from_str(context);
        reason.append(": ");
        push_decimal(&mut reason, remaining as u64);
        reason.append(" trailing bytes");
        Err(FrameError::Validation { reason })
    }
}

fn read_request(cursor: &mut Cursor) -> (r: Result<VfsReadRequest, FrameError>)
    ensures
        match spec_read_request(old(cursor).bytes(), old(cursor).pos()) {
            Ok(n) => (r matches Ok(x) && x.data_length == n),
            Err(e) => err_view(r) == Some(e),
        },
{
    let data_length = cursor.read_u16()?;
    ensure_empty(cursor, "VFS read payload")?;
    Ok(VfsReadRequest { data_length })
}

fn read_write_request<'a>(cursor: &mut Cursor<'a>) -> (r: Result<VfsWriteRequest<'a>, FrameError>)
    ensures
        match spec_write_request(old(cursor).bytes(), old(cursor).pos()) {
            Ok(v) => (r matches Ok(x) && x.data@ == v),
            Err(e) => err_view(r) == Some(e),
        },
{
    let data_length = cursor.read_u16()? as usize;
    let data = cursor.read_slice(data_length)?;
    ensure_empty(cursor, "VFS write payload")?;
    Ok(VfsWriteRequest { data })
}

/// The one byte of the set-status value `raw` named `name`.
pub fn read_single_byte(raw: &[u8], name: &'static str) -> (r: Result<u8, FrameError>)
    ensures
        raw@.len() == 1 ==> r == Ok::<u8, FrameError>(raw@[0]),
        raw@.len() != 1 ==> err_view(r) == Some(single_byte_error(name, raw@.len())),
{
    if raw.len() == 1 {
        Ok(raw[0])
    } else {
        let mut reason = String::from_str("invalid VFS set ");
        reason.append(name);
        reason.append(" length: expected 1, found ");
        push_decimal(&mut reason, raw.len() as u64);
        Err(FrameError::Validation { reason })
    }
}

impl<'a> VfsSetStatusAction<'a> {
    pub fn from_raw(ty: u8, raw: &'a [u8]) -> (r: Result<Self, FrameError>)
        ensures
            match spec_status_action(ty, raw@) {
                Ok(v) => (r matches Ok(a) && a@ == v),
                Err(e) => err_view(r) == Some(e),
            },
    {
        let kind = match VfsSetStatusType::from_repr(ty) {
            Some(kind) => kind,
            None => {
                return Ok(Self::Unknown { ty, raw });
            },
        };
        match kind {
            VfsSetStatusType::SetDirection => {
                let byte = read_single_byte(raw, "direction")?;
                match VfsReadDirection::from_repr(byte) {
                    Some(direction) => Ok(Self::SetDirection { direction }),
                    None => Err(
                        FrameError::validation_num("invalid VFS read direction: ", byte as u64),
                    ),
                }
            },
            VfsSetStatusType::SetWildcard => Ok(Self::SetWildcard { pattern: raw }),
            VfsSetStatusType::SetObjectMode => {
                let byte = read_single_byte(raw, "object mode")?;
                match VfsObjectMode::from_repr(byte) {
                    Some(mode) => Ok(Self::SetObjectMode { mode }),
                    None => Err(FrameError::validation_num("invalid VFS object mode: ", byte as u64)),
                }
            },
            VfsSetStatusType::SetGpibAddress => Ok(Self::SetGpibAddress { raw }),
            VfsSetStatusType::SetDeviceMask => Ok(Self::SetDeviceMask { raw }),
            VfsSetStatusType::SetNoteValue => Ok(Self::SetNoteValue { raw }),
            VfsSetStatusType::SetNumBuffers => Ok(Self::SetNumBuffers { raw }),
            VfsSetStatusType::SetNameAttributes => Ok(Self::SetNameAttributes { raw }),
            VfsSetStatusType::SetConsoleMode => Ok(Self::SetConsoleMode { raw }),
            VfsSetStatusType::SetAccessRights => Ok(Self::SetAccessRights { raw }),
            VfsSetStatusType::SetSecureMode => Ok(Self::SetSecureMode { raw }),
            VfsSetStatusType::SetIpcActivityTimeout => Ok(Self::SetIpcActivityTimeout { raw }),
            VfsSetStatusType::GetGenericDeviceName => Ok(Self::GetGenericDeviceName { raw }),
            VfsSetStatusType::GetDeviceName => Ok(Self::GetDeviceName { raw }),
        }
    }
}

/// The actions of a set-status request, read until `data` ends.
fn read_status_actions<'a>(data: &'a [u8]) -> (r: Result<Vec<VfsSetStatusAction<'a>>, FrameError>)
    ensures
        match spec_status_actions(data@, 0) {
            Ok(v) => (r matches Ok(x) && actions_view(x@) == v),
            Err(e) => err_view(r) == Some(e),
        },
{
    let mut cursor = Cursor::new(data);
    let mut actions: Vec<VfsSetStatusAction<'a>> = Vec::new();
    while cursor.position() < data.len()
        invariant
            cursor.bytes() == data@,
            0 <= cursor.pos() <= data@.len(),
            spec_status_actions(data@, 0) == match spec_status_actions(data@, cursor.pos()) {
                Ok(rest) => Ok(actions_view(actions@) + rest),
                Err(e) => Err(e),
            },
        decreases data@.len() - cursor.pos(),
    {
        let ghost p = cursor.pos();
        let ty = cursor.read_u8()?;
        let length = cursor.read_u16()? as usize;
        let raw = cursor.read_slice(length)?;
        let action = VfsSetStatusAction::from_raw(ty, raw)?;
        let ghost prev = actions@;
        actions.push(action);
        proof {
            assert(actions_view(actions@) =~= actions_view(prev).push(action@));
            match spec_status_actions(data@, cursor.pos()) {
                Ok(rest) => {
                    assert(actions_view(prev) + (seq![action@] + rest) =~= actions_view(actions@)
                        + rest);
                },
                Err(e) => {},
            }
        }
    }
    proof {
        assert(actions_view(actions@) + Seq::<StatusActionView>::empty() =~= actions_view(actions@));
    }
    Ok(actions)
}

fn read_attach<'a>(cursor: &mut Cursor<'a>) -> (r: Result<VfsRequestBody<'a>, FrameError>)
    ensures
        match spec_body(Some(VfsRequestCode::Attach), old(cursor).bytes(), old(cursor).pos()) {
            Ok(v) => (r matches Ok(b) && b@ == v),
            Err(e) => err_view(r) == Some(e),
        },
{
    let ghost d = cursor.bytes();
    let ghost p = cursor.pos();
    let mode = match VfsAttachMode::from_repr(cursor.read_u8()?) {
        Some(mode) => mode,
        None => {
            return Err(FrameError::validation("invalid VFS attach mode"));
        },
    };
    let access = match VfsAccessMode::from_repr(cursor.read_u8()?) {
        Some(access) => access,
        None => {
            return Err(FrameError::validation("invalid VFS access mode"));
        },
    };
    let pw = cursor.read_slice(VFS_PASSWORD_SPACE)?;
    let password: [u8; 17] = [
        pw[0],
        pw[1],
        pw[2],
        pw[3],
        pw[4],
        pw[5],
        pw[6],
        pw[7],
        pw[8],
        pw[9],
        pw[10],
        pw[11],
        pw[12],
        pw[13],
        pw[14],
        pw[15],
        pw[16],
    ];
    assert(password@ =~= d.subrange(p + 2, p + 19));
    let raw_path = read_small_slice(cursor)?;
    let path = match GRiDPath::try_from(raw_path) {
        Ok(path) => path,
        Err(reason) => {
            return Err(FrameError::validation(reason));
        },
    };
    ensure_empty(cursor, "VFS attach payload")?;
    Ok(VfsRequestBody::Attach(VfsAttachRequest { mode, access, password, path }))
}

fn read_seek<'a>(cursor: &mut Cursor<'a>) -> (r: Result<VfsRequestBody<'a>, FrameError>)
    ensures
        match spec_body(Some(VfsRequestCode::Seek), old(cursor).bytes(), old(cursor).pos()) {
            Ok(v) => (r matches Ok(b) && b@ == v),
            Err(e) => err_view(r) == Some(e),
        },
{
    let mode = match VfsSeekMode::from_repr(cursor.read_u8()?) {
        Some(mode) => mode,
        None => {
            return Err(FrameError::validation("invalid VFS seek mode"));
        },
    };
    let position = cursor.read_u32()?;
    ensure_empty(cursor, "VFS seek payload")?;
    Ok(VfsRequestBody::Seek(VfsSeekRequest { mode, position }))
}

fn read_set_status<'a>(cursor: &mut Cursor<'a>) -> (r: Result<VfsRequestBody<'a>, FrameError>)
    ensures
        match spec_body(Some(VfsRequestCode::SetStatus), old(cursor).bytes(), old(cursor).pos()) {
            Ok(v) => (r matches Ok(b) && b@ == v),
            Err(e) => err_view(r) == Some(e),
        },
{
    let data_length = cursor.read_u16()? as usize;
    let data = cursor.read_slice(data_length)?;
    ensure_empty(cursor, "VFS set status payload")?;
    let actions = read_status_actions(data)?;
    Ok(VfsRequestBody::SetStatus(VfsSetStatusRequest { actions }))
}

/// Fails unless every byte of the payload named `context` has been read, and
/// otherwise yields `body`.
fn finish<'a>(cursor: &Cursor<'a>, context: &'static str, body: VfsRequestBody<'a>) -> (r: Result<
    VfsRequestBody<'a>,
    FrameError,
>)
    ensures
        cursor.pos() == cursor.bytes().len() ==> (r matches Ok(b) && b@ == body@),
        cursor.pos() != cursor.bytes().len() ==> err_view(r) == Some(
            trailing(context, cursor.bytes().len() - cursor.pos()),
        ),
{
    ensure_empty(cursor, context)?;
    Ok(body)
}

fn read_body<'a>(code: Option<VfsRequestCode>, cursor: &mut Cursor<'a>) -> (r: Result<
    VfsRequestBody<'a>,
    FrameError,
>)
    ensures
        match spec_body(code, old(cursor).bytes(), old(cursor).pos()) {
            Ok(v) => (r matches Ok(b) && b@ == v),
            Err(e) => err_view(r) == Some(e),
        },
{
    match code {
        Some(VfsRequestCode::Attach) => read_attach(cursor),
        Some(VfsRequestCode::Open) => {
            let num_buf = cursor.read_u8()?;
            finish(
                cursor,
                "VFS open payload",
                VfsRequestBody::Open(VfsOpenRequest { num_buf }),
            )
        },
        Some(VfsRequestCode::GetStatus) => Ok(VfsRequestBody::GetStatus(read_request(cursor)?)),
        Some(VfsRequestCode::Read) => Ok(VfsRequestBody::Read(read_request(cursor)?)),
        Some(VfsRequestCode::ReadDesc) => Ok(VfsRequestBody::ReadDesc(read_request(cursor)?)),
        Some(VfsRequestCode::ReadDirPage) => Ok(
            VfsRequestBody::ReadDirPage(read_request(cursor)?),
        ),
        Some(VfsRequestCode::Seek) => read_seek(cursor),
        Some(VfsRequestCode::Write) => Ok(VfsRequestBody::Write(read_write_request(cursor)?)),
        Some(VfsRequestCode::WriteDesc) => Ok(
            VfsRequestBody::WriteDesc(read_write_request(cursor)?),
        ),
        Some(VfsRequestCode::SetStatus) => read_set_status(cursor),
        Some(VfsRequestCode::Detach) => finish(
            cursor,
            "VFS detach payload",
            VfsRequestBody::Detach,
        ),
        Some(VfsRequestCode::Close) => finish(
            cursor,
            "VFS close payload",
            VfsRequestBody::Close,
        ),
        Some(VfsRequestCode::Flush) => finish(
            cursor,
            "VFS flush payload",
            VfsRequestBody::Flush,
        ),
        _ => Ok(VfsRequestBody::Unknown(cursor.read_remainder())),
    }
}

impl<'a> VfsRequest<'a> {
    pub fn try_from_slice(data: &'a [u8]) -> (r: Result<Self, FrameError>)
        ensures
            match spec_parse_vfs_request(data@) {
                Ok((header, body)) => (r matches Ok(x) && x.header == header && x.body@ == body),
                Err(e) => err_view(r) == Some(e),
            },
    {
        let mut cursor = Cursor::new(data);
        let request = cursor.read_u16()?;
        let requestors_conn_id = cursor.read_u16()?;
        let servers_conn_id = cursor.read_u16()?;
        let header = VfsRequestHeader { request, requestors_conn_id, servers_conn_id };
        let body = read_body(VfsRequestCode::from_repr(request), &mut cursor)?;
        Ok(Self { header, body })
    }
}

// ---------------------------------------------------------------------------
// Responses
// ---------------------------------------------------------------------------

#[derive(Clone, Copy, Debug, PartialEq, Eq)]
pub struct VfsResponseHeader {
    pub response: u16,
    pub servers_conn_id: u16,
    pub requestors_conn_id: u16,
    pub status: u16,
}

#[derive(Clone, Copy, Debug)]
pub struct VfsGetStatusResponse {
    pub header: VfsResponseHeader,
    pub open: bool,
    pub access: VfsAccessMode,
    pub seek: bool,
    pub file_position: u32,
    pub file_length: u32,
    pub num_pages: u16,
    pub num_pages_alloc: u16,
}

#[derive(Clone, Debug)]
pub struct VfsShortDirEntry {
    pub name: Vec<u8>,
}

#[derive(Clone, Debug)]
pub struct VfsReadDirPageResponse {
    pub header: VfsResponseHeader,
    pub entries: Vec<VfsShortDirEntry>,
}

#[derive(Clone, Debug)]
pub struct VfsReadResponse {
    pub header: VfsResponseHeader,
    pub data: Vec<u8>,
}

#[derive(Clone, Debug)]
pub enum VfsResponse {
    Simple(VfsResponseHeader),
    GetStatus(VfsGetStatusResponse),
    ReadDirPage(VfsReadDirPageResponse),
    Read(VfsReadResponse),
}

/// The header answering `request` on the connection `header` names.
pub open spec fn spec_response_header(request: VfsRequestCode, header: VfsRequestHeader, status: u16) -> VfsResponseHeader {
    VfsResponseHeader {
        response: (VFS_RESPONSE_BIT + request.spec_to_repr()) as u16,
        servers_conn_id: header.servers_conn_id,
        requestors_conn_id: header.requestors_conn_id,
        status,
    }
}

/// The header answering `request` on the connection `header` names, with
/// `status`.
pub fn response_header(request: VfsRequestCode, header: &VfsRequestHeader, status: u16) -> (r:
    VfsResponseHeader)
    ensures
        r == spec_response_header(request, *header, status),
{
    let code = request.to_repr();
    assert(code <= 36);
    assert(VFS_RESPONSE_BIT | code == VFS_RESPONSE_BIT + code) by (bit_vector)
        requires
            code <= 36,
    ;
    VfsResponseHeader {
        response: VFS_RESPONSE_BIT | code,
        servers_conn_id: header.servers_conn_id,
        requestors_conn_id: header.requestors_conn_id,
        status,
    }
}

/// A response that is only a header.
pub fn simple_response(request: VfsRequestCode, header: &VfsRequestHeader, error: u16) -> (r:
    VfsResponse)
    ensures
        r == VfsResponse::Simple(spec_response_header(request, *header, error)),
{
    VfsResponse::Simple(response_header(request, header, error))
}

/// The eight bytes of a response header.
pub open spec fn spec_header_bytes(h: VfsResponseHeader) -> Seq<u8> {
    spec_u16_le_bytes(h.response) + spec_u16_le_bytes(h.servers_conn_id) + spec_u16_le_bytes(
        h.requestors_conn_id,
    ) + spec_u16_le_bytes(h.status)
}

pub fn write_header(dst: &mut Vec<u8>, header: &VfsResponseHeader)
    ensures
        final(dst)@ == old(dst)@ + spec_header_bytes(*header),
{
    push_u16(dst, header.response);
    push_u16(dst, header.servers_conn_id);
    push_u16(dst, header.requestors_conn_id);
    push_u16(dst, header.status);
    assert(dst@ =~= old(dst)@ + spec_header_bytes(*header));
}

pub open spec fn bool_byte(b: bool) -> u8 {
    if b {
        1
    } else {
        0
    }
}

/// The body of a get-status response.
pub open spec fn spec_status_body(s: VfsGetStatusResponse) -> Seq<u8> {
    seq![bool_byte(s.open), s.access.spec_to_repr(), bool_byte(s.seek)] + spec_u32_le_bytes(
        s.file_position,
    ) + spec_u32_le_bytes(s.file_length) + spec_u16_le_bytes(s.num_pages) + spec_u16_le_bytes(
        s.num_pages_alloc,
    )
}

/// One entry of a directory page: four reserved bytes, the size of the
/// entry, the length of the name and the name.
pub open spec fn spec_dir_entry(name: Seq<u8>) -> Seq<u8> {
    seq![0u8, 0u8, 0u8, 0u8] + spec_u32_le_bytes((DIRECTORY_ENTRY_PREAMBLE_LEN + name.len()) as u32)
        + seq![name.len() as u8] + name
}

/// The entries of a directory page up to the first name that is too long,
/// and whether there was one.
pub open spec fn spec_dir_entries(names: Seq<Seq<u8>>) -> (Seq<u8>, bool)
    decreases names.len(),
{
    if names.len() == 0 {
        (Seq::empty(), false)
    } else {
        let prev = spec_dir_entries(names.drop_last());
        if prev.1 || names.last().len() > VFS_MAX_FILE_NAME_LENGTH {
            (prev.0, true)
        } else {
            (prev.0 + spec_dir_entry(names.last()), false)
        }
    }
}

pub open spec fn names_view(v: Seq<VfsShortDirEntry>) -> Seq<Seq<u8>> {
    v.map_values(|e: VfsShortDirEntry| e.name@)
}

/// The error for a block of `n` bytes behind a `u16` length prefix.
pub open spec fn overrun(n: nat) -> FrameErrorView {
    invalid("a block of "@ + spec_decimal(n) + " bytes overruns its u16 length prefix"@)
}

/// The error for a directory entry name longer than a name can be.
pub open spec fn long_name() -> FrameErrorView {
    invalid("VFS directory entry name exceeds the maximum length of 80 bytes"@)
}

/// The error for a response longer than one message.
pub open spec fn long_response() -> FrameErrorView {
    invalid("VFS response exceeds the maximum length of 514 bytes"@)
}

/// What writing a response appends, and the error it stops with if any. A
/// failure inside the length-prefixed block leaves what was written so far.
pub open spec fn spec_response_write(r: VfsResponse) -> (Seq<u8>, Option<FrameErrorView>) {
    match r {
        VfsResponse::Simple(h) => (spec_header_bytes(h), None),
        VfsResponse::GetStatus(s) => (
            spec_header_bytes(s.header) + spec_u16_le_bytes(15) + spec_status_body(s),
            None,
        ),
        VfsResponse::Read(rr) => if rr.data@.len() > 0xffff {
            (spec_header_bytes(rr.header) + seq![0u8, 0u8] + rr.data@, Some(overrun(rr.data@.len())))
        } else {
            (
                spec_header_bytes(rr.header) + spec_u16_le_bytes(rr.data@.len() as u16) + rr.data@,
                None,
            )
        },
        VfsResponse::ReadDirPage(p) => {
            let (body, bad) = spec_dir_entries(names_view(p.entries@));
            if bad {
                (
                    spec_header_bytes(p.header) + seq![0u8, 0u8] + body,
                    Some(long_name()),
                )
            } else if body.len() > 0xffff {
                (spec_header_bytes(p.header) + seq![0u8, 0u8] + body, Some(overrun(body.len())))
            } else {
                (
                    spec_header_bytes(p.header) + spec_u16_le_bytes(body.len() as u16) + body,
                    None,
                )
            }
        },
    }
}

fn write_dir_entries(dst: &mut Vec<u8>, entries: &Vec<VfsShortDirEntry>) -> (r: Result<
    (),
    FrameError,
>)
    ensures
        final(dst)@ == old(dst)@ + spec_dir_entries(names_view(entries@)).0,
        r is Ok <==> !spec_dir_entries(names_view(entries@)).1,
        r is Err ==> err_view(r) == Some(long_name()),
{
    let ghost start = dst@;
    let ghost names = names_view(entries@);
    let mut i: usize = 0;
    assert(names.take(0) =~= Seq::<Seq<u8>>::empty());
    while i < entries.len()
        invariant
            names == names_view(entries@),
            start == old(dst)@,
            i <= entries@.len(),
            dst@ == start + spec_dir_entries(names.take(i as int)).0,
            !spec_dir_entries(names.take(i as int)).1,
        decreases entries@.len() - i,
    {
        let name = entries[i].name.as_slice();
        assert(names.take(i + 1).drop_last() =~= names.take(i as int));
        assert(names.take(i + 1).last() == name@);
        if name.len() > VFS_MAX_FILE_NAME_LENGTH {
            proof {
                assert(spec_dir_entries(names.take(i + 1)).0 == spec_dir_entries(
                    names.take(i as int),
                ).0);
                lemma_dir_entries_stay_bad(names, i as int + 1);
            }
            return Err(
                FrameError::validation("VFS directory entry name exceeds the maximum length of 80 bytes"),
            );
        }
        let ghost before = dst@;
        push_u32(dst, 0);
        assert(spec_u32_le_bytes(0) =~= seq![0u8, 0u8, 0u8, 0u8]);
        push_u32(dst, (DIRECTORY_ENTRY_PREAMBLE_LEN + name.len()) as u32);
        dst.push(name.len() as u8);
        push_all(dst, name);
        assert(dst@ =~= before + spec_dir_entry(name@));
        i = i + 1;
    }
    assert(names.take(i as int) =~= names);
    Ok(())
}

/// Once a name is too long, no later entry is written.
proof fn lemma_dir_entries_stay_bad(names: Seq<Seq<u8>>, k: int)
    requires
        0 < k <= names.len(),
        spec_dir_entries(names.take(k)).1,
    ensures
        spec_dir_entries(names) == spec_dir_entries(names.take(k)),
    decreases names.len() - k,
{
    if k == names.len() {
        assert(names.take(k) =~= names);
    } else {
        assert(names.take(k + 1).drop_last() =~= names.take(k));
        lemma_dir_entries_stay_bad(names, k + 1);
    }
}

/// Appends a response: its header, then its body behind a `u16` length.
fn write_response_body(dst: &mut Vec<u8>, response: &VfsResponse) -> (r: Result<(), FrameError>)
    ensures
        ({
            let (written, failure) = spec_response_write(*response);
            &&& final(dst)@ == old(dst)@ + written
            &&& match failure {
                Some(e) => err_view(r) == Some(e),
                None => r is Ok,
            }
        }),
{
    match response {
        VfsResponse::Simple(response) => {
            write_header(dst, response);
            Ok(())
        },
        VfsResponse::GetStatus(response) => {
            write_status(dst, response);
            Ok(())
        },
        VfsResponse::ReadDirPage(response) => write_dir_page(dst, response),
        VfsResponse::Read(response) => write_read(dst, response),
    }
}

fn write_status(dst: &mut Vec<u8>, response: &VfsGetStatusResponse)
    ensures
        final(dst)@ == old(dst)@ + spec_header_bytes(response.header) + spec_u16_le_bytes(15)
            + spec_status_body(*response),
{
    write_header(dst, &response.header);
    let at = open_u16_len(dst);
    let ghost mid = dst@;
    dst.push(if response.open {
        1
    } else {
        0
    });
    dst.push(response.access.to_repr());
    dst.push(if response.seek {
        1
    } else {
        0
    });
    push_u32(dst, response.file_position);
    push_u32(dst, response.file_length);
    push_u16(dst, response.num_pages);
    push_u16(dst, response.num_pages_alloc);
    assert(dst@ =~= mid + spec_status_body(*response));
    let closed = close_u16_len(dst, at);
    assert(closed is Ok);
    assert(dst@ =~= old(dst)@ + spec_header_bytes(response.header) + spec_u16_le_bytes(15)
        + spec_status_body(*response));
}

fn write_dir_page(dst: &mut Vec<u8>, response: &VfsReadDirPageResponse) -> (r: Result<
    (),
    FrameError,
>)
    ensures
        ({
            let (written, failure) = spec_response_write(VfsResponse::ReadDirPage(*response));
            &&& final(dst)@ == old(dst)@ + written
            &&& match failure {
                Some(e) => err_view(r) == Some(e),
                None => r is Ok,
            }
        }),
{
    write_header(dst, &response.header);
    let at = open_u16_len(dst);
    let ghost mid = dst@;
    let ghost body = spec_dir_entries(names_view(response.entries@)).0;
    let written = write_dir_entries(dst, &response.entries);
    assert(dst@ =~= mid + body);
    if written.is_err() {
        assert(dst@ =~= old(dst)@ + spec_header_bytes(response.header) + seq![0u8, 0u8] + body);
        return written;
    }
    let closed = close_u16_len(dst, at);
    proof {
        if body.len() <= 0xffff {
            assert(dst@ =~= old(dst)@ + spec_header_bytes(response.header) + spec_u16_le_bytes(
                body.len() as u16,
            ) + body);
        } else {
            assert(dst@ =~= old(dst)@ + spec_header_bytes(response.header) + seq![0u8, 0u8] + body);
        }
    }
    if closed.is_err() {
        return closed;
    }
    Ok(())
}

fn write_read(dst: &mut Vec<u8>, response: &VfsReadResponse) -> (r: Result<(), FrameError>)
    ensures
        ({
            let (written, failure) = spec_response_write(VfsResponse::Read(*response));
            &&& final(dst)@ == old(dst)@ + written
            &&& match failure {
                Some(e) => err_view(r) == Some(e),
                None => r is Ok,
            }
        }),
{
    write_header(dst, &response.header);
    let at = open_u16_len(dst);
    push_all(dst, response.data.as_slice());
    let closed = close_u16_len(dst, at);
    proof {
        if response.data@.len() <= 0xffff {
            assert(dst@ =~= old(dst)@ + spec_header_bytes(response.header) + spec_u16_le_bytes(
                response.data@.len() as u16,
            ) + response.data@);
        } else {
            assert(dst@ =~= old(dst)@ + spec_header_bytes(response.header) + seq![0u8, 0u8]
                + response.data@);
        }
    }
    if closed.is_err() {
        return closed;
    }
    Ok(())
}

impl VfsResponse {
    /// Appends the wire form of this response to `dst`.
    ///
    /// Every length prefix is patched in after its body has been written, so a
    /// prefix cannot disagree with the bytes it describes the way a separate
    /// counting pass over the same data could. A response longer than one
    /// message is taken back out of `dst`.
    pub fn write_into(&self, dst: &mut Vec<u8>) -> (r: Result<(), FrameError>)
        ensures
            ({
                let (written, failure) = spec_response_write(*self);
                match failure {
                    Some(e) => err_view(r) == Some(e) && final(dst)@ == old(dst)@ + written,
                    None => if written.len() > VFS_MAX_MESSAGE_LENGTH {
                        &&& err_view(r) == Some(long_response())
                        &&& final(dst)@ == old(dst)@
                    } else {
                        r is Ok && final(dst)@ == old(dst)@ + written
                    },
                }
            }),
    {
        let start = dst.len();
        write_response_body(dst, self)?;
        if dst.len() - start > VFS_MAX_MESSAGE_LENGTH {
            dst.truncate(start);
            assert(dst@ =~= old(dst)@);
            return Err(FrameError::validation("VFS response exceeds the maximum length of 514 bytes"));
        }
        Ok(())
    }
}

} // verus!
