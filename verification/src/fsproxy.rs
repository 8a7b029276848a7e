//! The storage's side of an attachment: what it keeps between attach and
//! detach, and the descriptors and status it reports of what it serves.
use vstd::prelude::*;

use crate::backend::{AccessMode, FileStatus, ObjectMode, ReadDirection, SeekMode, StatusAction};
use crate::bytes::push_all;
use crate::date::{spec_never, GRiDDate};
use crate::descriptor::{spec_descriptor_bytes, GRiDFileDescriptor};
use crate::file_name::{spec_check_name, GRiDFileName};
use crate::fs_layout::{vecs_view, MappedPath, VfsError, VfsPath, SUBJECT_SUFFIX};
use crate::grid_file::{GRiDFileHeader, SeekFrom};
use crate::listing::{
    directory_listing, entry_size, names_sorted, read_page, resource_entries, spec_listed,
    spec_page, spec_resource_names, ScannedEntry,
};
use crate::sentry::copy_bytes;

verus! {

/// A read takes less than one buffer of this many bytes.
pub const BUFFER_SIZE: usize = 512;

/// The pages get-status counts are this many bytes.
pub const PAGE_SIZE: u32 = 512;

pub open spec fn spec_seek_from(mode: SeekMode, position: u32) -> SeekFrom {
    match mode {
        SeekMode::Backward => SeekFrom::Current(-(position as int) as i64),
        SeekMode::Absolute => SeekFrom::Start(position as u64),
        SeekMode::Forward => SeekFrom::Current(position as i64),
        SeekMode::FromEnd => SeekFrom::End(-(position as int) as i64),
    }
}

/// The host seek a GRiD seek of `position` bytes stands for.
pub fn seek_from(mode: SeekMode, position: u32) -> (r: SeekFrom)
    ensures
        r == spec_seek_from(mode, position),
{
    let p = position as i64;
    match mode {
        SeekMode::Backward => SeekFrom::Current(-p),
        SeekMode::Absolute => SeekFrom::Start(position as u64),
        SeekMode::Forward => SeekFrom::Current(p),
        SeekMode::FromEnd => SeekFrom::End(-p),
    }
}

/// A read of `length` bytes, which must stay below one buffer.
pub fn check_read_length(length: usize) -> (r: Result<usize, VfsError>)
    ensures
        length >= BUFFER_SIZE ==> r == Err::<usize, VfsError>(VfsError::BadParameter),
        length < BUFFER_SIZE ==> r == Ok::<usize, VfsError>(length),
{
    if length >= BUFFER_SIZE {
        Err(VfsError::BadParameter)
    } else {
        Ok(length)
    }
}

/// What set-status leaves on an attachment: it steers only later requests on
/// it, and get-status reports it back.
pub struct AttachmentStatus {
    pub direction: ReadDirection,
    pub object_mode: ObjectMode,
    pub wildcard: Option<Vec<u8>>,
}

/// The status as values: direction, object mode and wildcard.
pub type StatusState = (ReadDirection, ObjectMode, Option<Seq<u8>>);

pub open spec fn spec_apply_action(s: StatusState, a: StatusAction) -> StatusState {
    match a {
        StatusAction::SetDirection(d) => (d, s.1, s.2),
        StatusAction::SetObjectMode(m) => (s.0, m, s.2),
        StatusAction::SetWildcard(p) => (s.0, s.1, Some(p@)),
        StatusAction::Unsupported => s,
    }
}

/// The status after `actions`, each in turn.
pub open spec fn spec_apply_actions(s: StatusState, actions: Seq<StatusAction>) -> StatusState
    decreases actions.len(),
{
    if actions.len() == 0 {
        s
    } else {
        spec_apply_action(spec_apply_actions(s, actions.drop_last()), actions.last())
    }
}

impl AttachmentStatus {
    pub open spec fn state(&self) -> StatusState {
        (
            self.direction,
            self.object_mode,
            match self.wildcard {
                Some(w) => Some(w@),
                None => None,
            },
        )
    }

    /// The status of a fresh attachment: forward, byte mode, no wildcard.
    pub fn new() -> (r: Self)
        ensures
            r.state() == (ReadDirection::Forward, ObjectMode::Byte, None::<Seq<u8>>),
    {
        AttachmentStatus {
            direction: ReadDirection::Forward,
            object_mode: ObjectMode::Byte,
            wildcard: None,
        }
    }

    /// Takes `actions` in turn; an unsupported one changes nothing.
    pub fn apply(&mut self, actions: &[StatusAction])
        ensures
            final(self).state() == spec_apply_actions(old(self).state(), actions@),
    {
        let mut i: usize = 0;
        while i < actions.len()
            invariant
                i <= actions@.len(),
                self.state() == spec_apply_actions(old(self).state(), actions@.take(i as int)),
            decreases actions@.len() - i,
        {
            assert(actions@.take(i + 1).drop_last() =~= actions@.take(i as int));
            match &actions[i] {
                StatusAction::SetDirection(d) => {
                    self.direction = *d;
                },
                StatusAction::SetObjectMode(m) => {
                    self.object_mode = *m;
                },
                StatusAction::SetWildcard(p) => {
                    self.wildcard = Some(copy_bytes(p.as_slice()));
                },
                StatusAction::Unsupported => {},
            }
            i = i + 1;
        }
        assert(actions@.take(i as int) =~= actions@);
    }
}

/// Where an open file stands: the position in its body and the body's length.
#[derive(Clone, Copy, Debug, PartialEq, Eq)]
pub struct OpenFile {
    pub position: u64,
    pub body_length: u64,
}

/// The pages a body of `length` bytes takes, as many as a `u16` counts.
pub open spec fn spec_num_pages(length: u32) -> u16 {
    let pages = (length + PAGE_SIZE - 1) / (PAGE_SIZE as int);
    if pages > u16::MAX {
        u16::MAX
    } else {
        pages as u16
    }
}

/// Everything the storage keeps of an attachment between attach and detach.
/// Directory and status requests are answered from here, without the object
/// being opened.
pub struct FsAttachment {
    pub target: MappedPath,
    pub access: AccessMode,
    /// The next entry a directory read gives.
    pub position: usize,
    /// The listing, taken at the first directory read and kept for the rest
    /// of the walk, so that objects created or removed meanwhile shift no
    /// later page.
    pub listing: Option<Vec<Vec<u8>>>,
    pub status: AttachmentStatus,
}

impl FsAttachment {
    /// A fresh attachment of `target`.
    pub fn new(target: MappedPath, access: AccessMode) -> (r: Self)
        ensures
            r.target == target,
            r.access == access,
            r.position == 0,
            r.listing is None,
            r.status.state() == (ReadDirection::Forward, ObjectMode::Byte, None::<Seq<u8>>),
    {
        FsAttachment { target, access, position: 0, listing: None, status: AttachmentStatus::new() }
    }

    /// Whether the next directory read needs the directory's entries from the
    /// host.
    pub fn needs_scan(&self) -> (r: bool)
        ensures
            r == (self.listing is None && self.target is Directory),
    {
        self.listing.is_none() && match &self.target {
            MappedPath::Directory(_) => true,
            _ => false,
        }
    }

    /// The next page of the listing, at most `max_entries` entries taking at
    /// most `max_bytes`. The listing is taken at the first read: of a
    /// directory, from `scanned`, what the host holds in it; of the name
    /// device, the resource disks; a file has none.
    pub fn read_dir(&mut self, scanned: &[ScannedEntry], max_entries: usize, max_bytes: usize) -> (r:
        Result<Vec<Vec<u8>>, VfsError>)
        ensures
            final(self).target == old(self).target,
            final(self).access == old(self).access,
            final(self).status == old(self).status,
            (old(self).listing is None && old(self).target is File) ==> (r == Err::<
                Vec<Vec<u8>>,
                VfsError,
            >(VfsError::NotSupported) && final(self).listing is None && final(self).position == old(
                self,
            ).position),
            !(old(self).listing is None && old(self).target is File) ==> (final(self).listing matches Some(
                l,
            ) && r matches Ok(page) && vecs_view(page@) == spec_page(
                vecs_view(l@),
                old(self).position as int,
                max_entries as int,
                max_bytes as int,
            ) && final(self).position == old(self).position + page@.len() && (match old(self).listing {
                Some(prev) => vecs_view(l@) == vecs_view(prev@),
                None => match old(self).target {
                    MappedPath::Directory(_) => names_sorted(vecs_view(l@)) && vecs_view(
                        l@,
                    ).to_multiset() == spec_listed(scanned@).to_multiset(),
                    _ => vecs_view(l@) == spec_resource_names(),
                },
            })),
    {
        if self.listing.is_none() {
            let listing = match &self.target {
                MappedPath::Directory(_) => directory_listing(scanned),
                MappedPath::Resources => resource_entries(),
                MappedPath::File(_) => {
                    return Err(VfsError::NotSupported);
                },
            };
            self.listing = Some(listing);
        }
        let (page, next) = match &self.listing {
            Some(l) => read_page(l.as_slice(), self.position, max_entries, max_bytes),
            None => (Vec::new(), self.position),
        };
        self.position = next;
        Ok(page)
    }

    /// What get-status reports: of an open file, where it stands and how long
    /// it is; otherwise only the position of a directory walk.
    pub fn get_status(&self, file: Option<OpenFile>) -> (r: Result<FileStatus, VfsError>)
        ensures
            match file {
                Some(f) => if f.position > u32::MAX || f.body_length > u32::MAX {
                    r == Err::<FileStatus, VfsError>(VfsError::BadParameter)
                } else {
                    r == Ok::<FileStatus, VfsError>(
                        FileStatus {
                            access: self.access,
                            seek: true,
                            file_position: f.position as u32,
                            file_length: f.body_length as u32,
                            num_pages: spec_num_pages(f.body_length as u32),
                            num_pages_alloc: spec_num_pages(f.body_length as u32),
                        },
                    )
                },
                None => r == Ok::<FileStatus, VfsError>(
                    FileStatus {
                        access: self.access,
                        seek: false,
                        file_position: if self.position > u32::MAX {
                            u32::MAX
                        } else {
                            self.position as u32
                        },
                        file_length: 0,
                        num_pages: 0,
                        num_pages_alloc: 0,
                    },
                ),
            },
    {
        let (seek, file_position, file_length) = match file {
            Some(f) => {
                if f.position > 0xffff_ffff || f.body_length > 0xffff_ffff {
                    return Err(VfsError::BadParameter);
                }
                (true, f.position as u32, f.body_length as u32)
            },
            None => {
                let position: u32 = if self.position > 0xffff_ffff {
                    0xffff_ffff
                } else {
                    self.position as u32
                };
                (false, position, 0u32)
            },
        };
        let pages: u32 = file_length / PAGE_SIZE + if file_length % PAGE_SIZE == 0 {
            0
        } else {
            1
        };
        let num_pages: u16 = if pages > 0xffff {
            0xffff
        } else {
            pages as u16
        };
        assert(num_pages == spec_num_pages(file_length));
        Ok(
            FileStatus {
                access: self.access,
                seek,
                file_position,
                file_length,
                num_pages,
                num_pages_alloc: num_pages,
            },
        )
    }

    /// Takes the set-status `actions` in turn.
    pub fn set_status(&mut self, actions: &[StatusAction])
        ensures
            final(self).status.state() == spec_apply_actions(old(self).status.state(), actions@),
            final(self).target == old(self).target,
            final(self).access == old(self).access,
            final(self).position == old(self).position,
            final(self).listing == old(self).listing,
    {
        self.status.apply(actions);
    }
}

/// The fields of a descriptor the storage never fills in: zero, and no
/// expiration date.
pub open spec fn spec_blank_fields(d: GRiDFileDescriptor) -> bool {
    &&& d.expiration_date == spec_never()
    &&& d.machine_id == 0
    &&& d.compressed == 0
    &&& d.encrypted == 0
    &&& d.protected == 0
    &&& d.password@ == Seq::new(5, |i: int| 0u8)
    &&& d.grid_write1@ == Seq::new(6, |i: int| 0u8)
    &&& d.machine_id2 == 0
    &&& d.machine_id3 == 0
    &&& d.grid_write2@ == Seq::new(11, |i: int| 0u8)
    &&& d.rom == 0
    &&& d.rom_id == 0
    &&& d.mode == 0
    &&& d.rainy_day_bytes@ == Seq::new(3, |i: int| 0u8)
    &&& d.user_defined_bytes@ == Seq::new(20, |i: int| 0u8)
    &&& d.grid_central_use == 0
}

fn blank_descriptor(
    file_name: GRiDFileName,
    creation_date: GRiDDate,
    dir_file_id: u16,
    last_modified_date: GRiDDate,
) -> (r: GRiDFileDescriptor)
    ensures
        spec_blank_fields(r),
        r.file_name == file_name,
        r.creation_date == creation_date,
        r.dir_file_id == dir_file_id,
        r.last_modified_date == last_modified_date,
        r.file_length == 0,
        r.dir_length == 0,
        r.dir_count == 0,
        r.uses_8087 == 0,
        r.version1 == 0,
        r.version2 == 0,
        r.version3 == 0,
        r.property_length == 0,
{
    let r = GRiDFileDescriptor {
        file_length: 0,
        file_name,
        creation_date,
        dir_file_id,
        last_modified_date,
        expiration_date: GRiDDate::never(),
        machine_id: 0,
        compressed: 0,
        encrypted: 0,
        protected: 0,
        password: [0u8; 5],
        dir_length: 0,
        dir_count: 0,
        grid_write1: [0u8; 6],
        machine_id2: 0,
        uses_8087: 0,
        version1: 0,
        version2: 0,
        machine_id3: 0,
        grid_write2: [0u8; 11],
        version3: 0,
        property_length: 0,
        rom: 0,
        rom_id: 0,
        mode: 0,
        rainy_day_bytes: [0u8; 3],
        user_defined_bytes: [0u8; 20],
        grid_central_use: 0,
    };
    assert(r.password@ =~= Seq::new(5, |i: int| 0u8));
    assert(r.grid_write1@ =~= Seq::new(6, |i: int| 0u8));
    assert(r.grid_write2@ =~= Seq::new(11, |i: int| 0u8));
    assert(r.rainy_day_bytes@ =~= Seq::new(3, |i: int| 0u8));
    assert(r.user_defined_bytes@ =~= Seq::new(20, |i: int| 0u8));
    r
}

/// The descriptor of a file: its body's length, its name, its dates, the id
/// of the directory holding it (GRiD expects that one for a file), and what
/// its header records of its version and properties. A body too long for a
/// descriptor is refused.
pub fn file_descriptor(
    body_length: u64,
    name: GRiDFileName,
    creation_date: GRiDDate,
    dir_file_id: u16,
    last_modified_date: GRiDDate,
    header: &GRiDFileHeader,
) -> (r: Result<GRiDFileDescriptor, VfsError>)
    ensures
        body_length > u32::MAX ==> r == Err::<GRiDFileDescriptor, VfsError>(VfsError::BadParameter),
        body_length <= u32::MAX ==> (r matches Ok(d) && spec_blank_fields(d) && d.file_length
            == body_length && d.file_name == name && d.creation_date == creation_date
            && d.dir_file_id == dir_file_id && d.last_modified_date == last_modified_date
            && d.uses_8087 == header.flags & 1 && d.version1 == header.version_major && d.version2
            == header.version_minor && d.version3 == header.version_patch && d.property_length
            == header.property_length && d.dir_length == 0 && d.dir_count == 0),
{
    if body_length > 0xffff_ffff {
        return Err(VfsError::BadParameter);
    }
    let mut d = blank_descriptor(name, creation_date, dir_file_id, last_modified_date);
    d.file_length = body_length as u32;
    d.uses_8087 = header.flags & 1;
    d.version1 = header.version_major;
    d.version2 = header.version_minor;
    d.version3 = header.version_patch;
    d.property_length = header.property_length;
    Ok(d)
}

/// The bytes a listing's entries take in pages.
pub open spec fn listing_bytes(listing: Seq<Seq<u8>>) -> int
    decreases listing.len(),
{
    if listing.len() == 0 {
        0
    } else {
        listing_bytes(listing.drop_last()) + entry_size(listing.last())
    }
}

proof fn lemma_listing_bytes_grow(listing: Seq<Seq<u8>>, i: int)
    requires
        0 <= i < listing.len(),
    ensures
        listing_bytes(listing.take(i + 1)) == listing_bytes(listing.take(i)) + entry_size(
            listing[i],
        ),
        listing_bytes(listing.take(i)) >= 0,
{
    assert(listing.take(i + 1).drop_last() =~= listing.take(i));
    lemma_listing_bytes_nonnegative(listing.take(i));
}

proof fn lemma_listing_bytes_nonnegative(listing: Seq<Seq<u8>>)
    ensures
        listing_bytes(listing) >= 0,
    decreases listing.len(),
{
    if listing.len() > 0 {
        lemma_listing_bytes_nonnegative(listing.drop_last());
    }
}

/// The name of a directory as a descriptor gives it: `~Subject~` after the
/// host's name for it.
pub open spec fn spec_directory_name(host_name: Seq<u8>) -> Seq<u8> {
    host_name + SUBJECT_SUFFIX@
}

/// The descriptor of a directory: its name, its dates, its own id, and how
/// many entries its listing has and the bytes they take, each as many as its
/// field counts. A name that makes no GRiD name is refused.
pub fn directory_descriptor(
    host_name: &[u8],
    creation_date: GRiDDate,
    dir_file_id: u16,
    last_modified_date: GRiDDate,
    listing: &[Vec<u8>],
) -> (r: Result<GRiDFileDescriptor, VfsError>)
    ensures
        spec_check_name(spec_directory_name(host_name@)) is Err ==> r == Err::<
            GRiDFileDescriptor,
            VfsError,
        >(VfsError::BadParameter),
        spec_check_name(spec_directory_name(host_name@)) is Ok ==> (r matches Ok(d)
            && spec_blank_fields(d) && d.file_name.name() == spec_directory_name(host_name@)
            && d.creation_date == creation_date && d.dir_file_id == dir_file_id
            && d.last_modified_date == last_modified_date && d.file_length == 0 && d.uses_8087 == 0
            && d.version1 == 0 && d.version2 == 0 && d.version3 == 0 && d.property_length == 0
            && d.dir_length == (if listing_bytes(vecs_view(listing@)) > u32::MAX {
            u32::MAX as int
        } else {
            listing_bytes(vecs_view(listing@))
        }) && d.dir_count == (if listing@.len() > u16::MAX {
            u16::MAX as int
        } else {
            listing@.len() as int
        })),
{
    let mut name = copy_bytes(host_name);
    push_all(&mut name, SUBJECT_SUFFIX.as_slice());
    let file_name = match GRiDFileName::new(name.as_slice()) {
        Ok(n) => n,
        Err(_) => {
            return Err(VfsError::BadParameter);
        },
    };
    let ghost l = vecs_view(listing@);
    let cap: u64 = 0x1_0000_0000;
    let mut total: u64 = 0;
    let mut i: usize = 0;
    while i < listing.len()
        invariant
            l == vecs_view(listing@),
            i <= listing@.len(),
            cap == 0x1_0000_0000,
            total == (if listing_bytes(l.take(i as int)) > cap {
                cap as int
            } else {
                listing_bytes(l.take(i as int))
            }),
        decreases listing@.len() - i,
    {
        proof {
            lemma_listing_bytes_grow(l, i as int);
        }
        let size = listing[i].len() as u64;
        if total < cap {
            if size >= cap {
                total = cap;
            } else {
                total = total + 9 + size;
                if total > cap {
                    total = cap;
                }
            }
        }
        i = i + 1;
    }
    assert(l.take(i as int) =~= l);
    let dir_length: u32 = if total > 0xffff_ffff {
        0xffff_ffff
    } else {
        total as u32
    };
    let dir_count: u16 = if listing.len() > 0xffff {
        0xffff
    } else {
        listing.len() as u16
    };
    let mut d = blank_descriptor(file_name, creation_date, dir_file_id, last_modified_date);
    d.dir_length = dir_length;
    d.dir_count = dir_count;
    Ok(d)
}

/// The first `length` bytes of `desc`, or all of them when it asks for more.
pub fn descriptor_prefix(desc: &GRiDFileDescriptor, length: usize) -> (r: Vec<u8>)
    ensures
        length <= spec_descriptor_bytes(*desc).len() ==> r@ == spec_descriptor_bytes(*desc).take(
            length as int,
        ),
        length > spec_descriptor_bytes(*desc).len() ==> r@ == spec_descriptor_bytes(*desc),
{
    let mut bytes = desc.to_bytes();
    bytes.truncate(length);
    bytes
}

/// The GRiD name of the file at `path`: the name of its last component, which
/// must be one.
pub fn file_name(path: &VfsPath) -> (r: Result<GRiDFileName, VfsError>)
    ensures
        path.path@.len() == 0 ==> r == Err::<GRiDFileName, VfsError>(VfsError::ResourceUnavailable),
        path.path@.len() > 0 ==> match spec_check_name(path.path@.last()@) {
            Ok(()) => (r matches Ok(n) && n.name() == path.path@.last()@),
            Err(_) => r == Err::<GRiDFileName, VfsError>(VfsError::BadParameter),
        },
{
    if path.path.len() == 0 {
        return Err(VfsError::ResourceUnavailable);
    }
    match GRiDFileName::new(path.path[path.path.len() - 1].as_slice()) {
        Ok(name) => Ok(name),
        Err(_) => Err(VfsError::BadParameter),
    }
}

/// The directory an attachment of `target` needs on the host, if any: the one
/// holding a file, or the directory itself.
pub fn directory_to_create(target: &MappedPath) -> (r: Result<Option<Vec<Vec<u8>>>, VfsError>)
    ensures
        match target {
            MappedPath::File(p) => if vecs_view(p.path@).len() > vecs_view(p.disk@).len() && vecs_view(
                p.path@,
            ).take(vecs_view(p.disk@).len() as int) == vecs_view(p.disk@) {
                r matches Ok(Some(d)) && vecs_view(d@) == vecs_view(p.path@).drop_last()
            } else {
                r == Err::<Option<Vec<Vec<u8>>>, VfsError>(VfsError::ResourceUnavailable)
            },
            MappedPath::Directory(p) => r matches Ok(Some(d)) && vecs_view(d@) == vecs_view(p.path@),
            MappedPath::Resources => r matches Ok(None),
        },
{
    match target {
        MappedPath::File(p) => match p.parent() {
            Ok(parent) => Ok(Some(parent)),
            Err(e) => Err(e),
        },
        MappedPath::Directory(p) => Ok(Some(copy_names(&p.path))),
        MappedPath::Resources => Ok(None),
    }
}

fn copy_names(names: &Vec<Vec<u8>>) -> (r: Vec<Vec<u8>>)
    ensures
        vecs_view(r@) == vecs_view(names@),
{
    let mut r: Vec<Vec<u8>> = Vec::new();
    let mut i: usize = 0;
    while i < names.len()
        invariant
            i <= names@.len(),
            vecs_view(r@) == vecs_view(names@).take(i as int),
        decreases names@.len() - i,
    {
        let ghost prev = vecs_view(r@);
        r.push(copy_bytes(names[i].as_slice()));
        assert(vecs_view(r@) =~= prev.push(names@[i as int]@));
        assert(vecs_view(names@).take(i + 1) =~= vecs_view(names@).take(i as int).push(names@[i as int]@));
        i = i + 1;
    }
    assert(vecs_view(names@).take(i as int) =~= vecs_view(names@));
    r
}

} // verus!
