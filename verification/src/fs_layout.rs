//! Where the objects a GRiD path names live on the server's disks, and the
//! descriptors, listings and status the storage reports of them.
use vstd::prelude::*;

use crate::bytes::{bytes_equal, contains_byte, push_all};
use crate::path::{opt_view, spec_components_part, spec_nth, spec_parts, GRiDPath};
use crate::sentry::{copy_bytes, spec_decimal, ten_pow};
use crate::vfs_protocol::{
    VFS_ERROR_ALREADY_OPEN, VFS_ERROR_BAD_CONNECTION, VFS_ERROR_BAD_PARAMETER,
    VFS_ERROR_DEVICE_FULL, VFS_ERROR_FILE_EXISTS, VFS_ERROR_FILE_NOT_OPEN,
    VFS_ERROR_NOT_SUPPORTED, VFS_ERROR_RESOURCE_UNAVAILABLE,
};

verus! {

/// Why the storage refused an operation.
#[derive(Clone, Copy, Debug, PartialEq, Eq)]
pub enum VfsError {
    NotSupported,
    AccessDenied,
    DeviceFull,
    FileNotFound,
    WriteProtected,
    FileNotOpen,
    BadConnection,
    AlreadyOpen,
    BadParameter,
    FileExists,
    ResourceUnavailable,
    /// A host failure GRiD has no counterpart for.
    Io,
}

pub open spec fn spec_error_code(e: VfsError) -> u16 {
    match e {
        VfsError::NotSupported => VFS_ERROR_NOT_SUPPORTED,
        VfsError::DeviceFull => VFS_ERROR_DEVICE_FULL,
        VfsError::FileNotOpen => VFS_ERROR_FILE_NOT_OPEN,
        VfsError::BadConnection => VFS_ERROR_BAD_CONNECTION,
        VfsError::AlreadyOpen => VFS_ERROR_ALREADY_OPEN,
        VfsError::BadParameter => VFS_ERROR_BAD_PARAMETER,
        VfsError::FileExists => VFS_ERROR_FILE_EXISTS,
        _ => VFS_ERROR_RESOURCE_UNAVAILABLE,
    }
}

/// The GRiD error code of a refusal. Only the kinds with a faithful
/// counterpart are mapped; the rest degrade to the generic code.
pub fn error_code(e: VfsError) -> (r: u16)
    ensures
        r == spec_error_code(e),
{
    match e {
        VfsError::NotSupported => VFS_ERROR_NOT_SUPPORTED,
        VfsError::DeviceFull => VFS_ERROR_DEVICE_FULL,
        VfsError::FileNotOpen => VFS_ERROR_FILE_NOT_OPEN,
        VfsError::BadConnection => VFS_ERROR_BAD_CONNECTION,
        VfsError::AlreadyOpen => VFS_ERROR_ALREADY_OPEN,
        VfsError::BadParameter => VFS_ERROR_BAD_PARAMETER,
        VfsError::FileExists => VFS_ERROR_FILE_EXISTS,
        _ => VFS_ERROR_RESOURCE_UNAVAILABLE,
    }
}

/// "Name Device"
pub const NAME_DEVICE: [u8; 11] = [0x4e, 0x61, 0x6d, 0x65, 0x20, 0x44, 0x65, 0x76, 0x69, 0x63, 0x65];

/// "Resources~Subject~"
pub const RESOURCES_FOLDER: [u8; 18] = [0x52, 0x65, 0x73, 0x6f, 0x75, 0x72, 0x63, 0x65, 0x73, 0x7e, 0x53, 0x75, 0x62, 0x6a, 0x65, 0x63, 0x74, 0x7e];

/// "Mail"
pub const MAIL_DEVICE: [u8; 4] = [0x4d, 0x61, 0x69, 0x6c];

/// "User Subjects"
pub const USER_SUBJECTS: [u8; 13] = [0x55, 0x73, 0x65, 0x72, 0x20, 0x53, 0x75, 0x62, 0x6a, 0x65, 0x63, 0x74, 0x73];

/// "Group Subjects"
pub const GROUP_SUBJECTS: [u8; 14] = [0x47, 0x72, 0x6f, 0x75, 0x70, 0x20, 0x53, 0x75, 0x62, 0x6a, 0x65, 0x63, 0x74, 0x73];

/// "Company Subjects"
pub const COMPANY_SUBJECTS: [u8; 16] = [0x43, 0x6f, 0x6d, 0x70, 0x61, 0x6e, 0x79, 0x20, 0x53, 0x75, 0x62, 0x6a, 0x65, 0x63, 0x74, 0x73];

/// "Software Subjects"
pub const SOFTWARE_SUBJECTS: [u8; 17] = [0x53, 0x6f, 0x66, 0x74, 0x77, 0x61, 0x72, 0x65, 0x20, 0x53, 0x75, 0x62, 0x6a, 0x65, 0x63, 0x74, 0x73];

/// "Server Subjects"
pub const SERVER_SUBJECTS: [u8; 15] = [0x53, 0x65, 0x72, 0x76, 0x65, 0x72, 0x20, 0x53, 0x75, 0x62, 0x6a, 0x65, 0x63, 0x74, 0x73];

/// "Shared Subjects"
pub const SHARED_SUBJECTS: [u8; 15] = [0x53, 0x68, 0x61, 0x72, 0x65, 0x64, 0x20, 0x53, 0x75, 0x62, 0x6a, 0x65, 0x63, 0x74, 0x73];

/// "~Subject~"
pub const SUBJECT_SUFFIX: [u8; 9] = [0x7e, 0x53, 0x75, 0x62, 0x6a, 0x65, 0x63, 0x74, 0x7e];

/// "~FS~"
pub const FILE_SYSTEM_SUFFIX: [u8; 4] = [0x7e, 0x46, 0x53, 0x7e];

/// "Mail"
pub const MAIL_DIR: [u8; 4] = [0x4d, 0x61, 0x69, 0x6c];

/// "Sentry"
pub const SENTRY_DIR: [u8; 6] = [0x53, 0x65, 0x6e, 0x74, 0x72, 0x79];

/// "Companies"
pub const COMPANIES_DIR: [u8; 9] = [0x43, 0x6f, 0x6d, 0x70, 0x61, 0x6e, 0x69, 0x65, 0x73];

/// "Groups"
pub const GROUPS_DIR: [u8; 6] = [0x47, 0x72, 0x6f, 0x75, 0x70, 0x73];

/// "Users"
pub const USERS_DIR: [u8; 5] = [0x55, 0x73, 0x65, 0x72, 0x73];

/// "Shared"
pub const SHARED_DIR: [u8; 6] = [0x53, 0x68, 0x61, 0x72, 0x65, 0x64];

/// "Server"
pub const SERVER_DIR: [u8; 6] = [0x53, 0x65, 0x72, 0x76, 0x65, 0x72];

/// "Software"
pub const SOFTWARE_DIR: [u8; 8] = [0x53, 0x6f, 0x66, 0x74, 0x77, 0x61, 0x72, 0x65];

pub const MAX_DIRECTORY_NAME_LENGTH: usize = 80;

/// The decimal form of `n`, a minus sign first when it is negative.
pub open spec fn spec_decimal_int(n: int) -> Seq<u8> {
    if n < 0 {
        seq![0x2du8] + spec_decimal((-n) as nat)
    } else {
        spec_decimal(n as nat)
    }
}

/// The decimal digits of `n`.
pub fn decimal_u64(n: u64) -> (r: Vec<u8>)
    ensures
        r@ == spec_decimal(n as nat),
    decreases n,
{
    if n < 10 {
        let mut r: Vec<u8> = Vec::new();
        r.push((48 + n) as u8);
        assert(r@ =~= spec_decimal(n as nat));
        r
    } else {
        let mut r = decimal_u64(n / 10);
        r.push((48 + n % 10) as u8);
        r
    }
}

/// The decimal form of `n`, as a directory name.
pub fn decimal_i64(n: i64) -> (r: Vec<u8>)
    ensures
        r@ == spec_decimal_int(n as int),
{
    if n >= 0 {
        decimal_u64(n as u64)
    } else {
        let magnitude: u64 = if n == i64::MIN {
            0x8000_0000_0000_0000
        } else {
            (-n) as u64
        };
        let digits = decimal_u64(magnitude);
        let mut r: Vec<u8> = Vec::new();
        r.push(0x2d);
        push_all(&mut r, digits.as_slice());
        assert(r@ =~= spec_decimal_int(n as int));
        r
    }
}

/// The account an attachment acts for.
#[derive(Clone, Copy, Debug)]
pub struct Owner {
    pub company_id: i64,
    pub group_id: i64,
    pub user_id: i64,
}

/// One of the virtual disks.
#[derive(Clone, Copy, Debug, PartialEq, Eq)]
pub enum Disk {
    Mail,
    User,
    Group,
    Company,
    Software,
    Server,
    Shared,
}

/// The directory of `disk` under the root, one component each.
pub open spec fn spec_disk_dir(disk: Disk, owner: Owner) -> Seq<Seq<u8>> {
    match disk {
        Disk::Mail => seq![MAIL_DIR@],
        Disk::Company => seq![
            SENTRY_DIR@,
            COMPANIES_DIR@,
            spec_decimal_int(owner.company_id as int),
            SHARED_DIR@,
        ],
        Disk::Group => seq![
            SENTRY_DIR@,
            COMPANIES_DIR@,
            spec_decimal_int(owner.company_id as int),
            GROUPS_DIR@,
            spec_decimal_int(owner.group_id as int),
            SHARED_DIR@,
        ],
        Disk::User => seq![
            SENTRY_DIR@,
            COMPANIES_DIR@,
            spec_decimal_int(owner.company_id as int),
            GROUPS_DIR@,
            spec_decimal_int(owner.group_id as int),
            USERS_DIR@,
            spec_decimal_int(owner.user_id as int),
        ],
        Disk::Software => seq![SOFTWARE_DIR@],
        Disk::Server => seq![SERVER_DIR@],
        Disk::Shared => seq![SENTRY_DIR@, SHARED_DIR@],
    }
}

pub open spec fn vecs_view(v: Seq<Vec<u8>>) -> Seq<Seq<u8>> {
    v.map_values(|x: Vec<u8>| x@)
}

pub fn disk_dir(disk: Disk, owner: Owner) -> (r: Vec<Vec<u8>>)
    ensures
        vecs_view(r@) == spec_disk_dir(disk, owner),
{
    let mut r: Vec<Vec<u8>> = Vec::new();
    match disk {
        Disk::Mail => {
            r.push(copy_bytes(MAIL_DIR.as_slice()));
        },
        Disk::Company => {
            r.push(copy_bytes(SENTRY_DIR.as_slice()));
            r.push(copy_bytes(COMPANIES_DIR.as_slice()));
            r.push(decimal_i64(owner.company_id));
            r.push(copy_bytes(SHARED_DIR.as_slice()));
        },
        Disk::Group => {
            r.push(copy_bytes(SENTRY_DIR.as_slice()));
            r.push(copy_bytes(COMPANIES_DIR.as_slice()));
            r.push(decimal_i64(owner.company_id));
            r.push(copy_bytes(GROUPS_DIR.as_slice()));
            r.push(decimal_i64(owner.group_id));
            r.push(copy_bytes(SHARED_DIR.as_slice()));
        },
        Disk::User => {
            r.push(copy_bytes(SENTRY_DIR.as_slice()));
            r.push(copy_bytes(COMPANIES_DIR.as_slice()));
            r.push(decimal_i64(owner.company_id));
            r.push(copy_bytes(GROUPS_DIR.as_slice()));
            r.push(decimal_i64(owner.group_id));
            r.push(copy_bytes(USERS_DIR.as_slice()));
            r.push(decimal_i64(owner.user_id));
        },
        Disk::Software => {
            r.push(copy_bytes(SOFTWARE_DIR.as_slice()));
        },
        Disk::Server => {
            r.push(copy_bytes(SERVER_DIR.as_slice()));
        },
        Disk::Shared => {
            r.push(copy_bytes(SENTRY_DIR.as_slice()));
            r.push(copy_bytes(SHARED_DIR.as_slice()));
        },
    }
    assert(vecs_view(r@) =~= spec_disk_dir(disk, owner));
    r
}

proof fn lemma_decimal_digits(n: nat)
    ensures
        spec_decimal(n).len() >= 1,
        48 <= spec_decimal(n)[0] < 58,
        n >= 10 ==> spec_decimal(n).len() >= 2,
    decreases n,
{
    if n >= 10 {
        lemma_decimal_digits(n / 10);
    }
}

/// Different numbers are written with different digits.
proof fn lemma_decimal_injective(a: nat, b: nat)
    requires
        spec_decimal(a) == spec_decimal(b),
    ensures
        a == b,
    decreases a,
{
    lemma_decimal_digits(a);
    lemma_decimal_digits(b);
    if a >= 10 && b >= 10 {
        let da = spec_decimal(a);
        assert(da.last() == spec_decimal(b).last());
        assert(da.drop_last() =~= spec_decimal(a / 10));
        assert(spec_decimal(b).drop_last() =~= spec_decimal(b / 10));
        lemma_decimal_injective(a / 10, b / 10);
    }
}

/// Different integers are written differently, sign included.
proof fn lemma_decimal_int_injective(a: int, b: int)
    requires
        spec_decimal_int(a) == spec_decimal_int(b),
    ensures
        a == b,
{
    if a < 0 && b < 0 {
        assert(spec_decimal_int(a).drop_first() =~= spec_decimal((-a) as nat));
        assert(spec_decimal_int(b).drop_first() =~= spec_decimal((-b) as nat));
        lemma_decimal_injective((-a) as nat, (-b) as nat);
    } else if a < 0 {
        lemma_decimal_digits(b as nat);
        assert(spec_decimal_int(a)[0] == 0x2d);
    } else if b < 0 {
        lemma_decimal_digits(a as nat);
        assert(spec_decimal_int(b)[0] == 0x2d);
    } else {
        lemma_decimal_injective(a as nat, b as nat);
    }
}

/// No two disks share a directory: whoever the owner, each disk is a place of
/// its own, so what is stored on one is never found on another.
pub proof fn lemma_disks_are_distinct(d1: Disk, d2: Disk, owner: Owner)
    requires
        d1 != d2,
    ensures
        spec_disk_dir(d1, owner) != spec_disk_dir(d2, owner),
{
    let a = spec_disk_dir(d1, owner);
    let b = spec_disk_dir(d2, owner);
    if a == b {
        assert(a.len() == b.len());
        assert(a[0] == b[0]);
        assert(MAIL_DIR@.len() == 4);
        assert(SOFTWARE_DIR@.len() == 8);
        assert(SERVER_DIR@.len() == 6);
        assert(SENTRY_DIR@.len() == 6);
        assert(SENTRY_DIR@[2] != SERVER_DIR@[2]);
    }
}

/// Whose directory a disk is. The company disk is the same for every owner of
/// one company and different for different companies; the group disk is the
/// same exactly for owners of one group of one company; the user disk exactly
/// for one user; and the mail, software, server and shared disks are the same
/// for every owner.
pub proof fn lemma_disk_owners(d: Disk, o1: Owner, o2: Owner)
    ensures
        d is Company ==> (spec_disk_dir(d, o1) == spec_disk_dir(d, o2) <==> o1.company_id
            == o2.company_id),
        d is Group ==> (spec_disk_dir(d, o1) == spec_disk_dir(d, o2) <==> (o1.company_id
            == o2.company_id && o1.group_id == o2.group_id)),
        d is User ==> (spec_disk_dir(d, o1) == spec_disk_dir(d, o2) <==> o1 == o2),
        (d is Mail || d is Software || d is Server || d is Shared) ==> spec_disk_dir(d, o1)
            == spec_disk_dir(d, o2),
{
    let a = spec_disk_dir(d, o1);
    let b = spec_disk_dir(d, o2);
    if a == b && (d is Company || d is Group || d is User) {
        assert(a[2] == b[2]);
        lemma_decimal_int_injective(o1.company_id as int, o2.company_id as int);
        if d is Group || d is User {
            assert(a[4] == b[4]);
            lemma_decimal_int_injective(o1.group_id as int, o2.group_id as int);
        }
        if d is User {
            assert(a[6] == b[6]);
            lemma_decimal_int_injective(o1.user_id as int, o2.user_id as int);
        }
    }
    if d is Company && o1.company_id == o2.company_id {
        assert(a =~= b);
    }
    if d is Group && o1.company_id == o2.company_id && o1.group_id == o2.group_id {
        assert(a =~= b);
    }
}

/// The disks nest as the accounts do: a group's disk lies under its company's
/// directory, next to no other company's, and a user's lies under its group's.
pub proof fn lemma_disks_nest(owner: Owner)
    ensures
        spec_disk_dir(Disk::Group, owner).take(3) == spec_disk_dir(Disk::Company, owner).take(3),
        spec_disk_dir(Disk::User, owner).take(5) == spec_disk_dir(Disk::Group, owner).take(5),
{
    assert(spec_disk_dir(Disk::Group, owner).take(3) =~= spec_disk_dir(Disk::Company, owner).take(3));
    assert(spec_disk_dir(Disk::User, owner).take(5) =~= spec_disk_dir(Disk::Group, owner).take(5));
}

/// A component with its `~Subject~` suffix, if any, taken off.
pub open spec fn spec_strip_subject(c: Seq<u8>) -> Seq<u8> {
    if c.len() >= SUBJECT_SUFFIX@.len() && c.subrange(
        c.len() - SUBJECT_SUFFIX@.len(),
        c.len() as int,
    ) == SUBJECT_SUFFIX@ {
        c.subrange(0, c.len() - SUBJECT_SUFFIX@.len())
    } else {
        c
    }
}

/// The directory entry a path component names, or why it names none: a
/// component may not hold a NUL or a slash, nor be `.` or `..`.
pub open spec fn spec_map_component(c: Seq<u8>) -> Option<Seq<u8>> {
    let s = spec_strip_subject(c);
    if s.contains(0u8) || s.contains(0x2fu8) || s == seq![0x2eu8] || s == seq![0x2eu8, 0x2eu8] {
        None
    } else {
        Some(s)
    }
}

pub fn map_component(c: &[u8]) -> (r: Option<Vec<u8>>)
    ensures
        match spec_map_component(c@) {
            Some(s) => (r matches Some(v) && v@ == s),
            None => r is None,
        },
{
    let n = c.len();
    let k = SUBJECT_SUFFIX.len();
    let mut has_suffix = false;
    if n >= k {
        let tail = &c[n - k..n];
        assert(tail@ == c@.subrange(n - k, n as int));
        has_suffix = bytes_equal(tail, SUBJECT_SUFFIX.as_slice());
    }
    let stripped = if has_suffix {
        &c[0..n - k]
    } else {
        c
    };
    assert(stripped@ == spec_strip_subject(c@));
    if contains_byte(stripped, 0) || contains_byte(stripped, 0x2f) {
        return None;
    }
    if stripped.len() == 1 && stripped[0] == 0x2e {
        assert(stripped@ =~= seq![0x2eu8]);
        return None;
    }
    if stripped.len() == 2 && stripped[0] == 0x2e && stripped[1] == 0x2e {
        assert(stripped@ =~= seq![0x2eu8, 0x2eu8]);
        return None;
    }
    proof {
        if stripped@ == seq![0x2eu8] {
            assert(stripped@.len() == 1);
        }
        if stripped@ == seq![0x2eu8, 0x2eu8] {
            assert(stripped@.len() == 2);
        }
    }
    Some(copy_bytes(stripped))
}

/// A path inside one of the virtual disks, kept together with the disk it
/// belongs to: file ids are only unique within a single disk. Both are
/// components under the root.
#[derive(Clone, Debug)]
pub struct VfsPath {
    pub disk: Vec<Vec<u8>>,
    pub path: Vec<Vec<u8>>,
}

impl VfsPath {
    /// The directory holding the object, which must lie on the same disk.
    pub fn parent(&self) -> (r: Result<Vec<Vec<u8>>, VfsError>)
        ensures
            (vecs_view(self.path@).len() > vecs_view(self.disk@).len() && vecs_view(
                self.path@,
            ).take(vecs_view(self.disk@).len() as int) == vecs_view(self.disk@)) ==> (r matches Ok(
                p,
            ) && vecs_view(p@) == vecs_view(self.path@).drop_last()),
            !(vecs_view(self.path@).len() > vecs_view(self.disk@).len() && vecs_view(
                self.path@,
            ).take(vecs_view(self.disk@).len() as int) == vecs_view(self.disk@)) ==> r == Err::<
                Vec<Vec<u8>>,
                VfsError,
            >(VfsError::ResourceUnavailable),
    {
        let ghost path = vecs_view(self.path@);
        let ghost disk = vecs_view(self.disk@);
        if self.path.len() <= self.disk.len() {
            return Err(VfsError::ResourceUnavailable);
        }
        let mut i: usize = 0;
        while i < self.disk.len()
            invariant
                path == vecs_view(self.path@),
                disk == vecs_view(self.disk@),
                self.disk@.len() < self.path@.len(),
                i <= self.disk@.len(),
                path.take(i as int) == disk.take(i as int),
            decreases self.disk@.len() - i,
        {
            if !bytes_equal(self.path[i].as_slice(), self.disk[i].as_slice()) {
                assert(path.take(disk.len() as int)[i as int] == path[i as int]);
                return Err(VfsError::ResourceUnavailable);
            }
            assert(path.take(i + 1) =~= path.take(i as int).push(path[i as int]));
            assert(disk.take(i + 1) =~= disk.take(i as int).push(disk[i as int]));
            i = i + 1;
        }
        assert(disk.take(i as int) =~= disk);
        let mut parent: Vec<Vec<u8>> = Vec::new();
        let last = self.path.len() - 1;
        let mut j: usize = 0;
        while j < last
            invariant
                path == vecs_view(self.path@),
                last == self.path@.len() - 1,
                j <= last,
                vecs_view(parent@) == path.take(j as int),
            decreases last - j,
        {
            let ghost prev = vecs_view(parent@);
            parent.push(copy_bytes(self.path[j].as_slice()));
            assert(vecs_view(parent@) =~= prev.push(path[j as int]));
            assert(path.take(j + 1) =~= path.take(j as int).push(path[j as int]));
            j = j + 1;
        }
        assert(path.take(j as int) =~= path.drop_last());
        Ok(parent)
    }
}

/// What a GRiD path names on the disks.
#[derive(Clone, Debug)]
pub enum MappedPath {
    File(VfsPath),
    Directory(VfsPath),
    /// The list of resource disks.
    Resources,
}

/// The disk a device name stands for.
pub open spec fn spec_device_disk(device: Seq<u8>) -> Option<Disk> {
    if device == MAIL_DEVICE@ {
        Some(Disk::Mail)
    } else if device == USER_SUBJECTS@ {
        Some(Disk::User)
    } else if device == GROUP_SUBJECTS@ {
        Some(Disk::Group)
    } else if device == COMPANY_SUBJECTS@ {
        Some(Disk::Company)
    } else if device == SOFTWARE_SUBJECTS@ {
        Some(Disk::Software)
    } else if device == SERVER_SUBJECTS@ {
        Some(Disk::Server)
    } else if device == SHARED_SUBJECTS@ {
        Some(Disk::Shared)
    } else {
        None
    }
}

pub fn device_disk(device: &[u8]) -> (r: Option<Disk>)
    ensures
        r == spec_device_disk(device@),
{
    if bytes_equal(device, MAIL_DEVICE.as_slice()) {
        Some(Disk::Mail)
    } else if bytes_equal(device, USER_SUBJECTS.as_slice()) {
        Some(Disk::User)
    } else if bytes_equal(device, GROUP_SUBJECTS.as_slice()) {
        Some(Disk::Group)
    } else if bytes_equal(device, COMPANY_SUBJECTS.as_slice()) {
        Some(Disk::Company)
    } else if bytes_equal(device, SOFTWARE_SUBJECTS.as_slice()) {
        Some(Disk::Software)
    } else if bytes_equal(device, SERVER_SUBJECTS.as_slice()) {
        Some(Disk::Server)
    } else if bytes_equal(device, SHARED_SUBJECTS.as_slice()) {
        Some(Disk::Shared)
    } else {
        None
    }
}

/// What the path with device, folder and file names maps to, for `owner`.
pub open spec fn spec_map_path(
    owner: Owner,
    device: Option<Seq<u8>>,
    folder: Option<Seq<u8>>,
    file: Option<Seq<u8>>,
    r: Result<MappedPath, VfsError>,
) -> bool {
    match device {
        None => r == Err::<MappedPath, VfsError>(VfsError::ResourceUnavailable),
        Some(d) => if d == NAME_DEVICE@ && folder == Some(RESOURCES_FOLDER@) {
            r matches Ok(MappedPath::Resources)
        } else {
            match spec_device_disk(d) {
                None => r == Err::<MappedPath, VfsError>(VfsError::ResourceUnavailable),
                Some(disk) => {
                    let f = match folder {
                        Some(x) => spec_map_component(x),
                        None => Some(Seq::empty()),
                    };
                    let g = match file {
                        Some(x) => spec_map_component(x),
                        None => Some(Seq::empty()),
                    };
                    if f is None || g is None {
                        r == Err::<MappedPath, VfsError>(VfsError::BadParameter)
                    } else {
                        let dir = spec_disk_dir(disk, owner);
                        let path = dir + (if folder is Some {
                            seq![f->Some_0]
                        } else {
                            Seq::empty()
                        }) + (if file is Some {
                            seq![g->Some_0]
                        } else {
                            Seq::empty()
                        });
                        match r {
                            Ok(MappedPath::File(p)) => file is Some && vecs_view(p.disk@) == dir
                                && vecs_view(p.path@) == path,
                            Ok(MappedPath::Directory(p)) => file is None && vecs_view(p.disk@)
                                == dir && vecs_view(p.path@) == path,
                            _ => false,
                        }
                    }
                },
            }
        },
    }
}

/// Maps the device, folder and file of a path onto the disks.
pub fn map_components(
    owner: Owner,
    device: Option<&[u8]>,
    folder: Option<&[u8]>,
    file: Option<&[u8]>,
) -> (r: Result<MappedPath, VfsError>)
    ensures
        spec_map_path(owner, opt_view(device), opt_view(folder), opt_view(file), r),
{
    let device = match device {
        Some(d) => d,
        None => {
            return Err(VfsError::ResourceUnavailable);
        },
    };
    if bytes_equal(device, NAME_DEVICE.as_slice()) {
        if let Some(f) = folder {
            if bytes_equal(f, RESOURCES_FOLDER.as_slice()) {
                return Ok(MappedPath::Resources);
            }
        }
    }
    let disk = match device_disk(device) {
        Some(disk) => disk,
        None => {
            return Err(VfsError::ResourceUnavailable);
        },
    };
    let dir = disk_dir(disk, owner);
    let mut path: Vec<Vec<u8>> = Vec::new();
    let mut i: usize = 0;
    while i < dir.len()
        invariant
            i <= dir@.len(),
            vecs_view(path@) == vecs_view(dir@).take(i as int),
        decreases dir@.len() - i,
    {
        let ghost prev = path@;
        path.push(copy_bytes(dir[i].as_slice()));
        assert(vecs_view(path@) =~= vecs_view(prev).push(dir@[i as int]@));
        assert(vecs_view(dir@).take(i + 1) =~= vecs_view(dir@).take(i as int).push(dir@[i as int]@));
        i = i + 1;
    }
    assert(vecs_view(dir@).take(i as int) =~= vecs_view(dir@));
    let ghost base = vecs_view(path@);
    if let Some(f) = folder {
        match map_component(f) {
            Some(c) => {
                path.push(c);
            },
            None => {
                return Err(VfsError::BadParameter);
            },
        }
    }
    let ghost with_folder = vecs_view(path@);
    let is_file = file.is_some();
    if let Some(g) = file {
        match map_component(g) {
            Some(c) => {
                path.push(c);
            },
            None => {
                return Err(VfsError::BadParameter);
            },
        }
    }
    proof {
        let f = match opt_view(folder) {
            Some(x) => spec_map_component(x),
            None => Some(Seq::<u8>::empty()),
        };
        let g = match opt_view(file) {
            Some(x) => spec_map_component(x),
            None => Some(Seq::<u8>::empty()),
        };
        assert(with_folder =~= base + (if folder is Some {
            seq![f->Some_0]
        } else {
            Seq::empty()
        }));
        assert(vecs_view(path@) =~= with_folder + (if file is Some {
            seq![g->Some_0]
        } else {
            Seq::empty()
        }));
    }
    let mapped = VfsPath { disk: dir, path };
    if is_file {
        Ok(MappedPath::File(mapped))
    } else {
        Ok(MappedPath::Directory(mapped))
    }
}

/// Maps a GRiD path onto the disks: its device picks the disk, its folder and
/// file the entries below it.
pub fn map_gridpath(owner: Owner, path: &GRiDPath) -> (r: Result<MappedPath, VfsError>)
    ensures
        spec_map_path(
            owner,
            spec_nth(spec_parts(spec_components_part(path.bytes())), 0),
            spec_nth(spec_parts(spec_components_part(path.bytes())), 1),
            spec_nth(spec_parts(spec_components_part(path.bytes())), 2),
            r,
        ),
{
    let components = path.components();
    map_components(owner, components.device, components.folder, components.file)
}

} // verus!
