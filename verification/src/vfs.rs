//! The VFS session: which connections are attached to which objects, which of
//! them are open, and what every request is answered. What the storage does
//! with an object comes back from [`Vfs::begin`] as a [`BackendOp`]; the caller
//! performs it and hands the outcome to the matching `finish_` function.
use vstd::prelude::*;

use std::collections::HashMap;

use bit_vec::BitVec;

use crate::backend::{
    access_mode, attach_mode, seek_mode, spec_access_mode, spec_attach_mode, spec_seek_mode,
    spec_wire_access_mode, wire_access_mode, AccessMode, AttachMode, FileStatus, ObjectMode,
    ReadDirection, SeekMode,
};
use crate::path::{spec_validate, GRiDPath};
use crate::sentry::copy_bytes;
use crate::vfs_protocol::{
    names_view, response_header, simple_response, spec_response_header, VfsAccessMode,
    VfsBodyView, VfsGetStatusResponse, VfsReadDirPageResponse, VfsReadResponse, VfsRequest,
    VfsRequestBody, VfsRequestCode, VfsRequestHeader, VfsResponse, VfsResponseHeader,
    VfsShortDirEntry, VFS_DESCRIPTOR_LENGTH, VFS_ERROR_ALREADY_OPEN, VFS_ERROR_BAD_CONNECTION,
    VFS_ERROR_BAD_PARAMETER, VFS_ERROR_DEVICE_FULL, VFS_ERROR_FILE_EXISTS,
    VFS_ERROR_FILE_NOT_OPEN, VFS_ERROR_NOT_SUPPORTED, VFS_ERROR_RESOURCE_UNAVAILABLE,
    VFS_MAX_DIRECTORY_OBJECTS_PER_PAGE, VFS_MAX_WRITE_LENGTH, VFS_RESPONSE_BIT,
};

verus! {

// ---------------------------------------------------------------------------
// The connection ids, one bit each
// ---------------------------------------------------------------------------

#[verifier::external_type_specification]
#[verifier::external_body]
#[verifier::reject_recursive_types(B)]
pub struct ExBitVec<B>(BitVec<B>);

/// The bits of a bit vector, lowest index first.
pub uninterp spec fn bits(v: BitVec) -> Seq<bool>;

/// `BitVec::from_elem`: `len` bits, every one of them `bit`.
#[verifier::external_body]
fn bits_from_elem(len: usize, bit: bool) -> (r: BitVec)
    ensures
        bits(r) == Seq::new(len as nat, |i: int| bit),
{
    BitVec::from_elem(len, bit)
}

/// `BitVec::get`: the bit at `i`, or nothing past the end.
#[verifier::external_body]
fn bit_get(v: &BitVec, i: usize) -> (r: Option<bool>)
    ensures
        i < bits(*v).len() ==> r == Some(bits(*v)[i as int]),
        i >= bits(*v).len() ==> r is None,
{
    v.get(i)
}

/// `BitVec::set`: the bit at `i` becomes `x`; the others stay. It panics past
/// the end, which the precondition rules out.
#[verifier::external_body]
fn bit_set(v: &mut BitVec, i: usize, x: bool)
    requires
        i < bits(*old(v)).len(),
    ensures
        bits(*final(v)) == bits(*old(v)).update(i as int, x),
{
    v.set(i, x)
}

/// Whether `i` is the lowest index of a clear bit in `s`.
pub open spec fn is_first_clear(s: Seq<bool>, i: int) -> bool {
    0 <= i < s.len() && !s[i] && forall|k: int| 0 <= k < i ==> s[k]
}

/// The lowest index of a clear bit in `s`.
pub open spec fn spec_first_clear(s: Seq<bool>) -> Option<int> {
    if exists|i: int| is_first_clear(s, i) {
        Some(choose|i: int| is_first_clear(s, i))
    } else {
        None
    }
}

proof fn lemma_first_clear_unique(s: Seq<bool>, i: int)
    requires
        is_first_clear(s, i),
    ensures
        spec_first_clear(s) == Some(i),
{
    let j = choose|j: int| is_first_clear(s, j);
    if j < i {
        assert(s[j]);
    } else if i < j {
        assert(s[i]);
    }
}

// ---------------------------------------------------------------------------
// The session
// ---------------------------------------------------------------------------

/// One attached object.
#[derive(Clone, Debug)]
pub struct VfsFile {
    pub path: Vec<u8>,
    pub mode: AttachMode,
    pub access: AccessMode,
    /// Whether the object is open.
    pub open: bool,
    /// Whether the storage holds a handle for it: from its first open on,
    /// also after a close.
    pub has_handle: bool,
}

/// The number of connection ids, `0` included, which is never handed out.
pub const CONNECTION_IDS: usize = 65536;

/// The attached objects of one session and the connection ids in use.
pub struct Vfs {
    connection_ids: BitVec,
    files: HashMap<u16, VfsFile>,
}

/// The file attached on connection `id`, if there is one.
pub open spec fn spec_lookup(files: Map<u16, VfsFile>, id: u16) -> Option<VfsFile> {
    if id != 0 && files.contains_key(id) {
        Some(files[id])
    } else {
        None
    }
}

/// Why an operation on an open object may not proceed, if it may not.
pub open spec fn spec_open_check(files: Map<u16, VfsFile>, id: u16) -> Option<u16> {
    match spec_lookup(files, id) {
        None => Some(VFS_ERROR_BAD_CONNECTION),
        Some(f) => if !f.open || !f.has_handle {
            Some(VFS_ERROR_FILE_NOT_OPEN)
        } else {
            None
        },
    }
}

/// The status word an outcome is reported with.
pub open spec fn spec_status<T>(outcome: Result<T, u16>) -> u16 {
    match outcome {
        Ok(_) => 0,
        Err(code) => code,
    }
}

pub open spec fn simple_is(r: VfsResponse, code: VfsRequestCode, header: VfsRequestHeader, status: u16) -> bool {
    r == VfsResponse::Simple(spec_response_header(code, header, status))
}

pub open spec fn read_is(
    r: VfsResponse,
    code: VfsRequestCode,
    header: VfsRequestHeader,
    status: u16,
    data: Seq<u8>,
) -> bool {
    r matches VfsResponse::Read(x) && x.header == spec_response_header(code, header, status)
        && x.data@ == data
}

pub open spec fn dir_is(r: VfsResponse, header: VfsRequestHeader, status: u16, names: Seq<Seq<u8>>) -> bool {
    r matches VfsResponse::ReadDirPage(x) && x.header == spec_response_header(
        VfsRequestCode::ReadDirPage,
        header,
        status,
    ) && names_view(x.entries@) == names
}

/// The get-status response that reports a failure: nothing but the status.
pub open spec fn status_error_is(r: VfsResponse, header: VfsRequestHeader, status: u16) -> bool {
    r == VfsResponse::GetStatus(
        VfsGetStatusResponse {
            header: spec_response_header(VfsRequestCode::GetStatus, header, status),
            open: false,
            access: VfsAccessMode::Read,
            seek: false,
            file_position: 0,
            file_length: 0,
            num_pages: 0,
            num_pages_alloc: 0,
        },
    )
}

/// The header of an attach reply: the connection handed out, or `0`.
pub open spec fn spec_attach_header(header: VfsRequestHeader, id: u16, status: u16) -> VfsResponseHeader {
    VfsResponseHeader {
        response: (VFS_RESPONSE_BIT + VfsRequestCode::Attach.spec_to_repr()) as u16,
        servers_conn_id: id,
        requestors_conn_id: header.requestors_conn_id,
        status,
    }
}

/// What the storage is asked to do for one request.
#[derive(Clone, Debug)]
pub enum BackendOp {
    /// Report the status of the object; the outcome goes to
    /// [`Vfs::finish_get_status`].
    GetStatus { id: u16 },
    /// Open the object at `path`; the outcome goes to [`Vfs::finish_open`].
    Open { id: u16, path: Vec<u8>, mode: AttachMode, access: AccessMode },
    /// Read up to `length` bytes; the outcome goes to [`finish_read`].
    Read { id: u16, length: usize },
    /// Read up to `length` bytes of the descriptor; the outcome goes to
    /// [`finish_read`].
    ReadDesc { id: u16, length: usize },
    /// Read up to `max_entries` directory entries; the outcome goes to
    /// [`finish_read_dir`].
    ReadDir { id: u16, max_entries: usize, direction: ReadDirection, mode: ObjectMode },
    /// Write `data`; the outcome goes to [`finish_simple`].
    Write { id: u16, data: Vec<u8> },
    /// Write the descriptor `data`; the outcome goes to [`finish_simple`].
    WriteDesc { id: u16, data: Vec<u8> },
    /// Seek; the outcome goes to [`finish_simple`].
    Seek { id: u16, mode: SeekMode, position: u32 },
    /// Check that `path` may be attached; the outcome goes to
    /// [`Vfs::finish_attach`].
    Attach { path: Vec<u8>, mode: AttachMode, access: AccessMode },
    /// Close the object; the outcome goes to [`Vfs::finish_close`].
    Close { id: u16 },
    /// Flush the object; the outcome goes to [`finish_simple`].
    Flush { id: u16 },
}

/// What one request comes to.
#[derive(Clone, Debug)]
pub enum VfsStep {
    /// This is the reply.
    Respond(VfsResponse),
    /// The object on `id` is detached, its handle is to be released, and this
    /// is the reply.
    Released { id: u16, response: VfsResponse },
    /// The storage performs this first.
    Backend(BackendOp),
}

pub open spec fn respond_is(r: VfsStep, p: spec_fn(VfsResponse) -> bool) -> bool {
    r matches VfsStep::Respond(x) && p(x)
}

/// What a request with `header` and `body` comes to, given the attached
/// objects `files` and the connection ids `ids`.
pub open spec fn spec_begin(
    files: Map<u16, VfsFile>,
    ids: Seq<bool>,
    header: VfsRequestHeader,
    body: VfsBodyView,
    r: VfsStep,
) -> bool {
    let id = header.servers_conn_id;
    match body {
        VfsBodyView::GetStatus(_) => match spec_lookup(files, id) {
            None => respond_is(r, |x: VfsResponse| status_error_is(x, header, VFS_ERROR_BAD_CONNECTION)),
            Some(f) => if !f.has_handle {
                respond_is(r, |x: VfsResponse| status_error_is(x, header, VFS_ERROR_FILE_NOT_OPEN))
            } else {
                r matches VfsStep::Backend(BackendOp::GetStatus { id: i }) && i == id
            },
        },
        VfsBodyView::Open(_) => match spec_lookup(files, id) {
            None => respond_is(
                r,
                |x: VfsResponse| simple_is(x, VfsRequestCode::Open, header, VFS_ERROR_BAD_CONNECTION),
            ),
            Some(f) => if f.open {
                respond_is(
                    r,
                    |x: VfsResponse| simple_is(x, VfsRequestCode::Open, header, VFS_ERROR_ALREADY_OPEN),
                )
            } else if spec_validate(f.path@) is Err {
                respond_is(
                    r,
                    |x: VfsResponse| simple_is(x, VfsRequestCode::Open, header, VFS_ERROR_BAD_PARAMETER),
                )
            } else {
                r matches VfsStep::Backend(BackendOp::Open { id: i, path, mode, access }) && i == id
                    && path@ == f.path@ && mode == f.mode && access == f.access
            },
        },
        VfsBodyView::Read(length) => match spec_open_check(files, id) {
            Some(code) => respond_is(r, |x: VfsResponse| read_is(x, VfsRequestCode::Read, header, code, Seq::empty())),
            None => r matches VfsStep::Backend(BackendOp::Read { id: i, length: n }) && i == id && n
                == (if length <= 504 {
                length as int
            } else {
                504
            }),
        },
        VfsBodyView::ReadDesc(length) => match spec_open_check(files, id) {
            Some(code) => respond_is(
                r,
                |x: VfsResponse| read_is(x, VfsRequestCode::ReadDesc, header, code, Seq::empty()),
            ),
            None => r matches VfsStep::Backend(BackendOp::ReadDesc { id: i, length: n }) && i == id
                && n == (if length <= VFS_DESCRIPTOR_LENGTH {
                length as int
            } else {
                VFS_DESCRIPTOR_LENGTH as int
            }),
        },
        VfsBodyView::ReadDirPage(length) => match spec_open_check(files, id) {
            Some(code) => respond_is(r, |x: VfsResponse| dir_is(x, header, code, Seq::empty())),
            None => r matches VfsStep::Backend(
                BackendOp::ReadDir { id: i, max_entries: n, direction, mode },
            ) && i == id && n == (if length <= VFS_MAX_DIRECTORY_OBJECTS_PER_PAGE {
                length as int
            } else {
                VFS_MAX_DIRECTORY_OBJECTS_PER_PAGE as int
            }) && direction == ReadDirection::Forward && mode == ObjectMode::Directory,
        },
        VfsBodyView::Write(data) => if data.len() > VFS_MAX_WRITE_LENGTH {
            respond_is(
                r,
                |x: VfsResponse| simple_is(x, VfsRequestCode::Write, header, VFS_ERROR_BAD_PARAMETER),
            )
        } else {
            match spec_open_check(files, id) {
                Some(code) => respond_is(r, |x: VfsResponse| simple_is(x, VfsRequestCode::Write, header, code)),
                None => r matches VfsStep::Backend(BackendOp::Write { id: i, data: d }) && i == id
                    && d@ == data,
            }
        },
        VfsBodyView::WriteDesc(data) => if data.len() != VFS_DESCRIPTOR_LENGTH {
            respond_is(
                r,
                |x: VfsResponse| simple_is(x, VfsRequestCode::WriteDesc, header, VFS_ERROR_BAD_PARAMETER),
            )
        } else {
            match spec_open_check(files, id) {
                Some(code) => respond_is(
                    r,
                    |x: VfsResponse| simple_is(x, VfsRequestCode::WriteDesc, header, code),
                ),
                None => r matches VfsStep::Backend(BackendOp::WriteDesc { id: i, data: d }) && i
                    == id && d@ == data,
            }
        },
        VfsBodyView::SetStatus(_) => respond_is(
            r,
            |x: VfsResponse| simple_is(x, VfsRequestCode::SetStatus, header, 0),
        ),
        VfsBodyView::Seek(mode, position) => match spec_open_check(files, id) {
            Some(code) => respond_is(r, |x: VfsResponse| simple_is(x, VfsRequestCode::Seek, header, code)),
            None => r matches VfsStep::Backend(BackendOp::Seek { id: i, mode: m, position: p }) && i
                == id && m == spec_seek_mode(mode) && p == position,
        },
        VfsBodyView::Attach(mode, access, _, path) => match spec_first_clear(ids) {
            Some(free) if free != 0 => r matches VfsStep::Backend(
                BackendOp::Attach { path: p, mode: m, access: a },
            ) && p@ == path && m == spec_attach_mode(mode) && a == spec_access_mode(access),
            _ => respond_is(
                r,
                |x: VfsResponse| x == VfsResponse::Simple(
                    spec_attach_header(header, 0, VFS_ERROR_DEVICE_FULL),
                ),
            ),
        },
        VfsBodyView::Detach => match spec_lookup(files, id) {
            None => respond_is(
                r,
                |x: VfsResponse| simple_is(x, VfsRequestCode::Detach, header, VFS_ERROR_BAD_CONNECTION),
            ),
            Some(_) => r matches VfsStep::Released { id: i, response } && i == id && simple_is(
                response,
                VfsRequestCode::Detach,
                header,
                0,
            ),
        },
        VfsBodyView::Close => match spec_lookup(files, id) {
            None => respond_is(
                r,
                |x: VfsResponse| simple_is(x, VfsRequestCode::Close, header, VFS_ERROR_BAD_CONNECTION),
            ),
            Some(f) => if !f.open {
                respond_is(r, |x: VfsResponse| simple_is(x, VfsRequestCode::Close, header, 0))
            } else if !f.has_handle {
                respond_is(
                    r,
                    |x: VfsResponse| simple_is(x, VfsRequestCode::Close, header, VFS_ERROR_FILE_NOT_OPEN),
                )
            } else {
                r matches VfsStep::Backend(BackendOp::Close { id: i }) && i == id
            },
        },
        VfsBodyView::Flush => match spec_open_check(files, id) {
            Some(code) => respond_is(r, |x: VfsResponse| simple_is(x, VfsRequestCode::Flush, header, code)),
            None => r matches VfsStep::Backend(BackendOp::Flush { id: i }) && i == id,
        },
        VfsBodyView::Unknown(_) => respond_is(
            r,
            |x: VfsResponse| x == VfsResponse::Simple(
                VfsResponseHeader {
                    response: VFS_RESPONSE_BIT | header.request,
                    servers_conn_id: header.servers_conn_id,
                    requestors_conn_id: header.requestors_conn_id,
                    status: VFS_ERROR_NOT_SUPPORTED,
                },
            ),
        ),
    }
}

/// The attached objects after a request: only a detach of an attached object
/// changes them at once.
pub open spec fn spec_begin_files(files: Map<u16, VfsFile>, header: VfsRequestHeader, body: VfsBodyView) -> Map<u16, VfsFile> {
    if body is Detach && spec_lookup(files, header.servers_conn_id) is Some {
        files.remove(header.servers_conn_id)
    } else {
        files
    }
}

pub open spec fn spec_begin_ids(files: Map<u16, VfsFile>, ids: Seq<bool>, header: VfsRequestHeader, body: VfsBodyView) -> Seq<bool> {
    if body is Detach && spec_lookup(files, header.servers_conn_id) is Some {
        ids.update(header.servers_conn_id as int, false)
    } else {
        ids
    }
}

/// Descriptor requests need an open object. On an object that is attached but
/// not open, a descriptor read or a descriptor write is answered with "file not
/// open" and asks nothing of the storage. Once the storage has opened it (the
/// state [`Vfs::finish_open`] leaves after a successful open), each such request
/// is exactly one storage operation on that object, and leaves the attached
/// objects as they were, so the next one is again exactly one.
pub proof fn lemma_descriptor_ops_need_open(
    files: Map<u16, VfsFile>,
    ids: Seq<bool>,
    header: VfsRequestHeader,
    f: VfsFile,
    length: u16,
    data: Seq<u8>,
)
    requires
        spec_lookup(files, header.servers_conn_id) == Some(f),
        !f.open,
        data.len() == VFS_DESCRIPTOR_LENGTH,
    ensures
        forall|r: VfsStep|
            spec_begin(files, ids, header, VfsBodyView::ReadDesc(length), r) ==> (r matches VfsStep::Respond(x)
                && read_is(x, VfsRequestCode::ReadDesc, header, VFS_ERROR_FILE_NOT_OPEN, Seq::empty())),
        forall|r: VfsStep|
            spec_begin(files, ids, header, VfsBodyView::WriteDesc(data), r) ==> (r matches VfsStep::Respond(x)
                && simple_is(x, VfsRequestCode::WriteDesc, header, VFS_ERROR_FILE_NOT_OPEN)),
        ({
            let id = header.servers_conn_id;
            let opened = files.insert(id, VfsFile { open: true, has_handle: true, ..f });
            &&& forall|r: VfsStep|
                spec_begin(opened, ids, header, VfsBodyView::ReadDesc(length), r) ==> (r matches VfsStep::Backend(
                    BackendOp::ReadDesc { id: i, .. },
                ) && i == id)
            &&& forall|r: VfsStep|
                spec_begin(opened, ids, header, VfsBodyView::WriteDesc(data), r) ==> (r matches VfsStep::Backend(
                    BackendOp::WriteDesc { id: i, data: d },
                ) && i == id && d@ == data)
            &&& spec_begin_files(opened, header, VfsBodyView::ReadDesc(length)) == opened
            &&& spec_begin_files(opened, header, VfsBodyView::WriteDesc(data)) == opened
        }),
{
    let id = header.servers_conn_id;
    let opened = files.insert(id, VfsFile { open: true, has_handle: true, ..f });
    assert(spec_lookup(opened, id) == Some(VfsFile { open: true, has_handle: true, ..f }));
    assert(spec_open_check(opened, id) is None);
    assert(spec_open_check(files, id) == Some(VFS_ERROR_FILE_NOT_OPEN));
}

/// A connection id is handed out again once the object attached on it is
/// detached: an attach takes the lowest free id, and detaching it frees just
/// that id, so the next attach takes it again.
pub proof fn lemma_detached_id_is_reused(
    files: Map<u16, VfsFile>,
    ids: Seq<bool>,
    id: u16,
    header: VfsRequestHeader,
)
    requires
        spec_first_clear(ids) == Some(id as int),
        id != 0,
        files.contains_key(id),
        header.servers_conn_id == id,
    ensures
        spec_first_clear(spec_begin_ids(files, ids.update(id as int, true), header, VfsBodyView::Detach))
            == Some(id as int),
{
    let ids_then = spec_begin_ids(files, ids.update(id as int, true), header, VfsBodyView::Detach);
    assert(is_first_clear(ids, id as int)) by {
        let j = choose|j: int| is_first_clear(ids, j);
        assert(is_first_clear(ids, j));
        lemma_first_clear_unique(ids, j);
    }
    assert(ids_then =~= ids);
    lemma_first_clear_unique(ids, id as int);
}

impl Vfs {
    /// The attached objects by connection id.
    pub closed spec fn files(self) -> Map<u16, VfsFile> {
        self.files@
    }

    /// Which connection ids are in use.
    pub closed spec fn ids(self) -> Seq<bool> {
        bits(self.connection_ids)
    }

    /// Connection `0` is never handed out, and every other one is in use
    /// exactly while an object is attached on it.
    pub open spec fn wf(self) -> bool {
        &&& self.ids().len() == CONNECTION_IDS
        &&& self.ids()[0]
        &&& !self.files().contains_key(0)
        &&& forall|id: u16| id != 0 ==> (self.ids()[id as int] <==> #[trigger] self.files().contains_key(id))
    }

    pub fn new() -> (r: Self)
        ensures
            r.wf(),
            r.files() == Map::<u16, VfsFile>::empty(),
    {
        let mut connection_ids = bits_from_elem(CONNECTION_IDS, false);
        // A file id can not be 0.
        bit_set(&mut connection_ids, 0, true);
        let r = Vfs { connection_ids, files: HashMap::new() };
        assert forall|id: u16| id != 0 implies (r.ids()[id as int] <==> #[trigger] r.files().contains_key(
            id,
        )) by {
            assert(!r.ids()[id as int]);
        }
        r
    }

    /// Whether connection `id` is in use.
    pub fn is_in_use(&self, id: u16) -> (r: bool)
        requires
            self.wf(),
        ensures
            r == self.ids()[id as int],
    {
        match bit_get(&self.connection_ids, id as usize) {
            Some(b) => b,
            None => true,
        }
    }

    /// The object attached on connection `id`, if there is one.
    pub fn file(&self, id: u16) -> (r: Option<&VfsFile>)
        ensures
            match spec_lookup(self.files(), id) {
                Some(f) => r == Some(&f),
                None => r is None,
            },
    {
        self.lookup(id)
    }

    fn lookup(&self, id: u16) -> (r: Option<&VfsFile>)
        ensures
            match spec_lookup(self.files(), id) {
                Some(f) => r == Some(&f),
                None => r is None,
            },
    {
        if id == 0 {
            return None;
        }
        self.files.get(&id)
    }

    /// The lowest connection id not in use, `0` and none left alike being no
    /// id at all.
    fn free_id(&self) -> (r: Option<u16>)
        requires
            self.wf(),
        ensures
            match spec_first_clear(self.ids()) {
                Some(i) if i != 0 => r == Some(i as u16) && 0 < i < CONNECTION_IDS,
                _ => r is None,
            },
    {
        let mut i: usize = 0;
        while i < CONNECTION_IDS
            invariant
                self.wf(),
                i <= CONNECTION_IDS,
                forall|k: int| 0 <= k < i ==> self.ids()[k],
            decreases CONNECTION_IDS - i,
        {
            match bit_get(&self.connection_ids, i) {
                Some(false) => {
                    proof {
                        lemma_first_clear_unique(self.ids(), i as int);
                    }
                    if i == 0 {
                        return None;
                    }
                    return Some(i as u16);
                },
                _ => {},
            }
            i = i + 1;
        }
        proof {
            if spec_first_clear(self.ids()) is Some {
                let j = choose|j: int| is_first_clear(self.ids(), j);
                assert(self.ids()[j]);
            }
        }
        None
    }
}


/// The get-status reply that reports a failure.
fn status_error(header: &VfsRequestHeader, status: u16) -> (r: VfsResponse)
    ensures
        status_error_is(r, *header, status),
{
    VfsResponse::GetStatus(
        VfsGetStatusResponse {
            header: response_header(VfsRequestCode::GetStatus, header, status),
            open: false,
            access: VfsAccessMode::Read,
            seek: false,
            file_position: 0,
            file_length: 0,
            num_pages: 0,
            num_pages_alloc: 0,
        },
    )
}

fn read_response(code: VfsRequestCode, header: &VfsRequestHeader, status: u16, data: Vec<u8>) -> (r:
    VfsResponse)
    ensures
        read_is(r, code, *header, status, data@),
{
    VfsResponse::Read(VfsReadResponse { header: response_header(code, header, status), data })
}

/// The reply to a read or a descriptor read, given what the storage answered.
pub fn finish_read(code: VfsRequestCode, header: &VfsRequestHeader, outcome: Result<Vec<u8>, u16>) -> (r:
    VfsResponse)
    ensures
        match outcome {
            Ok(data) => read_is(r, code, *header, 0, data@),
            Err(e) => read_is(r, code, *header, e, Seq::empty()),
        },
{
    match outcome {
        Ok(data) => read_response(code, header, 0, data),
        Err(e) => read_response(code, header, e, Vec::new()),
    }
}

/// The reply to a directory page read, given the names the storage answered.
pub fn finish_read_dir(header: &VfsRequestHeader, outcome: Result<Vec<Vec<u8>>, u16>) -> (r:
    VfsResponse)
    ensures
        match outcome {
            Ok(names) => dir_is(r, *header, 0, vecs_view(names@)),
            Err(e) => dir_is(r, *header, e, Seq::empty()),
        },
{
    match outcome {
        Ok(names) => {
            let mut entries: Vec<VfsShortDirEntry> = Vec::new();
            let mut i: usize = 0;
            while i < names.len()
                invariant
                    i <= names@.len(),
                    names_view(entries@) == vecs_view(names@).take(i as int),
                decreases names@.len() - i,
            {
                let ghost prev = entries@;
                entries.push(VfsShortDirEntry { name: copy_bytes(names[i].as_slice()) });
                assert(names_view(entries@) =~= names_view(prev).push(names@[i as int]@));
                assert(vecs_view(names@).take(i + 1) =~= vecs_view(names@).take(i as int).push(
                    names@[i as int]@,
                ));
                i = i + 1;
            }
            assert(vecs_view(names@).take(i as int) =~= vecs_view(names@));
            VfsResponse::ReadDirPage(
                VfsReadDirPageResponse {
                    header: response_header(VfsRequestCode::ReadDirPage, header, 0),
                    entries,
                },
            )
        },
        Err(e) => {
            let entries: Vec<VfsShortDirEntry> = Vec::new();
            assert(names_view(entries@) =~= Seq::<Seq<u8>>::empty());
            VfsResponse::ReadDirPage(
                VfsReadDirPageResponse {
                    header: response_header(VfsRequestCode::ReadDirPage, header, e),
                    entries,
                },
            )
        },
    }
}

pub open spec fn vecs_view(v: Seq<Vec<u8>>) -> Seq<Seq<u8>> {
    v.map_values(|x: Vec<u8>| x@)
}

/// The reply to a write, a descriptor write, a seek or a flush, given what the
/// storage answered.
pub fn finish_simple(code: VfsRequestCode, header: &VfsRequestHeader, outcome: Result<(), u16>) -> (r:
    VfsResponse)
    ensures
        simple_is(r, code, *header, spec_status(outcome)),
{
    let status = match outcome {
        Ok(()) => 0,
        Err(e) => e,
    };
    simple_response(code, header, status)
}

impl Vfs {
    fn begin_get_status(&self, header: &VfsRequestHeader) -> (r: VfsStep)
        ensures
            spec_begin(self.files(), self.ids(), *header, VfsBodyView::GetStatus(0), r),
    {
        match self.lookup(header.servers_conn_id) {
            None => VfsStep::Respond(status_error(header, VFS_ERROR_BAD_CONNECTION)),
            Some(f) => if !f.has_handle {
                VfsStep::Respond(status_error(header, VFS_ERROR_FILE_NOT_OPEN))
            } else {
                VfsStep::Backend(BackendOp::GetStatus { id: header.servers_conn_id })
            },
        }
    }

    fn begin_open(&self, header: &VfsRequestHeader) -> (r: VfsStep)
        ensures
            spec_begin(self.files(), self.ids(), *header, VfsBodyView::Open(0), r),
    {
        match self.lookup(header.servers_conn_id) {
            None => VfsStep::Respond(
                simple_response(VfsRequestCode::Open, header, VFS_ERROR_BAD_CONNECTION),
            ),
            Some(f) => if f.open {
                VfsStep::Respond(simple_response(VfsRequestCode::Open, header, VFS_ERROR_ALREADY_OPEN))
            } else if GRiDPath::validate(f.path.as_slice()).is_err() {
                VfsStep::Respond(simple_response(VfsRequestCode::Open, header, VFS_ERROR_BAD_PARAMETER))
            } else {
                VfsStep::Backend(
                    BackendOp::Open {
                        id: header.servers_conn_id,
                        path: copy_bytes(f.path.as_slice()),
                        mode: f.mode,
                        access: f.access,
                    },
                )
            },
        }
    }

    /// Why an operation on an open object may not proceed, if it may not.
    fn open_check(&self, id: u16) -> (r: Option<u16>)
        ensures
            r == spec_open_check(self.files(), id),
    {
        match self.lookup(id) {
            None => Some(VFS_ERROR_BAD_CONNECTION),
            Some(f) => if !f.open || !f.has_handle {
                Some(VFS_ERROR_FILE_NOT_OPEN)
            } else {
                None
            },
        }
    }

    fn begin_close(&self, header: &VfsRequestHeader) -> (r: VfsStep)
        ensures
            spec_begin(self.files(), self.ids(), *header, VfsBodyView::Close, r),
    {
        match self.lookup(header.servers_conn_id) {
            None => VfsStep::Respond(
                simple_response(VfsRequestCode::Close, header, VFS_ERROR_BAD_CONNECTION),
            ),
            Some(f) => if !f.open {
                VfsStep::Respond(simple_response(VfsRequestCode::Close, header, 0))
            } else if !f.has_handle {
                VfsStep::Respond(simple_response(VfsRequestCode::Close, header, VFS_ERROR_FILE_NOT_OPEN))
            } else {
                VfsStep::Backend(BackendOp::Close { id: header.servers_conn_id })
            },
        }
    }

    fn begin_detach(&mut self, header: &VfsRequestHeader) -> (r: VfsStep)
        requires
            old(self).wf(),
        ensures
            final(self).wf(),
            spec_begin(old(self).files(), old(self).ids(), *header, VfsBodyView::Detach, r),
            final(self).files() == spec_begin_files(old(self).files(), *header, VfsBodyView::Detach),
            final(self).ids() == spec_begin_ids(old(self).files(), old(self).ids(), *header, VfsBodyView::Detach),
    {
        let id = header.servers_conn_id;
        if id == 0 {
            return VfsStep::Respond(simple_response(VfsRequestCode::Detach, header, VFS_ERROR_BAD_CONNECTION));
        }
        match self.files.remove(&id) {
            None => VfsStep::Respond(
                simple_response(VfsRequestCode::Detach, header, VFS_ERROR_BAD_CONNECTION),
            ),
            Some(_) => {
                bit_set(&mut self.connection_ids, id as usize, false);
                proof {
                    assert forall|k: u16| k != 0 implies (self.ids()[k as int]
                        <==> #[trigger] self.files().contains_key(k)) by {
                        if k != id {
                            assert(old(self).ids()[k as int] <==> old(self).files().contains_key(k));
                        }
                    }
                }
                VfsStep::Released {
                    id,
                    response: simple_response(VfsRequestCode::Detach, header, 0),
                }
            },
        }
    }

    fn begin_attach(&self, header: &VfsRequestHeader, mode: AttachMode, access: AccessMode, path: &[u8]) -> (r: VfsStep)
        requires
            self.wf(),
        ensures
            match spec_first_clear(self.ids()) {
                Some(free) if free != 0 => r matches VfsStep::Backend(
                    BackendOp::Attach { path: p, mode: m, access: a },
                ) && p@ == path@ && m == mode && a == access,
                _ => r matches VfsStep::Respond(x) && x == VfsResponse::Simple(
                    spec_attach_header(*header, 0, VFS_ERROR_DEVICE_FULL),
                ),
            },
    {
        match self.free_id() {
            None => VfsStep::Respond(
                VfsResponse::Simple(attach_header(header, 0, VFS_ERROR_DEVICE_FULL)),
            ),
            Some(_) => VfsStep::Backend(BackendOp::Attach { path: copy_bytes(path), mode, access }),
        }
    }
}

fn attach_header(header: &VfsRequestHeader, id: u16, status: u16) -> (r: VfsResponseHeader)
    ensures
        r == spec_attach_header(*header, id, status),
{
    let h = response_header(VfsRequestCode::Attach, header, status);
    VfsResponseHeader {
        response: h.response,
        servers_conn_id: id,
        requestors_conn_id: header.requestors_conn_id,
        status,
    }
}


impl Vfs {
    /// What a request comes to. A detach takes effect at once; everything the
    /// storage has to do comes back as a [`BackendOp`].
    pub fn process_request(&mut self, request: &VfsRequest) -> (r: VfsStep)
        requires
            old(self).wf(),
        ensures
            final(self).wf(),
            spec_begin(old(self).files(), old(self).ids(), request.header, request.body@, r),
            final(self).files() == spec_begin_files(old(self).files(), request.header, request.body@),
            final(self).ids() == spec_begin_ids(old(self).files(), old(self).ids(), request.header, request.body@),
    {
        let header = &request.header;
        let id = header.servers_conn_id;
        match &request.body {
            VfsRequestBody::GetStatus(_) => self.begin_get_status(header),
            VfsRequestBody::Open(_) => self.begin_open(header),
            VfsRequestBody::Read(body) => match self.open_check(id) {
                Some(code) => VfsStep::Respond(read_response(VfsRequestCode::Read, header, code, Vec::new())),
                None => VfsStep::Backend(BackendOp::Read { id, length: body.bounded_length() }),
            },
            VfsRequestBody::ReadDesc(body) => match self.open_check(id) {
                Some(code) => VfsStep::Respond(
                    read_response(VfsRequestCode::ReadDesc, header, code, Vec::new()),
                ),
                None => {
                    let wanted = body.data_length as usize;
                    let length = if wanted <= VFS_DESCRIPTOR_LENGTH {
                        wanted
                    } else {
                        VFS_DESCRIPTOR_LENGTH
                    };
                    VfsStep::Backend(BackendOp::ReadDesc { id, length })
                },
            },
            VfsRequestBody::ReadDirPage(body) => match self.open_check(id) {
                Some(code) => VfsStep::Respond(finish_read_dir(header, Err(code))),
                None => {
                    let wanted = body.data_length as usize;
                    let max_entries = if wanted <= VFS_MAX_DIRECTORY_OBJECTS_PER_PAGE {
                        wanted
                    } else {
                        VFS_MAX_DIRECTORY_OBJECTS_PER_PAGE
                    };
                    VfsStep::Backend(
                        BackendOp::ReadDir {
                            id,
                            max_entries,
                            direction: ReadDirection::Forward,
                            mode: ObjectMode::Directory,
                        },
                    )
                },
            },
            VfsRequestBody::Write(body) => {
                if body.data.len() > VFS_MAX_WRITE_LENGTH {
                    return VfsStep::Respond(
                        simple_response(VfsRequestCode::Write, header, VFS_ERROR_BAD_PARAMETER),
                    );
                }
                match self.open_check(id) {
                    Some(code) => VfsStep::Respond(simple_response(VfsRequestCode::Write, header, code)),
                    None => VfsStep::Backend(BackendOp::Write { id, data: copy_bytes(body.data) }),
                }
            },
            VfsRequestBody::WriteDesc(body) => {
                if body.data.len() != VFS_DESCRIPTOR_LENGTH {
                    return VfsStep::Respond(
                        simple_response(VfsRequestCode::WriteDesc, header, VFS_ERROR_BAD_PARAMETER),
                    );
                }
                match self.open_check(id) {
                    Some(code) => VfsStep::Respond(
                        simple_response(VfsRequestCode::WriteDesc, header, code),
                    ),
                    None => VfsStep::Backend(BackendOp::WriteDesc { id, data: copy_bytes(body.data) }),
                }
            },
            // Set-status is acknowledged without reaching the storage.
            VfsRequestBody::SetStatus(_) => VfsStep::Respond(
                simple_response(VfsRequestCode::SetStatus, header, 0),
            ),
            VfsRequestBody::Seek(body) => match self.open_check(id) {
                Some(code) => VfsStep::Respond(simple_response(VfsRequestCode::Seek, header, code)),
                None => VfsStep::Backend(
                    BackendOp::Seek { id, mode: seek_mode(body.mode), position: body.position },
                ),
            },
            VfsRequestBody::Attach(body) => self.begin_attach(
                header,
                attach_mode(body.mode),
                access_mode(body.access),
                body.path.as_bytes(),
            ),
            VfsRequestBody::Detach => self.begin_detach(header),
            VfsRequestBody::Close => self.begin_close(header),
            VfsRequestBody::Flush => match self.open_check(id) {
                Some(code) => VfsStep::Respond(simple_response(VfsRequestCode::Flush, header, code)),
                None => VfsStep::Backend(BackendOp::Flush { id }),
            },
            VfsRequestBody::Unknown(_) => VfsStep::Respond(
                VfsResponse::Simple(
                    VfsResponseHeader {
                        response: VFS_RESPONSE_BIT | header.request,
                        servers_conn_id: header.servers_conn_id,
                        requestors_conn_id: header.requestors_conn_id,
                        status: VFS_ERROR_NOT_SUPPORTED,
                    },
                ),
            ),
        }
    }

    /// The reply to a get-status, given the status the storage reported.
    pub fn finish_get_status(&self, header: &VfsRequestHeader, outcome: Result<FileStatus, u16>) -> (r:
        VfsResponse)
        ensures
            match (spec_lookup(self.files(), header.servers_conn_id), outcome) {
                (None, _) => status_error_is(r, *header, VFS_ERROR_BAD_CONNECTION),
                (Some(_), Err(e)) => status_error_is(r, *header, e),
                (Some(f), Ok(s)) => r == VfsResponse::GetStatus(
                    VfsGetStatusResponse {
                        header: spec_response_header(VfsRequestCode::GetStatus, *header, 0),
                        open: f.open,
                        access: spec_wire_access_mode(s.access),
                        seek: s.seek,
                        file_position: s.file_position,
                        file_length: s.file_length,
                        num_pages: s.num_pages,
                        num_pages_alloc: s.num_pages_alloc,
                    },
                ),
            },
    {
        let open = match self.lookup(header.servers_conn_id) {
            None => {
                return status_error(header, VFS_ERROR_BAD_CONNECTION);
            },
            Some(f) => f.open,
        };
        match outcome {
            Err(e) => status_error(header, e),
            Ok(s) => VfsResponse::GetStatus(
                VfsGetStatusResponse {
                    header: response_header(VfsRequestCode::GetStatus, header, 0),
                    open,
                    access: wire_access_mode(s.access),
                    seek: s.seek,
                    file_position: s.file_position,
                    file_length: s.file_length,
                    num_pages: s.num_pages,
                    num_pages_alloc: s.num_pages_alloc,
                },
            ),
        }
    }

    /// Sets whether the object on `id` is open and holds a handle.
    fn mark(&mut self, id: u16, open: bool, has_handle: bool)
        requires
            old(self).wf(),
            spec_lookup(old(self).files(), id) is Some,
        ensures
            final(self).wf(),
            final(self).ids() == old(self).ids(),
            final(self).files() == old(self).files().insert(
                id,
                VfsFile {
                    open,
                    has_handle,
                    ..old(self).files()[id]
                },
            ),
    {
        let file = self.files.remove(&id);
        match file {
            Some(f) => {
                let updated = VfsFile {
                    path: f.path,
                    mode: f.mode,
                    access: f.access,
                    open,
                    has_handle,
                };
                self.files.insert(id, updated);
                proof {
                    assert(self.files() =~= old(self).files().insert(
                        id,
                        VfsFile {
                            open,
                            has_handle,
                            ..old(self).files()[id]
                        },
                    ));
                    assert forall|k: u16| k != 0 implies (self.ids()[k as int]
                        <==> #[trigger] self.files().contains_key(k)) by {
                        assert(old(self).ids()[k as int] <==> old(self).files().contains_key(k));
                    }
                }
            },
            None => {},
        }
    }

    /// The reply to an open, given what the storage answered. An object the
    /// storage opened is open and holds a handle from then on.
    pub fn finish_open(&mut self, header: &VfsRequestHeader, outcome: Result<(), u16>) -> (r: VfsResponse)
        requires
            old(self).wf(),
        ensures
            final(self).wf(),
            final(self).ids() == old(self).ids(),
            match spec_lookup(old(self).files(), header.servers_conn_id) {
                None => simple_is(r, VfsRequestCode::Open, *header, VFS_ERROR_BAD_CONNECTION)
                    && final(self).files() == old(self).files(),
                Some(f) => simple_is(r, VfsRequestCode::Open, *header, spec_status(outcome))
                    && final(self).files() == (if outcome is Ok {
                    old(self).files().insert(
                        header.servers_conn_id,
                        VfsFile { open: true, has_handle: true, ..f },
                    )
                } else {
                    old(self).files()
                }),
            },
    {
        let id = header.servers_conn_id;
        if self.lookup(id).is_none() {
            return simple_response(VfsRequestCode::Open, header, VFS_ERROR_BAD_CONNECTION);
        }
        match outcome {
            Ok(()) => {
                self.mark(id, true, true);
                simple_response(VfsRequestCode::Open, header, 0)
            },
            Err(e) => simple_response(VfsRequestCode::Open, header, e),
        }
    }

    /// The reply to a close, given what the storage answered. A closed object
    /// keeps its handle.
    pub fn finish_close(&mut self, header: &VfsRequestHeader, outcome: Result<(), u16>) -> (r: VfsResponse)
        requires
            old(self).wf(),
        ensures
            final(self).wf(),
            final(self).ids() == old(self).ids(),
            match spec_lookup(old(self).files(), header.servers_conn_id) {
                None => simple_is(r, VfsRequestCode::Close, *header, VFS_ERROR_BAD_CONNECTION)
                    && final(self).files() == old(self).files(),
                Some(f) => simple_is(r, VfsRequestCode::Close, *header, spec_status(outcome))
                    && final(self).files() == (if outcome is Ok {
                    old(self).files().insert(header.servers_conn_id, VfsFile { open: false, ..f })
                } else {
                    old(self).files()
                }),
            },
    {
        let id = header.servers_conn_id;
        let has_handle = match self.lookup(id) {
            None => {
                return simple_response(VfsRequestCode::Close, header, VFS_ERROR_BAD_CONNECTION);
            },
            Some(f) => f.has_handle,
        };
        match outcome {
            Ok(()) => {
                self.mark(id, false, has_handle);
                simple_response(VfsRequestCode::Close, header, 0)
            },
            Err(e) => simple_response(VfsRequestCode::Close, header, e),
        }
    }

    /// The reply to an attach, given whether the storage accepted the path:
    /// the object is attached on the lowest connection id not in use, closed
    /// and without a handle.
    pub fn finish_attach(
        &mut self,
        header: &VfsRequestHeader,
        path: &[u8],
        mode: AttachMode,
        access: AccessMode,
        outcome: Result<(), u16>,
    ) -> (r: VfsResponse)
        requires
            old(self).wf(),
        ensures
            final(self).wf(),
            match (outcome, spec_first_clear(old(self).ids())) {
                (Err(e), _) => r == VfsResponse::Simple(spec_attach_header(*header, 0, e))
                    && final(self).files() == old(self).files() && final(self).ids() == old(self).ids(),
                (Ok(()), Some(free)) if free != 0 => {
                    &&& r == VfsResponse::Simple(spec_attach_header(*header, free as u16, 0))
                    &&& final(self).files().dom() == old(self).files().dom().insert(free as u16)
                    &&& final(self).files()[free as u16].path@ == path@
                    &&& final(self).files()[free as u16].mode == mode
                    &&& final(self).files()[free as u16].access == access
                    &&& !final(self).files()[free as u16].open
                    &&& !final(self).files()[free as u16].has_handle
                    &&& forall|k: u16| k != free && old(self).files().contains_key(k) ==> final(self).files()[k] == old(self).files()[k]
                    &&& final(self).ids() == old(self).ids().update(free, true)
                },
                (Ok(()), _) => r == VfsResponse::Simple(
                    spec_attach_header(*header, 0, VFS_ERROR_DEVICE_FULL),
                ) && final(self).files() == old(self).files() && final(self).ids() == old(self).ids(),
            },
    {
        match outcome {
            Err(e) => VfsResponse::Simple(attach_header(header, 0, e)),
            Ok(()) => match self.free_id() {
                None => VfsResponse::Simple(attach_header(header, 0, VFS_ERROR_DEVICE_FULL)),
                Some(id) => {
                    let ghost before = self.files();
                    proof {
                        assert(!before.contains_key(id));
                    }
                    self.files.insert(
                        id,
                        VfsFile { path: copy_bytes(path), mode, access, open: false, has_handle: false },
                    );
                    bit_set(&mut self.connection_ids, id as usize, true);
                    proof {
                        assert(self.files().dom() =~= old(self).files().dom().insert(id));
                        assert forall|k: u16| k != 0 implies (self.ids()[k as int]
                            <==> #[trigger] self.files().contains_key(k)) by {
                            if k != id {
                                assert(old(self).ids()[k as int] <==> old(self).files().contains_key(k));
                            }
                        }
                    }
                    VfsResponse::Simple(attach_header(header, id, 0))
                },
            },
        }
    }
}

} // verus!
