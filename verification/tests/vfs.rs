use setochka::backend::{AccessMode, AttachMode};
use setochka::path::GRiDPath;
use setochka::vfs::{BackendOp, Vfs, VfsStep};
use setochka::vfs_protocol::{
    VfsAccessMode, VfsAttachMode, VfsAttachRequest, VfsOpenRequest, VfsReadRequest, VfsRequest,
    VfsRequestBody, VfsRequestCode, VfsRequestHeader, VfsResponse, VfsWriteRequest,
    VFS_DESCRIPTOR_LENGTH, VFS_ERROR_BAD_CONNECTION, VFS_ERROR_FILE_NOT_OPEN, VFS_PASSWORD_SPACE,
};

fn request_header(code: VfsRequestCode, connection_id: u16) -> VfsRequestHeader {
    VfsRequestHeader {
        request: code.to_repr(),
        requestors_conn_id: 7,
        servers_conn_id: connection_id,
    }
}

/// Attaches `` `server:Mail`test `` the way the storage accepts it, and gives
/// back the connection id.
fn attach(vfs: &mut Vfs) -> u16 {
    let raw = b"`server:Mail`test";
    let path = GRiDPath::try_from(raw).unwrap();
    let request = VfsRequest {
        header: request_header(VfsRequestCode::Attach, 0),
        body: VfsRequestBody::Attach(VfsAttachRequest {
            mode: VfsAttachMode::UpdateFile,
            access: VfsAccessMode::Update,
            password: [0; VFS_PASSWORD_SPACE],
            path,
        }),
    };
    let step = vfs.process_request(&request);
    let VfsStep::Backend(BackendOp::Attach { path, mode, access }) = step else {
        panic!("attach must ask the storage first");
    };
    assert_eq!(path, raw.to_vec());
    assert_eq!(mode, AttachMode::UpdateFile);
    assert_eq!(access, AccessMode::Update);
    let response = vfs.finish_attach(&request.header, &path, mode, access, Ok(()));
    let VfsResponse::Simple(response) = response else {
        panic!("attach must return a simple response");
    };
    assert_eq!(response.status, 0);
    response.servers_conn_id
}

fn open(vfs: &mut Vfs, connection_id: u16) {
    let request = VfsRequest {
        header: request_header(VfsRequestCode::Open, connection_id),
        body: VfsRequestBody::Open(VfsOpenRequest { num_buf: 1 }),
    };
    let step = vfs.process_request(&request);
    let VfsStep::Backend(BackendOp::Open { id, .. }) = step else {
        panic!("open must ask the storage first");
    };
    assert_eq!(id, connection_id);
    let VfsResponse::Simple(response) = vfs.finish_open(&request.header, Ok(())) else {
        panic!("open must return a simple response");
    };
    assert_eq!(response.status, 0);
}

#[test]
fn attach_allocates_a_closed_handle() {
    let mut vfs = Vfs::new();
    let connection_id = attach(&mut vfs);
    let file = vfs.file(connection_id).unwrap();

    assert!(!file.open);
    assert!(!file.has_handle);
    assert!(vfs.is_in_use(connection_id));
}

#[test]
fn detached_connection_id_is_reused() {
    let mut vfs = Vfs::new();
    let first_connection_id = attach(&mut vfs);
    let second_connection_id = attach(&mut vfs);
    let step = vfs.process_request(&VfsRequest {
        header: request_header(VfsRequestCode::Detach, first_connection_id),
        body: VfsRequestBody::Detach,
    });
    assert!(matches!(step, VfsStep::Released { id, .. } if id == first_connection_id));

    assert_eq!(attach(&mut vfs), first_connection_id);
    assert_ne!(second_connection_id, first_connection_id);
}

#[test]
fn open_changes_logical_and_physical_state() {
    let mut vfs = Vfs::new();
    let connection_id = attach(&mut vfs);
    open(&mut vfs, connection_id);
    let file = vfs.file(connection_id).unwrap();

    assert!(file.open);
    assert!(file.has_handle);
}

#[test]
fn close_releases_the_file_but_keeps_the_handle() {
    let mut vfs = Vfs::new();
    let connection_id = attach(&mut vfs);
    open(&mut vfs, connection_id);
    let request = VfsRequest {
        header: request_header(VfsRequestCode::Close, connection_id),
        body: VfsRequestBody::Close,
    };
    let step = vfs.process_request(&request);
    assert!(matches!(step, VfsStep::Backend(BackendOp::Close { id }) if id == connection_id));
    let VfsResponse::Simple(response) = vfs.finish_close(&request.header, Ok(())) else {
        panic!("close must return a simple response");
    };
    assert_eq!(response.status, 0);
    let file = vfs.file(connection_id).unwrap();

    assert!(!file.open);
    assert!(file.has_handle);
}

#[test]
fn detach_removes_the_handle() {
    let mut vfs = Vfs::new();
    let connection_id = attach(&mut vfs);
    vfs.process_request(&VfsRequest {
        header: request_header(VfsRequestCode::Detach, connection_id),
        body: VfsRequestBody::Detach,
    });

    assert!(vfs.file(connection_id).is_none());
    assert!(!vfs.is_in_use(connection_id));
}

#[test]
fn descriptor_operations_require_an_open_handle() {
    let mut vfs = Vfs::new();
    let connection_id = attach(&mut vfs);
    let read = vfs.process_request(&VfsRequest {
        header: request_header(VfsRequestCode::ReadDesc, connection_id),
        body: VfsRequestBody::ReadDesc(VfsReadRequest {
            data_length: VFS_DESCRIPTOR_LENGTH as u16,
        }),
    });
    let VfsStep::Respond(VfsResponse::Read(read)) = read else {
        panic!("read descriptor must return a read response");
    };
    assert_eq!(read.header.status, VFS_ERROR_FILE_NOT_OPEN);

    let descriptor = vec![0; VFS_DESCRIPTOR_LENGTH];
    let write = vfs.process_request(&VfsRequest {
        header: request_header(VfsRequestCode::WriteDesc, connection_id),
        body: VfsRequestBody::WriteDesc(VfsWriteRequest { data: &descriptor }),
    });
    let VfsStep::Respond(VfsResponse::Simple(write)) = write else {
        panic!("write descriptor must return a simple response");
    };
    assert_eq!(write.status, VFS_ERROR_FILE_NOT_OPEN);

    open(&mut vfs, connection_id);
    let read = vfs.process_request(&VfsRequest {
        header: request_header(VfsRequestCode::ReadDesc, connection_id),
        body: VfsRequestBody::ReadDesc(VfsReadRequest {
            data_length: VFS_DESCRIPTOR_LENGTH as u16,
        }),
    });
    assert!(matches!(
        read,
        VfsStep::Backend(BackendOp::ReadDesc { id, length }) if id == connection_id && length == VFS_DESCRIPTOR_LENGTH
    ));
    let write = vfs.process_request(&VfsRequest {
        header: request_header(VfsRequestCode::WriteDesc, connection_id),
        body: VfsRequestBody::WriteDesc(VfsWriteRequest { data: &descriptor }),
    });
    assert!(matches!(
        write,
        VfsStep::Backend(BackendOp::WriteDesc { id, ref data }) if id == connection_id && data.len() == VFS_DESCRIPTOR_LENGTH
    ));
}

#[test]
fn requests_on_an_unknown_connection_are_refused() {
    let mut vfs = Vfs::new();
    let step = vfs.process_request(&VfsRequest {
        header: request_header(VfsRequestCode::Detach, 5),
        body: VfsRequestBody::Detach,
    });
    let VfsStep::Respond(VfsResponse::Simple(response)) = step else {
        panic!("a detach of nothing is answered at once");
    };
    assert_eq!(response.status, VFS_ERROR_BAD_CONNECTION);
    assert_eq!(response.servers_conn_id, 5);
    assert_eq!(response.requestors_conn_id, 7);
}

#[test]
fn the_first_attach_gets_connection_one() {
    let mut vfs = Vfs::new();
    assert!(vfs.is_in_use(0));
    assert_eq!(attach(&mut vfs), 1);
    assert_eq!(attach(&mut vfs), 2);
}
