//! Protocol core of a GRiD Compass network server: the GRiDLink transport
//! framing, VIPC messages, and the logic of the mail, sentry and VFS services.
use vstd::prelude::*;

pub mod backend;
pub mod bitmap;
pub mod broadcast;
pub mod bytes;
pub mod cursor;
pub mod data_frame;
pub mod date;
pub mod descriptor;
pub mod environment;
pub mod error;
pub mod file_ids;
pub mod file_name;
pub mod frame;
pub mod fs_layout;
pub mod frontend;
pub mod fsproxy;
pub mod grid_file;
pub mod listing;
pub mod mail_protocol;
pub mod path;
pub mod postoffice;
pub mod raw_frame;
pub mod sentry;
pub mod session;
pub mod tlv;
pub mod vfs;
pub mod vfs_protocol;
pub mod vipc;
pub mod wire;

verus! {

} // verus!
