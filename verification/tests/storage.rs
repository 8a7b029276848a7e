use setochka::backend::{AccessMode, ObjectMode, ReadDirection, SeekMode, StatusAction};
use setochka::bitmap::IdMap16;
use setochka::date::GRiDDate;
use setochka::environment::{Environment, RequiredVariable};
use setochka::file_ids::{choose_file_id, file_id_bytes, parse_file_id, FileIdChoice, FileIdError};
use setochka::file_name::GRiDFileName;
use setochka::fs_layout::{
    decimal_i64, error_code, map_gridpath, MappedPath, Owner, VfsError, VfsPath,
};
use setochka::fsproxy::{
    check_read_length, descriptor_prefix, directory_descriptor, directory_to_create,
    file_descriptor, file_name, seek_from, FsAttachment, OpenFile,
};
use setochka::grid_file::{GRiDFileHeader, SeekFrom};
use setochka::listing::{
    directory_listing, name_le_exec, read_page, resource_entries, sort_names, EntryKind,
    ScannedEntry,
};
use setochka::path::GRiDPath;

fn owner() -> Owner {
    Owner { company_id: 3, group_id: -4, user_id: 12 }
}

fn names(v: &[&[u8]]) -> Vec<Vec<u8>> {
    v.iter().map(|n| n.to_vec()).collect()
}

fn map(path: &[u8]) -> Result<MappedPath, VfsError> {
    let path = GRiDPath::try_from(path).unwrap();
    map_gridpath(owner(), &path)
}

#[test]
fn maps_a_user_file_below_the_owners_directory() {
    let Ok(MappedPath::File(p)) = map(b"`server:User Subjects`Notes~Subject~`todo~Text~") else {
        panic!("a file path maps to a file");
    };
    assert_eq!(
        p.disk,
        names(&[b"Sentry", b"Companies", b"3", b"Groups", b"-4", b"Users", b"12"])
    );
    assert_eq!(
        p.path,
        names(&[
            b"Sentry",
            b"Companies",
            b"3",
            b"Groups",
            b"-4",
            b"Users",
            b"12",
            b"Notes",
            b"todo~Text~"
        ])
    );
}

#[test]
fn maps_a_mail_folder_to_a_directory() {
    let Ok(MappedPath::Directory(p)) = map(b"`server:Mail`Inbox~Subject~") else {
        panic!("a folder path maps to a directory");
    };
    assert_eq!(p.disk, names(&[b"Mail"]));
    assert_eq!(p.path, names(&[b"Mail", b"Inbox"]));
}

#[test]
fn maps_the_resource_folder_of_the_name_device() {
    assert!(matches!(
        map(b"`server:Name Device`Resources~Subject~"),
        Ok(MappedPath::Resources)
    ));
}

#[test]
fn refuses_an_unknown_device() {
    assert_eq!(map(b"`server:Tape`x~Text~").err(), Some(VfsError::ResourceUnavailable));
}

#[test]
fn refuses_a_component_that_climbs_out() {
    assert_eq!(map(b"`server:Mail`..`x~Text~").err(), Some(VfsError::BadParameter));
    assert_eq!(map(b"`server:Mail`..~Subject~").err(), Some(VfsError::BadParameter));
}

#[test]
fn spells_negative_ids_with_a_minus_sign() {
    assert_eq!(decimal_i64(-4), b"-4".to_vec());
    assert_eq!(decimal_i64(0), b"0".to_vec());
    assert_eq!(decimal_i64(i64::MIN), b"-9223372036854775808".to_vec());
}

#[test]
fn the_parent_of_a_file_lies_on_its_disk() {
    let p = VfsPath { disk: names(&[b"Mail"]), path: names(&[b"Mail", b"Inbox", b"a~Text~"]) };
    assert_eq!(p.parent(), Ok(names(&[b"Mail", b"Inbox"])));
    let top = VfsPath { disk: names(&[b"Mail"]), path: names(&[b"Mail"]) };
    assert_eq!(top.parent(), Err(VfsError::ResourceUnavailable));
}

#[test]
fn translates_errors_to_grid_codes() {
    assert_eq!(error_code(VfsError::BadParameter), 225);
    assert_eq!(error_code(VfsError::DeviceFull), 41);
    assert_eq!(error_code(VfsError::AccessDenied), 601);
    assert_eq!(error_code(VfsError::Io), 601);
}

#[test]
fn orders_names_bytewise_with_prefixes_first() {
    assert!(name_le_exec(b"abc", b"abd"));
    assert!(name_le_exec(b"ab", b"abc"));
    assert!(!name_le_exec(b"b", b"abc"));
    assert!(name_le_exec(b"Z", b"a"));
    assert_eq!(
        sort_names(names(&[b"b", b"a", b"ab", b"B"])),
        names(&[b"B", b"a", b"ab", b"b"])
    );
}

#[test]
fn a_listing_marks_directories_and_leaves_out_the_rest() {
    let long = vec![b'x'; 80];
    let entries = vec![
        ScannedEntry { name: b"zeta~Text~".to_vec(), kind: EntryKind::File },
        ScannedEntry { name: b"Inbox".to_vec(), kind: EntryKind::Directory },
        ScannedEntry { name: b"link".to_vec(), kind: EntryKind::Other },
        ScannedEntry { name: long.clone(), kind: EntryKind::File },
        ScannedEntry { name: long.clone(), kind: EntryKind::Directory },
    ];
    let listing = directory_listing(&entries);
    assert_eq!(listing, vec![b"Inbox~Subject~".to_vec(), long, b"zeta~Text~".to_vec()]);
}

#[test]
fn lists_the_resource_disks() {
    assert_eq!(
        resource_entries(),
        names(&[
            b"User Subjects~FS~",
            b"Group Subjects~FS~",
            b"Company Subjects~FS~",
            b"Software Subjects~FS~",
            b"Server Subjects~FS~",
            b"Shared Subjects~FS~",
        ])
    );
}

#[test]
fn pages_stop_at_the_entry_or_byte_limit() {
    let listing = names(&[b"a", b"bb", b"ccc", b"dddd"]);
    // Each entry takes nine bytes besides its name.
    assert_eq!(read_page(&listing, 0, 2, 1000), (names(&[b"a", b"bb"]), 2));
    assert_eq!(read_page(&listing, 2, 10, 1000), (names(&[b"ccc", b"dddd"]), 4));
    assert_eq!(read_page(&listing, 0, 10, 21), (names(&[b"a", b"bb"]), 2));
    assert_eq!(read_page(&listing, 0, 10, 20), (names(&[b"a"]), 1));
    assert_eq!(read_page(&listing, 4, 10, 1000), (Vec::new(), 4));
    assert_eq!(read_page(&listing, 9, 10, 1000), (Vec::new(), 9));
}

#[test]
fn a_directory_walk_keeps_its_listing() {
    let target = MappedPath::Directory(VfsPath { disk: names(&[b"Mail"]), path: names(&[b"Mail"]) });
    let mut attachment = FsAttachment::new(target, AccessMode::ShortDirectory);
    assert!(attachment.needs_scan());
    let scanned = vec![
        ScannedEntry { name: b"b~Text~".to_vec(), kind: EntryKind::File },
        ScannedEntry { name: b"a~Text~".to_vec(), kind: EntryKind::File },
        ScannedEntry { name: b"c~Text~".to_vec(), kind: EntryKind::File },
    ];
    assert_eq!(attachment.read_dir(&scanned, 2, 1000), Ok(names(&[b"a~Text~", b"b~Text~"])));
    assert!(!attachment.needs_scan());
    // A second scan is not consulted: the walk goes on in the first listing.
    assert_eq!(attachment.read_dir(&[], 2, 1000), Ok(names(&[b"c~Text~"])));
    assert_eq!(attachment.read_dir(&[], 2, 1000), Ok(Vec::new()));
    assert_eq!(attachment.position, 3);
}

#[test]
fn a_file_has_no_listing() {
    let target = MappedPath::File(VfsPath { disk: names(&[b"Mail"]), path: names(&[b"Mail", b"a~Text~"]) });
    let mut attachment = FsAttachment::new(target, AccessMode::Read);
    assert!(!attachment.needs_scan());
    assert_eq!(attachment.read_dir(&[], 2, 1000), Err(VfsError::NotSupported));
}

#[test]
fn the_name_device_lists_the_resource_disks() {
    let mut attachment = FsAttachment::new(MappedPath::Resources, AccessMode::ShortDirectory);
    assert!(!attachment.needs_scan());
    let page = attachment.read_dir(&[], 1, 1000).unwrap();
    assert_eq!(page, names(&[b"User Subjects~FS~"]));
}

#[test]
fn status_reports_position_length_and_pages() {
    let target = MappedPath::Resources;
    let attachment = FsAttachment::new(target, AccessMode::Update);
    let status = attachment
        .get_status(Some(OpenFile { position: 10, body_length: 1025 }))
        .unwrap();
    assert!(status.seek);
    assert_eq!(status.access, AccessMode::Update);
    assert_eq!(status.file_position, 10);
    assert_eq!(status.file_length, 1025);
    assert_eq!(status.num_pages, 3);
    assert_eq!(status.num_pages_alloc, 3);

    let status = attachment.get_status(Some(OpenFile { position: 0, body_length: 512 })).unwrap();
    assert_eq!(status.num_pages, 1);

    let status = attachment
        .get_status(Some(OpenFile { position: 0, body_length: 0xffff_ffff }))
        .unwrap();
    assert_eq!(status.num_pages, u16::MAX);

    assert_eq!(
        attachment.get_status(Some(OpenFile { position: 0, body_length: 0x1_0000_0000 })),
        Err(VfsError::BadParameter)
    );

    let status = attachment.get_status(None).unwrap();
    assert!(!status.seek);
    assert_eq!(status.file_position, 0);
    assert_eq!(status.file_length, 0);
    assert_eq!(status.num_pages, 0);
}

#[test]
fn set_status_keeps_the_last_of_each_setting() {
    let mut attachment = FsAttachment::new(MappedPath::Resources, AccessMode::Read);
    attachment.set_status(&[
        StatusAction::SetDirection(ReadDirection::Backward),
        StatusAction::SetWildcard(b"*~Text~".to_vec()),
        StatusAction::Unsupported,
        StatusAction::SetObjectMode(ObjectMode::CompleteDirectory),
        StatusAction::SetWildcard(b"a*".to_vec()),
    ]);
    assert_eq!(attachment.status.direction, ReadDirection::Backward);
    assert_eq!(attachment.status.object_mode, ObjectMode::CompleteDirectory);
    assert_eq!(attachment.status.wildcard, Some(b"a*".to_vec()));
}

#[test]
fn seeks_translate_to_host_seeks() {
    assert_eq!(seek_from(SeekMode::Backward, 5), SeekFrom::Current(-5));
    assert_eq!(seek_from(SeekMode::Absolute, 5), SeekFrom::Start(5));
    assert_eq!(seek_from(SeekMode::Forward, 5), SeekFrom::Current(5));
    assert_eq!(seek_from(SeekMode::FromEnd, 5), SeekFrom::End(-5));
    assert_eq!(seek_from(SeekMode::Backward, u32::MAX), SeekFrom::Current(-(u32::MAX as i64)));
}

#[test]
fn a_read_stays_below_one_buffer() {
    assert_eq!(check_read_length(511), Ok(511));
    assert_eq!(check_read_length(512), Err(VfsError::BadParameter));
}

#[test]
fn a_file_descriptor_carries_the_header_fields() {
    let name = GRiDFileName::new(b"notes~Text~").unwrap();
    let mut header = GRiDFileHeader::new();
    header.flags = 0b11;
    header.version_major = 1;
    header.version_minor = 2;
    header.version_patch = 3;
    header.property_length = 40;
    let date = GRiDDate::never();
    let d = file_descriptor(100, name, date, 9, date, &header).unwrap();
    assert_eq!(d.file_length, 100);
    assert_eq!(d.dir_file_id, 9);
    assert_eq!(d.uses_8087, 1);
    assert_eq!((d.version1, d.version2, d.version3), (1, 2, 3));
    assert_eq!(d.property_length, 40);
    assert_eq!(d.dir_length, 0);
    assert_eq!(file_descriptor(0x1_0000_0000, name, date, 9, date, &header), Err(VfsError::BadParameter));

    let bytes = descriptor_prefix(&d, 6);
    assert_eq!(bytes, vec![100, 0, 0, 0, 11, b'n']);
    assert_eq!(descriptor_prefix(&d, 1000).len(), 198);
}

#[test]
fn a_directory_descriptor_counts_its_listing() {
    let date = GRiDDate::never();
    let listing = names(&[b"a~Text~", b"bb~Text~"]);
    let d = directory_descriptor(b"Inbox", date, 4, date, &listing).unwrap();
    assert_eq!(d.file_name.as_bytes(), b"Inbox~Subject~");
    assert_eq!(d.dir_file_id, 4);
    assert_eq!(d.dir_count, 2);
    assert_eq!(d.dir_length, (9 + 7) + (9 + 8));
    assert_eq!(d.file_length, 0);
    assert_eq!(
        directory_descriptor(b"In`box", date, 4, date, &listing),
        Err(VfsError::BadParameter)
    );
}

#[test]
fn file_ids_are_two_bytes_and_never_zero() {
    assert_eq!(parse_file_id(&[0x34, 0x12]), Ok(0x1234));
    assert_eq!(parse_file_id(&[0, 0]), Err(FileIdError::Zero));
    assert_eq!(parse_file_id(&[1]), Err(FileIdError::Malformed));
    assert_eq!(parse_file_id(&[1, 2, 3]), Err(FileIdError::Malformed));
    assert_eq!(file_id_bytes(0x1234), [0x34, 0x12]);
    assert_eq!(parse_file_id(&file_id_bytes(77)), Ok(77));
}

#[test]
fn an_object_keeps_its_id_and_a_new_one_gets_the_lowest_free() {
    let mut ids = IdMap16::new();
    ids.set(1);
    ids.set(2);
    assert_eq!(choose_file_id(Some(9), &ids), Ok(FileIdChoice::Existing(9)));
    assert_eq!(choose_file_id(None, &ids), Ok(FileIdChoice::New(3)));
    for id in 3..=u16::MAX {
        ids.set(id);
    }
    assert_eq!(choose_file_id(None, &ids), Err(VfsError::DeviceFull));
}

#[test]
fn reads_the_environment() {
    let env = Environment::read(
        Some("0.0.0.0:5000".to_string()),
        Some("grid.db".to_string()),
        Some("/srv/grid".to_string()),
        None,
    )
    .unwrap();
    assert_eq!(env.listen_addr, "0.0.0.0:5000");
    assert_eq!(env.db_path, "grid.db");
    assert_eq!(env.fs_root, "/srv/grid");
    assert_eq!(env.web_listen_addr, None);

    let missing = Environment::read(Some("a".to_string()), None, None, Some("b".to_string()));
    assert_eq!(missing.err(), Some(RequiredVariable::DbPath));
    assert_eq!(RequiredVariable::FsRoot.name(), "FS_ROOT");
}

#[test]
fn a_file_is_named_by_its_last_component() {
    let p = VfsPath { disk: names(&[b"Mail"]), path: names(&[b"Mail", b"notes~Text~"]) };
    assert_eq!(file_name(&p).unwrap().as_bytes(), b"notes~Text~");
    let bad = VfsPath { disk: names(&[b"Mail"]), path: names(&[b"Mail", b"notes"]) };
    assert_eq!(file_name(&bad).err(), Some(VfsError::BadParameter));
    let empty = VfsPath { disk: Vec::new(), path: Vec::new() };
    assert_eq!(file_name(&empty).err(), Some(VfsError::ResourceUnavailable));
}

#[test]
fn an_attachment_needs_the_directory_it_lives_in() {
    let file = MappedPath::File(VfsPath { disk: names(&[b"Mail"]), path: names(&[b"Mail", b"In", b"a~Text~"]) });
    assert_eq!(directory_to_create(&file), Ok(Some(names(&[b"Mail", b"In"]))));
    let dir = MappedPath::Directory(VfsPath { disk: names(&[b"Mail"]), path: names(&[b"Mail", b"In"]) });
    assert_eq!(directory_to_create(&dir), Ok(Some(names(&[b"Mail", b"In"]))));
    assert_eq!(directory_to_create(&MappedPath::Resources), Ok(None));
}
