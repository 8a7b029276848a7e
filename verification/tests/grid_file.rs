use setochka::file_name::GRiDFileName;
use setochka::grid_file::{
    body_offset, read_length, seek_target, validate_body_length, GRiDFileError, GRiDFileHeader,
    GRiDFileState, SeekFrom, WriteRefusal, HEADER_LENGTH, HEADER_MAGIC,
};

fn name() -> GRiDFileName {
    GRiDFileName::new(b"test~Data~").unwrap()
}

fn file_header(property_length: u32) -> GRiDFileHeader {
    let mut header = GRiDFileHeader::new();
    header.property_length = property_length;
    header
}

#[test]
fn header_is_exactly_16_bytes_and_round_trips_all_fields() {
    let mut header = file_header(0x0102_0304);
    header.version_major = 1;
    header.version_minor = 2;
    header.version_patch = 3;
    header.flags = 0x12;

    let bytes = header.to_bytes().unwrap();

    assert_eq!(HEADER_LENGTH, 16);
    assert_eq!(&bytes[..8], b"GRiDiRG\x01");
    assert_eq!(GRiDFileHeader::from_bytes(&bytes).unwrap(), header);
}

#[test]
fn open_rejects_invalid_magic_and_format_version() {
    for offset in [0, HEADER_MAGIC.len()] {
        let mut bytes = file_header(0).to_bytes().unwrap();
        bytes[offset] ^= 0xff;
        assert!(matches!(
            GRiDFileState::open(name(), &bytes, 16).unwrap_err(),
            GRiDFileError::InvalidHeaderMagic | GRiDFileError::UnsupportedHeaderVersion(_)
        ));
    }
}

#[test]
fn open_rejects_a_physically_short_property_section() {
    let bytes = file_header(5).to_bytes().unwrap();
    assert_eq!(
        GRiDFileState::open(name(), &bytes, 16 + 3).unwrap_err(),
        GRiDFileError::DataTooShort { actual: 19, minimum: 21 }
    );
    let opened = GRiDFileState::open(name(), &bytes, 21).unwrap();
    assert_eq!(opened.position, 0);
    assert_eq!(opened.header, file_header(5));
}

#[test]
fn open_rejects_a_body_too_large_for_a_descriptor() {
    let bytes = file_header(0).to_bytes().unwrap();
    assert_eq!(
        GRiDFileState::open(name(), &bytes, 16 + 0x1_0000_0000).unwrap_err(),
        GRiDFileError::DataTooLarge
    );
}

#[test]
fn create_rejects_a_body_shorter_than_properties() {
    let error = GRiDFileState::create(name(), file_header(3), 2).unwrap_err();
    assert!(matches!(error, GRiDFileError::DataTooShort { .. }));
    let (state, bytes) = GRiDFileState::create(name(), file_header(3), 8).unwrap();
    assert_eq!(state.position, 0);
    assert_eq!(bytes, file_header(3).to_bytes().unwrap());
}

#[test]
fn seek_is_relative_to_the_logical_body() {
    let (mut file, _) = GRiDFileState::create(name(), file_header(2), 4).unwrap();
    assert_eq!(file.seek(SeekFrom::Start(1), 4), Some(1));
    assert_eq!(file.seek(SeekFrom::Current(1), 4), Some(2));
    assert_eq!(file.seek(SeekFrom::End(-1), 4), Some(3));
    assert_eq!(file.seek(SeekFrom::End(4), 4), Some(8));
    assert_eq!(file.seek(SeekFrom::Current(-9), 4), None);
    assert_eq!(file.position, 8);
    assert_eq!(body_offset(file.position), Some(24));
}

#[test]
fn truncate_cannot_remove_properties() {
    let (mut file, _) = GRiDFileState::create(name(), file_header(2), 6).unwrap();
    file.seek(SeekFrom::Start(1), 6);
    assert!(matches!(file.truncated_length().unwrap_err(), GRiDFileError::DataTooShort { .. }));

    file.seek(SeekFrom::Start(4), 6);
    assert_eq!(file.truncated_length(), Ok(HEADER_LENGTH as u64 + 4));
}

#[test]
fn header_update_may_redistribute_the_body_length() {
    let (mut file, _) = GRiDFileState::create(name(), file_header(3), 7).unwrap();
    let mut replacement = file.header;
    replacement.property_length = 5;
    replacement.flags = 42;
    let bytes = file.set_header(replacement, 7).unwrap();
    assert_eq!(file.header, replacement);
    assert_eq!(bytes, replacement.to_bytes().unwrap());
}

#[test]
fn header_update_rejects_properties_longer_than_the_body() {
    let (mut file, _) = GRiDFileState::create(name(), file_header(5), 11).unwrap();
    file.seek(SeekFrom::Start(5), 11);

    let original = file.header;
    let mut replacement = original;
    replacement.property_length = 12;
    let error = file.set_header(replacement, 11).unwrap_err();

    assert!(matches!(error, GRiDFileError::DataTooShort { .. }));
    assert_eq!(file.position, 5);
    assert_eq!(file.header, original);
}

#[test]
fn body_write_grows_the_file_within_the_layout() {
    let (mut file, _) = GRiDFileState::create(name(), file_header(2), 3).unwrap();
    file.seek(SeekFrom::End(0), 3);
    assert_eq!(file.check_write(3, 3), Ok(()));
    file.advance(3);
    assert_eq!(file.position, 6);
    file.seek(SeekFrom::Start(u64::MAX - 1), 6);
    assert_eq!(file.check_write(3, 6), Err(WriteRefusal::LengthOverflow));
    file.seek(SeekFrom::Start(0x1_0000_0000), 6);
    assert_eq!(
        file.check_write(3, 6),
        Err(WriteRefusal::Layout(GRiDFileError::DataTooLarge))
    );
}

#[test]
fn reads_stop_at_the_end_of_the_body() {
    assert_eq!(read_length(0, 7, 100), 7);
    assert_eq!(read_length(5, 7, 1), 1);
    assert_eq!(read_length(7, 7, 10), 0);
    assert_eq!(read_length(9, 7, 10), 0);
}

#[test]
fn seek_targets_stay_in_range() {
    assert_eq!(seek_target(5, -5), Some(0));
    assert_eq!(seek_target(5, -6), None);
    assert_eq!(seek_target(u64::MAX, 1), None);
    assert_eq!(seek_target(0, i64::MIN), None);
    assert_eq!(seek_target(u64::MAX, i64::MIN), Some(u64::MAX - (1u64 << 63)));
}

#[test]
fn validates_the_body_against_the_properties() {
    assert_eq!(validate_body_length(&file_header(3), 3), Ok(()));
    assert_eq!(
        validate_body_length(&file_header(3), 2),
        Err(GRiDFileError::DataTooShort { actual: 2, minimum: 3 })
    );
    assert_eq!(validate_body_length(&file_header(0), 0x1_0000_0000), Err(GRiDFileError::DataTooLarge));
}
