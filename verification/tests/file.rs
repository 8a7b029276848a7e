use setochka::date::GRiDDate;
use setochka::descriptor::{DescriptorError, GRiDFileDescriptor};
use setochka::file_name::{GRiDFileName, GRiDFileNameError, STORAGE_LENGTH};

const ARBITRARY_DATE: GRiDDate = GRiDDate {
    year: 2024,
    month: 2,
    day: 29,
    hour: 21,
    minute: 30,
    second: 5,
    tenth_of_second: 1,
    day_of_week: 5,
    day_of_year: 60,
};

#[test]
fn encodes_each_numeric_field_in_the_grid_layout() {
    assert_eq!(ARBITRARY_DATE.to_bytes(), [0xe8, 0x07, 2, 29, 21, 30, 5, 1, 5, 60, 0]);
}

#[test]
fn never_encodes_as_all_zeroes() {
    assert_eq!(GRiDDate::never().to_bytes(), [0; 11]);
    assert_eq!(GRiDDate::from_bytes(&[0; 11]), GRiDDate::never());
    assert!(GRiDDate::never().is_never());
    assert!(!ARBITRARY_DATE.is_never());
}

#[test]
fn decode_preserves_arbitrary_unchecked_values() {
    let bytes = [0xff, 0xff, 99, 98, 97, 96, 95, 94, 93, 0xfe, 0xff];
    let date = GRiDDate::from_bytes(&bytes);

    assert_eq!(date.to_bytes(), bytes);
    assert_eq!(
        date,
        GRiDDate {
            year: u16::MAX,
            month: 99,
            day: 98,
            hour: 97,
            minute: 96,
            second: 95,
            tenth_of_second: 94,
            day_of_week: 93,
            day_of_year: 0xfffe,
        }
    );
}

#[test]
fn structured_date_round_trips() {
    assert_eq!(GRiDDate::from_bytes(&ARBITRARY_DATE.to_bytes()), ARBITRARY_DATE);
}

#[test]
fn fields_of_a_civil_time_fill_the_date() {
    let date = GRiDDate::from_fields(2024, 2, 29, 21, 30, 5, 199_999_999, 5, 60);
    assert_eq!(date, ARBITRARY_DATE);
}

fn decode(length: u8, value: &[u8]) -> GRiDFileName {
    let mut bytes = [0xaa; STORAGE_LENGTH];
    bytes[0] = length;
    bytes[1..1 + value.len()].copy_from_slice(value);
    GRiDFileName::read_from_bytes(&bytes).unwrap()
}

#[test]
fn creates_and_dereferences_a_valid_name() {
    let name = GRiDFileName::new(b"Report~Text~").unwrap();

    assert_eq!(name.as_bytes(), b"Report~Text~");
    assert_eq!(name.as_bytes(), name.as_bytes());
}

#[test]
fn the_length_prefix_bounds_the_name_within_its_storage() {
    let name = decode(12, b"Report~Text~");

    assert_eq!(name.as_bytes(), b"Report~Text~");
}

#[test]
fn validate_rejects_a_decoded_name_the_constructor_would_refuse() {
    assert_eq!(decode(81, b"").validate(), Err(GRiDFileNameError::TooLong));
    assert_eq!(decode(5, b"title").validate(), Err(GRiDFileNameError::InvalidFormat));
}

#[test]
fn accepts_a_name_of_exactly_eighty_bytes() {
    let mut value = vec![b'a'; 78];
    value.extend_from_slice(b"~~");

    let name = GRiDFileName::new(&value).unwrap();

    assert_eq!(name.as_bytes(), value.as_slice());
}

#[test]
fn rejects_an_overlong_name() {
    let mut value = vec![b'a'; 79];
    value.extend_from_slice(b"~~");

    assert_eq!(GRiDFileName::new(&value), Err(GRiDFileNameError::TooLong));
}

#[test]
fn rejects_names_outside_the_title_kind_template() {
    for value in [b"title".as_slice(), b"title~kind".as_slice()] {
        assert_eq!(GRiDFileName::new(value), Err(GRiDFileNameError::InvalidFormat));
    }
}

#[test]
fn rejects_forbidden_component_characters() {
    for (value, chr) in [
        (b"ti|tle~kind~".as_slice(), '|'),
        (b"title~ki`nd~".as_slice(), '`'),
        (b"title~~kind~".as_slice(), '~'),
    ] {
        assert_eq!(GRiDFileName::new(value), Err(GRiDFileNameError::ForbiddenCharacter(chr)));
    }
}

#[test]
fn validates_without_constructing_a_name() {
    assert_eq!(GRiDFileName::is_valid_name(b"Report~Text~"), Ok(()));
    assert_eq!(
        GRiDFileName::is_valid_name(b"Report|Draft~Text~"),
        Err(GRiDFileNameError::ForbiddenCharacter('|'))
    );
}

fn encoded() -> Vec<u8> {
    GRiDFileDescriptor {
        file_length: 0x0102_0304,
        file_name: GRiDFileName::new(b"Name~Data~").unwrap(),
        ..Default::default()
    }
    .to_bytes()
}

#[test]
fn the_name_follows_the_file_length_on_the_wire() {
    let bytes = encoded();

    assert_eq!(bytes.len(), 198);
    assert_eq!(&bytes[..4], 0x0102_0304u32.to_le_bytes());
    assert_eq!(bytes[4], 10);
    assert_eq!(&bytes[5..15], b"Name~Data~");
}

#[test]
fn a_name_length_over_the_maximum_is_rejected() {
    let mut bytes = encoded();
    bytes[4] = 81;

    assert_eq!(
        GRiDFileDescriptor::from_bytes(&bytes),
        Err(DescriptorError::InvalidName(GRiDFileNameError::TooLong))
    );
}

#[test]
fn a_descriptor_of_the_wrong_length_is_rejected() {
    assert_eq!(GRiDFileDescriptor::from_bytes(&[0; 197]), Err(DescriptorError::WrongLength));
}

#[test]
fn a_descriptor_reads_back_what_was_written() {
    let bytes = encoded();
    let descriptor = GRiDFileDescriptor::from_bytes(&bytes).unwrap();
    assert_eq!(descriptor.to_bytes(), bytes);
    assert_eq!(descriptor.file_length, 0x0102_0304);
    assert_eq!(descriptor.file_name.as_bytes(), b"Name~Data~");
}

#[test]
fn descriptor_is_exactly_198_bytes_and_round_trips_all_fields() {
    // A descriptor read back holds a checked name, so this one carries a valid
    // name in place of arbitrary name bytes.
    let descriptor = GRiDFileDescriptor {
        file_length: 0x0102_0304,
        file_name: GRiDFileName::new(b"abc~d~").unwrap(),
        creation_date: GRiDDate::from_bytes(&[8; 11]),
        dir_file_id: 0x1122,
        last_modified_date: GRiDDate::from_bytes(&[9; 11]),
        expiration_date: GRiDDate::from_bytes(&[10; 11]),
        machine_id: 11,
        compressed: 12,
        encrypted: 1,
        protected: 1,
        password: [13; 5],
        dir_length: 14,
        dir_count: 0x3344,
        grid_write1: [15; 6],
        machine_id2: 1,
        uses_8087: 1,
        version1: 16,
        version2: 17,
        machine_id3: 18,
        grid_write2: [19; 11],
        version3: 20,
        property_length: 21,
        rom: 1,
        rom_id: 0x5566,
        mode: 0x7788,
        rainy_day_bytes: [22; 3],
        user_defined_bytes: [23; 20],
        grid_central_use: 0x99aa,
    };
    let bytes = descriptor.to_bytes();
    assert_eq!(bytes.len(), 198);
    assert_eq!(GRiDFileDescriptor::from_bytes(&bytes).unwrap(), descriptor);
}

#[test]
fn filename_length_over_80_is_a_format_error() {
    let mut bytes = GRiDFileDescriptor::default().to_bytes();
    bytes[4] = 81;
    assert!(GRiDFileDescriptor::from_bytes(&bytes).is_err());
}
