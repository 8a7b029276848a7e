use setochka::bitmap::{IdMap16, IdMap8};

/// An id is never zero.
fn id(value: u16) -> u16 {
    assert_ne!(value, 0);
    value
}

fn id8(value: u8) -> u8 {
    assert_ne!(value, 0);
    value
}

#[test]
fn sets_and_clears_bits_in_the_first_byte() {
    let mut map = IdMap16::new();

    map.set(id(1));
    map.set(id(8));
    assert_eq!(map.byte(0), 0b1000_0001);

    map.clear(id(1));
    assert_eq!(map.byte(0), 0b1000_0000);

    map.clear(id(8));
    assert_eq!(map.byte(0), 0);
}

#[test]
fn sets_and_clears_bits_in_the_second_byte() {
    let mut map = IdMap16::new();

    map.set(id(9));
    map.set(id(16));
    assert_eq!(map.byte(1), 0b1000_0001);

    map.clear(id(9));
    assert_eq!(map.byte(1), 0b1000_0000);

    map.clear(id(16));
    assert_eq!(map.byte(1), 0);
}

#[test]
fn sets_and_clears_bits_in_another_chunk() {
    let mut map = IdMap16::new();

    map.set(id(129));
    map.set(id(136));
    assert_eq!(map.byte(16), 0b1000_0001);

    map.clear(id(129));
    assert_eq!(map.byte(16), 0b1000_0000);

    map.clear(id(136));
    assert_eq!(map.byte(16), 0);
}

#[test]
fn finds_the_first_free_id_in_the_first_byte() {
    let mut map = IdMap16::new();

    assert_eq!(map.find_free(), Some(id(1)));

    map.set(id(1));

    assert_eq!(map.find_free(), Some(id(2)));

    map.set(id(2));
    map.set(id(3));
    map.set(id(4));
    map.set(id(5));
    map.set(id(6));
    map.set(id(7));

    assert_eq!(map.find_free(), Some(id(8)));

    map.set(id(8));

    assert_eq!(map.find_free(), Some(id(9)));
}

#[test]
fn setting_and_clearing_a_bit_in_the_first_byte_changes_find_free() {
    let mut map = IdMap16::new();
    map.set(id(1));

    assert_eq!(map.find_free(), Some(id(2)));

    map.clear(id(1));

    assert_eq!(map.find_free(), Some(id(1)));
}

#[test]
fn setting_and_clearing_a_bit_in_the_second_byte_changes_find_free() {
    let mut map = IdMap16::new();
    map.set(id(1));
    map.set(id(2));
    map.set(id(3));
    map.set(id(4));
    map.set(id(5));
    map.set(id(6));
    map.set(id(7));
    map.set(id(8));
    map.set(id(9));

    assert_eq!(map.find_free(), Some(id(10)));

    map.clear(id(9));

    assert_eq!(map.find_free(), Some(id(9)));

    map.set(id(9));

    assert_eq!(map.find_free(), Some(id(10)));
}

#[test]
fn setting_and_clearing_a_bit_in_another_chunk_changes_find_free() {
    const CHUNK_LAST_ID: u16 = 128;
    let mut map = IdMap16::new();

    for value in 1..=CHUNK_LAST_ID {
        map.set(id(value));
    }

    assert_eq!(map.find_free(), Some(id(CHUNK_LAST_ID + 1)));

    map.clear(id(CHUNK_LAST_ID));

    assert_eq!(map.find_free(), Some(id(CHUNK_LAST_ID)));

    map.set(id(CHUNK_LAST_ID));

    assert_eq!(map.find_free(), Some(id(CHUNK_LAST_ID + 1)));
}

#[test]
fn setting_an_already_set_bit_and_clearing_an_already_clear_bit_are_idempotent() {
    let mut map = IdMap16::new();

    map.set(id(17));
    map.set(id(17));
    assert_eq!(map.find_free(), Some(id(1)));

    map.clear(id(17));
    map.clear(id(17));
    assert_eq!(map.find_free(), Some(id(1)));
}

#[test]
fn a_full_map_has_no_free_id_and_clearing_the_last_id_makes_it_free() {
    let mut map = IdMap16::new();

    for value in 1..=u16::MAX {
        map.set(id(value));
    }

    assert_eq!(map.find_free(), None);

    map.clear(id(u16::MAX));

    assert_eq!(map.find_free(), Some(id(u16::MAX)));
}

#[test]
fn the_eight_bit_map_sets_and_clears_bits() {
    let mut map = IdMap8::new();

    map.set(id8(1));
    map.set(id8(8));
    assert_eq!(map.byte(0), 0b1000_0001);
    assert!(map.is_set(id8(1)));

    map.clear(id8(1));
    assert_eq!(map.byte(0), 0b1000_0000);
    assert!(!map.is_set(id8(1)));

    map.clear(id8(8));
    assert_eq!(map.byte(0), 0);
}

#[test]
fn the_eight_bit_map_sets_and_clears_bits_in_its_last_chunk() {
    let mut map = IdMap8::new();

    map.set(id8(129));
    map.set(id8(255));
    assert_eq!(map.byte(16), 0b0000_0001);
    assert_eq!(map.byte(31), 0b0100_0000);

    map.clear(id8(129));
    map.clear(id8(255));
    assert_eq!(map.byte(16), 0);
    assert_eq!(map.byte(31), 0);
}

#[test]
fn the_eight_bit_map_finds_the_first_free_id() {
    let mut map = IdMap8::new();

    assert_eq!(map.find_free(), Some(id8(1)));

    for value in 1..=8 {
        map.set(id8(value));
    }

    assert_eq!(map.find_free(), Some(id8(9)));

    map.clear(id8(4));

    assert_eq!(map.find_free(), Some(id8(4)));
}

#[test]
fn a_full_eight_bit_map_has_no_free_id_and_clearing_the_last_id_makes_it_free() {
    let mut map = IdMap8::new();

    for value in 1..=u8::MAX {
        map.set(id8(value));
    }

    assert_eq!(map.find_free(), None);

    map.clear(id8(u8::MAX));

    assert_eq!(map.find_free(), Some(id8(u8::MAX)));
}

#[test]
fn allocating_the_free_id_moves_find_free_past_it() {
    let mut map = IdMap16::new();
    let first = map.find_free().unwrap();
    map.set(first);
    let second = map.find_free().unwrap();
    assert!(second > first);
    assert!(map.is_set(first));
    assert!(!map.is_set(second));
}
