use camera_ctrl::address::Address;
use camera_ctrl::common::to_hex_string;
use camera_ctrl::error::TreeError;
use camera_ctrl::names::NameMap;
use camera_ctrl::valuemap::{same_bytes, MapEntry, ValueMap};
use camera_ctrl::written::{merge, pad};

fn on_off() -> ValueMap {
    ValueMap {
        entries: vec![
            MapEntry { bytes: vec![0x00], label: "off".to_string() },
            MapEntry { bytes: vec![0x01], label: "on".to_string() },
            MapEntry { bytes: vec![0x01, 0x00], label: "wide".to_string() },
        ],
    }
}

#[test]
fn address_keeps_base_and_width() {
    let bounded = Address::bounded(0x1234, 2);
    assert_eq!(bounded.as_u64(), 0x1234);
    assert_eq!(bounded.bytes(), Some(2));
    let unbounded = Address::unbounded(7);
    assert_eq!(unbounded.as_u64(), 7);
    assert_eq!(unbounded.bytes(), None);
}

#[test]
fn hex_string_of_bytes() {
    assert_eq!(to_hex_string(&[0x00, 0xff, 0x1a]), "0x00ff1a");
    assert_eq!(to_hex_string(&[0x9c]), "0x9c");
}

#[test]
fn hex_string_of_nothing_is_the_prefix() {
    assert_eq!(to_hex_string(&[]), "0x");
}

#[test]
fn hex_string_has_every_digit() {
    assert_eq!(
        to_hex_string(&[0x01, 0x23, 0x45, 0x67, 0x89, 0xab, 0xcd, 0xef]),
        "0x0123456789abcdef"
    );
}

#[test]
fn pad_puts_zeros_in_front() {
    assert_eq!(pad(vec![0x12], 4), vec![0, 0, 0, 0x12]);
    assert_eq!(pad(vec![], 2), vec![0, 0]);
}

#[test]
fn pad_leaves_a_full_or_longer_value() {
    assert_eq!(pad(vec![1, 2], 2), vec![1, 2]);
    assert_eq!(pad(vec![1, 2, 3], 2), vec![1, 2, 3]);
}

#[test]
fn merge_takes_masked_bits_from_the_value() {
    assert_eq!(merge(&[0x0f], &[0xab], &[0xcd]), vec![0xcb]);
    assert_eq!(merge(&[0xff, 0x00], &[0x12, 0x34], &[0x56, 0x78]), vec![0x12, 0x78]);
}

#[test]
fn merge_with_empty_mask_bits_keeps_current() {
    assert_eq!(merge(&[0x00, 0x00], &[0xff, 0xff], &[0x12, 0x34]), vec![0x12, 0x34]);
}

#[test]
fn merge_stops_at_the_shortest() {
    assert_eq!(merge(&[0xff, 0xff, 0xff], &[1, 2], &[9, 9, 9, 9]), vec![1, 2]);
    assert_eq!(merge(&[0xff], &[1, 2], &[9, 9]), vec![1]);
    assert_eq!(merge(&[0xff, 0xff], &[1, 2], &[]), Vec::<u8>::new());
}

#[test]
fn same_bytes_compares_runs() {
    assert!(same_bytes(&[1, 2, 3], &[1, 2, 3]));
    assert!(same_bytes(&[], &[]));
    assert!(!same_bytes(&[1, 2, 3], &[1, 2, 4]));
    assert!(!same_bytes(&[1, 2], &[1, 2, 3]));
}

#[test]
fn value_map_finds_the_label_of_a_pattern() {
    let map = on_off();
    assert_eq!(map.lookup(&[0x01]), Ok("on".to_string()));
    assert_eq!(map.lookup(&[0x00]), Ok("off".to_string()));
    assert_eq!(map.lookup(&[0x01, 0x00]), Ok("wide".to_string()));
}

#[test]
fn value_map_lookup_of_unknown_pattern_fails() {
    let map = on_off();
    assert_eq!(map.lookup(&[0x02]), Err(TreeError::UnmappedValue));
    assert_eq!(map.lookup(&[0x00, 0x01]), Err(TreeError::UnmappedValue));
    assert_eq!(map.lookup(&[]), Err(TreeError::UnmappedValue));
}

#[test]
fn value_map_encodes_a_label() {
    let map = on_off();
    assert_eq!(map.encode(b"on"), Ok(vec![0x01]));
    assert_eq!(map.encode(b"wide"), Ok(vec![0x01, 0x00]));
}

#[test]
fn value_map_encode_of_unknown_label_fails() {
    let map = on_off();
    assert_eq!(map.encode(b"On"), Err(TreeError::UnmappedValue));
    assert_eq!(map.encode(b"on\n"), Err(TreeError::UnmappedValue));
    assert_eq!(map.encode(b""), Err(TreeError::UnmappedValue));
}

#[test]
fn value_map_encodes_labels_beyond_ascii() {
    let map = ValueMap {
        entries: vec![MapEntry { bytes: vec![0x07], label: "grün".to_string() }],
    };
    assert_eq!(map.encode("grün".as_bytes()), Ok(vec![0x07]));
    assert_eq!(map.lookup(&[0x07]), Ok("grün".to_string()));
}

#[test]
fn value_map_first_entry_counts() {
    let map = ValueMap {
        entries: vec![
            MapEntry { bytes: vec![1], label: "a".to_string() },
            MapEntry { bytes: vec![1], label: "b".to_string() },
            MapEntry { bytes: vec![2], label: "a".to_string() },
        ],
    };
    assert_eq!(map.lookup(&[1]), Ok("a".to_string()));
    assert_eq!(map.encode(b"a"), Ok(vec![1]));
}

#[test]
fn name_map_keeps_order_and_finds_by_name() {
    let mut map: NameMap<u32> = NameMap::new();
    assert_eq!(map.len(), 0);
    assert_eq!(map.insert("b".to_string(), 2), None);
    assert_eq!(map.insert("a".to_string(), 1), None);
    assert_eq!(map.len(), 2);
    assert_eq!(map.list(), vec!["b".to_string(), "a".to_string()]);
    assert_eq!(map.find(&"a".to_string()), Some(1));
    assert_eq!(map.find(&"c".to_string()), None);
    assert_eq!(map.get(&"b".to_string()), Some(&2));
    assert_eq!(map.get(&"c".to_string()), None);
}

#[test]
fn name_map_insert_replaces_an_entry_of_the_same_name() {
    let mut map: NameMap<u32> = NameMap::new();
    map.insert("a".to_string(), 1);
    map.insert("b".to_string(), 2);
    assert_eq!(map.insert("a".to_string(), 3), Some(1));
    assert_eq!(map.len(), 2);
    assert_eq!(map.list(), vec!["a".to_string(), "b".to_string()]);
    assert_eq!(map.get(&"a".to_string()), Some(&3));
}

#[test]
fn name_map_item_can_be_changed_in_place() {
    let mut map: NameMap<u32> = NameMap::new();
    map.insert("a".to_string(), 1);
    map.insert("b".to_string(), 2);
    *map.item_mut(1) = 20;
    assert_eq!(map.get(&"a".to_string()), Some(&1));
    assert_eq!(map.get(&"b".to_string()), Some(&20));
}
