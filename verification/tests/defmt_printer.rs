use framelink::defmt_printer::{
    complete_locations, has_all_locations, HelperLocData, Location, LocationInfo,
};
use std::collections::BTreeMap;

fn location(file: &str, line: u64, module: &str) -> Location {
    Location { file: file.to_string(), line, module: module.to_string() }
}

fn nothing() -> LocationInfo {
    LocationInfo { file: None, line: None, mod_path: None }
}

#[test]
fn default_location_info_is_empty() {
    assert_eq!(LocationInfo::default(), nothing());
}

#[test]
fn file_in_the_current_directory_is_shown_from_there() {
    let mut locs = BTreeMap::new();
    locs.insert(7u64, location("/home/dev/app/src/main.rs", 42, "app::main"));
    let data = HelperLocData::new(Some(locs), "/home/dev/app".to_string());
    assert_eq!(
        data.frame_location_info(7),
        LocationInfo {
            file: Some("src/main.rs".to_string()),
            line: Some(42),
            mod_path: Some("app::main".to_string()),
        }
    );
}

#[test]
fn file_elsewhere_is_shown_in_full() {
    let mut locs = BTreeMap::new();
    locs.insert(1u64, location("/opt/lib/src/lib.rs", 3, "lib"));
    locs.insert(2u64, location("/home/dev/application/x.rs", 4, "x"));
    let data = HelperLocData::new(Some(locs), "/home/dev/app".to_string());
    assert_eq!(data.frame_location_info(1).file, Some("/opt/lib/src/lib.rs".to_string()));
    assert_eq!(data.frame_location_info(2).file, Some("/home/dev/application/x.rs".to_string()));
}

#[test]
fn unknown_index_shows_nothing() {
    let mut locs = BTreeMap::new();
    locs.insert(1u64, location("/a/b.rs", 3, "b"));
    let data = HelperLocData::new(Some(locs), "/a".to_string());
    assert_eq!(data.frame_location_info(2), nothing());
}

#[test]
fn no_locations_show_nothing() {
    let data = HelperLocData::new(None, "/a".to_string());
    assert_eq!(data.frame_location_info(0), nothing());
}

#[test]
fn line_is_shown_by_its_low_bits() {
    let mut locs = BTreeMap::new();
    locs.insert(1u64, location("/a/b.rs", 0x1_0000_0005, "b"));
    locs.insert(2u64, location("/a/b.rs", 0xFFFF_FFFF, "b"));
    let data = HelperLocData::new(Some(locs), "/".to_string());
    assert_eq!(data.frame_location_info(1).line, Some(5));
    assert_eq!(data.frame_location_info(2).line, Some(0xFFFF_FFFF));
}

#[test]
fn locations_are_complete_when_every_index_has_one() {
    let mut locs = BTreeMap::new();
    locs.insert(0u64, location("/a.rs", 1, "a"));
    locs.insert(3u64, location("/b.rs", 2, "b"));
    locs.insert(9u64, location("/c.rs", 3, "c"));
    assert!(has_all_locations(&[0, 3, 9], &locs));
    assert!(has_all_locations(&[3], &locs));
    assert!(has_all_locations(&[], &locs));
    assert!(!has_all_locations(&[0, 4, 9], &locs));
    assert!(!has_all_locations(&[0, 3, 9, 10], &locs));
}

#[test]
fn locations_with_gaps_are_left_out() {
    let mut locs = BTreeMap::new();
    locs.insert(0u64, location("/a.rs", 1, "a"));
    assert_eq!(complete_locations(&[0], locs.clone()), Some(locs.clone()));
    assert_eq!(complete_locations(&[0, 1], locs), None);
}
