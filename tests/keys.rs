use playlists::numeral::{parse_i32, parse_u32_cell};
use playlists::track_metadata::{color_from_key_compare, compare_keys, KeyCompareResult, Rgb};

#[test]
fn equal_keys_match_perfectly() {
    assert_eq!(compare_keys("8A", "8A"), Ok(KeyCompareResult::PerfectMatch));
}

#[test]
fn neighbour_same_mode_is_compatible() {
    assert_eq!(compare_keys("8A", "9A"), Ok(KeyCompareResult::Compatible));
}

#[test]
fn neighbour_other_mode_may_be_compatible() {
    assert_eq!(compare_keys("8A", "9B"), Ok(KeyCompareResult::MaybeCompatible));
}

#[test]
fn three_apart_same_mode_may_be_compatible() {
    assert_eq!(compare_keys("8A", "11A"), Ok(KeyCompareResult::MaybeCompatible));
}

#[test]
fn three_apart_other_mode_is_incompatible() {
    assert_eq!(compare_keys("8A", "11B"), Ok(KeyCompareResult::Incompatible));
}

#[test]
fn four_apart_is_incompatible() {
    assert_eq!(compare_keys("8A", "4A"), Ok(KeyCompareResult::Incompatible));
}

#[test]
fn same_numeral_other_mode_is_compatible() {
    assert_eq!(compare_keys("8A", "8B"), Ok(KeyCompareResult::Compatible));
}

#[test]
fn numerals_do_not_wrap_round() {
    assert_eq!(compare_keys("1A", "12A"), Ok(KeyCompareResult::Incompatible));
}

#[test]
fn two_and_seven_apart() {
    assert_eq!(compare_keys("3B", "5B"), Ok(KeyCompareResult::Compatible));
    assert_eq!(compare_keys("1A", "8A"), Ok(KeyCompareResult::MaybeCompatible));
    assert_eq!(compare_keys("2A", "7A"), Ok(KeyCompareResult::MaybeCompatible));
    assert_eq!(compare_keys("2A", "8A"), Ok(KeyCompareResult::Incompatible));
}

#[test]
fn unparsable_numeral_is_an_error() {
    assert!(compare_keys("xA", "8A").is_err());
    assert!(compare_keys("8A", "B").is_err());
    assert!(compare_keys("", "8A").is_err());
}

#[test]
fn equal_labels_need_no_parse() {
    assert_eq!(compare_keys("??", "??"), Ok(KeyCompareResult::PerfectMatch));
    assert_eq!(compare_keys("", ""), Ok(KeyCompareResult::PerfectMatch));
}

#[test]
fn colours_of_classes() {
    assert_eq!(color_from_key_compare(KeyCompareResult::PerfectMatch), Some(Rgb { r: 11, g: 75, b: 128 }));
    assert_eq!(color_from_key_compare(KeyCompareResult::Compatible), Some(Rgb { r: 19, g: 128, b: 11 }));
    assert_eq!(color_from_key_compare(KeyCompareResult::MaybeCompatible), Some(Rgb { r: 143, g: 119, b: 11 }));
    assert_eq!(color_from_key_compare(KeyCompareResult::Incompatible), None);
}

#[test]
fn i32_literals() {
    assert_eq!(parse_i32("12"), Some(12));
    assert_eq!(parse_i32("+7"), Some(7));
    assert_eq!(parse_i32("-2147483648"), Some(i32::MIN));
    assert_eq!(parse_i32("2147483647"), Some(i32::MAX));
    assert_eq!(parse_i32("2147483648"), None);
    assert_eq!(parse_i32("-"), None);
    assert_eq!(parse_i32(""), None);
    assert_eq!(parse_i32("1a"), None);
}

#[test]
fn u32_cells() {
    assert_eq!(parse_u32_cell("42"), Some(42));
    assert_eq!(parse_u32_cell("0x1F"), Some(31));
    assert_eq!(parse_u32_cell("0x"), None);
    assert_eq!(parse_u32_cell("4294967295"), Some(u32::MAX));
    assert_eq!(parse_u32_cell("4294967296"), None);
    assert_eq!(parse_u32_cell("-1"), None);
    assert_eq!(parse_u32_cell(" 1"), None);
}
