use hexed::codec::decode_hex;
use hexed::search::{encode_chars, find_bytes, find_text};

#[test]
fn find_bytes_locates_decoded_pattern() {
    let haystack = [0x00u8, 0x41, 0x42, 0x43, 0x44, 0x00];
    let needle = decode_hex(&"41424344".chars().collect()).unwrap();
    assert_eq!(find_bytes(&haystack, &needle), Some(1));
}

#[test]
fn find_text_locates_encoded_needle() {
    let haystack = [0x00u8, 0x41, 0x42, 0x43, 0x44, 0x00];
    assert_eq!(find_text(&haystack, &vec!['C', 'D']), Some(3));
}

#[test]
fn find_bytes_returns_first_of_several() {
    let haystack = [9u8, 1, 2, 9, 1, 2];
    assert_eq!(find_bytes(&haystack, &[1, 2]), Some(1));
}

#[test]
fn find_bytes_reports_absence() {
    let haystack = [1u8, 2, 3];
    assert_eq!(find_bytes(&haystack, &[4]), None);
    assert_eq!(find_bytes(&haystack, &[3, 4]), None);
    assert_eq!(find_bytes(&[], &[1]), None);
}

#[test]
fn empty_needle_matches_at_start() {
    assert_eq!(find_bytes(&[1u8, 2], &[]), Some(0));
    assert_eq!(find_bytes(&[], &[]), Some(0));
    assert_eq!(find_text(&[1u8, 2], &vec![]), Some(0));
}

#[test]
fn encode_chars_is_utf8() {
    assert_eq!(encode_chars(&vec!['A', 'B']), vec![0x41, 0x42]);
    assert_eq!(encode_chars(&vec!['\u{e9}']), vec![0xC3, 0xA9]);
    assert_eq!(encode_chars(&vec!['\u{20ac}']), vec![0xE2, 0x82, 0xAC]);
    assert_eq!(encode_chars(&vec!['\u{1f600}']), vec![0xF0, 0x9F, 0x98, 0x80]);
}

#[test]
fn find_text_crosses_invalid_utf8_bytes() {
    let haystack = [0xffu8, 0xfe, 0x41, 0x42, 0xff];
    assert_eq!(find_text(&haystack, &vec!['A', 'B']), Some(2));
    assert_eq!(find_text(&haystack, &vec!['C']), None);
}
