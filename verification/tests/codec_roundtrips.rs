use hexed::codec::{decode_hex, format_hex, hex_char, hex_digit_val, parse_offset, DecodeError};

fn chars(s: &str) -> Vec<char> {
    s.chars().collect()
}

fn string_of(v: &[char]) -> String {
    v.iter().collect()
}

#[test]
fn parse_offset_reads_hex() {
    assert_eq!(parse_offset(&chars("10"), 32), Some(16));
    assert_eq!(parse_offset(&chars("0"), 32), Some(0));
    assert_eq!(parse_offset(&chars("1f"), 32), Some(31));
    assert_eq!(parse_offset(&chars("1F"), 32), Some(31));
}

#[test]
fn parse_offset_rejects_out_of_range() {
    assert_eq!(parse_offset(&chars("20"), 32), None);
    assert_eq!(parse_offset(&chars("10"), 16), None);
    assert_eq!(parse_offset(&chars("0"), 0), None);
}

#[test]
fn parse_offset_rejects_bad_text() {
    assert_eq!(parse_offset(&chars(""), 32), None);
    assert_eq!(parse_offset(&chars("1g"), 32), None);
    assert_eq!(parse_offset(&chars("0x10"), 32), None);
}

#[test]
fn parse_offset_survives_overflowing_text() {
    assert_eq!(parse_offset(&chars("ffffffffffffffffffff"), 32), None);
}

#[test]
fn parse_offset_roundtrips_formatted_offsets() {
    for offset in [0usize, 1, 15, 16, 255, 256, 0x1234, 0xfffff] {
        let text = format_hex(offset, 1);
        assert_eq!(parse_offset(&text, offset + 1), Some(offset));
        assert_eq!(parse_offset(&text, offset), None);
    }
}

#[test]
fn format_hex_pads_to_width() {
    assert_eq!(string_of(&format_hex(0x1234, 4)), "1234");
    assert_eq!(string_of(&format_hex(5, 4)), "0005");
    assert_eq!(string_of(&format_hex(0, 4)), "0000");
    assert_eq!(string_of(&format_hex(0x12345, 4)), "12345");
}

#[test]
fn hex_digit_val_accepts_both_cases() {
    assert_eq!(hex_digit_val('0'), Some(0));
    assert_eq!(hex_digit_val('9'), Some(9));
    assert_eq!(hex_digit_val('a'), Some(10));
    assert_eq!(hex_digit_val('F'), Some(15));
    assert_eq!(hex_digit_val('g'), None);
    assert_eq!(hex_digit_val(' '), None);
}

#[test]
fn hex_char_is_lower_case() {
    assert_eq!(hex_char(0), '0');
    assert_eq!(hex_char(10), 'a');
    assert_eq!(hex_char(15), 'f');
}

#[test]
fn decode_hex_pairs_digits() {
    assert_eq!(decode_hex(&chars("41424344")), Ok(vec![0x41, 0x42, 0x43, 0x44]));
    assert_eq!(decode_hex(&chars("00ff")), Ok(vec![0x00, 0xff]));
    assert_eq!(decode_hex(&chars("")), Ok(vec![]));
}

#[test]
fn decode_hex_rejects_odd_length() {
    assert_eq!(decode_hex(&chars("123")), Err(DecodeError::OddLength));
    assert_eq!(decode_hex(&chars("1")), Err(DecodeError::OddLength));
}

#[test]
fn decode_hex_rejects_bad_digits() {
    assert_eq!(decode_hex(&chars("4g")), Err(DecodeError::InvalidDigit));
    assert_eq!(decode_hex(&chars("zz")), Err(DecodeError::InvalidDigit));
}
