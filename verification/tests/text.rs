use driver::text::{chars_of, parse_u32, unsigned_string};

#[test]
fn digits_read_as_a_number() {
    assert_eq!(parse_u32("5"), Some(5));
    assert_eq!(parse_u32("0"), Some(0));
    assert_eq!(parse_u32("007"), Some(7));
    assert_eq!(parse_u32("65536"), Some(65536));
    assert_eq!(parse_u32("4294967295"), Some(u32::MAX));
}

#[test]
fn a_number_past_thirty_two_bits_is_refused() {
    assert_eq!(parse_u32("4294967296"), None);
    assert_eq!(parse_u32("18446744073709551616"), None);
    assert_eq!(parse_u32("99999999999999999999999999"), None);
}

#[test]
fn anything_but_digits_is_refused() {
    for text in ["", "+5", "-5", " 5", "5 ", "5a", "0x10", "1.0", "\u{0663}"] {
        assert_eq!(parse_u32(text), None, "{:?}", text);
    }
}

#[test]
fn numbers_are_spelt_out_in_base_ten() {
    assert_eq!(unsigned_string(0), "0");
    assert_eq!(unsigned_string(9), "9");
    assert_eq!(unsigned_string(10), "10");
    assert_eq!(unsigned_string(8096), "8096");
    assert_eq!(unsigned_string(u64::MAX), "18446744073709551615");
}

#[test]
fn a_number_spelt_out_reads_back() {
    for n in [0u32, 1, 9, 10, 99, 100, 12345, 65536, u32::MAX] {
        assert_eq!(parse_u32(&unsigned_string(n as u64)), Some(n));
    }
}

#[test]
fn the_characters_of_a_text_come_in_order() {
    assert_eq!(chars_of("a\u{00e9}1."), vec!['a', '\u{00e9}', '1', '.']);
    assert_eq!(chars_of(""), Vec::<char>::new());
}
