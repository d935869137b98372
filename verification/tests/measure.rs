use driver::duration::Duration;
use driver::measure::{decode_milliseconds, Millis, NumberError};

fn decoded(text: &str) -> Duration {
    let value = Millis::parse(text).unwrap();
    assert!(value.is_positive());
    decode_milliseconds(value)
}

fn seconds(span: Duration) -> f64 {
    span.as_secs() as f64 + span.subsec_nanos() as f64 / 1e9
}

#[test]
fn twelve_and_a_half_milliseconds() {
    let span = decoded("12.5");
    assert_eq!(span.as_secs(), 0);
    assert_eq!(span.subsec_nanos(), 12_500_000);
    assert_eq!(seconds(span), 0.0125);
}

#[test]
fn one_thousand_milliseconds_is_one_second() {
    let span = decoded("1000.0");
    assert_eq!(span, Duration::new(1, 0).unwrap());
    assert_eq!(seconds(span), 1.0);
}

#[test]
fn seconds_and_nanoseconds_are_split_at_one_thousand_milliseconds() {
    let span = decoded("12345.678901");
    assert_eq!(span.as_secs(), 12);
    assert_eq!(span.subsec_nanos(), 345_678_901);
}

#[test]
fn digits_may_be_missing_on_one_side_of_the_point() {
    assert_eq!(decoded(".5"), Duration::new(0, 500_000).unwrap());
    assert_eq!(decoded("5."), Duration::new(0, 5_000_000).unwrap());
}

#[test]
fn a_whole_number_needs_no_point() {
    assert_eq!(decoded("12"), Duration::new(0, 12_000_000).unwrap());
    assert_eq!(decoded("2500"), Duration::new(2, 500_000_000).unwrap());
}

#[test]
fn leading_zeros_do_not_count() {
    assert_eq!(decoded("0012.34"), Duration::new(0, 12_340_000).unwrap());
}

#[test]
fn digits_below_one_nanosecond_are_cut_off() {
    assert_eq!(decoded("1.2345678"), Duration::new(0, 1_234_567).unwrap());
    assert_eq!(decoded("1.2345679999"), Duration::new(0, 1_234_567).unwrap());
}

#[test]
fn a_measurement_below_one_nanosecond_is_positive_and_decodes_to_nothing() {
    let value = Millis::parse("0.0000001").unwrap();
    assert!(value.is_positive());
    assert!(decode_milliseconds(value).is_zero());
}

#[test]
fn zero_is_not_positive() {
    assert!(!Millis::parse("0.0").unwrap().is_positive());
    assert!(!Millis::parse("000.000000000").unwrap().is_positive());
    assert!(!Millis::parse("0.").unwrap().is_positive());
}

#[test]
fn text_that_is_no_decimal_is_refused() {
    for text in [".", "", "1.2.3", "1..2", "1e3", "-1.0", "+1.0", " 1.0", "1.0 ", "1,0", "a.b", "1.x", "x"] {
        assert_eq!(Millis::parse(text), Err(NumberError::Syntax), "{:?}", text);
    }
}

#[test]
fn digits_of_other_scripts_are_refused() {
    assert_eq!(Millis::parse("\u{0663}.\u{0665}"), Err(NumberError::Syntax));
    assert_eq!(Millis::parse("1.\u{0665}"), Err(NumberError::Syntax));
}

#[test]
fn the_longest_span_is_taken() {
    let span = decoded("18446744073709551615.999999");
    assert_eq!(span.as_secs(), 18_446_744_073_709_551);
    assert_eq!(span.subsec_nanos(), 615_999_999);
    let span = decoded("18446744073709551615999.9999999");
    assert_eq!(span.as_secs(), u64::MAX);
    assert_eq!(span.subsec_nanos(), 999_999_999);
}

#[test]
fn a_time_longer_than_a_span_can_hold_is_too_large() {
    assert_eq!(Millis::parse("18446744073709551616000.0"), Err(NumberError::TooLarge));
    assert_eq!(Millis::parse("18446744073709551616000"), Err(NumberError::TooLarge));
    assert_eq!(
        Millis::parse("340282366920938463463374607431768211455.0"),
        Err(NumberError::TooLarge)
    );
    assert_eq!(
        Millis::parse("340282366920938463463374607431768211456.0"),
        Err(NumberError::TooLarge)
    );
    assert_eq!(
        Millis::parse("99999999999999999999999999999999999999999999999999.5"),
        Err(NumberError::TooLarge)
    );
}

#[test]
fn a_span_takes_less_than_one_second_of_nanoseconds() {
    assert!(Duration::new(7, 999_999_999).is_some());
    assert_eq!(Duration::new(7, 1_000_000_000), None);
    let span = Duration::new(7, 999_999_999).unwrap();
    assert_eq!(span.as_secs(), 7);
    assert_eq!(span.subsec_nanos(), 999_999_999);
    assert!(!span.is_zero());
    assert!(Duration::zero().is_zero());
}

#[test]
fn decoding_stays_within_one_nanosecond_of_the_decimal() {
    let cases: [(&str, u128, u32); 5] = [
        ("12.34", 1234, 2),
        ("3.2", 32, 1),
        ("0.000001", 1, 6),
        ("987654.3210987", 9876543210987, 7),
        ("1.00000049", 100000049, 8),
    ];
    for (text, scaled, digits) in cases {
        let span = decoded(text);
        let nanos = span.as_secs() as u128 * 1_000_000_000 + span.subsec_nanos() as u128;
        let scale = 10u128.pow(digits);
        assert!(nanos * scale <= scaled * 1_000_000, "{}", text);
        assert!(scaled * 1_000_000 < (nanos + 1) * scale, "{}", text);
        if digits <= 6 {
            assert_eq!(nanos * scale, scaled * 1_000_000, "{}", text);
        }
    }
}
