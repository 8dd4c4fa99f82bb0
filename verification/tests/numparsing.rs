use loretta::experimental::numparsing::{is_dec_float, is_dec_integer, is_hex_float, is_hex_integer};

#[test]
fn decimal_integers_are_recognized() {
    assert!(is_dec_integer("12"));
    assert!(is_dec_integer("+12"));
    assert!(is_dec_integer("-0"));
    assert!(!is_dec_integer("-"));
    assert!(!is_dec_integer(""));
    assert!(!is_dec_integer("1a"));
    assert!(!is_dec_integer("1.5"));
}

#[test]
fn hexadecimal_integers_are_recognized() {
    assert!(is_hex_integer("0x1F"));
    assert!(is_hex_integer("-0X0"));
    assert!(!is_hex_integer("0x"));
    assert!(!is_hex_integer("0x1g"));
    assert!(!is_hex_integer("10"));
}

#[test]
fn a_decimal_float_starts_at_any_digit() {
    assert!(is_dec_float("1e5"));
    assert!(is_dec_float("x1"));
    assert!(is_dec_float(".5"));
    assert!(!is_dec_float("."));
    assert!(!is_dec_float("abc"));
    assert!(!is_dec_float(""));
}

#[test]
fn hexadecimal_floats_are_recognized_in_whole() {
    assert!(is_hex_float("0x1.8p10"));
    assert!(is_hex_float("0x.8"));
    assert!(is_hex_float("0x1."));
    assert!(is_hex_float("-0x1P+3"));
    assert!(is_hex_float("0xA"));
    assert!(!is_hex_float("0x1p"));
    assert!(!is_hex_float("0x"));
    assert!(!is_hex_float("0x."));
    assert!(!is_hex_float("0x1.8p10z"));
    assert!(!is_hex_float("1.5"));
}
