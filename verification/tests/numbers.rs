use ptv::num::{i64_to_string, u64_to_string};
use ptv::signed_int_from_string;

#[test]
fn decodes_plain_integer() {
    assert_eq!(signed_int_from_string("42").unwrap(), 42);
}

#[test]
fn fails_on_words() {
    let e = signed_int_from_string("forty-two").unwrap_err();
    assert_eq!(e.input, "forty-two");
}

#[test]
fn decodes_signs_and_extremes() {
    assert_eq!(signed_int_from_string("-2147483648").unwrap(), i32::MIN);
    assert_eq!(signed_int_from_string("2147483647").unwrap(), i32::MAX);
    assert_eq!(signed_int_from_string("+7").unwrap(), 7);
    assert_eq!(signed_int_from_string("-0").unwrap(), 0);
}

#[test]
fn rejects_out_of_range() {
    assert!(signed_int_from_string("2147483648").is_err());
    assert!(signed_int_from_string("-2147483649").is_err());
    assert!(signed_int_from_string("99999999999999999999").is_err());
}

#[test]
fn rejects_bad_grammar() {
    assert!(signed_int_from_string("").is_err());
    assert!(signed_int_from_string("-").is_err());
    assert!(signed_int_from_string("+").is_err());
    assert!(signed_int_from_string("1 2").is_err());
    assert!(signed_int_from_string(" 1").is_err());
    assert!(signed_int_from_string("1.0").is_err());
}

#[test]
fn accepts_leading_zeros() {
    assert_eq!(signed_int_from_string("00042").unwrap(), 42);
    assert_eq!(signed_int_from_string("0000000000000000001").unwrap(), 1);
}

#[test]
fn renders_integers() {
    assert_eq!(u64_to_string(0), "0");
    assert_eq!(u64_to_string(90210), "90210");
    assert_eq!(i64_to_string(-37), "-37");
    assert_eq!(i64_to_string(i64::MIN), "-9223372036854775808");
}
