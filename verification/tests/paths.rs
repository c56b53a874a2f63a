use ptv::{multi_segment_coordinate_path, parse_decimal, Decimal};
use ptv::coords::render_decimal;

fn dec(negative: bool, mantissa: u64, scale: u32) -> Decimal {
    Decimal { negative, mantissa, scale }
}

#[test]
fn one_pair_decodes() {
    let input = vec!["-37.81, 144.96".to_string()];
    let got = multi_segment_coordinate_path(&input).unwrap();
    assert_eq!(got, vec![vec![(dec(true, 3781, 2), dec(false, 14496, 2))]]);
}

#[test]
fn two_pairs_decode_in_order() {
    let input = vec!["-37.81, 144.96 -37.82, 144.97".to_string()];
    let got = multi_segment_coordinate_path(&input).unwrap();
    assert_eq!(
        got,
        vec![vec![
            (dec(true, 3781, 2), dec(false, 14496, 2)),
            (dec(true, 3782, 2), dec(false, 14497, 2)),
        ]]
    );
}

#[test]
fn segments_keep_input_order() {
    let input = vec!["1.0, 2.0".to_string(), "3.0, 4.0".to_string()];
    let got = multi_segment_coordinate_path(&input).unwrap();
    assert_eq!(
        got,
        vec![
            vec![(dec(false, 10, 1), dec(false, 20, 1))],
            vec![(dec(false, 30, 1), dec(false, 40, 1))],
        ]
    );
}

#[test]
fn dangling_token_fails() {
    let input = vec!["-37.81, 144.96 -37.82".to_string()];
    assert!(multi_segment_coordinate_path(&input).is_err());
    let input = vec!["-37.81,".to_string()];
    assert!(multi_segment_coordinate_path(&input).is_err());
}

#[test]
fn unparsable_coordinate_fails() {
    let input = vec!["abc, 144.96".to_string()];
    assert!(multi_segment_coordinate_path(&input).is_err());
    let input = vec!["-37.81, north".to_string()];
    assert!(multi_segment_coordinate_path(&input).is_err());
}

#[test]
fn exponent_coordinates_decode() {
    let input = vec!["1e2, 3".to_string()];
    let got = multi_segment_coordinate_path(&input).unwrap();
    assert_eq!(got, vec![vec![(dec(false, 100, 0), dec(false, 3, 0))]]);
}

#[test]
fn path_errors_blame_the_value_at_fault() {
    let e = multi_segment_coordinate_path(&vec!["-37.81, 144.96 -37.82".to_string()])
        .unwrap_err();
    assert_eq!(e.input, "-37.81, 144.96 -37.82");
    let e = multi_segment_coordinate_path(&vec!["abc, 144.96".to_string()]).unwrap_err();
    assert_eq!(e.input, "abc,");
    let e = multi_segment_coordinate_path(&vec!["-37.81, north".to_string()]).unwrap_err();
    assert_eq!(e.input, "north");
}

#[test]
fn empty_segment_fails() {
    let input = vec![String::new()];
    assert!(multi_segment_coordinate_path(&input).is_err());
}

#[test]
fn no_segments_decode_to_nothing() {
    let input: Vec<String> = Vec::new();
    let got = multi_segment_coordinate_path(&input).unwrap();
    assert!(got.is_empty());
}

#[test]
fn decimal_grammar() {
    assert_eq!(parse_decimal("1.").unwrap(), dec(false, 1, 0));
    assert_eq!(parse_decimal(".5").unwrap(), dec(false, 5, 1));
    assert_eq!(parse_decimal("+0.50").unwrap(), dec(false, 50, 2));
    assert_eq!(parse_decimal("-0").unwrap(), dec(true, 0, 0));
    assert!(parse_decimal("").is_err());
    assert!(parse_decimal(".").is_err());
    assert!(parse_decimal("1.2.3").is_err());
    assert!(parse_decimal("inf").is_err());
    assert!(parse_decimal("NaN").is_err());
    let e = parse_decimal("north").unwrap_err();
    assert_eq!(e.input, "north");
}

#[test]
fn decimal_exponent_forms() {
    assert_eq!(parse_decimal("1e2").unwrap(), dec(false, 100, 0));
    assert_eq!(parse_decimal("1E3").unwrap(), dec(false, 1000, 0));
    assert_eq!(parse_decimal("1.5e1").unwrap(), dec(false, 15, 0));
    assert_eq!(parse_decimal("-1.5e-2").unwrap(), dec(true, 15, 3));
    assert_eq!(parse_decimal(".5e1").unwrap(), dec(false, 5, 0));
    assert_eq!(parse_decimal("1e+2").unwrap(), dec(false, 100, 0));
    assert_eq!(parse_decimal("1e-0").unwrap(), dec(false, 1, 0));
    assert_eq!(parse_decimal("2.5e1").unwrap(), dec(false, 25, 0));
    assert_eq!(parse_decimal("0e40").unwrap(), dec(false, 0, 0));
    assert!(parse_decimal("0e999999999999").is_err());
    assert!(parse_decimal("1e").is_err());
    assert!(parse_decimal("e5").is_err());
    assert!(parse_decimal("1e2.5").is_err());
    assert!(parse_decimal("1e2e3").is_err());
    assert!(parse_decimal("2e19").is_err());
    assert_eq!(parse_decimal("1e19").unwrap(), dec(false, 10_000_000_000_000_000_000, 0));
    assert!(parse_decimal("1e9999999999").is_err());
    assert!(parse_decimal("1e-9999999999").is_err());
}

#[test]
fn decimal_mantissa_capacity() {
    assert_eq!(
        parse_decimal("18446744073709551615").unwrap(),
        dec(false, u64::MAX, 0)
    );
    assert!(parse_decimal("18446744073709551616").is_err());
}

#[test]
fn decimal_renders() {
    assert_eq!(render_decimal(&dec(true, 3781, 2)), "-37.81");
    assert_eq!(render_decimal(&dec(false, 5, 2)), "0.05");
    assert_eq!(render_decimal(&dec(false, 42, 0)), "42");
    assert_eq!(render_decimal(&dec(true, 7, 0)), "-7");
    assert_eq!(render_decimal(&dec(false, 14496, 2)), "144.96");
}
