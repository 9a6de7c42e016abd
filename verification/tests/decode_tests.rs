use shp2geojson::decode::{decode_value, Scalar};

#[test]
fn numeric_some_decodes_to_number() {
    let r = decode_value("Numeric(Some(3.14))");
    assert_eq!(r, Scalar::Number("3.14".to_string()));
}

#[test]
fn numeric_integer_decodes_to_number() {
    let r = decode_value("Numeric(Some(42))");
    assert_eq!(r, Scalar::Number("42".to_string()));
}

#[test]
fn numeric_none_decodes_to_empty_string() {
    let r = decode_value("Numeric(None)");
    assert_eq!(r, Scalar::Text(String::new()));
}

#[test]
fn character_none_decodes_to_null() {
    let r = decode_value("Character(None)");
    assert_eq!(r, Scalar::Null);
}

#[test]
fn character_some_decodes_to_text() {
    let r = decode_value("Character(Some(\"Tokyo\"))");
    assert_eq!(r, Scalar::Text("Tokyo".to_string()));
}

#[test]
fn decoding_twice_yields_the_same_scalar() {
    let inputs = [
        "Numeric(Some(3.14))",
        "Numeric(None)",
        "Character(None)",
        "Character(Some(\"Tokyo\"))",
        "Date(2020-01-01)",
        "",
    ];
    for input in inputs {
        assert_eq!(decode_value(input), decode_value(input));
    }
}

#[test]
fn unmodeled_kind_passes_through_verbatim() {
    let r = decode_value("Date(2020-01-01)");
    assert_eq!(r, Scalar::Text("Date(2020-01-01)".to_string()));
}

#[test]
fn empty_string_passes_through_verbatim() {
    let r = decode_value("");
    assert_eq!(r, Scalar::Text(String::new()));
}

#[test]
fn numeric_wrapper_without_digits_passes_through() {
    let r = decode_value("Numeric(Some(abc))");
    assert_eq!(r, Scalar::Text("Numeric(Some(abc))".to_string()));
}

#[test]
fn numeric_wrapper_with_two_points_passes_through() {
    let r = decode_value("Numeric(Some(12.34.56))");
    assert_eq!(r, Scalar::Text("Numeric(Some(12.34.56))".to_string()));
}

#[test]
fn numeric_wrapper_found_anywhere_in_the_string() {
    let r = decode_value("cell Numeric(Some(2.5)) trailing");
    assert_eq!(r, Scalar::Number("2.5".to_string()));
}

#[test]
fn character_capture_is_greedy() {
    let r = decode_value("Character(Some(\"a\"b\"))");
    assert_eq!(r, Scalar::Text("a\"b".to_string()));
}

#[test]
fn character_wrapper_not_at_start_passes_through() {
    let r = decode_value(" Character(Some(\"Tokyo\"))");
    assert_eq!(r, Scalar::Text(" Character(Some(\"Tokyo\"))".to_string()));
}

#[test]
fn character_capture_keeps_unicode_text() {
    let r = decode_value("Character(Some(\"\u{6771}\u{4eac}\"))");
    assert_eq!(r, Scalar::Text("\u{6771}\u{4eac}".to_string()));
}

#[test]
fn captured_number_parses_as_a_float() {
    let r = decode_value("Numeric(Some(3.14))");
    match r {
        Scalar::Number(text) => {
            let parsed: f64 = text.parse().expect("a captured number is a decimal literal");
            assert_eq!(parsed, 3.14);
        }
        other => panic!("expected a number, got {:?}", other),
    }
}
