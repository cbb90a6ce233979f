use convex_dart::debug_text::{convert_value, float_inner};
use convex_dart::json::json_string;
use convex_dart::value::ConvexValue;

fn text_of(v: &ConvexValue) -> String {
    v.to_json_string()
}

#[test]
fn reads_null_strings_and_integers() {
    assert!(matches!(convert_value("Null", None), ConvexValue::Null));
    assert!(matches!(convert_value("String(\"hi\")", None), ConvexValue::String(t) if t == "hi"));
    assert!(matches!(convert_value("String(\"a\\\"b\")", None), ConvexValue::String(t) if t == "a\\\"b"));
    assert!(matches!(convert_value("Int64(42)", None), ConvexValue::Int64(42)));
    assert!(matches!(convert_value("Int64(-7)", None), ConvexValue::Int64(-7)));
}

#[test]
fn integer_out_of_range_is_read_as_text() {
    let v = convert_value("Int64(99999999999999999999)", None);
    assert!(matches!(v, ConvexValue::String(t) if t == "Int64(99999999999999999999)"));
}

#[test]
fn floats_take_the_reading() {
    assert!(matches!(convert_value("Float64(1.5)", Some("1.5".to_string())), ConvexValue::Float64(t) if t == "1.5"));
    assert!(matches!(convert_value("Float64(1.5)", None), ConvexValue::String(t) if t == "Float64(1.5)"));
    assert!(matches!(convert_value("Null", Some("3".to_string())), ConvexValue::Null));
    assert_eq!(float_inner("Float64(2.5)"), Some("2.5".to_string()));
    assert_eq!(float_inner("Int64(1)"), None);
}

#[test]
fn arrays_and_objects_are_read_empty() {
    let a = convert_value("Array([Int64(1), Null])", None);
    assert_eq!(text_of(&a), "[]");
    let o = convert_value("Object({\"a\": Null})", None);
    assert_eq!(text_of(&o), "{}");
}

#[test]
fn other_text_is_read_as_a_string() {
    assert!(matches!(convert_value("Boolean(true)", None), ConvexValue::String(t) if t == "Boolean(true)"));
    assert!(matches!(convert_value("", None), ConvexValue::String(t) if t.is_empty()));
}

#[test]
fn serde_json_quotes_and_escapes() {
    assert_eq!(json_string("plain"), "\"plain\"");
    assert_eq!(json_string("tab\there"), "\"tab\\there\"");
    assert_eq!(json_string("back\\slash"), "\"back\\\\slash\"");
}

#[test]
fn int_debug_round_trip() {
    for i in [0i64, 5, -5, i64::MIN, i64::MAX] {
        let debug = format!("Int64({})", i);
        assert!(matches!(convert_value(&debug, None), ConvexValue::Int64(j) if j == i));
    }
}

#[test]
fn string_debug_round_trip() {
    for e in ["", "x", "with \\\"quotes\\\"", "\")"] {
        let debug = format!("String(\"{}\")", e);
        assert!(matches!(convert_value(&debug, None), ConvexValue::String(t) if t == e));
    }
}

#[test]
fn string_literal_reads_back() {
    for t in ["", "plain", "q\"b\\s", "\u{8}\u{c}\n\r\t", "\u{0}\u{1f}\u{7f}", "é€😀"] {
        let lit = json_string(t);
        assert_eq!(lit, serde_json::to_string(t).unwrap());
        let back: String = serde_json::from_str(&lit).unwrap();
        assert_eq!(back, t);
    }
}
