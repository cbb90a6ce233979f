use convex_dart::value::ConvexValue;
use convex_dart::ConvexError;

fn s(t: &str) -> String {
    t.to_string()
}

#[test]
fn json_of_scalars() {
    assert_eq!(ConvexValue::Null.to_json_string(), "null");
    assert_eq!(ConvexValue::Int64(-42).to_json_string(), "-42");
    assert_eq!(ConvexValue::Int64(0).to_json_string(), "0");
    assert_eq!(ConvexValue::Int64(i64::MIN).to_json_string(), "-9223372036854775808");
    assert_eq!(ConvexValue::Int64(i64::MAX).to_json_string(), "9223372036854775807");
    assert_eq!(ConvexValue::Float64(s("1.5")).to_json_string(), "1.5");
    assert_eq!(ConvexValue::Bytes(vec![1, 2, 3]).to_json_string(), "null");
}

#[test]
fn json_of_strings_is_escaped() {
    assert_eq!(ConvexValue::String(s("hi")).to_json_string(), "\"hi\"");
    assert_eq!(ConvexValue::String(s("a\"b")).to_json_string(), "\"a\\\"b\"");
    assert_eq!(ConvexValue::String(s("line\nnext")).to_json_string(), "\"line\\nnext\"");
}

#[test]
fn json_of_arrays_and_objects() {
    assert_eq!(ConvexValue::Array(vec![]).to_json_string(), "[]");
    assert_eq!(ConvexValue::Object(vec![]).to_json_string(), "{}");
    let v = ConvexValue::Array(vec![
        ConvexValue::Int64(1),
        ConvexValue::String(s("x")),
        ConvexValue::Null,
    ]);
    assert_eq!(v.to_json_string(), "[1,\"x\",null]");
    let o = ConvexValue::Object(vec![
        (s("k"), ConvexValue::Null),
        (s("list"), ConvexValue::Array(vec![ConvexValue::Int64(2)])),
    ]);
    assert_eq!(o.to_json_string(), "{\"k\":null,\"list\":[2]}");
}

#[test]
fn object_keys_are_written_as_they_stand() {
    let o = ConvexValue::Object(vec![(s("a\"b"), ConvexValue::Int64(1))]);
    assert_eq!(o.to_json_string(), "{\"a\"b\":1}");
    let p = ConvexValue::Object(vec![(s("plain"), ConvexValue::Null)]);
    assert_eq!(p.to_json_string(), "{\"plain\":null}");
}

#[test]
fn repeated_keys_are_not_well_formed() {
    let good = ConvexValue::Object(vec![(s("a"), ConvexValue::Null), (s("b"), ConvexValue::Null)]);
    assert!(good.is_well_formed());
    let bad = ConvexValue::Object(vec![(s("a"), ConvexValue::Null), (s("a"), ConvexValue::Null)]);
    assert!(!bad.is_well_formed());
    let nested = ConvexValue::Array(vec![bad]);
    assert!(!nested.is_well_formed());
    assert!(ConvexValue::Int64(1).is_well_formed());
}

#[test]
fn json_text_is_json_for_plain_keys() {
    let v = ConvexValue::Array(vec![
        ConvexValue::String(s("tab\tquote\"nul\u{0}")),
        ConvexValue::Object(vec![(s("key"), ConvexValue::Int64(-1))]),
    ]);
    let parsed: serde_json::Value = serde_json::from_str(&v.to_json_string()).unwrap();
    assert_eq!(parsed[0], serde_json::Value::String(s("tab\tquote\"nul\u{0}")));
    assert_eq!(parsed[1]["key"], serde_json::Value::from(-1));
}

#[test]
fn constructors() {
    assert!(matches!(ConvexValue::from_string(s("x")), ConvexValue::String(t) if t == "x"));
    assert!(matches!(ConvexValue::from_int(7), ConvexValue::Int64(7)));
    assert!(matches!(ConvexValue::null_value(), ConvexValue::Null));
    assert!(matches!(ConvexValue::from_bool(true), ConvexValue::String(t) if t == "true"));
    assert!(matches!(ConvexValue::from_bool(false), ConvexValue::String(t) if t == "false"));
    assert_eq!(ConvexValue::from_bool(true).to_json_string(), "\"true\"");
}

#[test]
fn clone_keeps_the_value() {
    let v = ConvexValue::Object(vec![(s("a"), ConvexValue::Array(vec![ConvexValue::Float64(s("2"))]))]);
    assert_eq!(v.clone().to_json_string(), v.to_json_string());
}

#[test]
fn error_holds_its_message() {
    let e = ConvexError { message: s("m") };
    assert_eq!(e.clone().message, "m");
}
