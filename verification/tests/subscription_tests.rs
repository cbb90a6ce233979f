use convex_dart::call::{FunctionReply, ValueReading};
use convex_dart::json_value::{convex_value_to_json, convex_value_to_serde_json, JsonValue};
use convex_dart::subscription::{next_item_json, next_item_text, subscribe_arguments, unquoted};

fn s(t: &str) -> String {
    t.to_string()
}

fn reading(debug: &str, content: Option<&str>, float_json: Option<&str>) -> ValueReading {
    ValueReading {
        debug: s(debug),
        string_content: content.map(s),
        float_display: None,
        float_json: float_json.map(s),
    }
}

#[test]
fn unquoting() {
    assert_eq!(unquoted("\"abc\""), "abc");
    assert_eq!(unquoted("abc"), "abc");
    assert_eq!(unquoted("\"\""), "");
    assert_eq!(unquoted("\"abc"), "\"abc");
    assert_eq!(unquoted(""), "");
}

#[test]
fn subscription_arguments() {
    assert!(matches!(subscribe_arguments(false, vec![(s("q"), s("\""))]), Err(e) if e.message == "Client not connected"));
    let mut r = subscribe_arguments(true, vec![(s("q"), s("\"hello\"")), (s("n"), s("5")), (s("q"), s("x"))]).unwrap();
    r.sort();
    assert_eq!(r, vec![(s("n"), s("5")), (s("q"), s("x"))]);
}

#[test]
fn json_values_from_debug_text() {
    assert!(matches!(convex_value_to_serde_json("Null", None), JsonValue::Null));
    assert_eq!(convex_value_to_json("Null", None), "null");
    assert_eq!(convex_value_to_json("String(\"hi\")", None), "\"hi\"");
    assert_eq!(convex_value_to_json("Int64(-12)", None), "-12");
    assert_eq!(convex_value_to_json("Float64(1.0)", Some(s("1.0"))), "1.0");
    assert_eq!(convex_value_to_json("Float64(NaN)", None), "\"Float64(NaN)\"");
    assert_eq!(convex_value_to_json("Array([])", None), "[]");
    assert_eq!(convex_value_to_json("Array([Int64(1)])", None), "[\"Int64(1)\"]");
    assert_eq!(convex_value_to_json("Object({})", None), "{}");
    assert_eq!(convex_value_to_json("Object({\"a\": Null})", None), "{\"debug\":\"\\\"a\\\": Null\"}");
    assert_eq!(convex_value_to_json("Boolean(false)", None), "\"Boolean(false)\"");
}

#[test]
fn json_updates() {
    let v = next_item_json(Some(FunctionReply::Value(reading("Int64(3)", None, None))));
    assert_eq!(v, Some(s("3")));
    assert_eq!(next_item_json(Some(FunctionReply::ErrorMessage(s("e")))), None);
    assert_eq!(next_item_json(Some(FunctionReply::ConvexError(s("e")))), None);
    assert_eq!(next_item_json(None), None);
}

#[test]
fn plain_updates() {
    let v = next_item_text(Some(FunctionReply::Value(reading("String(\"a\\\"b\")", Some("a\"b"), None))));
    assert_eq!(v, Some(s("\"a\"b\"")));
    let w = next_item_text(Some(FunctionReply::Value(reading("Int64(3)", None, None))));
    assert_eq!(w, Some(s("Int64(3)")));
    assert_eq!(next_item_text(Some(FunctionReply::ErrorMessage(s("e")))), None);
    assert_eq!(next_item_text(None), None);
}

#[test]
fn quoted_string_round_trip() {
    for t in ["", "x", "\"", "a\"b"] {
        let update = next_item_text(Some(FunctionReply::Value(reading("", Some(t), None)))).unwrap();
        assert_eq!(unquoted(&update), t);
    }
}
