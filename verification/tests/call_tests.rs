use convex_dart::call::{
    argument_text, call_arguments, call_result, failure_error, function_result, not_connected,
    CallKind, Failure, FunctionReply, ValueReading,
};
use convex_dart::value::ConvexValue;

fn s(t: &str) -> String {
    t.to_string()
}

fn reading(debug: &str) -> ValueReading {
    ValueReading { debug: s(debug), string_content: None, float_display: None, float_json: None }
}

#[test]
fn messages_of_failed_steps() {
    assert_eq!(failure_error(Failure::Connect, "no route").message, "Failed to connect: no route");
    assert_eq!(failure_error(Failure::Mutation, "x").message, "Mutation failed: x");
    assert_eq!(failure_error(Failure::Query, "x").message, "Query failed: x");
    assert_eq!(failure_error(Failure::Subscription, "x").message, "Subscription failed: x");
    assert_eq!(not_connected().message, "Client not connected");
}

#[test]
fn argument_texts() {
    assert_eq!(argument_text(&ConvexValue::String(s("a\"b"))), "a\"b");
    assert_eq!(argument_text(&ConvexValue::Int64(-3)), "-3");
    assert_eq!(argument_text(&ConvexValue::Float64(s("0.25"))), "0.25");
    assert_eq!(argument_text(&ConvexValue::Null), "null");
    assert_eq!(argument_text(&ConvexValue::Bytes(vec![1])), "null");
    assert_eq!(argument_text(&ConvexValue::Array(vec![ConvexValue::String(s("q"))])), "[\"q\"]");
}

#[test]
fn arguments_need_a_client() {
    let r = call_arguments(false, vec![(s("a"), ConvexValue::Null)]);
    assert!(matches!(r, Err(e) if e.message == "Client not connected"));
}

#[test]
fn last_argument_wins() {
    let r = call_arguments(true, vec![
        (s("a"), ConvexValue::Int64(1)),
        (s("b"), ConvexValue::String(s("x"))),
        (s("a"), ConvexValue::Null),
    ]).unwrap();
    let mut r = r;
    r.sort();
    assert_eq!(r, vec![(s("a"), s("null")), (s("b"), s("x"))]);
}

#[test]
fn replies() {
    assert!(matches!(function_result(FunctionReply::ErrorMessage(s("boom"))), Err(e) if e.message == "boom"));
    assert!(matches!(function_result(FunctionReply::ConvexError(s("E"))), Err(e) if e.message == "Convex error: E"));
    assert!(matches!(function_result(FunctionReply::Value(reading("Int64(7)"))), Ok(ConvexValue::Int64(7))));
}

#[test]
fn call_results() {
    assert!(matches!(call_result(CallKind::Mutation, Err(s("net"))), Err(e) if e.message == "Mutation failed: net"));
    assert!(matches!(call_result(CallKind::Query, Err(s("net"))), Err(e) if e.message == "Query failed: net"));
    assert!(matches!(call_result(CallKind::Query, Ok(FunctionReply::Value(reading("Null")))), Ok(ConvexValue::Null)));
}
