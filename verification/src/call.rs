//! Calls of Convex functions (mutations and queries): the arguments that are
//! sent, and what becomes of the reply.

use vstd::prelude::*;
use crate::args::{args_map, gather_pairs, lists_map, pairs_view};
use crate::debug_text::{convert_value, converted, opt_view};
use crate::decimal::{format_i64, int_text};
use crate::value::{json_text, null_text, well_formed, ConvexError, ConvexValue, ValueModel};
use crate::text::push_char;

verus! {

/// The step of talking to a deployment that failed.
#[derive(Debug, Clone, Copy)]
pub enum Failure {
    Connect,
    Mutation,
    Query,
    Subscription,
}

/// A call of a Convex function that returns one reply.
#[derive(Debug, Clone, Copy)]
pub enum CallKind {
    Mutation,
    Query,
}

/// What the library reads of a value that the convex crate returned.
///
/// `debug` is the text that the value's `Debug` impl writes. Where the value
/// is a string, `string_content` holds it as it is. Where `debug` has the
/// shape `Float64(…)`, `float_display` is what the text inside gives when
/// parsed as an `f64` and written back with `Display`, and `float_json` is
/// what serde_json writes for that float when it is finite (`None` where the
/// text does not parse or the float is not finite).
#[derive(Debug)]
pub struct ValueReading {
    pub debug: String,
    pub string_content: Option<String>,
    pub float_display: Option<String>,
    pub float_json: Option<String>,
}

/// A reply of a Convex function, as the convex crate's `FunctionResult`:
/// a value, an error message, or an application error (held as the text that
/// its `Debug` impl writes).
#[derive(Debug)]
pub enum FunctionReply {
    Value(ValueReading),
    ErrorMessage(String),
    ConvexError(String),
}

/// The start of the message for a failed step.
pub open spec fn failure_prefix(step: Failure) -> Seq<char> {
    match step {
        Failure::Connect => "Failed to connect: "@,
        Failure::Mutation => "Mutation failed: "@,
        Failure::Query => "Query failed: "@,
        Failure::Subscription => "Subscription failed: "@,
    }
}

/// The message given when no client is connected.
pub open spec fn not_connected_text() -> Seq<char> {
    "Client not connected"@
}

/// The start of the message for an application error.
pub open spec fn convex_error_prefix() -> Seq<char> {
    "Convex error: "@
}

/// The error for a failed step, with the failure's own text after it.
pub fn failure_error(step: Failure, detail: &str) -> (e: ConvexError)
    ensures
        e.message@ == failure_prefix(step) + detail@,
{
    let mut message = match step {
        Failure::Connect => String::from_str("Failed to connect: "),
        Failure::Mutation => String::from_str("Mutation failed: "),
        Failure::Query => String::from_str("Query failed: "),
        Failure::Subscription => String::from_str("Subscription failed: "),
    };
    message.append(detail);
    ConvexError { message }
}

/// The error given when no client is connected.
pub fn not_connected() -> (e: ConvexError)
    ensures
        e.message@ == not_connected_text(),
{
    ConvexError { message: String::from_str("Client not connected") }
}

/// The text sent for an argument value: a string as it is, an integer in
/// decimal, a float as `Display` writes it, `null` for null, and the JSON
/// text of any other value.
pub open spec fn argument_text_of(v: ValueModel) -> Seq<char> {
    match v {
        ValueModel::String(s) => s,
        ValueModel::Int64(i) => int_text(i as int),
        ValueModel::Float64(t) => t,
        ValueModel::Null => null_text(),
        _ => json_text(v),
    }
}

/// The text sent for the argument value `value`.
pub fn argument_text(value: &ConvexValue) -> (t: String)
    requires
        well_formed(value@),
    ensures
        t@ == argument_text_of(value@),
{
    match value {
        ConvexValue::String(s) => s.clone(),
        ConvexValue::Int64(i) => format_i64(*i),
        ConvexValue::Float64(f) => f.clone(),
        ConvexValue::Null => {
            let mut s = String::new();
            push_char(&mut s, 'n');
            push_char(&mut s, 'u');
            push_char(&mut s, 'l');
            push_char(&mut s, 'l');
            s
        },
        _ => value.to_json_string(),
    }
}

/// The names and texts of the arguments `args`, in order.
pub open spec fn argument_texts(args: Seq<(String, ConvexValue)>) -> Seq<(Seq<char>, Seq<char>)> {
    Seq::new(args.len(), |k: int| (args[k].0@, argument_text_of(args[k].1@)))
}

/// The arguments of a call, as sent to the deployment: every name once, with
/// the text of the value that it was given last. Fails with "Client not
/// connected" when no client is connected, before any value is looked at.
/// Each value's objects hold each key once (`well_formed`).
pub fn call_arguments(connected: bool, args: Vec<(String, ConvexValue)>) -> (r: Result<
    Vec<(String, String)>,
    ConvexError,
>)
    requires
        connected ==> forall|k: int| 0 <= k < args@.len() ==> well_formed(#[trigger] args@[k].1@),
    ensures
        !connected <==> r is Err,
        r matches Err(e) ==> e.message@ == not_connected_text(),
        r matches Ok(sent) ==> lists_map(pairs_view(sent@), args_map(argument_texts(args@))),
{
    if !connected {
        return Err(not_connected());
    }
    let mut texts: Vec<(String, String)> = Vec::new();
    let mut k: usize = 0;
    while k < args.len()
        invariant
            k <= args@.len(),
            forall|j: int| 0 <= j < args@.len() ==> well_formed(#[trigger] args@[j].1@),
            texts@.len() == k,
            pairs_view(texts@) == argument_texts(args@).take(k as int),
        decreases args@.len() - k,
    {
        let ghost before = texts@;
        let name = args[k].0.clone();
        let text = argument_text(&args[k].1);
        texts.push((name, text));
        assert forall|j: int| 0 <= j < k + 1 implies #[trigger] pairs_view(texts@)[j]
            == argument_texts(args@).take(k + 1)[j] by {
            if j < k {
                assert(texts@[j] == before[j]);
                assert(pairs_view(before)[j] == argument_texts(args@).take(k as int)[j]);
            }
        }
        assert(pairs_view(texts@) =~= argument_texts(args@).take(k + 1));
        k = k + 1;
    }
    assert(argument_texts(args@).take(k as int) == argument_texts(args@));
    Ok(gather_pairs(texts))
}

/// The error text, or the value, that a reply of a Convex function gives.
pub open spec fn reply_outcome(reply: FunctionReply) -> Result<ValueModel, Seq<char>> {
    match reply {
        FunctionReply::Value(r) => Ok(converted(r.debug@, opt_view(r.float_display))),
        FunctionReply::ErrorMessage(m) => Err(m@),
        FunctionReply::ConvexError(d) => Err(convex_error_prefix() + d@),
    }
}

/// The step that a call is.
pub open spec fn call_step(kind: CallKind) -> Failure {
    match kind {
        CallKind::Mutation => Failure::Mutation,
        CallKind::Query => Failure::Query,
    }
}

/// What a call gives: the failure's text after the step's prefix when the
/// call could not be made, and otherwise what its reply gives.
pub open spec fn call_outcome(kind: CallKind, outcome: Result<FunctionReply, String>) -> Result<
    ValueModel,
    Seq<char>,
> {
    match outcome {
        Err(detail) => Err(failure_prefix(call_step(kind)) + detail@),
        Ok(reply) => reply_outcome(reply),
    }
}

/// The model of a call's result: the value, or the error's message.
pub open spec fn result_view(r: Result<ConvexValue, ConvexError>) -> Result<ValueModel, Seq<char>> {
    match r {
        Ok(v) => Ok(v@),
        Err(e) => Err(e.message@),
    }
}

/// What a reply of a Convex function gives to the Dart side: the value read
/// from it, its error message, or "Convex error: " and the error's text.
pub fn function_result(reply: FunctionReply) -> (r: Result<ConvexValue, ConvexError>)
    ensures
        result_view(r) == reply_outcome(reply),
        r matches Ok(v) ==> well_formed(v@),
{
    match reply {
        FunctionReply::Value(reading) => Ok(convert_value(reading.debug.as_str(), reading.float_display)),
        FunctionReply::ErrorMessage(message) => Err(ConvexError { message }),
        FunctionReply::ConvexError(detail) => {
            let mut message = String::from_str("Convex error: ");
            message.append(detail.as_str());
            Err(ConvexError { message })
        },
    }
}

/// What a mutation or a query gives to the Dart side, from the outcome of
/// the call: `Err` with the failure's text when the call could not be made.
pub fn call_result(kind: CallKind, outcome: Result<FunctionReply, String>) -> (r: Result<
    ConvexValue,
    ConvexError,
>)
    ensures
        result_view(r) == call_outcome(kind, outcome),
        r matches Ok(v) ==> well_formed(v@),
{
    match outcome {
        Err(detail) => {
            let step = match kind {
                CallKind::Mutation => Failure::Mutation,
                CallKind::Query => Failure::Query,
            };
            Err(failure_error(step, detail.as_str()))
        },
        Ok(reply) => function_result(reply),
    }
}

/// A reply gives a value exactly when it is a value reply; an error message
/// is handed on unchanged, and an application error's text follows
/// "Convex error: ". A call that could not be made gives its step's prefix
/// and the failure's text, and otherwise what its reply gives.
pub proof fn law_reply_outcomes(reply: FunctionReply, kind: CallKind)
    ensures
        reply_outcome(reply) is Ok <==> reply is Value,
        reply matches FunctionReply::ErrorMessage(m) ==> reply_outcome(reply) == Err::<
            ValueModel,
            Seq<char>,
        >(m@),
        reply matches FunctionReply::ConvexError(d) ==> reply_outcome(reply) == Err::<
            ValueModel,
            Seq<char>,
        >("Convex error: "@ + d@),
        reply matches FunctionReply::Value(r) ==> reply_outcome(reply) == Ok::<ValueModel, Seq<char>>(
            converted(r.debug@, opt_view(r.float_display)),
        ),
        call_outcome(kind, Ok(reply)) == reply_outcome(reply),
{
}

/// The message of a failed step is the step's own prefix followed by the
/// failure's text, and the steps' prefixes differ.
pub proof fn law_failure_messages(step: Failure, detail: Seq<char>)
    ensures
        failure_prefix(step) + detail == match step {
            Failure::Connect => "Failed to connect: "@ + detail,
            Failure::Mutation => "Mutation failed: "@ + detail,
            Failure::Query => "Query failed: "@ + detail,
            Failure::Subscription => "Subscription failed: "@ + detail,
        },
        failure_prefix(Failure::Mutation) != failure_prefix(Failure::Query),
{
    reveal_strlit("Mutation failed: ");
    reveal_strlit("Query failed: ");
    assert(failure_prefix(Failure::Mutation)[0] != failure_prefix(Failure::Query)[0]);
}

} // verus!
