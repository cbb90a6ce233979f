//! Reading a Convex value from the text that its `Debug` impl writes.
//!
//! The convex crate derives `Debug` for its `Value`, which writes `Null`,
//! `Int64(5)`, `Float64(1.5)`, `String("text")`, `Array([..])`,
//! `Object({..})` and so on. The library reads values back from that text.

use vstd::prelude::*;
use crate::decimal::{parse_i64_chars, parse_i64_spec};
use crate::text::{between, chars_of, has_prefix, has_suffix, same_chars, string_of, strip_around, starts_with, ends_with};
use crate::value::{ConvexValue, ValueModel, well_formed};

verus! {

/// `Null`.
pub open spec fn null_word() -> Seq<char> {
    seq!['N', 'u', 'l', 'l']
}

/// `String("`.
pub open spec fn string_open() -> Seq<char> {
    seq!['S', 't', 'r', 'i', 'n', 'g', '(', '"']
}

/// `")`.
pub open spec fn string_close() -> Seq<char> {
    seq!['"', ')']
}

/// `Int64(`.
pub open spec fn int_open() -> Seq<char> {
    seq!['I', 'n', 't', '6', '4', '(']
}

/// `Float64(`.
pub open spec fn float_open() -> Seq<char> {
    seq!['F', 'l', 'o', 'a', 't', '6', '4', '(']
}

/// `)`.
pub open spec fn paren_close() -> Seq<char> {
    seq![')']
}

/// `Array([`.
pub open spec fn array_open() -> Seq<char> {
    seq!['A', 'r', 'r', 'a', 'y', '(', '[']
}

/// `])`.
pub open spec fn array_close() -> Seq<char> {
    seq![']', ')']
}

/// `Object({`.
pub open spec fn object_open() -> Seq<char> {
    seq!['O', 'b', 'j', 'e', 'c', 't', '(', '{']
}

/// `})`.
pub open spec fn object_close() -> Seq<char> {
    seq!['}', ')']
}

pub(crate) fn null_word_chars() -> (v: Vec<char>)
    ensures
        v@ == null_word(),
{
    vec!['N', 'u', 'l', 'l']
}

pub(crate) fn string_open_chars() -> (v: Vec<char>)
    ensures
        v@ == string_open(),
{
    vec!['S', 't', 'r', 'i', 'n', 'g', '(', '"']
}

pub(crate) fn string_close_chars() -> (v: Vec<char>)
    ensures
        v@ == string_close(),
{
    vec!['"', ')']
}

pub(crate) fn int_open_chars() -> (v: Vec<char>)
    ensures
        v@ == int_open(),
{
    vec!['I', 'n', 't', '6', '4', '(']
}

pub(crate) fn float_open_chars() -> (v: Vec<char>)
    ensures
        v@ == float_open(),
{
    vec!['F', 'l', 'o', 'a', 't', '6', '4', '(']
}

pub(crate) fn paren_close_chars() -> (v: Vec<char>)
    ensures
        v@ == paren_close(),
{
    vec![')']
}

pub(crate) fn array_open_chars() -> (v: Vec<char>)
    ensures
        v@ == array_open(),
{
    vec!['A', 'r', 'r', 'a', 'y', '(', '[']
}

pub(crate) fn array_close_chars() -> (v: Vec<char>)
    ensures
        v@ == array_close(),
{
    vec![']', ')']
}

pub(crate) fn object_open_chars() -> (v: Vec<char>)
    ensures
        v@ == object_open(),
{
    vec!['O', 'b', 'j', 'e', 'c', 't', '(', '{']
}

pub(crate) fn object_close_chars() -> (v: Vec<char>)
    ensures
        v@ == object_close(),
{
    vec!['}', ')']
}

/// The model of an optional string.
pub open spec fn opt_view(o: Option<String>) -> Option<Seq<char>> {
    match o {
        Some(t) => Some(t@),
        None => None,
    }
}

/// The text inside `Float64(…)`, where `debug` has that shape.
pub open spec fn float_inner_text(debug: Seq<char>) -> Option<Seq<char>> {
    between(debug, float_open(), paren_close())
}

/// The value that `convert_value` reads from the `Debug` text `debug`.
///
/// `float_display` is what the text inside `Float64(…)` gives when parsed as
/// an `f64` and written back with `Display` (`None` if it does not parse).
pub open spec fn converted(debug: Seq<char>, float_display: Option<Seq<char>>) -> ValueModel {
    if debug == null_word() {
        ValueModel::Null
    } else if between(debug, string_open(), string_close()) is Some {
        ValueModel::String(between(debug, string_open(), string_close())->0)
    } else if between(debug, int_open(), paren_close()) is Some && parse_i64_spec(
        between(debug, int_open(), paren_close())->0,
    ) is Some {
        ValueModel::Int64(parse_i64_spec(between(debug, int_open(), paren_close())->0)->0)
    } else if float_inner_text(debug) is Some && float_display is Some {
        ValueModel::Float64(float_display->0)
    } else if has_prefix(debug, array_open()) && has_suffix(debug, array_close()) {
        ValueModel::Array(Seq::empty())
    } else if has_prefix(debug, object_open()) && has_suffix(debug, object_close()) {
        ValueModel::Object(Seq::empty())
    } else {
        ValueModel::String(debug)
    }
}

/// The text inside `Float64(…)` in `debug`, if it has that shape: what the
/// caller parses as an `f64` to give `convert_value` its `float_display`.
pub fn float_inner(debug: &str) -> (r: Option<String>)
    ensures
        opt_view(r) == float_inner_text(debug@),
{
    let d = chars_of(debug);
    match strip_around(&d, &float_open_chars(), &paren_close_chars()) {
        Some(t) => Some(string_of(&t)),
        None => None,
    }
}

/// Reads a Convex value from its `Debug` text: `Null`; the text inside
/// `String("…")` as it stands (escapes kept); `Int64(…)` whose inside
/// parses as an `i64`; `Float64(…)` whose inside parsed as an `f64`
/// (`float_display`); `Array([…])` and `Object({…})` as empty ones; and
/// anything else as a string holding the whole text.
pub fn convert_value(debug: &str, float_display: Option<String>) -> (v: ConvexValue)
    ensures
        v@ == converted(debug@, opt_view(float_display)),
        well_formed(v@),
{
    let d = chars_of(debug);
    if same_chars(&d, &null_word_chars()) {
        return ConvexValue::Null;
    }
    if let Some(t) = strip_around(&d, &string_open_chars(), &string_close_chars()) {
        return ConvexValue::String(string_of(&t));
    }
    if let Some(t) = strip_around(&d, &int_open_chars(), &paren_close_chars()) {
        if let Some(i) = parse_i64_chars(&t) {
            return ConvexValue::Int64(i);
        }
    }
    if let Some(_) = strip_around(&d, &float_open_chars(), &paren_close_chars()) {
        if let Some(f) = float_display {
            return ConvexValue::Float64(f);
        }
    }
    if starts_with(&d, &array_open_chars()) && ends_with(&d, &array_close_chars()) {
        let v = ConvexValue::Array(Vec::new());
        assert(v@ == ValueModel::Array(Seq::empty()));
        return v;
    }
    if starts_with(&d, &object_open_chars()) && ends_with(&d, &object_close_chars()) {
        let v = ConvexValue::Object(Vec::new());
        assert(v@ == ValueModel::Object(Seq::empty()));
        return v;
    }
    ConvexValue::String(string_of(&d))
}

} // verus!
