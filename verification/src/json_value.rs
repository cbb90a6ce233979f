//! JSON values as serde_json holds them, read from a Convex value's `Debug`
//! text, and their compact JSON text.

use vstd::prelude::*;
use crate::debug_text::{
    array_close, array_close_chars, array_open, array_open_chars, float_inner_text, null_word,
    object_close, object_close_chars, object_open, object_open_chars, opt_view, paren_close,
    int_open, string_close, string_open,
};
use crate::decimal::{format_i64, int_text, parse_i64_chars, parse_i64_spec};
use crate::json::{json_string, json_string_text};
use crate::text::{between, chars_of, ends_with, has_prefix, has_suffix, push_char, same_chars, slice_chars, starts_with, string_of, strip_around};

verus! {

/// A JSON number: an integer, or a finite float held as the text that
/// serde_json writes for it.
#[derive(Debug)]
pub enum JsonNumber {
    Int(i64),
    Float(String),
}

/// A JSON value, as serde_json's `Value`; an object lists its members in
/// order.
#[derive(Debug)]
pub enum JsonValue {
    Null,
    Bool(bool),
    Number(JsonNumber),
    String(String),
    Array(Vec<JsonValue>),
    Object(Vec<(String, JsonValue)>),
}

/// The model of a JSON number.
pub enum NumberModel {
    Int(i64),
    Float(Seq<char>),
}

/// The model of a JSON value.
pub enum JsonModel {
    Null,
    Bool(bool),
    Number(NumberModel),
    String(Seq<char>),
    Array(Seq<JsonModel>),
    Object(Seq<(Seq<char>, JsonModel)>),
}

/// The model of `n`.
pub open spec fn number_model(n: JsonNumber) -> NumberModel {
    match n {
        JsonNumber::Int(i) => NumberModel::Int(i),
        JsonNumber::Float(t) => NumberModel::Float(t@),
    }
}

/// The model of `v`.
pub open spec fn json_model(v: JsonValue) -> JsonModel
    decreases v,
{
    match v {
        JsonValue::Null => JsonModel::Null,
        JsonValue::Bool(b) => JsonModel::Bool(b),
        JsonValue::Number(n) => JsonModel::Number(number_model(n)),
        JsonValue::String(s) => JsonModel::String(s@),
        JsonValue::Array(items) => JsonModel::Array(json_models(items@)),
        JsonValue::Object(members) => JsonModel::Object(json_member_models(members@)),
    }
}

/// The models of `s`, in order.
pub open spec fn json_models(s: Seq<JsonValue>) -> Seq<JsonModel>
    decreases s,
{
    if s.len() == 0 {
        Seq::empty()
    } else {
        json_models(s.subrange(0, s.len() - 1)).push(json_model(s[s.len() - 1]))
    }
}

/// The models of the members `s`, in order.
pub open spec fn json_member_models(s: Seq<(String, JsonValue)>) -> Seq<(Seq<char>, JsonModel)>
    decreases s,
{
    if s.len() == 0 {
        Seq::empty()
    } else {
        json_member_models(s.subrange(0, s.len() - 1)).push(
            (s[s.len() - 1].0@, json_model(s[s.len() - 1].1)),
        )
    }
}

impl View for JsonValue {
    type V = JsonModel;

    open spec fn view(&self) -> JsonModel {
        json_model(*self)
    }
}

/// `json_models` maps the values one by one.
pub proof fn lemma_json_models(s: Seq<JsonValue>)
    ensures
        json_models(s).len() == s.len(),
        forall|k: int| 0 <= k < s.len() ==> #[trigger] json_models(s)[k] == json_model(s[k]),
    decreases s.len(),
{
    if s.len() > 0 {
        let init = s.subrange(0, s.len() - 1);
        lemma_json_models(init);
        assert forall|k: int| 0 <= k < s.len() implies #[trigger] json_models(s)[k] == json_model(s[k]) by {
            if k < s.len() - 1 {
                assert(init[k] == s[k]);
            }
        }
    }
}

/// `json_member_models` maps the members one by one.
pub proof fn lemma_json_member_models(s: Seq<(String, JsonValue)>)
    ensures
        json_member_models(s).len() == s.len(),
        forall|k: int|
            0 <= k < s.len() ==> #[trigger] json_member_models(s)[k] == (s[k].0@, json_model(s[k].1)),
    decreases s.len(),
{
    if s.len() > 0 {
        let init = s.subrange(0, s.len() - 1);
        lemma_json_member_models(init);
        assert forall|k: int| 0 <= k < s.len() implies #[trigger] json_member_models(s)[k] == (
            s[k].0@,
            json_model(s[k].1),
        ) by {
            if k < s.len() - 1 {
                assert(init[k] == s[k]);
            }
        }
    }
}

/// The compact JSON text of a value: `null`, `true`, `false`, numbers as
/// held, serde_json's string literals (for keys too), and arrays and objects
/// with their elements joined by commas, without spaces.
pub open spec fn compact_text(v: JsonModel) -> Seq<char>
    decreases v,
{
    match v {
        JsonModel::Null => "null"@,
        JsonModel::Bool(b) => if b { "true"@ } else { "false"@ },
        JsonModel::Number(NumberModel::Int(i)) => int_text(i as int),
        JsonModel::Number(NumberModel::Float(t)) => t,
        JsonModel::String(s) => json_string_text(s),
        JsonModel::Array(items) => seq!['['] + compact_list(items) + seq![']'],
        JsonModel::Object(members) => seq!['{'] + compact_members(members) + seq!['}'],
    }
}

/// The texts of `items` joined by commas.
pub open spec fn compact_list(items: Seq<JsonModel>) -> Seq<char>
    decreases items,
{
    if items.len() == 0 {
        Seq::empty()
    } else if items.len() == 1 {
        compact_text(items[0])
    } else {
        compact_list(items.subrange(0, items.len() - 1)) + seq![','] + compact_text(
            items[items.len() - 1],
        )
    }
}

/// The texts of `members` joined by commas, each the key's literal, a colon
/// and the value's text.
pub open spec fn compact_members(members: Seq<(Seq<char>, JsonModel)>) -> Seq<char>
    decreases members,
{
    if members.len() == 0 {
        Seq::empty()
    } else if members.len() == 1 {
        json_string_text(members[0].0) + seq![':'] + compact_text(members[0].1)
    } else {
        compact_members(members.subrange(0, members.len() - 1)) + seq![','] + json_string_text(
            members[members.len() - 1].0,
        ) + seq![':'] + compact_text(members[members.len() - 1].1)
    }
}

/// Whether the keys of `members` are distinct: serde_json's map holds each
/// key once, and writes its members in the order they were inserted.
pub open spec fn json_keys_distinct(members: Seq<(Seq<char>, JsonModel)>) -> bool {
    forall|i: int, j: int| 0 <= i < j < members.len() ==> members[i].0 != members[j].0
}

/// Whether every object inside `v` holds its members as serde_json's map
/// does: each key once.
pub open spec fn json_well_formed(v: JsonModel) -> bool
    decreases v,
{
    match v {
        JsonModel::Array(items) => json_all_well_formed(items),
        JsonModel::Object(members) => json_keys_distinct(members) && json_members_well_formed(members),
        _ => true,
    }
}

/// Whether every value of `items` is well formed.
pub open spec fn json_all_well_formed(items: Seq<JsonModel>) -> bool
    decreases items,
{
    if items.len() == 0 {
        true
    } else {
        json_all_well_formed(items.subrange(0, items.len() - 1)) && json_well_formed(
            items[items.len() - 1],
        )
    }
}

/// Whether the value of every member of `members` is well formed.
pub open spec fn json_members_well_formed(members: Seq<(Seq<char>, JsonModel)>) -> bool
    decreases members,
{
    if members.len() == 0 {
        true
    } else {
        json_members_well_formed(members.subrange(0, members.len() - 1)) && json_well_formed(
            members[members.len() - 1].1,
        )
    }
}

proof fn lemma_json_all_well_formed(items: Seq<JsonModel>, k: int)
    requires
        json_all_well_formed(items),
        0 <= k < items.len(),
    ensures
        json_well_formed(items[k]),
    decreases items.len(),
{
    if k < items.len() - 1 {
        let init = items.subrange(0, items.len() - 1);
        lemma_json_all_well_formed(init, k);
        assert(init[k] == items[k]);
    }
}

proof fn lemma_json_members_well_formed(members: Seq<(Seq<char>, JsonModel)>, k: int)
    requires
        json_members_well_formed(members),
        0 <= k < members.len(),
    ensures
        json_well_formed(members[k].1),
    decreases members.len(),
{
    if k < members.len() - 1 {
        let init = members.subrange(0, members.len() - 1);
        lemma_json_members_well_formed(init, k);
        assert(init[k] == members[k]);
    }
}

impl JsonValue {
    /// The compact JSON text of this value, as `serde_json::to_string` writes
    /// it for a `Value` with the same contents: no spaces, serde_json's string
    /// literals for strings and keys, integers in decimal, floats as the
    /// text held, and elements joined by commas. Objects hold their members
    /// as serde_json's map does (`json_well_formed`).
    pub fn to_compact_string(&self) -> (r: String)
        requires
            json_well_formed(self@),
        ensures
            r@ == compact_text(self@),
        decreases self,
    {
        match self {
            JsonValue::Null => String::from_str("null"),
            JsonValue::Bool(b) => if *b {
                String::from_str("true")
            } else {
                String::from_str("false")
            },
            JsonValue::Number(JsonNumber::Int(i)) => format_i64(*i),
            JsonValue::Number(JsonNumber::Float(t)) => t.clone(),
            JsonValue::String(s) => json_string(s.as_str()),
            JsonValue::Array(items) => {
                let ghost m = json_models(items@);
                proof {
                    lemma_json_models(items@);
                }
                let mut out = String::new();
                push_char(&mut out, '[');
                let mut k: usize = 0;
                while k < items.len()
                    invariant
                        k <= items@.len(),
                        *self == JsonValue::Array(*items),
                        m == json_models(items@),
                        m.len() == items@.len(),
                        forall|j: int| 0 <= j < items@.len() ==> #[trigger] m[j] == json_model(items@[j]),
                        json_all_well_formed(m),
                        out@ == seq!['['] + compact_list(m.take(k as int)),
                    decreases items@.len() - k,
                {
                    let ghost before = m.take(k as int);
                    let ghost after = m.take(k + 1);
                    assert(after.subrange(0, after.len() - 1) == before);
                    assert(after[after.len() - 1] == m[k as int]);
                    if k > 0 {
                        push_char(&mut out, ',');
                    }
                    proof {
                        assert(decreases_to!(*self => self->Array_0));
                        assert(self->Array_0 == *items);
                        assert(decreases_to!(*items => items@));
                        assert(decreases_to!(items@ => items@[k as int]));
                    }
                    proof {
                        lemma_json_all_well_formed(m, k as int);
                    }
                    let t = items[k].to_compact_string();
                    out.append(t.as_str());
                    k = k + 1;
                }
                assert(m.take(k as int) == m);
                push_char(&mut out, ']');
                out
            },
            JsonValue::Object(members) => {
                let ghost m = json_member_models(members@);
                proof {
                    lemma_json_member_models(members@);
                }
                let mut out = String::new();
                push_char(&mut out, '{');
                let mut k: usize = 0;
                while k < members.len()
                    invariant
                        k <= members@.len(),
                        *self == JsonValue::Object(*members),
                        m == json_member_models(members@),
                        m.len() == members@.len(),
                        forall|j: int|
                            0 <= j < members@.len() ==> #[trigger] m[j] == (
                                members@[j].0@,
                                json_model(members@[j].1),
                            ),
                        json_members_well_formed(m),
                        out@ == seq!['{'] + compact_members(m.take(k as int)),
                    decreases members@.len() - k,
                {
                    let ghost before = m.take(k as int);
                    let ghost after = m.take(k + 1);
                    assert(after.subrange(0, after.len() - 1) == before);
                    assert(after[after.len() - 1] == m[k as int]);
                    if k > 0 {
                        push_char(&mut out, ',');
                    }
                    let key = json_string(members[k].0.as_str());
                    out.append(key.as_str());
                    push_char(&mut out, ':');
                    proof {
                        assert(decreases_to!(*self => self->Object_0));
                        assert(self->Object_0 == *members);
                        assert(decreases_to!(*members => members@));
                        assert(decreases_to!(members@ => members@[k as int]));
                        assert(decreases_to!(members@[k as int] => members@[k as int].1));
                    }
                    proof {
                        lemma_json_members_well_formed(m, k as int);
                    }
                    let t = members[k].1.to_compact_string();
                    out.append(t.as_str());
                    k = k + 1;
                }
                assert(m.take(k as int) == m);
                push_char(&mut out, '}');
                out
            },
        }
    }
}


/// The JSON value that `convex_value_to_serde_json` reads from the `Debug`
/// text `debug` of a Convex value.
///
/// `float_json` is, where the text inside `Float64(…)` parses as a finite
/// `f64`, the text that serde_json writes for that float.
pub open spec fn json_of_debug(debug: Seq<char>, float_json: Option<Seq<char>>) -> JsonModel {
    if debug == null_word() {
        JsonModel::Null
    } else if between(debug, string_open(), string_close()) is Some {
        JsonModel::String(between(debug, string_open(), string_close())->0)
    } else if between(debug, int_open(), paren_close()) is Some && parse_i64_spec(
        between(debug, int_open(), paren_close())->0,
    ) is Some {
        JsonModel::Number(
            NumberModel::Int(parse_i64_spec(between(debug, int_open(), paren_close())->0)->0),
        )
    } else if float_inner_text(debug) is Some && float_json is Some {
        JsonModel::Number(NumberModel::Float(float_json->0))
    } else if has_prefix(debug, array_open()) && has_suffix(debug, array_close()) {
        let inner = debug.subrange(7, debug.len() - 2);
        if inner.len() == 0 {
            JsonModel::Array(Seq::empty())
        } else {
            JsonModel::Array(seq![JsonModel::String(inner)])
        }
    } else if has_prefix(debug, object_open()) && has_suffix(debug, object_close()) {
        let inner = debug.subrange(8, debug.len() - 2);
        if inner.len() == 0 {
            JsonModel::Object(Seq::empty())
        } else {
            JsonModel::Object(seq![("debug"@, JsonModel::String(inner))])
        }
    } else {
        JsonModel::String(debug)
    }
}

/// Reads a JSON value from the `Debug` text of a Convex value: `null`; the
/// text inside `String("…")` as a string (escapes kept); an `Int64(…)` whose
/// inside parses as an `i64`, and a finite `Float64(…)`, as numbers; an
/// `Array([…])` as an empty array, or one holding the inside text as a
/// string; an `Object({…})` as an empty object, or one whose member `debug`
/// holds the inside text; and anything else as a string of the whole text.
pub fn convex_value_to_serde_json(debug: &str, float_json: Option<String>) -> (v: JsonValue)
    ensures
        v@ == json_of_debug(debug@, opt_view(float_json)),
        json_well_formed(v@),
{
    let d = chars_of(debug);
    if same_chars(&d, &crate::debug_text::null_word_chars()) {
        return JsonValue::Null;
    }
    if let Some(t) = strip_around(&d, &crate::debug_text::string_open_chars(), &crate::debug_text::string_close_chars()) {
        return JsonValue::String(string_of(&t));
    }
    if let Some(t) = strip_around(&d, &crate::debug_text::int_open_chars(), &crate::debug_text::paren_close_chars()) {
        if let Some(i) = parse_i64_chars(&t) {
            return JsonValue::Number(JsonNumber::Int(i));
        }
    }
    if let Some(_) = strip_around(&d, &crate::debug_text::float_open_chars(), &crate::debug_text::paren_close_chars()) {
        if let Some(f) = float_json {
            return JsonValue::Number(JsonNumber::Float(f));
        }
    }
    if starts_with(&d, &array_open_chars()) && ends_with(&d, &array_close_chars()) {
        let n = d.len();
        assert(d@.subrange(0, 7)[6] == d@[6]);
        assert(d@.subrange(0, 7)[5] == d@[5]);
        assert(d@.subrange(n - 2, n as int)[0] == d@[n - 2]);
        let inner = slice_chars(&d, 7, n - 2);
        if inner.len() == 0 {
            let v = JsonValue::Array(Vec::new());
            assert(v@ == JsonModel::Array(Seq::empty()));
            return v;
        } else {
            let mut items: Vec<JsonValue> = Vec::new();
            items.push(JsonValue::String(string_of(&inner)));
            let v = JsonValue::Array(items);
            proof {
                lemma_json_models(items@);
                assert(json_models(items@) =~= seq![JsonModel::String(inner@)]);
                let ghost one = seq![JsonModel::String(inner@)];
                assert(one.subrange(0, 0) =~= Seq::<JsonModel>::empty());
                assert(json_all_well_formed(one.subrange(0, 0)));
                assert(json_well_formed(one[0]));
                assert(json_all_well_formed(one));
            }
            assert(v@ == JsonModel::Array(seq![JsonModel::String(inner@)]));
            return v;
        }
    }
    if starts_with(&d, &object_open_chars()) && ends_with(&d, &object_close_chars()) {
        let n = d.len();
        assert(d@.subrange(0, 8)[7] == d@[7]);
        assert(d@.subrange(0, 8)[6] == d@[6]);
        assert(d@.subrange(n - 2, n as int)[0] == d@[n - 2]);
        let inner = slice_chars(&d, 8, n - 2);
        if inner.len() == 0 {
            let v = JsonValue::Object(Vec::new());
            assert(v@ == JsonModel::Object(Seq::empty()));
            return v;
        } else {
            let mut members: Vec<(String, JsonValue)> = Vec::new();
            members.push((String::from_str("debug"), JsonValue::String(string_of(&inner))));
            let v = JsonValue::Object(members);
            proof {
                lemma_json_member_models(members@);
                assert(json_member_models(members@) =~= seq![("debug"@, JsonModel::String(inner@))]);
                let ghost one = seq![("debug"@, JsonModel::String(inner@))];
                assert(one.subrange(0, 0) =~= Seq::<(Seq<char>, JsonModel)>::empty());
                assert(json_members_well_formed(one.subrange(0, 0)));
                assert(json_well_formed(one[0].1));
                assert(json_members_well_formed(one));
                assert(json_keys_distinct(one));
            }
            assert(v@ == JsonModel::Object(seq![("debug"@, JsonModel::String(inner@))]));
            return v;
        }
    }
    JsonValue::String(string_of(&d))
}

/// The JSON text of a Convex value given by its `Debug` text: the compact
/// text of what `convex_value_to_serde_json` reads from it.
pub fn convex_value_to_json(debug: &str, float_json: Option<String>) -> (r: String)
    ensures
        r@ == compact_text(json_of_debug(debug@, opt_view(float_json))),
{
    convex_value_to_serde_json(debug, float_json).to_compact_string()
}

} // verus!
