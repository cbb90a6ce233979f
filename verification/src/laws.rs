//! Properties that relate several functions of the library.

use vstd::prelude::*;
use crate::args::args_map;
use crate::call::{argument_text_of, argument_texts};
use crate::value::ConvexValue;
use crate::subscription::{unquoted_text, unquoted_texts};
use crate::debug_text::{
    array_close, array_open, converted, float_open, int_open, null_word, object_close, object_open,
    paren_close, string_close, string_open,
};
use crate::decimal::{int_text, lemma_parse_int_text, parse_i64_spec};
use crate::json_value::{compact_list, compact_members, compact_text, json_of_debug, JsonModel, NumberModel};
use crate::json::{json_string_text, law_string_literal_reads_back, unescaped_text};
use crate::text::{between, has_prefix, has_suffix};
use crate::value::{json_text, list_text, members_text, member_text, ValueModel};

verus! {

/// The `Debug` text of a Convex integer, `Int64(` and its decimal text and `)`.
pub open spec fn int_debug_text(i: i64) -> Seq<char> {
    int_open() + int_text(i as int) + paren_close()
}

/// The `Debug` text of a Convex string whose escaped text is `escaped`.
pub open spec fn string_debug_text(escaped: Seq<char>) -> Seq<char> {
    string_open() + escaped + string_close()
}

proof fn lemma_between_int(i: i64)
    ensures
        between(int_debug_text(i), int_open(), paren_close()) == Some(int_text(i as int)),
        int_debug_text(i) != null_word(),
        between(int_debug_text(i), string_open(), string_close()) is None,
{
    let d = int_debug_text(i);
    let t = int_text(i as int);
    assert(d.subrange(0, 6) =~= int_open());
    assert(d.subrange(6, d.len() as int) =~= t + paren_close());
    let rest = d.subrange(6, d.len() as int);
    assert(rest.subrange(rest.len() - 1, rest.len() as int) =~= paren_close());
    assert(d.subrange(6, d.len() - 1) =~= t);
    assert(d[0] == 'I');
    assert(d.subrange(0, 8)[0] == 'I');
}

/// Reading the `Debug` text of a Convex integer gives that integer back,
/// whatever the float reading beside it.
pub proof fn law_int_debug_round_trip(i: i64, float_display: Option<Seq<char>>)
    ensures
        converted(int_debug_text(i), float_display) == ValueModel::Int64(i),
        json_of_debug(int_debug_text(i), float_display) == JsonModel::Number(NumberModel::Int(i)),
{
    lemma_between_int(i);
    lemma_parse_int_text(i);
}

/// An integer update of a subscription written as JSON is its decimal text.
pub proof fn law_int_update_is_decimal(i: i64, float_json: Option<Seq<char>>)
    ensures
        compact_text(json_of_debug(int_debug_text(i), float_json)) == int_text(i as int),
{
    law_int_debug_round_trip(i, float_json);
}

/// Reading the `Debug` text of a Convex string gives a string holding the
/// text between the quotes, as it stands.
pub proof fn law_string_debug_round_trip(escaped: Seq<char>, float_display: Option<Seq<char>>)
    ensures
        converted(string_debug_text(escaped), float_display) == ValueModel::String(escaped),
        json_of_debug(string_debug_text(escaped), float_display) == JsonModel::String(escaped),
{
    let d = string_debug_text(escaped);
    assert(d.subrange(0, 8) =~= string_open());
    let rest = d.subrange(8, d.len() as int);
    assert(rest =~= escaped + string_close());
    assert(rest.subrange(rest.len() - 2, rest.len() as int) =~= string_close());
    assert(d.subrange(8, d.len() - 2) =~= escaped);
    assert(d[0] == 'S');
    assert(d.len() >= 4 && null_word()[0] == 'N');
}

/// The text sent for an integer argument, and its JSON text, read back as an
/// `i64` give the integer.
pub proof fn law_int_text_round_trip(i: i64)
    ensures
        parse_i64_spec(argument_text_of(ValueModel::Int64(i))) == Some(i),
        parse_i64_spec(json_text(ValueModel::Int64(i))) == Some(i),
{
    lemma_parse_int_text(i);
}

/// A name that no later argument repeats is sent with its own text: a name
/// given several times keeps the text given last.
pub proof fn law_last_argument_wins(args: Seq<(Seq<char>, Seq<char>)>, i: int)
    requires
        0 <= i < args.len(),
        forall|j: int| i < j < args.len() ==> args[j].0 != args[i].0,
    ensures
        args_map(args).contains_key(args[i].0),
        args_map(args)[args[i].0] == args[i].1,
    decreases args.len(),
{
    if i < args.len() - 1 {
        let init = args.drop_last();
        assert forall|j: int| i < j < init.len() implies init[j].0 != init[i].0 by {
            assert(init[j] == args[j]);
        }
        law_last_argument_wins(init, i);
        assert(init[i] == args[i]);
    }
}

/// The JSON text of a string value, and of a string update of a
/// subscription written as JSON, is serde_json's literal of the string, and
/// JSON reads the string back from it.
pub proof fn law_string_json_reads_back(s: Seq<char>, float_json: Option<Seq<char>>)
    ensures
        json_text(ValueModel::String(s)) == json_string_text(s),
        compact_text(json_of_debug(string_debug_text(s), float_json)) == json_string_text(s),
        unescaped_text(json_string_text(s).subrange(1, json_string_text(s).len() - 1)) == s,
{
    law_string_debug_round_trip(s, float_json);
    law_string_literal_reads_back(s);
}

proof fn lemma_list_split(a: Seq<ValueModel>, b: Seq<ValueModel>)
    requires
        a.len() > 0,
        b.len() > 0,
    ensures
        list_text(a + b) == list_text(a) + seq![','] + list_text(b),
    decreases b.len(),
{
    let ab = a + b;
    if b.len() == 1 {
        assert(ab.subrange(0, ab.len() - 1) == a);
        assert(ab[ab.len() - 1] == b[0]);
    } else {
        let b2 = b.subrange(0, b.len() - 1);
        lemma_list_split(a, b2);
        assert(ab.subrange(0, ab.len() - 1) == a + b2);
        assert(ab[ab.len() - 1] == b[b.len() - 1]);
    }
}

proof fn lemma_members_split(a: Seq<(Seq<char>, ValueModel)>, b: Seq<(Seq<char>, ValueModel)>)
    requires
        a.len() > 0,
        b.len() > 0,
    ensures
        members_text(a + b) == members_text(a) + seq![','] + members_text(b),
    decreases b.len(),
{
    let ab = a + b;
    if b.len() == 1 {
        assert(ab.subrange(0, ab.len() - 1) == a);
        assert(ab[ab.len() - 1] == b[0]);
    } else {
        let b2 = b.subrange(0, b.len() - 1);
        lemma_members_split(a, b2);
        assert(ab.subrange(0, ab.len() - 1) == a + b2);
        assert(ab[ab.len() - 1] == b[b.len() - 1]);
    }
}

/// An array of one value is written as that value's own JSON text between
/// brackets, the same text it has on its own.
pub proof fn law_array_of_one(v: ValueModel)
    ensures
        json_text(ValueModel::Array(seq![v])) == seq!['['] + json_text(v) + seq![']'],
{
}

/// An object of one member is written as its key between double quotes, a
/// colon, and the value's own JSON text, between braces.
pub proof fn law_object_of_one(key: Seq<char>, v: ValueModel)
    ensures
        json_text(ValueModel::Object(seq![(key, v)])) == seq!['{', '"'] + key + seq!['"', ':']
            + json_text(v) + seq!['}'],
{
    assert(member_text(key, json_text(v)) == seq!['"'] + key + seq!['"', ':'] + json_text(v));
    assert(seq!['{'] + (seq!['"'] + key + seq!['"', ':'] + json_text(v)) + seq!['}'] =~= seq![
        '{',
        '"',
    ] + key + seq!['"', ':'] + json_text(v) + seq!['}']);
}

/// A string member of an object is written as serde_json's literal of the
/// string, which JSON reads back as the string.
pub proof fn law_object_string_member(key: Seq<char>, s: Seq<char>)
    ensures
        json_text(ValueModel::Object(seq![(key, ValueModel::String(s))])) == seq!['{', '"'] + key
            + seq!['"', ':'] + json_string_text(s) + seq!['}'],
        unescaped_text(json_string_text(s).subrange(1, json_string_text(s).len() - 1)) == s,
{
    law_object_of_one(key, ValueModel::String(s));
    law_string_literal_reads_back(s);
}

/// Joining two non-empty arrays joins their texts: the first without its
/// closing bracket, a comma, and the second without its opening bracket.
pub proof fn law_array_join(a: Seq<ValueModel>, b: Seq<ValueModel>)
    requires
        a.len() > 0,
        b.len() > 0,
    ensures
        ({
            let ta = json_text(ValueModel::Array(a));
            let tb = json_text(ValueModel::Array(b));
            json_text(ValueModel::Array(a + b)) == ta.subrange(0, ta.len() - 1) + seq![',']
                + tb.subrange(1, tb.len() as int)
        }),
{
    lemma_list_split(a, b);
    let ta = json_text(ValueModel::Array(a));
    let tb = json_text(ValueModel::Array(b));
    assert(ta.subrange(0, ta.len() - 1) == seq!['['] + list_text(a));
    assert(tb.subrange(1, tb.len() as int) == list_text(b) + seq![']']);
    assert(json_text(ValueModel::Array(a + b)) =~= ta.subrange(0, ta.len() - 1) + seq![',']
        + tb.subrange(1, tb.len() as int));
}

/// Joining the members of two non-empty objects joins their texts: the
/// first without its closing brace, a comma, and the second without its
/// opening brace.
pub proof fn law_object_join(a: Seq<(Seq<char>, ValueModel)>, b: Seq<(Seq<char>, ValueModel)>)
    requires
        a.len() > 0,
        b.len() > 0,
    ensures
        ({
            let ta = json_text(ValueModel::Object(a));
            let tb = json_text(ValueModel::Object(b));
            json_text(ValueModel::Object(a + b)) == ta.subrange(0, ta.len() - 1) + seq![',']
                + tb.subrange(1, tb.len() as int)
        }),
{
    lemma_members_split(a, b);
    let ta = json_text(ValueModel::Object(a));
    let tb = json_text(ValueModel::Object(b));
    assert(ta.subrange(0, ta.len() - 1) == seq!['{'] + members_text(a));
    assert(tb.subrange(1, tb.len() as int) == members_text(b) + seq!['}']);
    assert(json_text(ValueModel::Object(a + b)) =~= ta.subrange(0, ta.len() - 1) + seq![',']
        + tb.subrange(1, tb.len() as int));
}

/// Empty arrays and objects are written `[]` and `{}`.
pub proof fn law_empty_containers()
    ensures
        json_text(ValueModel::Array(Seq::empty())) == seq!['[', ']'],
        json_text(ValueModel::Object(Seq::empty())) == seq!['{', '}'],
{
    assert(json_text(ValueModel::Array(Seq::empty())) =~= seq!['[', ']']);
    assert(json_text(ValueModel::Object(Seq::empty())) =~= seq!['{', '}']);
}

/// The text sent for an argument is the value's JSON text, except that a
/// string is sent as it is, without quotes or escapes.
pub proof fn law_argument_text_is_json_text(v: ValueModel)
    ensures
        !(v is String) ==> argument_text_of(v) == json_text(v),
        v is String ==> argument_text_of(v) == v->String_0,
{
}

proof fn lemma_between_wrapped(open: Seq<char>, t: Seq<char>, close: Seq<char>)
    ensures
        between(open + t + close, open, close) == Some(t),
        has_prefix(open + t + close, open),
        has_suffix(open + t + close, close),
        (open + t + close).subrange(open.len() as int, (open + t + close).len() - close.len()) == t,
{
    let d = open + t + close;
    assert(d.subrange(0, open.len() as int) =~= open);
    let rest = d.subrange(open.len() as int, d.len() as int);
    assert(rest =~= t + close);
    assert(rest.subrange(rest.len() - close.len(), rest.len() as int) =~= close);
    assert(d.subrange(d.len() - close.len(), d.len() as int) =~= close);
    assert(d.subrange(open.len() as int, d.len() - close.len()) =~= t);
}

proof fn lemma_first_char_differs(s: Seq<char>, p: Seq<char>, close: Seq<char>)
    requires
        p.len() > 0,
        s.len() == 0 || s[0] != p[0],
    ensures
        !has_prefix(s, p),
        between(s, p, close) is None,
        s != p,
{
    if s.len() > 0 && p.len() <= s.len() {
        assert(s.subrange(0, p.len() as int)[0] == s[0]);
    }
}

/// The `Debug` text of a Convex float whose inside is `t`.
pub open spec fn float_debug_text(t: Seq<char>) -> Seq<char> {
    float_open() + t + paren_close()
}

/// Reading the `Debug` text of a Convex float gives a float holding the
/// reading that the caller parsed from its inside, whatever that reading is;
/// with no reading (the inside is no `f64`) it gives the whole text as a
/// string. The same holds of the JSON reading.
pub proof fn law_float_debug_reading(t: Seq<char>, d: Seq<char>)
    ensures
        converted(float_debug_text(t), Some(d)) == ValueModel::Float64(d),
        converted(float_debug_text(t), None) == ValueModel::String(float_debug_text(t)),
        json_of_debug(float_debug_text(t), Some(d)) == JsonModel::Number(NumberModel::Float(d)),
        json_of_debug(float_debug_text(t), None) == JsonModel::String(float_debug_text(t)),
{
    let x = float_debug_text(t);
    lemma_between_wrapped(float_open(), t, paren_close());
    lemma_first_char_differs(x, null_word(), paren_close());
    lemma_first_char_differs(x, string_open(), string_close());
    lemma_first_char_differs(x, int_open(), paren_close());
    lemma_first_char_differs(x, array_open(), array_close());
    lemma_first_char_differs(x, object_open(), object_close());
}

/// Reading the `Debug` text of a Convex array gives an empty array, whatever
/// is inside; the JSON reading gives an empty array when nothing is inside,
/// and otherwise an array holding the inside as one string.
pub proof fn law_array_debug_reading(c: Seq<char>, f: Option<Seq<char>>)
    ensures
        converted(array_open() + c + array_close(), f) == ValueModel::Array(Seq::empty()),
        json_of_debug(array_open() + c + array_close(), f) == (if c.len() == 0 {
            JsonModel::Array(Seq::empty())
        } else {
            JsonModel::Array(seq![JsonModel::String(c)])
        }),
{
    let x = array_open() + c + array_close();
    lemma_between_wrapped(array_open(), c, array_close());
    lemma_first_char_differs(x, null_word(), paren_close());
    lemma_first_char_differs(x, string_open(), string_close());
    lemma_first_char_differs(x, int_open(), paren_close());
    lemma_first_char_differs(x, float_open(), paren_close());
}

/// Reading the `Debug` text of a Convex object gives an empty object,
/// whatever is inside; the JSON reading gives an empty object when nothing
/// is inside, and otherwise an object whose one member `debug` holds the
/// inside as a string.
pub proof fn law_object_debug_reading(c: Seq<char>, f: Option<Seq<char>>)
    ensures
        converted(object_open() + c + object_close(), f) == ValueModel::Object(Seq::empty()),
        json_of_debug(object_open() + c + object_close(), f) == (if c.len() == 0 {
            JsonModel::Object(Seq::empty())
        } else {
            JsonModel::Object(seq![("debug"@, JsonModel::String(c))])
        }),
{
    let x = object_open() + c + object_close();
    lemma_between_wrapped(object_open(), c, object_close());
    lemma_first_char_differs(x, null_word(), paren_close());
    lemma_first_char_differs(x, string_open(), string_close());
    lemma_first_char_differs(x, int_open(), paren_close());
    lemma_first_char_differs(x, float_open(), paren_close());
    lemma_first_char_differs(x, array_open(), array_close());
}

/// A text that begins with none of the shapes' first letters is read, by
/// both readings, as a string holding the whole text.
pub proof fn law_other_debug_reading(debug: Seq<char>, f: Option<Seq<char>>)
    requires
        debug.len() == 0 || (debug[0] != 'N' && debug[0] != 'S' && debug[0] != 'I' && debug[0]
            != 'F' && debug[0] != 'A' && debug[0] != 'O'),
    ensures
        converted(debug, f) == ValueModel::String(debug),
        json_of_debug(debug, f) == JsonModel::String(debug),
{
    lemma_first_char_differs(debug, null_word(), paren_close());
    lemma_first_char_differs(debug, string_open(), string_close());
    lemma_first_char_differs(debug, int_open(), paren_close());
    lemma_first_char_differs(debug, float_open(), paren_close());
    lemma_first_char_differs(debug, array_open(), array_close());
    lemma_first_char_differs(debug, object_open(), object_close());
}

/// Scalars are written as JSON scalars: null and bytes as `null`, an integer
/// in decimal, a float as the text it holds, a string as serde_json's
/// literal.
pub proof fn law_scalar_json_texts(i: i64, t: Seq<char>, b: Seq<u8>)
    ensures
        json_text(ValueModel::Null) == "null"@,
        json_text(ValueModel::Bytes(b)) == "null"@,
        json_text(ValueModel::Int64(i)) == int_text(i as int),
        json_text(ValueModel::Float64(t)) == t,
        json_text(ValueModel::String(t)) == json_string_text(t),
{
    reveal_strlit("null");
    assert(crate::value::null_text() =~= "null"@);
}

/// The JSON writer for JSON values: `null`, `true`, `false`, integers in
/// decimal, floats as held, strings and keys as serde_json's literals; an
/// array of one value and an object of one member hold that value's own
/// text; and joining two non-empty arrays or objects joins their texts.
pub proof fn law_compact_texts(
    v: JsonModel,
    key: Seq<char>,
    i: i64,
    t: Seq<char>,
    a: Seq<JsonModel>,
    b: Seq<JsonModel>,
    ma: Seq<(Seq<char>, JsonModel)>,
    mb: Seq<(Seq<char>, JsonModel)>,
)
    ensures
        compact_text(JsonModel::Null) == "null"@,
        compact_text(JsonModel::Bool(true)) == "true"@,
        compact_text(JsonModel::Bool(false)) == "false"@,
        compact_text(JsonModel::Number(NumberModel::Int(i))) == int_text(i as int),
        compact_text(JsonModel::Number(NumberModel::Float(t))) == t,
        compact_text(JsonModel::String(t)) == json_string_text(t),
        compact_text(JsonModel::Array(seq![v])) == seq!['['] + compact_text(v) + seq![']'],
        compact_text(JsonModel::Object(seq![(key, v)])) == seq!['{'] + json_string_text(key) + seq![
            ':',
        ] + compact_text(v) + seq!['}'],
        (a.len() > 0 && b.len() > 0) ==> compact_text(JsonModel::Array(a + b)) == seq!['[']
            + compact_list(a) + seq![','] + compact_list(b) + seq![']'],
        (a.len() > 0) ==> compact_text(JsonModel::Array(a)) == seq!['['] + compact_list(a) + seq![']'],
        (ma.len() > 0 && mb.len() > 0) ==> compact_text(JsonModel::Object(ma + mb)) == seq!['{']
            + compact_members(ma) + seq![','] + compact_members(mb) + seq!['}'],
{
    if a.len() > 0 && b.len() > 0 {
        lemma_compact_list_split(a, b);
    }
    if ma.len() > 0 && mb.len() > 0 {
        lemma_compact_members_split(ma, mb);
    }
    assert(seq!['{'] + (json_string_text(key) + seq![':'] + compact_text(v)) + seq!['}'] =~= seq![
        '{',
    ] + json_string_text(key) + seq![':'] + compact_text(v) + seq!['}']);
}

proof fn lemma_compact_list_split(a: Seq<JsonModel>, b: Seq<JsonModel>)
    requires
        a.len() > 0,
        b.len() > 0,
    ensures
        compact_list(a + b) == compact_list(a) + seq![','] + compact_list(b),
    decreases b.len(),
{
    let ab = a + b;
    if b.len() == 1 {
        assert(ab.subrange(0, ab.len() - 1) == a);
        assert(ab[ab.len() - 1] == b[0]);
    } else {
        let b2 = b.subrange(0, b.len() - 1);
        lemma_compact_list_split(a, b2);
        assert(ab.subrange(0, ab.len() - 1) == a + b2);
        assert(ab[ab.len() - 1] == b[b.len() - 1]);
    }
}

proof fn lemma_compact_members_split(a: Seq<(Seq<char>, JsonModel)>, b: Seq<(Seq<char>, JsonModel)>)
    requires
        a.len() > 0,
        b.len() > 0,
    ensures
        compact_members(a + b) == compact_members(a) + seq![','] + compact_members(b),
    decreases b.len(),
{
    let ab = a + b;
    if b.len() == 1 {
        assert(ab.subrange(0, ab.len() - 1) == a);
        assert(ab[ab.len() - 1] == b[0]);
    } else {
        let b2 = b.subrange(0, b.len() - 1);
        lemma_compact_members_split(a, b2);
        assert(ab.subrange(0, ab.len() - 1) == a + b2);
        assert(ab[ab.len() - 1] == b[b.len() - 1]);
    }
}

/// Reading `Null` gives null; reading `Int64(…)` whose inside is not an
/// `i64` gives the whole text as a string.
pub proof fn law_null_and_bad_int_reading(t: Seq<char>, f: Option<Seq<char>>)
    ensures
        converted(null_word(), f) == ValueModel::Null,
        json_of_debug(null_word(), f) == JsonModel::Null,
        parse_i64_spec(t) is None ==> converted(int_open() + t + paren_close(), f)
            == ValueModel::String(int_open() + t + paren_close()),
        parse_i64_spec(t) is None ==> json_of_debug(int_open() + t + paren_close(), f)
            == JsonModel::String(int_open() + t + paren_close()),
{
    let x = int_open() + t + paren_close();
    lemma_between_wrapped(int_open(), t, paren_close());
    lemma_first_char_differs(x, null_word(), paren_close());
    lemma_first_char_differs(x, string_open(), string_close());
    lemma_first_char_differs(x, float_open(), paren_close());
    lemma_first_char_differs(x, array_open(), array_close());
    lemma_first_char_differs(x, object_open(), object_close());
}

/// The arguments of a call are sent under the names they were given: every
/// given name is sent, only given names are sent, and a name that no later
/// argument repeats carries the text of its own value.
pub proof fn law_call_argument_names(args: Seq<(String, ConvexValue)>, i: int, name: Seq<char>)
    ensures
        args_map(argument_texts(args)).contains_key(name) <==> exists|j: int|
            0 <= j < args.len() && #[trigger] args[j].0@ == name,
        (0 <= i < args.len() && forall|j: int| i < j < args.len() ==> args[j].0@ != args[i].0@)
            ==> args_map(argument_texts(args))[args[i].0@] == argument_text_of(args[i].1@),
{
    let p = argument_texts(args);
    lemma_args_map_names(p, name);
    if exists|j: int| 0 <= j < args.len() && #[trigger] args[j].0@ == name {
        let j = choose|j: int| 0 <= j < args.len() && #[trigger] args[j].0@ == name;
        assert(p[j].0 == name);
    }
    if exists|j: int| 0 <= j < p.len() && #[trigger] p[j].0 == name {
        let j = choose|j: int| 0 <= j < p.len() && #[trigger] p[j].0 == name;
        assert(args[j].0@ == name);
    }
    if 0 <= i < args.len() && forall|j: int| i < j < args.len() ==> args[j].0@ != args[i].0@ {
        assert forall|j: int| i < j < p.len() implies p[j].0 != p[i].0 by {
            assert(p[j].0 == args[j].0@);
        }
        law_last_argument_wins(p, i);
    }
}

/// A map built from pairs holds exactly the names of the pairs.
pub proof fn lemma_args_map_names(p: Seq<(Seq<char>, Seq<char>)>, name: Seq<char>)
    ensures
        args_map(p).contains_key(name) <==> exists|j: int| 0 <= j < p.len() && #[trigger] p[j].0 == name,
    decreases p.len(),
{
    if p.len() > 0 {
        let init = p.drop_last();
        lemma_args_map_names(init, name);
        if exists|j: int| 0 <= j < init.len() && #[trigger] init[j].0 == name {
            let j = choose|j: int| 0 <= j < init.len() && #[trigger] init[j].0 == name;
            assert(p[j].0 == name);
        }
        if exists|j: int| 0 <= j < p.len() && #[trigger] p[j].0 == name {
            let j = choose|j: int| 0 <= j < p.len() && #[trigger] p[j].0 == name;
            if j < p.len() - 1 {
                assert(init[j].0 == name);
            }
        }
    }
}

/// The arguments of a subscription are sent under the names they were
/// given: every given name is sent, only given names are sent, and a name
/// that no later argument repeats carries its own value text, unquoted.
pub proof fn law_subscribe_argument_names(args: Seq<(String, String)>, i: int, name: Seq<char>)
    ensures
        args_map(unquoted_texts(args)).contains_key(name) <==> exists|j: int|
            0 <= j < args.len() && #[trigger] args[j].0@ == name,
        (0 <= i < args.len() && forall|j: int| i < j < args.len() ==> args[j].0@ != args[i].0@)
            ==> args_map(unquoted_texts(args))[args[i].0@] == unquoted_text(args[i].1@),
{
    let p = unquoted_texts(args);
    lemma_args_map_names(p, name);
    if exists|j: int| 0 <= j < args.len() && #[trigger] args[j].0@ == name {
        let j = choose|j: int| 0 <= j < args.len() && #[trigger] args[j].0@ == name;
        assert(p[j].0 == name);
    }
    if exists|j: int| 0 <= j < p.len() && #[trigger] p[j].0 == name {
        let j = choose|j: int| 0 <= j < p.len() && #[trigger] p[j].0 == name;
        assert(args[j].0@ == name);
    }
    if 0 <= i < args.len() && forall|j: int| i < j < args.len() ==> args[j].0@ != args[i].0@ {
        assert forall|j: int| i < j < p.len() implies p[j].0 != p[i].0 by {
            assert(p[j].0 == args[j].0@);
        }
        law_last_argument_wins(p, i);
    }
}

} // verus!
