//! Values exchanged with a Convex deployment, and their JSON text.

use vstd::prelude::*;
use crate::decimal::{format_i64, int_text};
use crate::json::{json_string, json_string_text};
use crate::text::push_char;

verus! {

/// A value passed to or received from a Convex function.
///
/// A 64-bit float is held as the text that Rust's `Display` writes for it
/// (`1.5`, `-0`, `NaN`, `inf`): that text is all the library reads of a
/// float. An object is a list of key/value members whose keys are distinct
/// (see `well_formed`), written in the order held.
#[derive(Debug)]
pub enum ConvexValue {
    Null,
    String(String),
    Int64(i64),
    Float64(String),
    Array(Vec<ConvexValue>),
    Object(Vec<(String, ConvexValue)>),
    Bytes(Vec<u8>),
}

/// An error reported to the Dart side.
#[derive(Debug, Clone)]
pub struct ConvexError {
    pub message: String,
}

/// The mathematical model of a `ConvexValue`.
pub enum ValueModel {
    Null,
    String(Seq<char>),
    Int64(i64),
    Float64(Seq<char>),
    Array(Seq<ValueModel>),
    Object(Seq<(Seq<char>, ValueModel)>),
    Bytes(Seq<u8>),
}

/// The model of `v`.
pub open spec fn model_of(v: ConvexValue) -> ValueModel
    decreases v,
{
    match v {
        ConvexValue::Null => ValueModel::Null,
        ConvexValue::String(s) => ValueModel::String(s@),
        ConvexValue::Int64(i) => ValueModel::Int64(i),
        ConvexValue::Float64(t) => ValueModel::Float64(t@),
        ConvexValue::Array(items) => ValueModel::Array(models_of(items@)),
        ConvexValue::Object(members) => ValueModel::Object(member_models_of(members@)),
        ConvexValue::Bytes(b) => ValueModel::Bytes(b@),
    }
}

/// The models of the values `s`, in order.
pub open spec fn models_of(s: Seq<ConvexValue>) -> Seq<ValueModel>
    decreases s,
{
    if s.len() == 0 {
        Seq::empty()
    } else {
        models_of(s.subrange(0, s.len() - 1)).push(model_of(s[s.len() - 1]))
    }
}

/// The models of the object members `s`, in order.
pub open spec fn member_models_of(s: Seq<(String, ConvexValue)>) -> Seq<(Seq<char>, ValueModel)>
    decreases s,
{
    if s.len() == 0 {
        Seq::empty()
    } else {
        member_models_of(s.subrange(0, s.len() - 1)).push(
            (s[s.len() - 1].0@, model_of(s[s.len() - 1].1)),
        )
    }
}

impl View for ConvexValue {
    type V = ValueModel;

    open spec fn view(&self) -> ValueModel {
        model_of(*self)
    }
}


/// `models_of` maps the values one by one.
pub proof fn lemma_models_of(s: Seq<ConvexValue>)
    ensures
        models_of(s).len() == s.len(),
        forall|k: int| 0 <= k < s.len() ==> #[trigger] models_of(s)[k] == model_of(s[k]),
    decreases s.len(),
{
    if s.len() > 0 {
        let init = s.subrange(0, s.len() - 1);
        lemma_models_of(init);
        assert forall|k: int| 0 <= k < s.len() implies #[trigger] models_of(s)[k] == model_of(s[k]) by {
            if k < s.len() - 1 {
                assert(init[k] == s[k]);
            }
        }
    }
}

/// `member_models_of` maps the members one by one.
pub proof fn lemma_member_models_of(s: Seq<(String, ConvexValue)>)
    ensures
        member_models_of(s).len() == s.len(),
        forall|k: int|
            0 <= k < s.len() ==> #[trigger] member_models_of(s)[k] == (s[k].0@, model_of(s[k].1)),
    decreases s.len(),
{
    if s.len() > 0 {
        let init = s.subrange(0, s.len() - 1);
        lemma_member_models_of(init);
        assert forall|k: int| 0 <= k < s.len() implies #[trigger] member_models_of(s)[k] == (
            s[k].0@,
            model_of(s[k].1),
        ) by {
            if k < s.len() - 1 {
                assert(init[k] == s[k]);
            }
        }
    }
}

/// Whether the members of an object have distinct keys.
pub open spec fn keys_distinct(members: Seq<(Seq<char>, ValueModel)>) -> bool {
    forall|i: int, j: int| 0 <= i < j < members.len() ==> members[i].0 != members[j].0
}

/// Whether every object inside `v` has distinct keys, as a map has.
pub open spec fn well_formed(v: ValueModel) -> bool
    decreases v,
{
    match v {
        ValueModel::Array(items) => all_well_formed(items),
        ValueModel::Object(members) => keys_distinct(members) && members_well_formed(members),
        _ => true,
    }
}

/// Whether every value of `items` is well formed.
pub open spec fn all_well_formed(items: Seq<ValueModel>) -> bool
    decreases items,
{
    if items.len() == 0 {
        true
    } else {
        all_well_formed(items.subrange(0, items.len() - 1)) && well_formed(items[items.len() - 1])
    }
}

/// Whether the value of every member of `members` is well formed.
pub open spec fn members_well_formed(members: Seq<(Seq<char>, ValueModel)>) -> bool
    decreases members,
{
    if members.len() == 0 {
        true
    } else {
        members_well_formed(members.subrange(0, members.len() - 1)) && well_formed(
            members[members.len() - 1].1,
        )
    }
}

/// Every value of a list whose values are all well formed is well formed.
pub proof fn lemma_all_well_formed(items: Seq<ValueModel>, k: int)
    requires
        all_well_formed(items),
        0 <= k < items.len(),
    ensures
        well_formed(items[k]),
    decreases items.len(),
{
    if k < items.len() - 1 {
        let init = items.subrange(0, items.len() - 1);
        lemma_all_well_formed(init, k);
        assert(init[k] == items[k]);
    }
}

/// The value of every member of an object whose members are all well formed
/// is well formed.
pub proof fn lemma_members_well_formed(members: Seq<(Seq<char>, ValueModel)>, k: int)
    requires
        members_well_formed(members),
        0 <= k < members.len(),
    ensures
        well_formed(members[k].1),
    decreases members.len(),
{
    if k < members.len() - 1 {
        let init = members.subrange(0, members.len() - 1);
        lemma_members_well_formed(init, k);
        assert(init[k] == members[k]);
    }
}

/// The text `null`.
pub open spec fn null_text() -> Seq<char> {
    seq!['n', 'u', 'l', 'l']
}

/// The JSON text that `to_json_string` writes for a value.
pub open spec fn json_text(v: ValueModel) -> Seq<char>
    decreases v,
{
    match v {
        ValueModel::Null => null_text(),
        ValueModel::String(s) => json_string_text(s),
        ValueModel::Int64(i) => int_text(i as int),
        ValueModel::Float64(t) => t,
        ValueModel::Array(items) => seq!['['] + list_text(items) + seq![']'],
        ValueModel::Object(members) => seq!['{'] + members_text(members) + seq!['}'],
        ValueModel::Bytes(_) => null_text(),
    }
}

/// The texts of `items` joined by commas.
pub open spec fn list_text(items: Seq<ValueModel>) -> Seq<char>
    decreases items,
{
    if items.len() == 0 {
        Seq::empty()
    } else if items.len() == 1 {
        json_text(items[0])
    } else {
        list_text(items.subrange(0, items.len() - 1)) + seq![','] + json_text(items[items.len() - 1])
    }
}

/// The text of one object member: the key between double quotes, as it
/// stands (not escaped), a colon and the value's text.
pub open spec fn member_text(key: Seq<char>, value_text: Seq<char>) -> Seq<char> {
    seq!['"'] + key + seq!['"'] + seq![':'] + value_text
}

/// The texts of `members` joined by commas.
pub open spec fn members_text(members: Seq<(Seq<char>, ValueModel)>) -> Seq<char>
    decreases members,
{
    if members.len() == 0 {
        Seq::empty()
    } else if members.len() == 1 {
        member_text(members[0].0, json_text(members[0].1))
    } else {
        members_text(members.subrange(0, members.len() - 1)) + seq![','] + member_text(
            members[members.len() - 1].0,
            json_text(members[members.len() - 1].1),
        )
    }
}

fn null_string() -> (s: String)
    ensures
        s@ == null_text(),
{
    let mut s = String::new();
    push_char(&mut s, 'n');
    push_char(&mut s, 'u');
    push_char(&mut s, 'l');
    push_char(&mut s, 'l');
    s
}

impl ConvexValue {
    /// The JSON text of this value: `null` for null and bytes, serde_json's
    /// literal for a string, the decimal text of an integer, the `Display`
    /// text of a float, and arrays and objects with their elements joined by
    /// commas; an object key is written between double quotes as it stands.
    pub fn to_json_string(&self) -> (r: String)
        requires
            well_formed(self@),
        ensures
            r@ == json_text(self@),
        decreases self,
    {
        match self {
            ConvexValue::Null => null_string(),
            ConvexValue::String(s) => json_string(s.as_str()),
            ConvexValue::Int64(i) => format_i64(*i),
            ConvexValue::Float64(t) => t.clone(),
            ConvexValue::Bytes(_) => null_string(),
            ConvexValue::Array(items) => {
                let ghost m = models_of(items@);
                proof {
                    lemma_models_of(items@);
                }
                let mut out = String::new();
                push_char(&mut out, '[');
                let mut k: usize = 0;
                while k < items.len()
                    invariant
                        k <= items@.len(),
                        *self == ConvexValue::Array(*items),
                        m == models_of(items@),
                        m.len() == items@.len(),
                        forall|j: int| 0 <= j < items@.len() ==> #[trigger] m[j] == model_of(items@[j]),
                        all_well_formed(m),
                        out@ == seq!['['] + list_text(m.take(k as int)),
                    decreases items@.len() - k,
                {
                    let ghost before = m.take(k as int);
                    let ghost after = m.take(k + 1);
                    assert(after.subrange(0, after.len() - 1) == before);
                    assert(after[after.len() - 1] == m[k as int]);
                    if k > 0 {
                        push_char(&mut out, ',');
                    }
                    proof {
                        assert(decreases_to!(*self => self->Array_0));
                        assert(self->Array_0 == *items);
                        assert(decreases_to!(*items => items@));
                        assert(decreases_to!(items@ => items@[k as int]));
                        assert(decreases_to!(*self => items@[k as int]));
                        lemma_all_well_formed(m, k as int);
                    }
                    let t = items[k].to_json_string();
                    out.append(t.as_str());
                    k = k + 1;
                }
                assert(m.take(k as int) == m);
                push_char(&mut out, ']');
                out
            },
            ConvexValue::Object(members) => {
                let ghost m = member_models_of(members@);
                proof {
                    lemma_member_models_of(members@);
                }
                let mut out = String::new();
                push_char(&mut out, '{');
                let mut k: usize = 0;
                while k < members.len()
                    invariant
                        k <= members@.len(),
                        *self == ConvexValue::Object(*members),
                        m == member_models_of(members@),
                        m.len() == members@.len(),
                        forall|j: int|
                            0 <= j < members@.len() ==> #[trigger] m[j] == (
                                members@[j].0@,
                                model_of(members@[j].1),
                            ),
                        members_well_formed(m),
                        out@ == seq!['{'] + members_text(m.take(k as int)),
                    decreases members@.len() - k,
                {
                    let ghost before = m.take(k as int);
                    let ghost after = m.take(k + 1);
                    assert(after.subrange(0, after.len() - 1) == before);
                    assert(after[after.len() - 1] == m[k as int]);
                    if k > 0 {
                        push_char(&mut out, ',');
                    }
                    push_char(&mut out, '"');
                    out.append(members[k].0.as_str());
                    push_char(&mut out, '"');
                    push_char(&mut out, ':');
                    proof {
                        assert(decreases_to!(*self => self->Object_0));
                        assert(self->Object_0 == *members);
                        assert(decreases_to!(*members => members@));
                        assert(decreases_to!(members@ => members@[k as int]));
                        assert(decreases_to!(members@[k as int] => members@[k as int].1));
                        assert(decreases_to!(*self => members@[k as int].1));
                        lemma_members_well_formed(m, k as int);
                    }
                    let t = members[k].1.to_json_string();
                    out.append(t.as_str());
                    k = k + 1;
                }
                assert(m.take(k as int) == m);
                push_char(&mut out, '}');
                out
            },
        }
    }
}

impl ConvexValue {
    /// A string value.
    pub fn from_string(value: String) -> (v: ConvexValue)
        ensures
            v@ == ValueModel::String(value@),
    {
        ConvexValue::String(value)
    }

    /// An integer value.
    pub fn from_int(value: i64) -> (v: ConvexValue)
        ensures
            v@ == ValueModel::Int64(value),
    {
        ConvexValue::Int64(value)
    }

    /// A boolean, held as the string `true` or `false` (Convex values here
    /// have no boolean kind).
    pub fn from_bool(value: bool) -> (v: ConvexValue)
        ensures
            v@ == ValueModel::String(if value { "true"@ } else { "false"@ }),
    {
        if value {
            ConvexValue::String(String::from_str("true"))
        } else {
            ConvexValue::String(String::from_str("false"))
        }
    }

    /// The null value.
    pub fn null_value() -> (v: ConvexValue)
        ensures
            v@ == ValueModel::Null,
    {
        ConvexValue::Null
    }
}

impl Clone for ConvexValue {
    /// A copy of this value, with the same model.
    fn clone(&self) -> (r: Self)
        ensures
            r@ == self@,
        decreases self,
    {
        match self {
            ConvexValue::Null => ConvexValue::Null,
            ConvexValue::String(s) => ConvexValue::String(s.clone()),
            ConvexValue::Int64(i) => ConvexValue::Int64(*i),
            ConvexValue::Float64(t) => ConvexValue::Float64(t.clone()),
            ConvexValue::Bytes(b) => {
                let mut c: Vec<u8> = Vec::new();
                let mut k: usize = 0;
                while k < b.len()
                    invariant
                        k <= b@.len(),
                        c@ == b@.take(k as int),
                    decreases b@.len() - k,
                {
                    c.push(b[k]);
                    assert(b@.take(k as int).push(b@[k as int]) == b@.take(k + 1));
                    k = k + 1;
                }
                assert(b@.take(k as int) == b@);
                ConvexValue::Bytes(c)
            },
            ConvexValue::Array(items) => {
                let mut c: Vec<ConvexValue> = Vec::new();
                let mut k: usize = 0;
                while k < items.len()
                    invariant
                        k <= items@.len(),
                        *self == ConvexValue::Array(*items),
                        c@.len() == k,
                        forall|j: int| 0 <= j < k ==> #[trigger] model_of(c@[j]) == model_of(items@[j]),
                    decreases items@.len() - k,
                {
                    proof {
                        assert(decreases_to!(*self => self->Array_0));
                        assert(self->Array_0 == *items);
                        assert(decreases_to!(*items => items@));
                        assert(decreases_to!(items@ => items@[k as int]));
                    }
                    let e = items[k].clone();
                    c.push(e);
                    k = k + 1;
                }
                proof {
                    lemma_models_of(c@);
                    lemma_models_of(items@);
                    assert(models_of(c@) =~= models_of(items@));
                }
                ConvexValue::Array(c)
            },
            ConvexValue::Object(members) => {
                let mut c: Vec<(String, ConvexValue)> = Vec::new();
                let mut k: usize = 0;
                while k < members.len()
                    invariant
                        k <= members@.len(),
                        *self == ConvexValue::Object(*members),
                        c@.len() == k,
                        forall|j: int|
                            0 <= j < k ==> #[trigger] c@[j].0@ == members@[j].0@ && model_of(c@[j].1)
                                == model_of(members@[j].1),
                    decreases members@.len() - k,
                {
                    proof {
                        assert(decreases_to!(*self => self->Object_0));
                        assert(self->Object_0 == *members);
                        assert(decreases_to!(*members => members@));
                        assert(decreases_to!(members@ => members@[k as int]));
                        assert(decreases_to!(members@[k as int] => members@[k as int].1));
                    }
                    let key = members[k].0.clone();
                    let e = members[k].1.clone();
                    c.push((key, e));
                    k = k + 1;
                }
                proof {
                    lemma_member_models_of(c@);
                    lemma_member_models_of(members@);
                    assert(member_models_of(c@) =~= member_models_of(members@));
                }
                ConvexValue::Object(c)
            },
        }
    }
}

impl ConvexValue {
    /// Whether every object inside this value has distinct keys.
    pub fn is_well_formed(&self) -> (b: bool)
        ensures
            b == well_formed(self@),
        decreases self,
    {
        match self {
            ConvexValue::Array(items) => {
                let ghost m = models_of(items@);
                proof {
                    lemma_models_of(items@);
                }
                let mut k: usize = 0;
                while k < items.len()
                    invariant
                        k <= items@.len(),
                        *self == ConvexValue::Array(*items),
                        m == models_of(items@),
                        m.len() == items@.len(),
                        forall|j: int| 0 <= j < items@.len() ==> #[trigger] m[j] == model_of(items@[j]),
                        all_well_formed(m.take(k as int)),
                    decreases items@.len() - k,
                {
                    assert(m.take(k + 1).subrange(0, k as int) == m.take(k as int));
                    proof {
                        assert(decreases_to!(*self => self->Array_0));
                        assert(self->Array_0 == *items);
                        assert(decreases_to!(*items => items@));
                        assert(decreases_to!(items@ => items@[k as int]));
                    }
                    if !items[k].is_well_formed() {
                        proof {
                            if all_well_formed(m) {
                                lemma_all_well_formed(m, k as int);
                            }
                        }
                        return false;
                    }
                    k = k + 1;
                }
                assert(m.take(k as int) == m);
                true
            },
            ConvexValue::Object(members) => {
                let ghost m = member_models_of(members@);
                proof {
                    lemma_member_models_of(members@);
                }
                let mut k: usize = 0;
                while k < members.len()
                    invariant
                        k <= members@.len(),
                        *self == ConvexValue::Object(*members),
                        m == member_models_of(members@),
                        m.len() == members@.len(),
                        forall|j: int|
                            0 <= j < members@.len() ==> #[trigger] m[j] == (
                                members@[j].0@,
                                model_of(members@[j].1),
                            ),
                        keys_distinct(m.take(k as int)),
                        members_well_formed(m.take(k as int)),
                    decreases members@.len() - k,
                {
                    let ghost next = m.take(k + 1);
                    assert(next.subrange(0, k as int) == m.take(k as int));
                    let mut j: usize = 0;
                    while j < k
                        invariant
                            j <= k < members@.len(),
                            *self == ConvexValue::Object(*members),
                            m == member_models_of(members@),
                            m.len() == members@.len(),
                            forall|i: int|
                                0 <= i < members@.len() ==> #[trigger] m[i] == (
                                    members@[i].0@,
                                    model_of(members@[i].1),
                                ),
                            forall|i: int| 0 <= i < j ==> m[i].0 != m[k as int].0,
                        decreases k - j,
                    {
                        if members[j].0 == members[k].0 {
                            proof {
                                assert(m[j as int].0 == m[k as int].0);
                                assert(!keys_distinct(m)) by {
                                    assert(m[j as int].0 == m[k as int].0);
                                }
                            }
                            return false;
                        }
                        j = j + 1;
                    }
                    proof {
                        assert(decreases_to!(*self => self->Object_0));
                        assert(self->Object_0 == *members);
                        assert(decreases_to!(*members => members@));
                        assert(decreases_to!(members@ => members@[k as int]));
                        assert(decreases_to!(members@[k as int] => members@[k as int].1));
                    }
                    if !members[k].1.is_well_formed() {
                        proof {
                            if members_well_formed(m) {
                                lemma_members_well_formed(m, k as int);
                            }
                        }
                        return false;
                    }
                    assert(keys_distinct(next)) by {
                        assert forall|a: int, b: int| 0 <= a < b < next.len() implies next[a].0
                            != next[b].0 by {
                            if b < k {
                                assert(next[a] == m.take(k as int)[a]);
                                assert(next[b] == m.take(k as int)[b]);
                            }
                        }
                    }
                    k = k + 1;
                }
                assert(m.take(k as int) == m);
                true
            },
            _ => true,
        }
    }
}

} // verus!
