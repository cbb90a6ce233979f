//! Subscriptions to Convex queries: the arguments that are sent, and what
//! each update of a subscription gives to the Dart side.
//!
//! On this side of the bridge a value travels as text (its `inner` text):
//! updates are written as text, and argument texts that are between double
//! quotes are sent without them.

use vstd::prelude::*;
use crate::args::{args_map, gather_pairs, lists_map, pairs_view};
use crate::call::{not_connected, not_connected_text, FunctionReply};
use crate::debug_text::opt_view;
use crate::json_value::{compact_text, convex_value_to_json, json_of_debug};
use crate::text::{chars_of, push_char, slice_chars, string_of};
use crate::value::ConvexError;

verus! {

/// Whether `inner` is the one character `"`, which the sender cannot take
/// apart.
pub open spec fn is_lone_quote(inner: Seq<char>) -> bool {
    inner == seq!['"']
}

/// The text sent for the value text `inner`: what lies between the quotes
/// where `inner` begins and ends with `"`, and `inner` itself otherwise.
pub open spec fn unquoted_text(inner: Seq<char>) -> Seq<char> {
    if inner.len() > 0 && inner[0] == '"' && inner[inner.len() - 1] == '"' {
        inner.subrange(1, inner.len() - 1)
    } else {
        inner
    }
}

/// The text sent for the value text `inner`.
pub fn unquoted(inner: &str) -> (r: String)
    requires
        !is_lone_quote(inner@),
    ensures
        r@ == unquoted_text(inner@),
{
    let cs = chars_of(inner);
    let n = cs.len();
    if n > 0 && cs[0] == '"' && cs[n - 1] == '"' {
        if n == 1 {
            assert(cs@ == seq!['"']);
        }
        string_of(&slice_chars(&cs, 1, n - 1))
    } else {
        string_of(&cs)
    }
}

/// The names and sent texts of the arguments `args`, in order.
pub open spec fn unquoted_texts(args: Seq<(String, String)>) -> Seq<(Seq<char>, Seq<char>)> {
    Seq::new(args.len(), |k: int| (args[k].0@, unquoted_text(args[k].1@)))
}

/// The arguments of a subscription, as sent to the deployment: every name
/// once, with the sent text of the value text that it was given last. Fails
/// with "Client not connected" when no client is connected (before any
/// argument is looked at).
pub fn subscribe_arguments(connected: bool, args: Vec<(String, String)>) -> (r: Result<
    Vec<(String, String)>,
    ConvexError,
>)
    requires
        connected ==> forall|k: int| 0 <= k < args@.len() ==> !is_lone_quote(#[trigger] args@[k].1@),
    ensures
        !connected <==> r is Err,
        r matches Err(e) ==> e.message@ == not_connected_text(),
        r matches Ok(sent) ==> lists_map(pairs_view(sent@), args_map(unquoted_texts(args@))),
{
    if !connected {
        return Err(not_connected());
    }
    let mut texts: Vec<(String, String)> = Vec::new();
    let mut k: usize = 0;
    while k < args.len()
        invariant
            k <= args@.len(),
            texts@.len() == k,
            forall|j: int| 0 <= j < args@.len() ==> !is_lone_quote(#[trigger] args@[j].1@),
            pairs_view(texts@) == unquoted_texts(args@).take(k as int),
        decreases args@.len() - k,
    {
        let ghost before = texts@;
        let name = args[k].0.clone();
        let text = unquoted(args[k].1.as_str());
        texts.push((name, text));
        assert forall|j: int| 0 <= j < k + 1 implies #[trigger] pairs_view(texts@)[j]
            == unquoted_texts(args@).take(k + 1)[j] by {
            if j < k {
                assert(texts@[j] == before[j]);
                assert(pairs_view(before)[j] == unquoted_texts(args@).take(k as int)[j]);
            }
        }
        assert(pairs_view(texts@) =~= unquoted_texts(args@).take(k + 1));
        k = k + 1;
    }
    assert(unquoted_texts(args@).take(k as int) == unquoted_texts(args@));
    Ok(gather_pairs(texts))
}

/// What an update of a subscription gives, where updates are written as
/// JSON: the JSON text of a value; nothing for an error or for the end of
/// the updates.
pub open spec fn next_json_outcome(item: Option<FunctionReply>) -> Option<Seq<char>> {
    match item {
        Some(FunctionReply::Value(r)) => Some(compact_text(json_of_debug(r.debug@, opt_view(r.float_json)))),
        _ => None,
    }
}

/// The text that an update of a subscription gives, where updates are
/// written as JSON (`None` for an error or for the end of the updates).
pub fn next_item_json(item: Option<FunctionReply>) -> (r: Option<String>)
    ensures
        opt_view(r) == next_json_outcome(item),
{
    match item {
        Some(FunctionReply::Value(reading)) => Some(
            convex_value_to_json(reading.debug.as_str(), reading.float_json),
        ),
        _ => None,
    }
}

/// The text of a string between double quotes.
pub open spec fn quoted_text(s: Seq<char>) -> Seq<char> {
    seq!['"'] + s + seq!['"']
}

/// What an update of a subscription gives, where updates are written plainly:
/// a string between double quotes, any other value as its `Debug` text;
/// nothing for an error or for the end of the updates.
pub open spec fn next_text_outcome(item: Option<FunctionReply>) -> Option<Seq<char>> {
    match item {
        Some(FunctionReply::Value(r)) => match r.string_content {
            Some(s) => Some(quoted_text(s@)),
            None => Some(r.debug@),
        },
        _ => None,
    }
}

/// The text that an update of a subscription gives, where updates are
/// written plainly (`None` for an error or for the end of the updates).
pub fn next_item_text(item: Option<FunctionReply>) -> (r: Option<String>)
    ensures
        opt_view(r) == next_text_outcome(item),
{
    match item {
        Some(FunctionReply::Value(reading)) => match reading.string_content {
            Some(s) => {
                let mut t = String::new();
                push_char(&mut t, '"');
                t.append(s.as_str());
                push_char(&mut t, '"');
                Some(t)
            },
            None => Some(reading.debug),
        },
        _ => None,
    }
}

/// A string that an update gives, written plainly, and that is sent back as
/// an argument reaches the deployment as it was: quoting and unquoting undo
/// each other, and the quoted text is never a lone quote.
pub proof fn law_quoted_string_round_trip(s: Seq<char>)
    ensures
        !is_lone_quote(quoted_text(s)),
        unquoted_text(quoted_text(s)) == s,
{
    let q = quoted_text(s);
    assert(q.len() == s.len() + 2);
    assert(q.subrange(1, q.len() - 1) =~= s);
}

/// A value text is sent as it stands unless it both begins and ends with a
/// double quote (and is more than that one quote); then exactly those two
/// quotes are taken off, and putting them back gives the text again.
pub proof fn law_unquoting(inner: Seq<char>)
    requires
        !is_lone_quote(inner),
    ensures
        !(inner.len() > 0 && inner[0] == '"') ==> unquoted_text(inner) == inner,
        !(inner.len() > 0 && inner[inner.len() - 1] == '"') ==> unquoted_text(inner) == inner,
        (inner.len() > 0 && inner[0] == '"' && inner[inner.len() - 1] == '"') ==> (inner.len() >= 2
            && quoted_text(unquoted_text(inner)) == inner),
{
    if inner.len() > 0 && inner[0] == '"' && inner[inner.len() - 1] == '"' {
        if inner.len() == 1 {
            assert(inner =~= seq!['"']);
        }
        assert(quoted_text(unquoted_text(inner)) =~= inner);
    }
}

/// An update gives text exactly for a value reply: errors, application
/// errors and the end of the updates give nothing, in both ways of writing
/// updates.
pub proof fn law_updates_only_for_values(item: Option<FunctionReply>)
    ensures
        next_text_outcome(item) is Some <==> item matches Some(FunctionReply::Value(_)),
        next_json_outcome(item) is Some <==> item matches Some(FunctionReply::Value(_)),
{
}

/// A value update written plainly is the `Debug` text of the value, unless
/// the value is a string, which is written between double quotes.
pub proof fn law_plain_update_text(r: crate::call::ValueReading)
    ensures
        r.string_content is None ==> next_text_outcome(Some(FunctionReply::Value(r))) == Some(r.debug@),
        r.string_content matches Some(s) ==> next_text_outcome(Some(FunctionReply::Value(r))) == Some(
            seq!['"'] + s@ + seq!['"'],
        ),
{
}

} // verus!
