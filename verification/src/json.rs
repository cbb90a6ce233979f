//! JSON string literals, as serde_json writes them, and JSON's reading of
//! them.

use vstd::prelude::*;

verus! {

/// The lowercase hexadecimal digit of `d` (below sixteen).
pub open spec fn hex_digit(d: int) -> char {
    if d < 10 {
        (48 + d) as char
    } else {
        (87 + d) as char
    }
}

/// How serde_json writes the character `c` inside a string literal: `"` and
/// `\` behind a backslash, the control characters U+0008, U+0009, U+000A,
/// U+000C and U+000D as `\b`, `\t`, `\n`, `\f` and `\r`, the other characters
/// below U+0020 as `\u00` and two lowercase hexadecimal digits, and every
/// other character as it is.
pub open spec fn escaped_char(c: char) -> Seq<char> {
    if c == '"' {
        seq!['\\', '"']
    } else if c == '\\' {
        seq!['\\', '\\']
    } else if c == '\x08' {
        seq!['\\', 'b']
    } else if c == '\t' {
        seq!['\\', 't']
    } else if c == '\n' {
        seq!['\\', 'n']
    } else if c == '\x0C' {
        seq!['\\', 'f']
    } else if c == '\r' {
        seq!['\\', 'r']
    } else if (c as int) < 32 {
        seq!['\\', 'u', '0', '0', hex_digit((c as int) / 16), hex_digit((c as int) % 16)]
    } else {
        seq![c]
    }
}

/// The characters of `s`, each written as `escaped_char` says.
pub open spec fn escaped_text(s: Seq<char>) -> Seq<char>
    decreases s.len(),
{
    if s.len() == 0 {
        Seq::empty()
    } else {
        escaped_char(s[0]) + escaped_text(s.skip(1))
    }
}

/// The JSON string literal that serde_json writes for `s`: its escaped
/// characters between double quotes.
pub open spec fn json_string_text(s: Seq<char>) -> Seq<char> {
    seq!['"'] + escaped_text(s) + seq!['"']
}

/// Calls `serde_json::to_string` on a string slice. serde_json writes the
/// literal into a `Vec`, which cannot fail, so the result is `Some`; the
/// literal is `"`, each character escaped by serde_json's escape table
/// (`ESCAPE` and `write_char_escape` in its `ser.rs`), and `"`.
#[verifier::external_body]
fn serde_json_to_string_str(s: &str) -> (r: Option<String>)
    ensures
        r is Some,
        r->0@ == json_string_text(s@),
{
    serde_json::to_string(s).ok()
}

/// The JSON literal of `s`, as serde_json writes it.
pub fn json_string(s: &str) -> (r: String)
    ensures
        r@ == json_string_text(s@),
{
    match serde_json_to_string_str(s) {
        Some(t) => t,
        None => {
            let mut out = String::new();
            crate::text::push_char(&mut out, '"');
            out.append(s);
            crate::text::push_char(&mut out, '"');
            out
        },
    }
}

/// The value of the hexadecimal digit `c` (zero for any other character).
pub open spec fn hex_value(c: char) -> int {
    if '0' <= c && c <= '9' {
        c as int - 48
    } else if 'a' <= c && c <= 'f' {
        c as int - 87
    } else if 'A' <= c && c <= 'F' {
        c as int - 55
    } else {
        0
    }
}

/// The character that the two-character JSON escape `\e` stands for.
pub open spec fn short_escape(e: char) -> char {
    if e == 'b' {
        '\x08'
    } else if e == 't' {
        '\t'
    } else if e == 'n' {
        '\n'
    } else if e == 'f' {
        '\x0C'
    } else if e == 'r' {
        '\r'
    } else {
        e
    }
}

/// What JSON reads from the inside of a string literal: `\uXXXX` as the
/// character with that code (a single code unit), `\e` as `short_escape(e)`
/// (so `\"`, `\\` and `\/` as the character after the backslash), and any
/// other character as it is.
pub open spec fn unescaped_text(t: Seq<char>) -> Seq<char>
    decreases t.len(),
{
    if t.len() == 0 {
        Seq::empty()
    } else if t[0] != '\\' || t.len() < 2 {
        seq![t[0]] + unescaped_text(t.skip(1))
    } else if t[1] == 'u' && t.len() >= 6 {
        seq![
            (hex_value(t[2]) * 4096 + hex_value(t[3]) * 256 + hex_value(t[4]) * 16 + hex_value(
                t[5],
            )) as char,
        ] + unescaped_text(t.skip(6))
    } else {
        seq![short_escape(t[1])] + unescaped_text(t.skip(2))
    }
}

proof fn lemma_unescape_one(c: char, rest: Seq<char>)
    ensures
        unescaped_text(escaped_char(c) + rest) == seq![c] + unescaped_text(rest),
{
    let t = escaped_char(c) + rest;
    let e = escaped_char(c);
    if e.len() == 1 {
        assert(t.skip(1) == rest);
    } else if e.len() == 2 {
        assert(t[0] == '\\');
        assert(t.skip(2) == rest);
    } else {
        let v = c as int;
        assert(0 <= v < 32);
        assert(t[0] == '\\' && t[1] == 'u');
        assert(t.skip(6) == rest);
        let hi = v / 16;
        let lo = v % 16;
        assert(hex_value(hex_digit(hi)) == hi);
        assert(hex_value(hex_digit(lo)) == lo);
        assert(hex_value('0') == 0);
        assert(hi * 16 + lo == v);
    }
}

/// JSON reads back from serde_json's literal of `s` exactly `s`: the text
/// between the quotes unescapes to `s`.
pub proof fn law_string_literal_reads_back(s: Seq<char>)
    ensures
        json_string_text(s).len() >= 2,
        json_string_text(s)[0] == '"',
        json_string_text(s)[json_string_text(s).len() - 1] == '"',
        unescaped_text(json_string_text(s).subrange(1, json_string_text(s).len() - 1)) == s,
    decreases s.len(),
{
    let lit = json_string_text(s);
    assert(lit.subrange(1, lit.len() - 1) == escaped_text(s));
    if s.len() > 0 {
        law_string_literal_reads_back(s.skip(1));
        let inner = json_string_text(s.skip(1));
        assert(inner.subrange(1, inner.len() - 1) == escaped_text(s.skip(1)));
        lemma_unescape_one(s[0], escaped_text(s.skip(1)));
        assert(seq![s[0]] + s.skip(1) == s);
    }
}

} // verus!
