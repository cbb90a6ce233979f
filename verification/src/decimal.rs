//! Decimal text of 64-bit signed integers, as std's `Display` writes it and
//! as std's `str::parse::<i64>` reads it.

use vstd::prelude::*;
use crate::text::{chars_of, push_char};

verus! {

/// The character of the decimal digit `d` (below ten).
pub open spec fn digit_char(d: nat) -> char {
    (48 + d) as char
}

/// Whether `c` is one of the characters `0` to `9`.
pub open spec fn is_digit(c: char) -> bool {
    '0' <= c && c <= '9'
}

/// The value of the decimal digit character `c`.
pub open spec fn digit_value(c: char) -> nat {
    (c as int - 48) as nat
}

/// The decimal digits of `n`, most significant first, without leading zeros.
pub open spec fn nat_text(n: nat) -> Seq<char>
    decreases n,
{
    if n < 10 {
        seq![digit_char(n)]
    } else {
        nat_text(n / 10).push(digit_char(n % 10))
    }
}

/// The decimal text of `i`: a `-` before the digits when `i` is negative.
pub open spec fn int_text(i: int) -> Seq<char> {
    if i < 0 {
        seq!['-'] + nat_text((-i) as nat)
    } else {
        nat_text(i as nat)
    }
}

/// Whether every character of `s` is a decimal digit.
pub open spec fn all_digits(s: Seq<char>) -> bool {
    forall|k: int| 0 <= k < s.len() ==> is_digit(#[trigger] s[k])
}

/// The number that the digit characters `s` denote (zero for no digits).
pub open spec fn digits_value(s: Seq<char>) -> nat
    decreases s.len(),
{
    if s.len() == 0 {
        0
    } else {
        digits_value(s.drop_last()) * 10 + digit_value(s.last())
    }
}

/// What `str::parse::<i64>` gives for `s`: an optional `+` or `-`, then one
/// or more decimal digits, with the value in range; `None` otherwise.
pub open spec fn parse_i64_spec(s: Seq<char>) -> Option<i64> {
    if s.len() == 0 {
        None
    } else {
        let negative = s[0] == '-';
        let digits = if s[0] == '-' || s[0] == '+' { s.skip(1) } else { s };
        if digits.len() == 0 || !all_digits(digits) {
            None
        } else {
            let v: int = if negative { -digits_value(digits) } else { digits_value(digits) as int };
            if i64::MIN <= v && v <= i64::MAX {
                Some(v as i64)
            } else {
                None
            }
        }
    }
}

/// The digits of `n` (std's `Display` of an unsigned number).
fn nat_digits(n: u64) -> (v: Vec<char>)
    ensures
        v@ == nat_text(n as nat),
{
    let mut rest: u64 = n;
    let mut suffix: Vec<char> = Vec::new();
    loop
        invariant_except_break
            nat_text(n as nat) == nat_text(rest as nat) + suffix@,
        ensures
            suffix@ == nat_text(n as nat),
        decreases rest,
    {
        let ghost before = suffix@;
        let d: u64 = rest % 10;
        let c: char = (48u8 + (d as u8)) as char;
        suffix.insert(0, c);
        assert(suffix@ == seq![digit_char(d as nat)] + before);
        if rest < 10 {
            assert(nat_text(rest as nat) == seq![digit_char(rest as nat)]);
            assert(nat_text(n as nat) == suffix@);
            break;
        }
        assert(nat_text(rest as nat) == nat_text((rest / 10) as nat).push(digit_char(d as nat)));
        assert(nat_text((rest / 10) as nat).push(digit_char(d as nat)) + before
            == nat_text((rest / 10) as nat) + (seq![digit_char(d as nat)] + before));
        rest = rest / 10;
    }
    suffix
}

/// The decimal text of `i`, as std's `i64::to_string` writes it.
pub fn format_i64(i: i64) -> (s: String)
    ensures
        s@ == int_text(i as int),
{
    let mut s = String::new();
    let magnitude: u64 = if i < 0 {
        push_char(&mut s, '-');
        ((-(i as i128)) as u64)
    } else {
        i as u64
    };
    let digits = nat_digits(magnitude);
    let ghost start = s@;
    let mut k: usize = 0;
    while k < digits.len()
        invariant
            k <= digits@.len(),
            s@ == start + digits@.take(k as int),
        decreases digits@.len() - k,
    {
        push_char(&mut s, digits[k]);
        assert(digits@.take(k as int).push(digits@[k as int]) == digits@.take(k + 1));
        k = k + 1;
    }
    assert(digits@.take(k as int) == digits@);
    s
}

/// `v`, or one past the largest magnitude that an `i64` holds if `v` is larger:
/// all that the reader needs to track of a magnitude.
spec fn capped(v: nat) -> int {
    if v < 9223372036854775809 { v as int } else { 9223372036854775809 }
}

/// Reads `s` as std's `str::parse::<i64>` does.
pub fn parse_i64(s: &str) -> (r: Option<i64>)
    ensures
        r == parse_i64_spec(s@),
{
    let cs = chars_of(s);
    parse_i64_chars(&cs)
}

/// Reads the characters `cs` as std's `str::parse::<i64>` does.
pub fn parse_i64_chars(cs: &Vec<char>) -> (r: Option<i64>)
    ensures
        r == parse_i64_spec(cs@),
{
    let n = cs.len();
    if n == 0 {
        return None;
    }
    let negative = cs[0] == '-';
    let start: usize = if cs[0] == '-' || cs[0] == '+' { 1 } else { 0 };
    let ghost digits = cs@.skip(start as int);
    assert(cs@.skip(0) == cs@);
    assert(digits == (if cs@[0] == '-' || cs@[0] == '+' { cs@.skip(1) } else { cs@ }));
    if start == n {
        return None;
    }
    let mut acc: u128 = 0;
    let mut k: usize = start;
    while k < n
        invariant
            start <= k <= n,
            n == cs@.len(),
            start < n,
            start == 0 || start == 1,
            digits == (if cs@[0] == '-' || cs@[0] == '+' { cs@.skip(1) } else { cs@ }),
            digits == cs@.skip(start as int),
            all_digits(digits.take(k - start)),
            acc == capped(digits_value(digits.take(k - start))),
        decreases n - k,
    {
        let c = cs[k];
        if !('0' <= c && c <= '9') {
            assert(digits[k - start] == c);
            assert(!is_digit(digits[k - start]));
            assert(!all_digits(digits));
            return None;
        }
        let d: u128 = ((c as u32) - 48) as u128;
        let ghost prefix = digits.take(k - start);
        let ghost next = digits.take(k + 1 - start);
        assert(next.drop_last() == prefix);
        assert(next.last() == c);
        acc = acc * 10 + d;
        if acc > 9223372036854775809 {
            acc = 9223372036854775809;
        }
        assert(all_digits(next)) by {
            assert forall|j: int| 0 <= j < next.len() implies is_digit(#[trigger] next[j]) by {
                if j < prefix.len() {
                    assert(next[j] == prefix[j]);
                }
            }
        }
        k = k + 1;
    }
    assert(digits.take(n - start) == digits);
    if negative {
        if acc <= 9223372036854775808 {
            Some((-(acc as i128)) as i64)
        } else {
            None
        }
    } else {
        if acc <= 9223372036854775807 {
            Some(acc as i64)
        } else {
            None
        }
    }
}


/// The digits of `n` are decimal digits, at least one, denoting `n`.
pub proof fn lemma_nat_text(n: nat)
    ensures
        nat_text(n).len() > 0,
        all_digits(nat_text(n)),
        digits_value(nat_text(n)) == n,
        n > 0 ==> nat_text(n)[0] != '0',
        n == 0 ==> nat_text(n) == seq!['0'],
    decreases n,
{
    let d = n % 10;
    assert(digit_value(digit_char(d)) == d);
    assert(is_digit(digit_char(d)));
    if n >= 10 {
        lemma_nat_text(n / 10);
        let t = nat_text(n);
        assert(t.drop_last() == nat_text(n / 10));
        assert(t.last() == digit_char(d));
        assert(digits_value(t) == digits_value(nat_text(n / 10)) * 10 + digit_value(digit_char(d)));
        assert(t[0] == nat_text(n / 10)[0]);
        assert((n / 10) * 10 + n % 10 == n);
        assert forall|k: int| 0 <= k < t.len() implies is_digit(#[trigger] t[k]) by {
            if k < t.len() - 1 {
                assert(t[k] == nat_text(n / 10)[k]);
            }
        }
    } else {
        assert(nat_text(n).drop_last() == Seq::<char>::empty());
        assert(digits_value(nat_text(n)) == digits_value(Seq::<char>::empty()) * 10 + digit_value(digit_char(n)));
    }
}

/// Reading back the decimal text of an `i64` gives the same number.
pub proof fn lemma_parse_int_text(i: i64)
    ensures
        parse_i64_spec(int_text(i as int)) == Some(i),
{
    if i < 0 {
        let m: nat = (-i) as nat;
        lemma_nat_text(m);
        let t = int_text(i as int);
        assert(t.skip(1) == nat_text(m));
    } else {
        lemma_nat_text(i as nat);
        let t = int_text(i as int);
        assert(is_digit(t[0]));
    }
}

/// The decimal text of an `i64` is a `-` exactly when the number is
/// negative, then one or more digits without a leading zero (a lone `0` for
/// zero) that denote the number's magnitude.
pub proof fn law_int_text_shape(i: i64)
    ensures
        int_text(i as int).len() > 0,
        (int_text(i as int)[0] == '-') == (i < 0),
        ({
            let digits = if i < 0 { int_text(i as int).skip(1) } else { int_text(i as int) };
            &&& digits.len() > 0
            &&& all_digits(digits)
            &&& digits_value(digits) == (if i < 0 { -i } else { i as int })
            &&& digits[0] == '0' ==> digits.len() == 1
        }),
{
    if i < 0 {
        let m: nat = (-i) as nat;
        lemma_nat_text(m);
        assert(int_text(i as int).skip(1) == nat_text(m));
    } else {
        lemma_nat_text(i as nat);
        assert(is_digit(int_text(i as int)[0]));
    }
}

/// Reading accepts a `+` or `-` before the digits of any magnitude in range,
/// and gives the signed number.
pub proof fn law_parse_signed(n: nat)
    ensures
        n <= 9223372036854775807 ==> parse_i64_spec(seq!['+'] + nat_text(n)) == Some(n as i64),
        n <= 9223372036854775808 ==> parse_i64_spec(seq!['-'] + nat_text(n)) == Some((-n) as i64),
{
    lemma_nat_text(n);
    assert((seq!['+'] + nat_text(n)).skip(1) == nat_text(n));
    assert((seq!['-'] + nat_text(n)).skip(1) == nat_text(n));
}

/// A text with anything but a digit after its first character is not read
/// as a number, and neither is an empty text or a lone sign.
pub proof fn law_parse_rejects(s: Seq<char>, k: int)
    ensures
        parse_i64_spec(Seq::empty()) is None,
        parse_i64_spec(seq!['+']) is None,
        parse_i64_spec(seq!['-']) is None,
        (1 <= k < s.len() && !is_digit(s[k])) ==> parse_i64_spec(s) is None,
{
    if 1 <= k < s.len() && !is_digit(s[k]) {
        let digits = if s[0] == '-' || s[0] == '+' { s.skip(1) } else { s };
        if s[0] == '-' || s[0] == '+' {
            assert(digits[k - 1] == s[k]);
        } else {
            assert(digits[k] == s[k]);
        }
    }
    assert(seq!['+'].skip(1).len() == 0);
    assert(seq!['-'].skip(1).len() == 0);
}

} // verus!
