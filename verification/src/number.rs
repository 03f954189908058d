//! Decimal numerals: writing a number out, and reading one.

use crate::text::{split_first_ascii, strip_prefix};
use vstd::prelude::*;
use vstd::string::StringExecFns;

verus! {

/// The character that shows the digit `d`.
pub open spec fn digit(d: nat) -> char
    recommends
        d < 10,
{
    ((0x30 + d) as u8) as char
}

/// The decimal numeral of `n`, without leading zeros.
pub open spec fn decimal(n: nat) -> Seq<char>
    decreases n,
{
    if n < 10 {
        seq![digit(n)]
    } else {
        decimal(n / 10).push(digit(n % 10))
    }
}

/// The one-character text of a digit.
fn digit_str(d: u16) -> (r: &'static str)
    requires
        d < 10,
    ensures
        r@ == seq![digit(d as nat)],
{
    proof {
        reveal_strlit("0");
        reveal_strlit("1");
        reveal_strlit("2");
        reveal_strlit("3");
        reveal_strlit("4");
        reveal_strlit("5");
        reveal_strlit("6");
        reveal_strlit("7");
        reveal_strlit("8");
        reveal_strlit("9");
    }
    let r = if d == 0 {
        "0"
    } else if d == 1 {
        "1"
    } else if d == 2 {
        "2"
    } else if d == 3 {
        "3"
    } else if d == 4 {
        "4"
    } else if d == 5 {
        "5"
    } else if d == 6 {
        "6"
    } else if d == 7 {
        "7"
    } else if d == 8 {
        "8"
    } else {
        "9"
    };
    assert(r@ =~= seq![digit(d as nat)]);
    r
}

/// Appends the decimal numeral of `n` to `out`.
pub fn push_decimal(out: &mut String, n: u16)
    ensures
        final(out)@ == old(out)@ + decimal(n as nat),
    decreases n,
{
    if n >= 10 {
        push_decimal(out, n / 10);
    }
    out.append(digit_str(n % 10));
    assert(out@ =~= old(out)@ + decimal(n as nat));
}

/// Whether `c` is one of the digits `0` to `9`.
pub open spec fn is_digit(c: char) -> bool {
    '0' <= c && c <= '9'
}

/// Whether `s` is made of digits only.
pub open spec fn all_digits(s: Seq<char>) -> bool {
    forall|i: int| 0 <= i < s.len() ==> is_digit(#[trigger] s[i])
}

/// The number that a run of digits shows.
pub open spec fn digits_value(s: Seq<char>) -> int
    decreases s.len(),
{
    if s.len() == 0 {
        0
    } else {
        digits_value(s.drop_last()) * 10 + (s.last() as int - '0' as int)
    }
}

/// The digits of a numeral: what follows its sign, if it has one.
pub open spec fn digits_of(s: Seq<char>) -> Seq<char> {
    if s.len() > 0 && (s[0] == '-' || s[0] == '+') {
        s.drop_first()
    } else {
        s
    }
}

/// The number that a numeral shows, before any limit of size: its digits,
/// taken below zero where the sign is `-`.
pub open spec fn numeral_value(s: Seq<char>) -> int {
    if s.len() > 0 && s[0] == '-' {
        -digits_value(digits_of(s))
    } else {
        digits_value(digits_of(s))
    }
}

/// The 64-bit integer that a text shows: an optional sign, `+` or `-`, and
/// then one digit or more, nothing else. Nothing for any other text, and for
/// a number that does not fit.
pub open spec fn integer_of(s: Seq<char>) -> Option<i64> {
    if digits_of(s).len() > 0 && all_digits(digits_of(s)) && i64::MIN <= numeral_value(s)
        <= i64::MAX {
        Some(numeral_value(s) as i64)
    } else {
        None
    }
}

/// A run of digits shows a number that is not below what any of its
/// beginnings shows.
proof fn lemma_digits_value_grows(s: Seq<char>, k: int)
    requires
        all_digits(s),
        0 <= k <= s.len(),
    ensures
        0 <= digits_value(s.take(k)) <= digits_value(s),
    decreases s.len(),
{
    if k == s.len() {
        assert(s.take(k) =~= s);
        if s.len() > 0 {
            assert(is_digit(s[s.len() - 1]));
            assert(s.drop_last() =~= s.take(s.len() - 1));
            lemma_digits_value_grows(s.drop_last(), s.len() - 1);
            assert(s.drop_last().take(s.len() - 1) =~= s.drop_last());
        }
    } else {
        let init = s.drop_last();
        assert(is_digit(s[s.len() - 1]));
        assert forall|i: int| 0 <= i < init.len() implies is_digit(#[trigger] init[i]) by {
            assert(init[i] == s[i]);
        }
        lemma_digits_value_grows(init, k);
        assert(init.take(k) =~= s.take(k));
        lemma_digits_value_grows(init, init.len() as int);
    }
}

/// Reads a 64-bit integer from its decimal numeral.
pub fn parse_integer(s: &str) -> (r: Option<i64>)
    ensures
        r == integer_of(s@),
{
    let (negative, digits) = match strip_prefix(s, '-') {
        Some(rest) => (true, rest),
        None => match strip_prefix(s, '+') {
            Some(rest) => (false, rest),
            None => (false, s),
        },
    };
    assert(digits@ == digits_of(s@));
    assert(negative == (s@.len() > 0 && s@[0] == '-'));
    if digits.is_empty() {
        return None;
    }
    let mut value: i64 = 0;
    let mut rest: &str = digits;
    let ghost mut seen: Seq<char> = Seq::empty();
    assert(digits@ =~= seen + rest@);
    while !rest.is_empty()
        invariant
            digits@ == seen + rest@,
            all_digits(seen),
            value == if negative {
                -digits_value(seen)
            } else {
                digits_value(seen)
            },
            digits@ == digits_of(s@),
            negative == (s@.len() > 0 && s@[0] == '-'),
            digits@.len() > 0,
        decreases rest@.len(),
    {
        let ghost at = seen.len() as int;
        assert(digits@[at] == rest@[0]);
        let (first, following) = match split_first_ascii(rest) {
            Some(parts) => parts,
            None => {
                assert(!is_digit(digits@[at]));
                return None;
            },
        };
        if first < 0x30 || first > 0x39 {
            assert(!is_digit(digits@[at]));
            return None;
        }
        let ghost longer = seen.push(rest@[0]);
        proof {
            assert(longer.drop_last() =~= seen);
            assert(longer =~= digits@.take(at + 1));
            assert(digits@ =~= longer + following@);
            if all_digits(digits@) {
                lemma_digits_value_grows(digits@, at + 1);
            }
        }
        let d: i64 = (first - 0x30) as i64;
        let scaled = match value.checked_mul(10) {
            Some(scaled) => scaled,
            None => { return None; },
        };
        let next = if negative {
            scaled.checked_sub(d)
        } else {
            scaled.checked_add(d)
        };
        value = match next {
            Some(next) => next,
            None => { return None; },
        };
        proof {
            seen = longer;
        }
        rest = following;
    }
    assert(seen =~= digits@);
    Some(value)
}

} // verus!
