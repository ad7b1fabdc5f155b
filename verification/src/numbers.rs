//! Decimal numbers in text form.
use crate::text::{chars_of, text_of};
use vstd::prelude::*;

verus! {

/// The decimal digit character of `d`.
pub open spec fn digit(d: nat) -> char {
    (48 + d) as u8 as char
}

/// The decimal digits of `n`, most significant first, without leading zeros.
pub open spec fn decimal(n: nat) -> Seq<char>
    decreases n,
{
    if n < 10 {
        seq![digit(n)]
    } else {
        decimal(n / 10).push(digit(n % 10))
    }
}

/// Whether a character is an ASCII digit.
pub open spec fn is_digit(c: char) -> bool {
    '0' <= c <= '9'
}

/// Whether every character is an ASCII digit.
pub open spec fn all_digits(s: Seq<char>) -> bool {
    forall|i: int| 0 <= i < s.len() ==> is_digit(#[trigger] s[i])
}

/// The number that a row of digits denotes.
pub open spec fn digits_value(s: Seq<char>) -> nat
    decreases s.len(),
{
    if s.len() == 0 {
        0
    } else {
        (digits_value(s.drop_last()) * 10 + (s.last() as u32 - 48)) as nat
    }
}

/// The number that a text denotes, when it is digits after an optional plus
/// sign and not above `max`.
pub open spec fn parsed_number(s: Seq<char>, max: nat) -> Option<nat> {
    let body = if s.len() > 0 && s[0] == '+' {
        s.skip(1)
    } else {
        s
    };
    if body.len() > 0 && all_digits(body) && digits_value(body) <= max {
        Some(digits_value(body))
    } else {
        None
    }
}

/// A number in decimal.
pub fn number_text(n: u64) -> (r: String)
    ensures
        r@ == decimal(n as nat),
{
    let chars = number_chars(n);
    text_of(&chars)
}

fn number_chars(n: u64) -> (r: Vec<char>)
    ensures
        r@ == decimal(n as nat),
    decreases n,
{
    if n < 10 {
        let mut out: Vec<char> = Vec::new();
        out.push((48u8 + n as u8) as char);
        assert(out@ =~= decimal(n as nat));
        out
    } else {
        let mut out = number_chars(n / 10);
        out.push((48u8 + (n % 10) as u8) as char);
        out
    }
}

/// Longer rows of digits denote no smaller numbers.
proof fn digits_value_grows(s: Seq<char>, n: int)
    requires
        all_digits(s),
        0 <= n <= s.len(),
    ensures
        digits_value(s.take(n)) <= digits_value(s),
    decreases s.len(),
{
    if n < s.len() {
        assert(s.drop_last().take(n) =~= s.take(n));
        assert(all_digits(s.drop_last()));
        digits_value_grows(s.drop_last(), n);
        assert(is_digit(s[s.len() - 1]));
    } else {
        assert(s.take(n) =~= s);
    }
}

/// Reads a number not above `max` from decimal text, with an optional plus sign.
pub fn parse_number(s: &str, max: u64) -> (r: Option<u64>)
    ensures
        parsed_number(s@, max as nat) == match r {
            Some(v) => Some(v as nat),
            None => None,
        },
{
    let chars = chars_of(s);
    let from: usize = if chars.len() > 0 && chars[0] == '+' {
        1
    } else {
        0
    };
    let ghost body = s@.skip(from as int);
    assert(s@.skip(0) =~= s@);
    if from == chars.len() {
        return None;
    }
    let mut total: u64 = 0;
    assert(body.take(0) =~= Seq::<char>::empty());
    for i in from..chars.len()
        invariant
            chars@ == s@,
            from <= i <= chars@.len(),
            from < chars@.len(),
            body == s@.skip(from as int),
            parsed_number(s@, max as nat) == if body.len() > 0 && all_digits(body) && digits_value(
                body,
            ) <= max {
                Some(digits_value(body))
            } else {
                None::<nat>
            },
            total == digits_value(body.take(i - from)),
            total <= max,
            all_digits(body.take(i - from)),
    {
        let c = chars[i];
        assert(c == body[i - from]);
        if !('0' <= c && c <= '9') {
            return None;
        }
        let d: u64 = (c as u8 - 48u8) as u64;
        let ghost upto = body.take(i - from + 1);
        proof {
            assert(upto.drop_last() =~= body.take(i - from));
            assert(upto.last() == c);
            assert(all_digits(upto)) by {
                assert forall|k: int| 0 <= k < upto.len() implies is_digit(#[trigger] upto[k]) by {
                    if k < i - from {
                        assert(body.take(i - from)[k] == upto[k]);
                    }
                }
            }
            if all_digits(body) {
                digits_value_grows(body, i - from + 1);
            }
        }
        if total > max / 10 {
            assert(total * 10 > max - 10) by (nonlinear_arith)
                requires
                    total > max / 10,
            ;
            assert(digits_value(upto) > max) by (nonlinear_arith)
                requires
                    total > max / 10,
                    digits_value(upto) >= total * 10,
            ;
            return None;
        }
        assert(total * 10 <= max) by (nonlinear_arith)
            requires
                total <= max / 10,
        ;
        if d > max - total * 10 {
            return None;
        }
        total = total * 10 + d;
    }
    assert(body.take(chars@.len() - from) =~= body);
    Some(total)
}

/// Reading back a written number gives that number.
pub proof fn number_roundtrip(n: nat, max: nat)
    requires
        n <= max,
    ensures
        parsed_number(decimal(n), max) == Some(n),
        all_digits(decimal(n)),
        decimal(n).len() > 0,
        digits_value(decimal(n)) == n,
    decreases n,
{
    if n < 10 {
        let s = decimal(n);
        assert(s.drop_last() =~= Seq::<char>::empty());
        assert(digits_value(s.drop_last()) == 0);
        assert(s.last() as u32 == 48 + n);
        assert(all_digits(s));
    } else {
        number_roundtrip(n / 10, max);
        let s = decimal(n);
        assert(s.drop_last() =~= decimal(n / 10));
        assert forall|k: int| 0 <= k < s.len() implies is_digit(#[trigger] s[k]) by {
            if k < s.len() - 1 {
                assert(s[k] == decimal(n / 10)[k]);
            }
        }
    }
    assert(is_digit(decimal(n)[0]));
}

} // verus!
