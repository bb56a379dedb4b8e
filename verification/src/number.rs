//! Decimal and hexadecimal notation of natural numbers.

use vstd::prelude::*;
use crate::text::{char_is_digit, chars_of, is_digit, string_of};

verus! {

pub open spec fn digit_char(d: nat) -> char {
    (('0' as u32) + d) as char
}

/// The decimal notation of `n`, without leading zeros.
pub open spec fn decimal(n: nat) -> Seq<char>
    decreases n,
{
    if n < 10 {
        seq![digit_char(n)]
    } else {
        decimal(n / 10).push(digit_char(n % 10))
    }
}

/// Whether the text is a non-empty row of decimal digits.
pub open spec fn all_digits(s: Seq<char>) -> bool {
    forall|i: int| 0 <= i < s.len() ==> is_digit(#[trigger] s[i])
}

/// The value of a row of decimal digits.
pub open spec fn digits_value(s: Seq<char>) -> nat
    decreases s.len(),
{
    if s.len() == 0 {
        0
    } else {
        digits_value(s.drop_last()) * 10 + (s.last() as nat - '0' as nat) as nat
    }
}

/// The number that the text writes in decimal, after an optional plus sign, if it
/// writes one that is at most `max`.
pub open spec fn parse_seq(s: Seq<char>, max: nat) -> Option<nat> {
    let digits = if s.len() > 0 && s[0] == '+' {
        s.skip(1)
    } else {
        s
    };
    if digits.len() > 0 && all_digits(digits) && digits_value(digits) <= max {
        Some(digits_value(digits))
    } else {
        None
    }
}

proof fn lemma_decimal(n: nat)
    ensures
        decimal(n).len() > 0,
        all_digits(decimal(n)),
        digits_value(decimal(n)) == n,
        n > 0 ==> decimal(n)[0] != '0',
    decreases n,
{
    if n < 10 {
        assert(decimal(n).drop_last() =~= Seq::empty());
        assert(digits_value(Seq::<char>::empty()) == 0);
    } else {
        lemma_decimal(n / 10);
        assert(decimal(n).drop_last() =~= decimal(n / 10));
    }
}

/// What was written in decimal is read back.
pub proof fn decimal_then_parse(n: nat, max: nat)
    requires
        n <= max,
    ensures
        parse_seq(decimal(n), max) == Some(n),
{
    lemma_decimal(n);
    assert(is_digit(decimal(n)[0]));
}

/// Two numbers with the same decimal notation are the same.
pub proof fn decimal_is_injective(m: nat, n: nat)
    requires
        decimal(m) == decimal(n),
    ensures
        m == n,
{
    lemma_decimal(m);
    lemma_decimal(n);
}

/// Zeros in front of a row of digits do not change its value.
pub proof fn leading_zeros_count_nothing(zeros: Seq<char>, s: Seq<char>)
    requires
        forall|i: int| 0 <= i < zeros.len() ==> #[trigger] zeros[i] == '0',
    ensures
        digits_value(zeros + s) == digits_value(s),
    decreases zeros.len() + s.len(),
{
    if s.len() > 0 {
        assert((zeros + s).drop_last() =~= zeros + s.drop_last());
        assert((zeros + s).last() == s.last());
        leading_zeros_count_nothing(zeros, s.drop_last());
    } else if zeros.len() > 0 {
        let front = zeros.drop_last();
        assert((zeros + s).drop_last() =~= front + s);
        assert((zeros + s).last() == '0');
        leading_zeros_count_nothing(front, s);
    } else {
        assert(zeros + s =~= s);
    }
}

/// The decimal notation of a number holds digits, at least one, and no zero in front.
pub proof fn decimal_is_digits(n: nat)
    ensures
        decimal(n).len() > 0,
        all_digits(decimal(n)),
        n > 0 ==> decimal(n)[0] != '0',
{
    lemma_decimal(n);
}

/// The decimal notation of a number is a row of digits of its value.
pub proof fn decimal_has_its_value(n: nat)
    ensures
        digits_value(decimal(n)) == n,
{
    lemma_decimal(n);
}

proof fn lemma_value_grows(s: Seq<char>, t: Seq<char>)
    requires
        s.is_prefix_of(t),
        all_digits(t),
    ensures
        digits_value(s) <= digits_value(t),
    decreases t.len(),
{
    if s.len() < t.len() {
        assert(is_digit(t[t.len() - 1]));
        assert(s =~= t.drop_last().take(s.len() as int));
        assert forall|i: int| 0 <= i < t.drop_last().len() implies is_digit(
            #[trigger] t.drop_last()[i],
        ) by {
            assert(is_digit(t[i]));
        }
        lemma_value_grows(s, t.drop_last());
    } else {
        assert(s =~= t);
    }
}

/// The decimal notation of `n`.
pub fn decimal_text(n: u64) -> (r: String)
    ensures
        r@ == decimal(n as nat),
{
    let digits: Vec<char> = decimal_chars(n);
    string_of(digits.as_slice())
}

fn decimal_chars(n: u64) -> (r: Vec<char>)
    ensures
        r@ == decimal(n as nat),
    decreases n,
{
    let last: u8 = (n % 10) as u8;
    let c: char = (48 + last) as char;
    assert(c == digit_char((n % 10) as nat));
    if n < 10 {
        let mut r: Vec<char> = Vec::new();
        r.push(c);
        assert(r@ =~= decimal(n as nat));
        r
    } else {
        let mut r: Vec<char> = decimal_chars(n / 10);
        r.push(c);
        r
    }
}

pub fn decimal_usize(n: usize) -> (r: String)
    ensures
        r@ == decimal(n as nat),
{
    decimal_text(n as u64)
}

/// The decimal notation of a signed number, with a minus sign where it is negative.
pub open spec fn signed_decimal(n: int) -> Seq<char> {
    if n < 0 {
        seq!['-'] + decimal((-n) as nat)
    } else {
        decimal(n as nat)
    }
}

pub fn signed_text(n: i64) -> (r: String)
    ensures
        r@ == signed_decimal(n as int),
{
    if n < 0 {
        let m: u64 = (-(n as i128)) as u64;
        let digits: String = decimal_text(m);
        let r: String = crate::text::cat2("-", digits.as_str());
        proof {
            reveal_strlit("-");
            assert("-"@ =~= seq!['-']);
        }
        r
    } else {
        decimal_text(n as u64)
    }
}

fn digits_start(chars: &Vec<char>) -> (i: usize)
    ensures
        i == (if chars@.len() > 0 && chars@[0] == '+' {
            1int
        } else {
            0
        }),
{
    if chars.len() > 0 && chars[0] == '+' {
        1
    } else {
        0
    }
}

/// Reads a decimal number of at most `max`, after an optional plus sign.
pub fn parse_decimal(text: &str, max: u64) -> (r: Option<u64>)
    ensures
        match (r, parse_seq(text@, max as nat)) {
            (Some(a), Some(b)) => a == b,
            (None, None) => true,
            _ => false,
        },
{
    let chars: Vec<char> = chars_of(text);
    let start: usize = digits_start(&chars);
    let ghost digits = if chars@.len() > 0 && chars@[0] == '+' {
        chars@.skip(1)
    } else {
        chars@
    };
    assert(digits =~= chars@.skip(start as int));
    if start == chars.len() {
        return None;
    }
    let mut value: u64 = 0;
    let mut i: usize = start;
    assert(digits.take(0) =~= Seq::empty());
    while i < chars.len()
        invariant
            start <= i <= chars@.len(),
            chars@ == text@,
            digits == chars@.skip(start as int),
            parse_seq(text@, max as nat) == (if digits.len() > 0 && all_digits(digits)
                && digits_value(digits) <= max {
                Some(digits_value(digits))
            } else {
                None
            }),
            forall|j: int| 0 <= j < i - start ==> is_digit(#[trigger] digits[j]),
            value == digits_value(digits.take(i - start)),
            value <= max,
        decreases chars@.len() - i,
    {
        let c: char = chars[i];
        assert(c == digits[i - start]);
        if !char_is_digit(c) {
            return None;
        }
        let d: u64 = (c as u32 - 48) as u64;
        let ghost next = digits.take(i - start + 1);
        proof {
            assert(next.drop_last() =~= digits.take(i - start));
            assert(next.last() == c);
            assert(digits_value(next) == value * 10 + d);
            if all_digits(digits) {
                lemma_value_grows(next, digits);
            }
        }
        if d > max || value > (max - d) / 10 {
            assert(digits_value(next) > max) by {
                if d <= max {
                    assert(value >= (max - d) as nat / 10 + 1);
                    assert(value * 10 + d > max);
                }
            }
            return None;
        }
        assert(value * 10 + d <= max);
        value = value * 10 + d;
        i += 1;
    }
    assert(digits.take(digits.len() as int) =~= digits);
    Some(value)
}

} // verus!
