//! Integers as decimal text, the way the standard library writes and reads
//! them.

use vstd::prelude::*;
use crate::text::{chars_of, string_of};

verus! {

/// The character of a decimal digit.
pub open spec fn digit_char(d: int) -> char {
    if d == 0 {
        '0'
    } else if d == 1 {
        '1'
    } else if d == 2 {
        '2'
    } else if d == 3 {
        '3'
    } else if d == 4 {
        '4'
    } else if d == 5 {
        '5'
    } else if d == 6 {
        '6'
    } else if d == 7 {
        '7'
    } else if d == 8 {
        '8'
    } else {
        '9'
    }
}

/// The decimal digits of a natural number, without leading zeros (`0` for
/// zero).
pub open spec fn decimal_digits(n: nat) -> Seq<char>
    decreases n,
{
    if n < 10 {
        seq![digit_char(n as int)]
    } else {
        decimal_digits(n / 10).push(digit_char((n % 10) as int))
    }
}

/// An integer as decimal text: its digits, after a minus sign where it is
/// negative.
pub open spec fn decimal_text(i: int) -> Seq<char> {
    if i < 0 {
        seq!['-'] + decimal_digits((-i) as nat)
    } else {
        decimal_digits(i as nat)
    }
}

/// Writes `i` as decimal text.
pub fn i64_to_string(i: i64) -> (r: String)
    ensures
        r@ == decimal_text(i as int),
{
    let negative = i < 0;
    let mut rest: u64 = if negative {
        if i == i64::MIN {
            0x8000_0000_0000_0000u64
        } else {
            (-i) as u64
        }
    } else {
        i as u64
    };
    let ghost magnitude: nat = rest as nat;
    let mut reversed: Vec<char> = Vec::new();
    reversed.push(digit_of(rest % 10));
    rest = rest / 10;
    let ghost mut low: Seq<char> = seq![digit_char((magnitude % 10) as int)];
    assert(reversed@.reverse() =~= low);
    while rest > 0
        invariant
            low.len() == reversed.len(),
            low.len() > 0,
            reversed@.reverse() == low,
            rest > 0 ==> decimal_digits(magnitude) == decimal_digits(rest as nat) + low,
            rest == 0 ==> decimal_digits(magnitude) == low,
        decreases rest,
    {
        let ghost before = rest as nat;
        let d = digit_of(rest % 10);
        proof {
            let c = digit_char((before % 10) as int);
            if before < 10 {
                assert(decimal_digits(before) =~= seq![c]);
                assert(decimal_digits(before) + low =~= seq![c] + low);
            } else {
                assert(decimal_digits(before) + low =~= decimal_digits(before / 10) + (seq![c]
                    + low));
            }
            assert((reversed@.push(d)).reverse() =~= seq![c] + reversed@.reverse());
            low = seq![c] + low;
        }
        reversed.push(d);
        rest = rest / 10;
    }
    if negative {
        reversed.push('-');
        assert(reversed@.reverse() =~= seq!['-'] + low);
    }
    let mut forward: Vec<char> = Vec::new();
    let mut k: usize = reversed.len();
    while k > 0
        invariant
            k <= reversed.len(),
            forward@ == reversed@.reverse().take(reversed.len() - k),
        decreases k,
    {
        k -= 1;
        forward.push(reversed[k]);
        assert(forward@ =~= reversed@.reverse().take(reversed.len() - k));
    }
    assert(forward@ =~= reversed@.reverse());
    assert(forward@.subrange(0, forward.len() as int) =~= forward@);
    string_of(&forward, 0, forward.len())
}

fn digit_of(d: u64) -> (c: char)
    requires
        d < 10,
    ensures
        c == digit_char(d as int),
{
    if d == 0 {
        '0'
    } else if d == 1 {
        '1'
    } else if d == 2 {
        '2'
    } else if d == 3 {
        '3'
    } else if d == 4 {
        '4'
    } else if d == 5 {
        '5'
    } else if d == 6 {
        '6'
    } else if d == 7 {
        '7'
    } else if d == 8 {
        '8'
    } else {
        '9'
    }
}

/// The value of a decimal digit character: `None` for any other character.
pub open spec fn digit_value(c: char) -> Option<nat> {
    if '0' <= c && c <= '9' {
        Some((c as u32 - '0' as u32) as nat)
    } else {
        None
    }
}

/// The number that the digits `s` denote: `None` where `s` holds a
/// character that is no digit.
pub open spec fn digits_value(s: Seq<char>) -> Option<nat>
    decreases s.len(),
{
    if s.len() == 0 {
        Some(0)
    } else {
        match (digits_value(s.drop_last()), digit_value(s.last())) {
            (Some(high), Some(d)) => Some(high * 10 + d),
            _ => None,
        }
    }
}

/// The unsigned 32-bit number that `s` denotes: one or more decimal
/// digits, after an optional plus sign, with a value that fits. `None` for
/// every other text.
pub open spec fn spec_parse_u32(s: Seq<char>) -> Option<u32> {
    let digits = if s.len() > 0 && s[0] == '+' {
        s.drop_first()
    } else {
        s
    };
    if digits.len() == 0 {
        None
    } else {
        match digits_value(digits) {
            Some(n) => if n <= u32::MAX {
                Some(n as u32)
            } else {
                None
            },
            None => None,
        }
    }
}

proof fn lemma_digits_value_grows(s: Seq<char>, k: int)
    requires
        0 <= k <= s.len(),
        digits_value(s.take(k)) matches Some(n) && n > u32::MAX,
    ensures
        digits_value(s) matches Some(m) ==> m > u32::MAX,
    decreases s.len() - k,
{
    if k < s.len() {
        assert(s.take(k + 1).drop_last() =~= s.take(k));
        if digits_value(s.take(k + 1)) is Some {
            lemma_digits_value_grows(s, k + 1);
        } else {
            lemma_digits_value_none(s, k + 1);
        }
    } else {
        assert(s.take(k) =~= s);
    }
}

proof fn lemma_digits_value_none(s: Seq<char>, k: int)
    requires
        0 <= k <= s.len(),
        digits_value(s.take(k)) is None,
    ensures
        digits_value(s) is None,
    decreases s.len() - k,
{
    if k < s.len() {
        assert(s.take(k + 1).drop_last() =~= s.take(k));
        lemma_digits_value_none(s, k + 1);
    } else {
        assert(s.take(k) =~= s);
    }
}

/// Reads an unsigned 32-bit number from decimal text.
pub fn parse_u32(text: &str) -> (r: Option<u32>)
    ensures
        r == spec_parse_u32(text@),
{
    let chars = chars_of(text);
    let start: usize = if chars.len() > 0 && chars[0] == '+' {
        1
    } else {
        0
    };
    if start == chars.len() {
        return None;
    }
    let ghost digits = if text@.len() > 0 && text@[0] == '+' {
        text@.drop_first()
    } else {
        text@
    };
    assert(digits =~= chars@.skip(start as int));
    let mut value: u64 = 0;
    let mut i: usize = start;
    assert(digits.take(0) =~= Seq::empty());
    while i < chars.len()
        invariant
            start <= i <= chars.len(),
            start < chars.len(),
            digits == chars@.skip(start as int),
            digits == if text@.len() > 0 && text@[0] == '+' {
                text@.drop_first()
            } else {
                text@
            },
            digits_value(digits.take(i - start)) == Some(value as nat),
            value <= u32::MAX,
        decreases chars.len() - i,
    {
        let c = chars[i];
        proof {
            assert(digits.take(i - start + 1).drop_last() =~= digits.take(i - start));
            assert(digits.take(i - start + 1).last() == c);
        }
        if c < '0' || c > '9' {
            proof {
                lemma_digits_value_none(digits, i - start + 1);
            }
            return None;
        }
        let d: u64 = (c as u32 - '0' as u32) as u64;
        value = value * 10 + d;
        if value > 0xFFFF_FFFF {
            proof {
                lemma_digits_value_grows(digits, i - start + 1);
            }
            return None;
        }
        i += 1;
    }
    assert(digits.take(chars.len() - start) =~= digits);
    Some(value as u32)
}

} // verus!
