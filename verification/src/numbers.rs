//! Decimal integers as `str::parse` reads them: an optional `+` or `-`, then
//! one or more ASCII digits, and a value that fits the type.

use vstd::prelude::*;

verus! {

/// An ASCII decimal digit.
pub open spec fn is_digit(c: char) -> bool {
    '0' <= c <= '9'
}

/// Every character is an ASCII decimal digit.
pub open spec fn all_digits(s: Seq<char>) -> bool {
    forall|i: int| 0 <= i < s.len() ==> is_digit(#[trigger] s[i])
}

/// The value of a run of decimal digits.
pub open spec fn digits_value(s: Seq<char>) -> int
    decreases s.len(),
{
    if s.len() == 0 {
        0
    } else {
        digits_value(s.drop_last()) * 10 + (s.last() as int - 48)
    }
}

/// The sign and the digits of a decimal number.
pub open spec fn split_sign(s: Seq<char>) -> (bool, Seq<char>) {
    if s.len() > 0 && s[0] == '-' {
        (true, s.skip(1))
    } else if s.len() > 0 && s[0] == '+' {
        (false, s.skip(1))
    } else {
        (false, s)
    }
}

/// The integer that a decimal number stands for, if it is one.
pub open spec fn decimal_value(s: Seq<char>) -> Option<int> {
    let (negative, digits) = split_sign(s);
    if digits.len() == 0 || !all_digits(digits) {
        None
    } else if negative {
        Some(-digits_value(digits))
    } else {
        Some(digits_value(digits))
    }
}

/// The `i64` that `s.parse::<i64>()` gives, if any.
pub open spec fn parse_i64_value(s: Seq<char>) -> Option<i64> {
    match decimal_value(s) {
        Some(v) => if i64::MIN <= v <= i64::MAX {
            Some(v as i64)
        } else {
            None
        },
        None => None,
    }
}

/// The `i32` that `s.parse::<i32>()` gives, if any.
pub open spec fn parse_i32_value(s: Seq<char>) -> Option<i32> {
    match decimal_value(s) {
        Some(v) => if i32::MIN <= v <= i32::MAX {
            Some(v as i32)
        } else {
            None
        },
        None => None,
    }
}

/// A run of digits is worth at least as much as any of its prefixes, and
/// nothing negative.
pub proof fn lemma_digits_value_prefix(s: Seq<char>, k: int)
    requires
        all_digits(s),
        0 <= k <= s.len(),
    ensures
        0 <= digits_value(s.take(k)) <= digits_value(s),
    decreases s.len(),
{
    if k == s.len() {
        assert(s.take(k) =~= s);
        lemma_digits_value_nonneg(s);
    } else {
        assert(all_digits(s.drop_last()));
        lemma_digits_value_prefix(s.drop_last(), k);
        assert(s.drop_last().take(k) =~= s.take(k));
        lemma_digits_value_nonneg(s.drop_last());
    }
}

proof fn lemma_digits_value_nonneg(s: Seq<char>)
    requires
        all_digits(s),
    ensures
        digits_value(s) >= 0,
    decreases s.len(),
{
    if s.len() > 0 {
        assert(all_digits(s.drop_last()));
        lemma_digits_value_nonneg(s.drop_last());
    }
}

/// `s[from..to].parse::<i64>()`, for a string given by its characters.
pub fn parse_i64_chars(s: &Vec<char>, from: usize, to: usize) -> (v: Option<i64>)
    requires
        from <= to <= s@.len(),
    ensures
        v == parse_i64_value(s@.subrange(from as int, to as int)),
{
    let ghost text = s@.subrange(from as int, to as int);
    let mut start = from;
    let mut negative = false;
    if from < to && s[from] == '-' {
        negative = true;
        start = from + 1;
    } else if from < to && s[from] == '+' {
        start = from + 1;
    }
    let ghost digits = s@.subrange(start as int, to as int);
    proof {
        if from < to {
            assert(text[0] == s@[from as int]);
            assert(text.skip(1) =~= s@.subrange(from + 1, to as int));
        }
        if start == from {
            assert(text =~= digits);
        }
        assert(split_sign(text) == (negative, digits));
    }
    if start == to {
        return None;
    }
    let mut acc: u128 = 0;
    let mut i: usize = start;
    while i < to
        invariant
            start <= i <= to <= s@.len(),
            digits == s@.subrange(start as int, to as int),
            digits.len() > 0,
            text == s@.subrange(from as int, to as int),
            split_sign(text) == (negative, digits),
            forall|j: int| start <= j < i ==> is_digit(#[trigger] s@[j]),
            acc == digits_value(s@.subrange(start as int, i as int)),
            acc <= 0x8000_0000_0000_0000u128,
        decreases to - i,
    {
        let c = s[i];
        if !('0' <= c && c <= '9') {
            proof {
                assert(digits[i - start] == c);
                assert(!all_digits(digits));
            }
            return None;
        }
        let d = (c as u32 - 48) as u128;
        proof {
            assert(s@.subrange(start as int, i + 1).drop_last() =~= s@.subrange(
                start as int,
                i as int,
            ));
        }
        acc = acc * 10 + d;
        i = i + 1;
        if acc > 0x8000_0000_0000_0000u128 {
            proof {
                if all_digits(digits) {
                    lemma_digits_value_prefix(digits, i - start);
                    assert(digits.take(i - start) =~= s@.subrange(start as int, i as int));
                }
            }
            return None;
        }
    }
    proof {
        assert forall|j: int| 0 <= j < digits.len() implies is_digit(#[trigger] digits[j]) by {
            assert(digits[j] == s@[start + j]);
        }
        assert(s@.subrange(start as int, i as int) =~= digits);
    }
    if negative {
        if acc == 0x8000_0000_0000_0000u128 {
            Some(i64::MIN)
        } else {
            Some(-(acc as i64))
        }
    } else {
        if acc > 0x7fff_ffff_ffff_ffffu128 {
            None
        } else {
            Some(acc as i64)
        }
    }
}

/// `s.parse::<i64>().ok()`.
pub fn parse_i64(s: &str) -> (v: Option<i64>)
    ensures
        v == parse_i64_value(s@),
{
    let chars = crate::text::chars_of(s);
    assert(chars@.subrange(0, chars@.len() as int) =~= s@);
    parse_i64_chars(&chars, 0, chars.len())
}

/// `s.parse::<i32>().ok()`.
pub fn parse_i32(s: &str) -> (v: Option<i32>)
    ensures
        v == parse_i32_value(s@),
{
    match parse_i64(s) {
        Some(n) => if i32::MIN as i64 <= n && n <= i32::MAX as i64 {
            Some(n as i32)
        } else {
            None
        },
        None => None,
    }
}

} // verus!
