//! Decimal notation: the value of a run of digits, and the digits of a value.

use vstd::prelude::*;
use vstd::slice::slice_index_get;
use crate::error::LexError;

verus! {

/// The ten decimal digits, `'0'` to `'9'`.
pub open spec fn is_decimal_digit(c: char) -> bool {
    '0' <= c && c <= '9'
}

/// The value of a decimal digit.
pub open spec fn digit_value(c: char) -> int {
    c as int - '0' as int
}

/// The decimal digit for a value from 0 to 9.
pub open spec fn digit_char(d: int) -> char {
    ('0' as int + d) as char
}

/// Whether every character of `s` is a decimal digit.
pub open spec fn all_decimal_digits(s: Seq<char>) -> bool {
    forall|i: int| 0 <= i < s.len() ==> is_decimal_digit(#[trigger] s[i])
}

/// The number that a sequence of decimal digits denotes, most significant
/// digit first.
pub open spec fn decimal_value(s: Seq<char>) -> int
    decreases s.len(),
{
    if s.len() == 0 {
        0
    } else {
        decimal_value(s.drop_last()) * 10 + digit_value(s.last())
    }
}

/// What a run of characters means as an integer literal: its decimal
/// value, unless the run is empty, a character is no decimal digit, or the
/// value does not fit in an `i32`.
pub open spec fn parse_literal(s: Seq<char>) -> Result<int, LexError> {
    if s.len() == 0 {
        Err(LexError::Empty)
    } else if !all_decimal_digits(s) {
        Err(LexError::InvalidDigit)
    } else if decimal_value(s) > i32::MAX {
        Err(LexError::IntegerOverflow)
    } else {
        Ok(decimal_value(s))
    }
}

/// The decimal digits of `n`, most significant first, without leading
/// zeros; `0` is written `"0"`.
pub open spec fn decimal_digits(n: nat) -> Seq<char>
    decreases n,
{
    if n < 10 {
        seq![digit_char(n as int)]
    } else {
        decimal_digits(n / 10).push(digit_char((n % 10) as int))
    }
}

/// The decimal notation of an integer: its digits, after a minus sign if
/// it is negative.
pub open spec fn decimal_text(v: int) -> Seq<char> {
    if v < 0 {
        seq!['-'] + decimal_digits((-v) as nat)
    } else {
        decimal_digits(v as nat)
    }
}

/// The value of a sequence of decimal digits is not negative, and appending
/// a digit does not make it smaller.
pub proof fn lemma_decimal_value_grows(s: Seq<char>)
    requires
        all_decimal_digits(s),
    ensures
        decimal_value(s) >= 0,
        s.len() > 0 ==> decimal_value(s) >= decimal_value(s.drop_last()),
    decreases s.len(),
{
    if s.len() > 0 {
        lemma_decimal_value_grows(s.drop_last());
    }
}

/// Reads a run of characters as an integer literal: gives the decimal value
/// of `digits`, or says why they have none that fits.
pub fn parse_decimal(digits: &[char]) -> (result: Result<i32, LexError>)
    ensures
        match result {
            Ok(v) => parse_literal(digits@) == Ok::<int, LexError>(v as int),
            Err(e) => parse_literal(digits@) == Err::<int, LexError>(e),
        },
{
    if digits.len() == 0 {
        return Err(LexError::Empty);
    }
    let mut value: i32 = 0;
    let mut overflow = false;
    let mut i: usize = 0;
    while i < digits.len()
        invariant
            i <= digits.len(),
            all_decimal_digits(digits@.take(i as int)),
            value >= 0,
            !overflow ==> value == decimal_value(digits@.take(i as int)),
            overflow ==> decimal_value(digits@.take(i as int)) > i32::MAX,
        decreases digits.len() - i,
    {
        let c = *slice_index_get(digits, i);
        if !('0' <= c && c <= '9') {
            return Err(LexError::InvalidDigit);
        }
        proof {
            let read = digits@.take(i + 1);
            assert(read.drop_last() =~= digits@.take(i as int));
            lemma_decimal_value_grows(read);
        }
        if !overflow {
            let d: i32 = (c as u32 - '0' as u32) as i32;
            match value.checked_mul(10) {
                Some(tens) => match tens.checked_add(d) {
                    Some(sum) => {
                        value = sum;
                    },
                    None => {
                        overflow = true;
                    },
                },
                None => {
                    overflow = true;
                },
            }
        }
        i += 1;
    }
    proof {
        assert(digits@.take(i as int) =~= digits@);
    }
    if overflow {
        Err(LexError::IntegerOverflow)
    } else {
        Ok(value)
    }
}

/// Appends the decimal digits of `n` to `out`.
pub fn push_digits(out: &mut String, n: u32)
    ensures
        final(out)@ == old(out)@ + decimal_digits(n as nat),
    decreases n,
{
    if n >= 10 {
        push_digits(out, n / 10);
    }
    let d: u8 = (n % 10) as u8;
    out.push(('0' as u8 + d) as char);
}

/// Appends the decimal notation of `v` to `out`.
pub fn push_decimal(out: &mut String, v: i32)
    ensures
        final(out)@ == old(out)@ + decimal_text(v as int),
{
    if v < 0 {
        out.push('-');
        let magnitude: u32 = (-(v as i64)) as u32;
        push_digits(out, magnitude);
    } else {
        push_digits(out, v as u32);
    }
}

} // verus!
