//! Reading a digit string into a number, writing a number as a digit string,
//! and the two in sequence.

use crate::alphabet::{digit_char, digit_of, lemma_digits_is_alphabet, DIGITS, MAX_BASE};
use crate::error::ConvertError;
use crate::numeral::{
    all_digits, is_digit_in, lemma_value_prefix, lemma_value_push, numeral, positive_digits,
    valid_base, value_of,
};
use vstd::prelude::*;

verus! {

/// What reading `s` in `base` gives: the value of `s`, or the reason why there is
/// none. An invalid base is reported before a bad digit, a bad digit before a
/// value that does not fit in 64 bits.
pub open spec fn parse_spec(s: Seq<char>, base: u64) -> Result<u64, ConvertError> {
    if !valid_base(base as int) {
        Err(ConvertError::InvalidBase)
    } else if !all_digits(s, base as int) {
        Err(ConvertError::InvalidDigit)
    } else if value_of(s, base as int) > u64::MAX {
        Err(ConvertError::Overflow)
    } else {
        Ok(value_of(s, base as int) as u64)
    }
}

/// What writing `value` in `base` gives: its numeral, unless the base is invalid.
pub open spec fn format_spec(value: u64, base: u64) -> Result<Seq<char>, ConvertError> {
    if !valid_base(base as int) {
        Err(ConvertError::InvalidBase)
    } else {
        Ok(numeral(value as int, base as int))
    }
}

/// What converting `s` from base `from` to base `to` gives. Both bases are
/// checked before the digits are read.
pub open spec fn convert_spec(s: Seq<char>, from: u64, to: u64) -> Result<
    Seq<char>,
    ConvertError,
> {
    if !valid_base(from as int) || !valid_base(to as int) {
        Err(ConvertError::InvalidBase)
    } else {
        match parse_spec(s, from) {
            Ok(value) => format_spec(value, to),
            Err(e) => Err(e),
        }
    }
}

/// The characters of a string result, the error of a failed one.
pub open spec fn text_of(outcome: Result<String, ConvertError>) -> Result<Seq<char>, ConvertError> {
    match outcome {
        Ok(s) => Ok(s@),
        Err(e) => Err(e),
    }
}

/// The characters of `in_str` in reverse order.
pub fn reverse(in_str: &String) -> (out_str: String)
    ensures
        out_str@ == in_str@.reverse(),
{
    let text = in_str.as_str();
    let length: usize = text.unicode_len();
    let mut out_str = String::new();
    let mut i: usize = 0;
    while i < length
        invariant
            i <= length,
            length == text@.len(),
            text@ == in_str@,
            out_str@ == in_str@.take(i as int).reverse(),
        decreases length - i,
    {
        let glyph = text.substring_char(i, i + 1);
        out_str = String::from_str(glyph).concat(out_str.as_str());
        i += 1;
        assert(out_str@ =~= in_str@.take(i as int).reverse());
    }
    assert(in_str@.take(length as int) =~= in_str@);
    out_str
}

/// Reads `in_str` as a number written in `in_base`, most significant digit first.
///
/// The empty string reads as 0. The result is the exact value or an error:
/// `InvalidBase` for a base outside 2 to 62, else `InvalidDigit` if any character
/// is not a digit below the base, else `Overflow` if the value exceeds 64 bits.
pub fn str_to_int(in_str: &String, in_base: u64) -> (parsed: Result<u64, ConvertError>)
    ensures
        parsed == parse_spec(in_str@, in_base),
{
    if in_base < 2 || in_base > MAX_BASE {
        return Err(ConvertError::InvalidBase);
    }
    let text = in_str.as_str();
    let length: usize = text.unicode_len();
    let mut number: u64 = 0;
    let mut overflowed = false;
    let mut i: usize = 0;
    while i < length
        invariant
            i <= length,
            length == text@.len(),
            text@ == in_str@,
            valid_base(in_base as int),
            all_digits(in_str@.take(i as int), in_base as int),
            !overflowed ==> number == value_of(in_str@.take(i as int), in_base as int),
            overflowed ==> value_of(in_str@.take(i as int), in_base as int) > u64::MAX,
        decreases length - i,
    {
        let c = text.get_char(i);
        let ghost seen = in_str@.take(i as int);
        proof {
            assert(in_str@.take(i + 1) =~= seen.push(c));
            lemma_value_push(seen, c, in_base as int);
            lemma_value_prefix(seen.push(c), i as int, in_base as int);
            assert(seen.push(c).take(i as int) =~= seen);
        }
        let digit: u64 = match digit_of(c) {
            Ok(d) => d,
            Err(e) => {
                assert(!is_digit_in(in_str@[i as int], in_base as int));
                return Err(e);
            },
        };
        if digit >= in_base {
            assert(!is_digit_in(in_str@[i as int], in_base as int));
            return Err(ConvertError::InvalidDigit);
        }
        if !overflowed {
            match number.checked_mul(in_base) {
                Some(shifted) => match shifted.checked_add(digit) {
                    Some(next) => {
                        number = next;
                    },
                    None => {
                        overflowed = true;
                    },
                },
                None => {
                    overflowed = true;
                },
            }
        }
        i += 1;
    }
    assert(in_str@.take(length as int) =~= in_str@);
    if overflowed {
        Err(ConvertError::Overflow)
    } else {
        Ok(number)
    }
}

/// Writes `number` in `out_base`, most significant digit first.
///
/// Zero is written `"0"`; any other number has no leading zero. Fails with
/// `InvalidBase` exactly when the base is outside 2 to 62.
pub fn int_to_str(number: u64, out_base: u64) -> (written: Result<String, ConvertError>)
    ensures
        text_of(written) == format_spec(number, out_base),
{
    if out_base < 2 || out_base > MAX_BASE {
        return Err(ConvertError::InvalidBase);
    }
    if number == 0 {
        proof {
            reveal_strlit("0");
            assert("0"@ =~= seq!['0']);
        }
        return Ok(String::from_str("0"));
    }
    let mut out_str = String::new();
    let mut rest: u64 = number;
    while rest > 0
        invariant
            valid_base(out_base as int),
            positive_digits(number as int, out_base as int) == positive_digits(
                rest as int,
                out_base as int,
            ) + out_str@,
        decreases rest,
    {
        let digit: u64 = rest % out_base;
        let place: usize = digit as usize;
        proof {
            lemma_digits_is_alphabet();
        }
        let glyph = DIGITS.substring_char(place, place + 1);
        let ghost tail = out_str@;
        out_str = String::from_str(glyph).concat(out_str.as_str());
        proof {
            let shorter = positive_digits(rest as int / out_base as int, out_base as int);
            assert(glyph@ =~= seq![digit_char(digit as int)]);
            assert(shorter.push(digit_char(digit as int)) + tail =~= shorter + out_str@);
        }
        rest = rest / out_base;
    }
    assert(positive_digits(0, out_base as int) + out_str@ =~= out_str@);
    Ok(out_str)
}

/// Converts the numeral `in_str` from `in_base` to `out_base`.
///
/// Succeeds exactly when both bases are from 2 to 62, every character of `in_str`
/// is a digit of `in_base`, and the value fits in 64 bits; the result is then that
/// value written in `out_base`. Otherwise the error says which of these failed
/// first, in that order.
pub fn convert(in_str: &String, in_base: u64, out_base: u64) -> (converted: Result<
    String,
    ConvertError,
>)
    ensures
        text_of(converted) == convert_spec(in_str@, in_base, out_base),
{
    if out_base < 2 || out_base > MAX_BASE {
        return Err(ConvertError::InvalidBase);
    }
    match str_to_int(in_str, in_base) {
        Ok(number) => int_to_str(number, out_base),
        Err(e) => Err(e),
    }
}

} // verus!
