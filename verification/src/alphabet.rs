//! The digit alphabet: `0-9`, then `A-Z`, then `a-z`.

use crate::error::ConvertError;
use vstd::prelude::*;

verus! {

/// The digits in order of their value.
pub const DIGITS: &'static str = "0123456789ABCDEFGHIJKLMNOPQRSTUVWXYZabcdefghijklmnopqrstuvwxyz";

/// The largest base that the alphabet can write.
pub const MAX_BASE: u64 = 62;

/// The character that stands for the digit `d`.
pub open spec fn digit_char(d: int) -> char {
    if d < 10 {
        ('0' as int + d) as char
    } else if d < 36 {
        ('A' as int + d - 10) as char
    } else {
        ('a' as int + d - 36) as char
    }
}

/// The alphabet as a sequence: position `d` holds the character of digit `d`.
pub open spec fn alphabet() -> Seq<char> {
    Seq::new(62, |d: int| digit_char(d))
}

/// The constant `DIGITS` spells out the alphabet.
pub proof fn lemma_digits_is_alphabet()
    ensures
        DIGITS@ == alphabet(),
{
    reveal_strlit("0123456789ABCDEFGHIJKLMNOPQRSTUVWXYZabcdefghijklmnopqrstuvwxyz");
    assert(DIGITS@ =~= alphabet());
}

/// The value of the character `c` as a digit, if it is one.
pub open spec fn digit_value(c: char) -> Option<int> {
    if '0' <= c <= '9' {
        Some(c as int - '0' as int)
    } else if 'A' <= c <= 'Z' {
        Some(c as int - 'A' as int + 10)
    } else if 'a' <= c <= 'z' {
        Some(c as int - 'a' as int + 36)
    } else {
        None
    }
}

/// `digit_char` and `digit_value` are inverse to each other: each digit from 0 to 61
/// has one character, and each character stands for at most one digit.
pub proof fn lemma_digit_char_value(d: int, c: char)
    ensures
        0 <= d < 62 ==> digit_value(digit_char(d)) == Some(d),
        digit_value(c) == Some(d) ==> 0 <= d < 62 && digit_char(d) == c,
        digit_value(c) is None ==> !alphabet().contains(c),
{
    if digit_value(c) is None && alphabet().contains(c) {
        let i = choose|i: int| 0 <= i < alphabet().len() && alphabet()[i] == c;
        assert(digit_value(digit_char(i)) == Some(i));
    }
}

/// The position of the first `c` in `source`, counted in characters from 0.
/// Fails with `InvalidDigit` exactly when `source` does not hold `c`.
pub fn find(c: char, source: &str) -> (position: Result<u64, ConvertError>)
    ensures
        match position {
            Ok(index) => index < source@.len() && source@[index as int] == c && forall|j: int|
                0 <= j < index ==> source@[j] != c,
            Err(e) => e == ConvertError::InvalidDigit && !source@.contains(c),
        },
{
    let length: usize = source.unicode_len();
    let mut index: usize = 0;
    while index < length
        invariant
            index <= length,
            length == source@.len(),
            forall|j: int| 0 <= j < index ==> source@[j] != c,
        decreases length - index,
    {
        if source.get_char(index) == c {
            return Ok(index as u64);
        }
        index += 1;
    }
    Err(ConvertError::InvalidDigit)
}

/// The value of `c` as a digit of the alphabet.
/// Fails with `InvalidDigit` exactly when `c` is not one of the 62 digits.
pub fn digit_of(c: char) -> (value: Result<u64, ConvertError>)
    ensures
        match value {
            Ok(d) => digit_value(c) == Some(d as int),
            Err(e) => e == ConvertError::InvalidDigit && digit_value(c) is None,
        },
{
    let value = find(c, DIGITS);
    proof {
        lemma_digits_is_alphabet();
        match value {
            Ok(d) => {
                lemma_digit_char_value(d as int, c);
            },
            Err(_) => {
                if let Some(d) = digit_value(c) {
                    lemma_digit_char_value(d, c);
                    assert(alphabet()[d] == c);
                }
            },
        }
    }
    value
}

} // verus!
