//! The command line's rules: three positional arguments in, one line out.

use crate::alphabet::MAX_BASE;
use crate::convert::{convert, convert_spec, parse_spec, str_to_int, text_of};
use crate::error::ConvertError;
use crate::numeral::valid_base;
use vstd::prelude::*;

verus! {

/// What a base argument means: the number it writes in decimal, if that is a
/// base from 2 to 62. Anything else, unreadable or out of range, is `InvalidBase`.
pub open spec fn base_spec(text: Seq<char>) -> Result<u64, ConvertError> {
    match parse_spec(text, 10) {
        Ok(base) => if valid_base(base as int) {
            Ok(base)
        } else {
            Err(ConvertError::InvalidBase)
        },
        Err(_) => Err(ConvertError::InvalidBase),
    }
}

/// The line printed for a conversion: the value as given, an arrow, the result.
pub open spec fn line_spec(value: Seq<char>, converted: Seq<char>) -> Seq<char> {
    value + " -> "@ + converted
}

/// What a run on the positional arguments `args` prints, or why it fails.
/// The arguments are the value, its base, and the base to convert to.
pub open spec fn run_spec(args: Seq<String>) -> Result<Seq<char>, ConvertError> {
    if args.len() != 3 {
        Err(ConvertError::InvalidArgumentCount)
    } else {
        match (base_spec(args[1]@), base_spec(args[2]@)) {
            (Ok(from), Ok(to)) => match convert_spec(args[0]@, from, to) {
                Ok(converted) => Ok(line_spec(args[0]@, converted)),
                Err(e) => Err(e),
            },
            _ => Err(ConvertError::InvalidBase),
        }
    }
}

/// Reads a base given as a decimal string.
///
/// Succeeds exactly when `text` is made of decimal digits whose value is from 2
/// to 62; every other text fails with `InvalidBase`.
pub fn parse_base(text: &String) -> (base: Result<u64, ConvertError>)
    ensures
        base == base_spec(text@),
{
    match str_to_int(text, 10) {
        Ok(base) => if base < 2 || base > MAX_BASE {
            Err(ConvertError::InvalidBase)
        } else {
            Ok(base)
        },
        Err(_) => Err(ConvertError::InvalidBase),
    }
}

/// Runs one conversion on the positional arguments of the command line and
/// returns the line to print.
///
/// Fails with `InvalidArgumentCount` unless there are exactly three arguments,
/// with `InvalidBase` unless both base arguments are decimal numbers from 2 to
/// 62, and otherwise as `convert` does.
pub fn run(args: &Vec<String>) -> (line: Result<String, ConvertError>)
    ensures
        text_of(line) == run_spec(args@),
{
    if args.len() != 3 {
        return Err(ConvertError::InvalidArgumentCount);
    }
    let from = match parse_base(&args[1]) {
        Ok(base) => base,
        Err(e) => {
            return Err(e);
        },
    };
    let to = match parse_base(&args[2]) {
        Ok(base) => base,
        Err(e) => {
            return Err(e);
        },
    };
    match convert(&args[0], from, to) {
        Ok(converted) => {
            let line = args[0].clone().concat(" -> ").concat(converted.as_str());
            Ok(line)
        },
        Err(e) => Err(e),
    }
}

} // verus!
