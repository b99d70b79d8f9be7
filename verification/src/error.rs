//! The ways in which a conversion can fail.

use vstd::prelude::*;

verus! {

/// Why a conversion was refused. A refused conversion produces no output.
#[derive(Clone, Copy, Debug, PartialEq, Eq, Structural)]
pub enum ConvertError {
    /// The command line did not hold exactly three positional arguments.
    InvalidArgumentCount,
    /// A base is not an integer from 2 to 62.
    InvalidBase,
    /// A character of the input is not a digit of the source base.
    InvalidDigit,
    /// The value of the input does not fit in 64 bits.
    Overflow,
}

impl ConvertError {
    /// The process exit status that reports this error.
    pub open spec fn code(self) -> int {
        match self {
            ConvertError::InvalidArgumentCount => 2,
            ConvertError::InvalidBase => 3,
            ConvertError::InvalidDigit => 4,
            ConvertError::Overflow => 5,
        }
    }

    /// The text shown to the user for this error.
    pub open spec fn text(self) -> Seq<char> {
        match self {
            ConvertError::InvalidArgumentCount => "usage: convert <value> <from_base> <to_base>"@,
            ConvertError::InvalidBase => "base must be an integer from 2 to 62"@,
            ConvertError::InvalidDigit => "value holds a character that is not a digit of its base"@,
            ConvertError::Overflow => "value does not fit in 64 bits"@,
        }
    }

    /// The exit status for this error: 2, 3, 4 or 5, never 0.
    pub fn exit_code(&self) -> (status: i32)
        ensures
            status == self.code(),
            status != 0,
    {
        match self {
            ConvertError::InvalidArgumentCount => 2,
            ConvertError::InvalidBase => 3,
            ConvertError::InvalidDigit => 4,
            ConvertError::Overflow => 5,
        }
    }

    /// A one-line description of this error.
    pub fn message(&self) -> (line: String)
        ensures
            line@ == self.text(),
    {
        match self {
            ConvertError::InvalidArgumentCount => String::from_str(
                "usage: convert <value> <from_base> <to_base>",
            ),
            ConvertError::InvalidBase => String::from_str("base must be an integer from 2 to 62"),
            ConvertError::InvalidDigit => String::from_str(
                "value holds a character that is not a digit of its base",
            ),
            ConvertError::Overflow => String::from_str("value does not fit in 64 bits"),
        }
    }
}

} // verus!
