//! Error kinds for input classification and parsing.

use vstd::prelude::*;

verus! {

/// Why a numeric segment or hex chunk failed to parse.
#[derive(Clone, Copy, Debug, PartialEq, Eq, Structural)]
pub enum ParseErrorKind {
    /// The segment is empty (or holds only a sign).
    Empty,
    /// A character is not a digit of the expected base.
    InvalidChar,
    /// The value does not fit in an 8-bit channel.
    Overflow,
}

/// Everything that can go wrong with a raw color string.
#[derive(Clone, Copy, Debug, PartialEq, Eq, Structural)]
pub enum ValueError {
    /// Both `,` and `:` occur in the input.
    AmbiguousDelimiter,
    /// A hex-classified input whose length is not 5 or 6.
    MalformedHexLength,
    /// A segment or chunk failed numeric parsing.
    InvalidDigit(ParseErrorKind),
    /// No delimiter and not all characters are hex digits.
    UnrecognizedFormat,
    /// A delimited input that does not split into exactly 3 segments.
    WrongSegmentCount,
}

impl ValueError {
    /// The text [`Self::message`] returns for each kind.
    pub open spec fn spec_message(self) -> Seq<char> {
        match self {
            ValueError::AmbiguousDelimiter => "Please use any one of the separate i.e , or :"@,
            ValueError::MalformedHexLength => "Invalid hex code, see -h for help"@,
            ValueError::InvalidDigit(ParseErrorKind::Empty) => {
                "Invalid args, error: cannot parse integer from empty string."@
            },
            ValueError::InvalidDigit(ParseErrorKind::InvalidChar) => {
                "Invalid args, error: invalid digit found in string."@
            },
            ValueError::InvalidDigit(ParseErrorKind::Overflow) => {
                "Invalid args, error: number too large to fit in target type."@
            },
            ValueError::UnrecognizedFormat => "Invalid args, use -h for help"@,
            ValueError::WrongSegmentCount => "expected exactly 3 color segments"@,
        }
    }

    /// A short user-facing description of the error.
    pub fn message(&self) -> (m: &'static str)
        ensures
            m@ == self.spec_message(),
    {
        match self {
            ValueError::AmbiguousDelimiter => "Please use any one of the separate i.e , or :",
            ValueError::MalformedHexLength => "Invalid hex code, see -h for help",
            ValueError::InvalidDigit(ParseErrorKind::Empty) => {
                "Invalid args, error: cannot parse integer from empty string."
            },
            ValueError::InvalidDigit(ParseErrorKind::InvalidChar) => {
                "Invalid args, error: invalid digit found in string."
            },
            ValueError::InvalidDigit(ParseErrorKind::Overflow) => {
                "Invalid args, error: number too large to fit in target type."
            },
            ValueError::UnrecognizedFormat => "Invalid args, use -h for help",
            ValueError::WrongSegmentCount => "expected exactly 3 color segments",
        }
    }
}

} // verus!
