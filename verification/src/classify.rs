//! Input classification: decides whether a raw color string is a hex code
//! or a delimited numeric triplet, and rejects ambiguous or unrecognizable
//! forms.
//!
//! The rules, in priority order: a string holding both `,` and `:` is
//! ambiguous; else a string of hex digits only (vacuously, the empty string
//! too) is hex; else a string holding a delimiter is a triplet; anything
//! else is unrecognized.

use vstd::prelude::*;

use crate::error::ValueError;

verus! {

/// The delimiter of a triplet input.
#[derive(Clone, Copy, Debug, PartialEq, Eq, Structural)]
pub enum Delimiter {
    Comma,
    Colon,
}

impl Delimiter {
    /// The character this delimiter stands for.
    pub open spec fn spec_char(self) -> char {
        match self {
            Delimiter::Comma => ',',
            Delimiter::Colon => ':',
        }
    }

    /// Executable form of [`Self::spec_char`].
    pub fn as_char(self) -> (c: char)
        ensures
            c == self.spec_char(),
    {
        match self {
            Delimiter::Comma => ',',
            Delimiter::Colon => ':',
        }
    }
}

/// How an input string is to be read.
#[derive(Clone, Copy, Debug, PartialEq, Eq, Structural)]
pub enum InputMode {
    /// A hex color code such as `ff3342`.
    Hex,
    /// A delimited numeric triplet such as `255,128,64`.
    Triplet(Delimiter),
}

/// Whether `c` occurs in `s`.
pub open spec fn contains_char(s: Seq<char>, c: char) -> bool {
    exists|i: int| 0 <= i < s.len() && s[i] == c
}

/// Whether `c` is an ASCII hexadecimal digit.
pub open spec fn is_hex_digit(c: char) -> bool {
    ||| ('0' <= c && c <= '9')
    ||| ('a' <= c && c <= 'f')
    ||| ('A' <= c && c <= 'F')
}

/// Whether every character of `s` is a hex digit (vacuously true of the
/// empty sequence).
pub open spec fn all_hex_digits(s: Seq<char>) -> bool {
    forall|i: int| 0 <= i < s.len() ==> is_hex_digit(#[trigger] s[i])
}

/// The classification rule on the characters of the input.
pub open spec fn spec_classify(s: Seq<char>) -> Result<InputMode, ValueError> {
    if contains_char(s, ',') && contains_char(s, ':') {
        Err(ValueError::AmbiguousDelimiter)
    } else if all_hex_digits(s) {
        Ok(InputMode::Hex)
    } else if contains_char(s, ',') {
        Ok(InputMode::Triplet(Delimiter::Comma))
    } else if contains_char(s, ':') {
        Ok(InputMode::Triplet(Delimiter::Colon))
    } else {
        Err(ValueError::UnrecognizedFormat)
    }
}

/// Whether the character `c` occurs anywhere in `s`.
pub fn str_contains_char(s: &str, c: char) -> (b: bool)
    ensures
        b == contains_char(s@, c),
{
    let n = s.unicode_len();
    let mut i: usize = 0;
    while i < n
        invariant
            n == s@.len(),
            0 <= i <= n,
            forall|j: int| 0 <= j < i ==> s@[j] != c,
        decreases n - i,
    {
        if s.get_char(i) == c {
            return true;
        }
        i = i + 1;
    }
    false
}

/// Executable form of [`is_hex_digit`].
pub fn char_is_hex_digit(c: char) -> (b: bool)
    ensures
        b == is_hex_digit(c),
{
    ('0' <= c && c <= '9') || ('a' <= c && c <= 'f') || ('A' <= c && c <= 'F')
}

/// Whether every character of the string is a hexadecimal digit.
pub fn is_valid_hex(hex: &str) -> (b: bool)
    ensures
        b == all_hex_digits(hex@),
{
    let n = hex.unicode_len();
    let mut i: usize = 0;
    while i < n
        invariant
            n == hex@.len(),
            0 <= i <= n,
            forall|j: int| 0 <= j < i ==> is_hex_digit(#[trigger] hex@[j]),
        decreases n - i,
    {
        if !char_is_hex_digit(hex.get_char(i)) {
            return false;
        }
        i = i + 1;
    }
    true
}

/// Classifies a raw input string as hex or triplet, or rejects it.
pub fn classify(s: &str) -> (r: Result<InputMode, ValueError>)
    ensures
        r == spec_classify(s@),
{
    let has_comma = str_contains_char(s, ',');
    let has_colon = str_contains_char(s, ':');
    if has_comma && has_colon {
        Err(ValueError::AmbiguousDelimiter)
    } else if is_valid_hex(s) {
        Ok(InputMode::Hex)
    } else if has_comma {
        Ok(InputMode::Triplet(Delimiter::Comma))
    } else if has_colon {
        Ok(InputMode::Triplet(Delimiter::Colon))
    } else {
        Err(ValueError::UnrecognizedFormat)
    }
}

} // verus!
