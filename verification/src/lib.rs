//! A small color library: classifies raw color strings (hex code or
//! delimited triplet), parses them into RGB, scales channels by a rational
//! factor, converts between RGB and HSL, and derives related palettes.
//!
//! All color-space arithmetic is exact: an HSL value is held as integer
//! rationals, so every conversion and palette formula is stated and proved
//! without rounding ambiguity.

use vstd::prelude::*;

pub mod classify;
pub mod color;
pub mod convert;
pub mod error;
pub mod palette;
pub mod parse;
pub mod present;
pub mod scale;

use crate::classify::{spec_classify, InputMode};
use crate::color::Rgb;
use crate::error::ValueError;
use crate::parse::{spec_parse_hex, spec_parse_triplet};

verus! {

/// The whole input rule: classification, then the parser the mode calls
/// for. Every failure is one tagged error; no helper decides an outcome
/// on its own.
pub open spec fn spec_parse_color(s: Seq<char>) -> Result<(InputMode, Rgb), ValueError> {
    match spec_classify(s) {
        Err(e) => Err(e),
        Ok(InputMode::Hex) => match spec_parse_hex(s) {
            Ok(rgb) => Ok((InputMode::Hex, rgb)),
            Err(e) => Err(e),
        },
        Ok(InputMode::Triplet(d)) => match spec_parse_triplet(s, d.spec_char()) {
            Ok(rgb) => Ok((InputMode::Triplet(d), rgb)),
            Err(e) => Err(e),
        },
    }
}

/// Classifies a raw color string and parses it into an RGB triple,
/// reporting the mode it was read in.
pub fn parse_color(s: &str) -> (r: Result<(InputMode, Rgb), ValueError>)
    ensures
        r == spec_parse_color(s@),
{
    match classify::classify(s) {
        Err(e) => Err(e),
        Ok(InputMode::Hex) => match parse::parse_hex_color(s) {
            Ok(rgb) => Ok((InputMode::Hex, rgb)),
            Err(e) => Err(e),
        },
        Ok(InputMode::Triplet(d)) => match parse::parse_triplet(s, d) {
            Ok(rgb) => Ok((InputMode::Triplet(d), rgb)),
            Err(e) => Err(e),
        },
    }
}

} // verus!
