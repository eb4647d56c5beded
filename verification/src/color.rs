//! The two color value types: an RGB triple of 8-bit channels, and an HSL
//! value held as exact integer rationals.
//!
//! Hue is `hue_num / hue_den` degrees with `0 <= hue < 360`. Saturation is
//! `sat_num / sat_den` with `0 <= sat <= 1`. Lightness is `light_num / 1020`
//! with `0 <= light <= 1`; the fixed denominator `1020` is fine enough to
//! hold both the exact lightness of any RGB color (`(max+min)/510`) and the
//! quarter steps of the monochromatic ramp.

use vstd::prelude::*;

verus! {

/// Denominator of the lightness component: lightness = `light_num / 1020`.
pub const LIGHT_DEN: u32 = 1020;

/// An RGB color: three 8-bit channels.
#[derive(Clone, Copy, Debug, PartialEq, Eq, Structural)]
pub struct Rgb {
    pub r: u8,
    pub g: u8,
    pub b: u8,
}

/// An HSL color held as exact rationals.
#[derive(Clone, Copy, Debug, PartialEq, Eq, Structural)]
pub struct Hsl {
    /// Hue numerator: hue = `hue_num / hue_den` degrees.
    pub hue_num: u32,
    /// Hue denominator, at least 1 and at most 255.
    pub hue_den: u32,
    /// Saturation numerator: saturation = `sat_num / sat_den`.
    pub sat_num: u32,
    /// Saturation denominator, at least 1 and at most 255.
    pub sat_den: u32,
    /// Lightness numerator: lightness = `light_num / 1020`.
    pub light_num: u32,
}

impl Hsl {
    /// Well-formedness: hue in [0, 360) degrees, saturation and lightness
    /// in [0, 1], denominators positive and small enough that conversion
    /// arithmetic stays far from overflow.
    pub open spec fn wf(self) -> bool {
        &&& 1 <= self.hue_den <= 255
        &&& self.hue_num < 360 * self.hue_den
        &&& 1 <= self.sat_den <= 255
        &&& self.sat_num <= self.sat_den
        &&& self.light_num <= LIGHT_DEN
    }
}

} // verus!
