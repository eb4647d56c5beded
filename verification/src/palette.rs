//! Palette generation: 12 HSL colors derived from one base color —
//! complementary (1), a monochromatic lightness ramp (5, base included),
//! analogous hues (3, base included) and triadic hues (3, base included).
//!
//! Every hue step is renormalized into [0, 360) with a Euclidean modulus,
//! so a negative shift such as −30° lands at 330° instead of staying
//! negative; lightness steps clamp to [0, 1].

use vstd::prelude::*;

use crate::color::{Hsl, Rgb, LIGHT_DEN};
use crate::convert::{spec_hsl_to_rgb, spec_rgb_to_hsl};
use vstd::arithmetic::div_mod::{
    lemma_mod_add_multiples_vanish, lemma_mod_sub_multiples_vanish, lemma_small_mod,
};
use vstd::arithmetic::mul::lemma_mul_upper_bound;

verus! {

/// The hue turned by `deg` degrees (of either sign), folded into
/// [0, 360) with a Euclidean modulus; everything else unchanged.
pub open spec fn hue_shifted(h: Hsl, deg: int) -> Hsl {
    Hsl {
        hue_num: ((h.hue_num + deg * h.hue_den) % (360 * h.hue_den)) as u32,
        hue_den: h.hue_den,
        sat_num: h.sat_num,
        sat_den: h.sat_den,
        light_num: h.light_num,
    }
}

/// A lightness numerator clamped into [0, 1020].
pub open spec fn clamp_light(l: int) -> int {
    if l < 0 {
        0
    } else if l > LIGHT_DEN {
        LIGHT_DEN as int
    } else {
        l
    }
}

/// The lightness moved by `delta` (in 1020ths, of either sign) and
/// clamped to [0, 1]; everything else unchanged.
pub open spec fn light_shifted(h: Hsl, delta: int) -> Hsl {
    Hsl {
        hue_num: h.hue_num,
        hue_den: h.hue_den,
        sat_num: h.sat_num,
        sat_den: h.sat_den,
        light_num: clamp_light(h.light_num + delta) as u32,
    }
}

/// The palette rule: complementary, then the monochromatic ramp with
/// lightness steps of −0.35, −0.25, 0, +0.25, +0.35, then analogous hues
/// +30°, 0°, −30°, then triadic hues +120°, 0°, −240°.
pub open spec fn spec_palette(h: Hsl) -> Seq<Hsl> {
    seq![
        hue_shifted(h, 180),
        light_shifted(h, -357),
        light_shifted(h, -255),
        h,
        light_shifted(h, 255),
        light_shifted(h, 357),
        hue_shifted(h, 30),
        h,
        hue_shifted(h, -30),
        hue_shifted(h, 120),
        h,
        hue_shifted(h, -240),
    ]
}

/// Turns the hue forward by `deg` degrees, wrapping at 360.
fn hue_add(h: &Hsl, deg: u32) -> (out: Hsl)
    requires
        h.wf(),
        deg <= 359,
    ensures
        out == hue_shifted(*h, deg as int),
        out.wf(),
{
    proof {
        lemma_mul_upper_bound(deg as int, 359, h.hue_den as int, 255);
        assert((deg as int) * (h.hue_den as int) <= 359 * (h.hue_den as int)) by (nonlinear_arith)
            requires
                deg as int <= 359,
                h.hue_den as int >= 0,
        ;
    }
    let add = deg * h.hue_den;
    let m = 360 * h.hue_den;
    let s = h.hue_num + add;
    let num = if s >= m {
        s - m
    } else {
        s
    };
    proof {
        if s >= m {
            lemma_mod_sub_multiples_vanish(s as int, m as int);
            lemma_small_mod((s - m) as nat, m as nat);
        } else {
            lemma_small_mod(s as nat, m as nat);
        }
    }
    Hsl {
        hue_num: num,
        hue_den: h.hue_den,
        sat_num: h.sat_num,
        sat_den: h.sat_den,
        light_num: h.light_num,
    }
}

/// Turns the hue backward by `deg` degrees, wrapping at 0 back to just
/// under 360.
fn hue_sub(h: &Hsl, deg: u32) -> (out: Hsl)
    requires
        h.wf(),
        deg <= 359,
    ensures
        out == hue_shifted(*h, -(deg as int)),
        out.wf(),
{
    proof {
        lemma_mul_upper_bound(deg as int, 359, h.hue_den as int, 255);
        assert((deg as int) * (h.hue_den as int) <= 359 * (h.hue_den as int)) by (nonlinear_arith)
            requires
                deg as int <= 359,
                h.hue_den as int >= 0,
        ;
        assert((-(deg as int)) * (h.hue_den as int) == -((deg as int) * (h.hue_den as int)))
            by (nonlinear_arith);
    }
    let sub = deg * h.hue_den;
    let m = 360 * h.hue_den;
    let num = if h.hue_num >= sub {
        h.hue_num - sub
    } else {
        h.hue_num + m - sub
    };
    proof {
        let z = h.hue_num - sub;
        if h.hue_num >= sub {
            lemma_small_mod(z as nat, m as nat);
        } else {
            lemma_mod_add_multiples_vanish(z, m as int);
            lemma_small_mod((z + m) as nat, m as nat);
        }
    }
    Hsl {
        hue_num: num,
        hue_den: h.hue_den,
        sat_num: h.sat_num,
        sat_den: h.sat_den,
        light_num: h.light_num,
    }
}

/// Raises the lightness by `delta` 1020ths, clamping at 1.
fn light_add(h: &Hsl, delta: u32) -> (out: Hsl)
    requires
        h.wf(),
        delta <= LIGHT_DEN,
    ensures
        out == light_shifted(*h, delta as int),
        out.wf(),
{
    let s = h.light_num + delta;
    let num = if s > LIGHT_DEN {
        LIGHT_DEN
    } else {
        s
    };
    Hsl {
        hue_num: h.hue_num,
        hue_den: h.hue_den,
        sat_num: h.sat_num,
        sat_den: h.sat_den,
        light_num: num,
    }
}

/// Lowers the lightness by `delta` 1020ths, clamping at 0.
fn light_sub(h: &Hsl, delta: u32) -> (out: Hsl)
    requires
        h.wf(),
    ensures
        out == light_shifted(*h, -(delta as int)),
        out.wf(),
{
    let num = if h.light_num >= delta {
        h.light_num - delta
    } else {
        0
    };
    Hsl {
        hue_num: h.hue_num,
        hue_den: h.hue_den,
        sat_num: h.sat_num,
        sat_den: h.sat_den,
        light_num: num,
    }
}

/// Derives the ordered 12-color palette from a base HSL color.
pub fn generate_palette(h: &Hsl) -> (v: Vec<Hsl>)
    requires
        h.wf(),
    ensures
        v@ == spec_palette(*h),
        forall|i: int| 0 <= i < v@.len() ==> (#[trigger] v@[i]).wf(),
{
    let mut v: Vec<Hsl> = Vec::new();
    v.push(hue_add(h, 180));
    v.push(light_sub(h, 357));
    v.push(light_sub(h, 255));
    v.push(*h);
    v.push(light_add(h, 255));
    v.push(light_add(h, 357));
    v.push(hue_add(h, 30));
    v.push(*h);
    v.push(hue_sub(h, 30));
    v.push(hue_add(h, 120));
    v.push(*h);
    v.push(hue_sub(h, 240));
    proof {
        assert(v@ =~= spec_palette(*h));
    }
    v
}

/// The derived-effects rule: the base color's exact HSL form, run through
/// the palette rule, each entry converted back to RGB.
pub open spec fn spec_effects(rgb: Rgb) -> Seq<Rgb> {
    spec_palette(spec_rgb_to_hsl(rgb)).map_values(|h: Hsl| spec_hsl_to_rgb(h))
}

/// Derives the 12 palette colors of a base RGB color, as RGB values ready
/// for display.
pub fn derive_effects(rgb: &Rgb) -> (out: Vec<Rgb>)
    ensures
        out@ == spec_effects(*rgb),
{
    let h = crate::convert::rgb_to_hsl(rgb);
    let palette = generate_palette(&h);
    let out = crate::convert::hsl_list_to_rgb(&palette);
    proof {
        assert(out@ =~= spec_effects(*rgb));
    }
    out
}

} // verus!
