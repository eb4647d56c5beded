//! RGB ↔ HSL conversion, exactly.
//!
//! For channels in [0, 255], lightness is `(max+min)/510` and saturation
//! `(max-min) / (255 - |max+min-255|)`, both exact rationals; the hue is a
//! rational with denominator `max-min`. The reverse direction follows the
//! standard chroma formula `c = (1 - |2L-1|) * S` (the corrected form of
//! the conversion, with the chroma proportional to the saturation) and
//! computes each channel as an exact product over a common denominator,
//! truncated to 8 bits only at the very end; the result always lands in
//! [0, 255], so no wrapping can occur.

use vstd::prelude::*;

use crate::color::{Hsl, Rgb};
use vstd::arithmetic::div_mod::{
    lemma_div_is_ordered, lemma_div_multiples_vanish, lemma_div_pos_is_pos,
    lemma_mod_division_less_than_divisor, lemma_multiply_divide_lt,
};
use vstd::arithmetic::mul::lemma_mul_upper_bound;
use vstd::math::abs;

verus! {

/// The largest of three channel values.
pub open spec fn max3(a: int, b: int, c: int) -> int {
    if a >= b && a >= c {
        a
    } else if b >= c {
        b
    } else {
        c
    }
}

/// The smallest of three channel values.
pub open spec fn min3(a: int, b: int, c: int) -> int {
    if a <= b && a <= c {
        a
    } else if b <= c {
        b
    } else {
        c
    }
}

/// The RGB→HSL rule. With `mx`/`mn` the channel extremes and `d = mx-mn`:
/// lightness is `2(mx+mn) / 1020`; an achromatic color (`d == 0`) has hue
/// and saturation 0; otherwise saturation is `d / (255 - |mx+mn-255|)` and
/// the hue rational is chosen by which channel is largest (red first, then
/// green, then blue), already normalized into [0, 360) degrees.
pub open spec fn spec_rgb_to_hsl(rgb: Rgb) -> Hsl {
    let r = rgb.r as int;
    let g = rgb.g as int;
    let b = rgb.b as int;
    let mx = max3(r, g, b);
    let mn = min3(r, g, b);
    let d = mx - mn;
    let light = 2 * (mx + mn);
    if d == 0 {
        Hsl { hue_num: 0, hue_den: 1, sat_num: 0, sat_den: 1, light_num: light as u32 }
    } else {
        let sden = 255 - abs(mx + mn - 255);
        let hnum: int = if r == mx {
            if g >= b {
                60 * (g - b)
            } else {
                360 * d - 60 * (b - g)
            }
        } else if g == mx {
            60 * (b - r) + 120 * d
        } else {
            60 * (r - g) + 240 * d
        };
        Hsl {
            hue_num: hnum as u32,
            hue_den: d as u32,
            sat_num: d as u32,
            sat_den: sden as u32,
            light_num: light as u32,
        }
    }
}

/// Converts an RGB color to its exact HSL form.
pub fn rgb_to_hsl(rgb: &Rgb) -> (h: Hsl)
    ensures
        h == spec_rgb_to_hsl(*rgb),
        h.wf(),
{
    let r = rgb.r as u32;
    let g = rgb.g as u32;
    let b = rgb.b as u32;
    let mx = if r >= g && r >= b {
        r
    } else if g >= b {
        g
    } else {
        b
    };
    let mn = if r <= g && r <= b {
        r
    } else if g <= b {
        g
    } else {
        b
    };
    let d = mx - mn;
    let light = 2 * (mx + mn);
    if d == 0 {
        Hsl { hue_num: 0, hue_den: 1, sat_num: 0, sat_den: 1, light_num: light }
    } else {
        let sum = mx + mn;
        let sden = if sum >= 255 {
            255 - (sum - 255)
        } else {
            255 - (255 - sum)
        };
        let hnum = if r == mx {
            if g >= b {
                60 * (g - b)
            } else {
                360 * d - 60 * (b - g)
            }
        } else if g == mx {
            if b >= r {
                120 * d + 60 * (b - r)
            } else {
                120 * d - 60 * (r - b)
            }
        } else {
            if r >= g {
                240 * d + 60 * (r - g)
            } else {
                240 * d - 60 * (g - r)
            }
        };
        Hsl { hue_num: hnum, hue_den: d, sat_num: d, sat_den: sden, light_num: light }
    }
}

/// `|2·lightness − 1|` over the lightness denominator 1020.
pub open spec fn abs2l(h: Hsl) -> int {
    abs(2 * h.light_num - 1020) as int
}

/// Chroma numerator: `c = chroma_num / (1020 · sat_den)`.
pub open spec fn chroma_num(h: Hsl) -> int {
    (1020 - abs2l(h)) * h.sat_num
}

/// The hue folded into one 120-degree period, over `hue_den`.
pub open spec fn hue_fold(h: Hsl) -> int {
    (h.hue_num as int) % (120 * h.hue_den)
}

/// `1 − |((hue/60) mod 2) − 1|` over the denominator `60 · hue_den`.
pub open spec fn x_factor(h: Hsl) -> int {
    60 * h.hue_den - abs(hue_fold(h) - 60 * h.hue_den)
}

/// The common denominator of all scaled components:
/// `2 · 1020 · sat_den · 60 · hue_den`.
pub open spec fn common_den(h: Hsl) -> int {
    122400 * h.sat_den * h.hue_den
}

/// Chroma `c` over [`common_den`].
pub open spec fn c_scaled(h: Hsl) -> int {
    chroma_num(h) * 120 * h.hue_den
}

/// The secondary component `x = c · x_factor` over [`common_den`].
pub open spec fn x_scaled(h: Hsl) -> int {
    2 * chroma_num(h) * x_factor(h)
}

/// The offset `m = lightness − c/2` over [`common_den`].
pub open spec fn m_scaled(h: Hsl) -> int {
    120 * h.light_num * h.sat_den * h.hue_den - 60 * h.hue_den * chroma_num(h)
}

/// Which 60-degree sextant the hue lies in (0 through 5).
pub open spec fn sextant(h: Hsl) -> int {
    (h.hue_num as int) / (60 * h.hue_den)
}

/// The `(r', g', b')` components over [`common_den`], chosen by sextant.
pub open spec fn comps_scaled(h: Hsl) -> (int, int, int) {
    let c = c_scaled(h);
    let x = x_scaled(h);
    if sextant(h) == 0 {
        (c, x, 0)
    } else if sextant(h) == 1 {
        (x, c, 0)
    } else if sextant(h) == 2 {
        (0, c, x)
    } else if sextant(h) == 3 {
        (0, x, c)
    } else if sextant(h) == 4 {
        (x, 0, c)
    } else {
        (c, 0, x)
    }
}

/// One final channel: `(component + m) · 255 / common_den`, truncated.
pub open spec fn channel_of(comp: int, m: int, den: int) -> int {
    ((comp + m) * 255) / den
}

/// The HSL→RGB rule, each channel exact and truncated at the end.
pub open spec fn spec_hsl_to_rgb(h: Hsl) -> Rgb {
    let comps = comps_scaled(h);
    let m = m_scaled(h);
    let den = common_den(h);
    Rgb {
        r: channel_of(comps.0, m, den) as u8,
        g: channel_of(comps.1, m, den) as u8,
        b: channel_of(comps.2, m, den) as u8,
    }
}

/// Bounds that make the HSL→RGB arithmetic overflow-free and keep every
/// channel in [0, 255]: the scaled components and offset are nonnegative,
/// `x ≤ c`, and `component + m` never exceeds the common denominator
/// (that is, `component + m ≤ 1` as a rational).
pub proof fn lemma_channel_bounds(h: Hsl)
    requires
        h.wf(),
    ensures
        0 <= chroma_num(h) <= 260100,
        0 <= hue_fold(h) < 120 * h.hue_den,
        0 <= x_factor(h) <= 60 * h.hue_den,
        0 <= x_scaled(h) <= c_scaled(h),
        0 <= m_scaled(h),
        c_scaled(h) + m_scaled(h) <= common_den(h),
        0 < common_den(h) <= 7959060000,
        0 <= sextant(h) <= 5,
{
    let ln = h.light_num as int;
    let sn = h.sat_num as int;
    let sd = h.sat_den as int;
    let hn = h.hue_num as int;
    let hd = h.hue_den as int;
    let a = abs2l(h);
    assert(0 <= a <= 1020);
    assert(1020 - a <= 2 * ln);
    assert(1020 - a <= 2040 - 2 * ln);
    let cn = chroma_num(h);
    assert(0 <= cn <= 260100) by (nonlinear_arith)
        requires
            cn == (1020 - a) * sn,
            0 <= 1020 - a <= 1020,
            0 <= sn <= 255,
    ;
    lemma_mod_division_less_than_divisor(hn, 120 * hd);
    assert(0 <= hue_fold(h) < 120 * hd);
    assert(0 <= x_factor(h) <= 60 * hd);
    let u = x_factor(h);
    assert(0 <= x_scaled(h) <= c_scaled(h)) by (nonlinear_arith)
        requires
            x_scaled(h) == 2 * cn * u,
            c_scaled(h) == cn * 120 * hd,
            0 <= cn,
            0 <= u <= 60 * hd,
            1 <= hd,
    ;
    assert(cn <= 2 * ln * sd) by (nonlinear_arith)
        requires
            cn == (1020 - a) * sn,
            0 <= 1020 - a <= 2 * ln,
            0 <= sn <= sd,
    ;
    assert(0 <= m_scaled(h)) by (nonlinear_arith)
        requires
            m_scaled(h) == 120 * ln * sd * hd - 60 * hd * cn,
            cn <= 2 * ln * sd,
            0 <= ln,
            0 <= sd,
            1 <= hd,
            0 <= cn,
    ;
    assert(cn <= (2040 - 2 * ln) * sd) by (nonlinear_arith)
        requires
            cn == (1020 - a) * sn,
            0 <= 1020 - a <= 2040 - 2 * ln,
            0 <= sn <= sd,
    ;
    assert(c_scaled(h) + m_scaled(h) <= common_den(h)) by (nonlinear_arith)
        requires
            c_scaled(h) == cn * 120 * hd,
            m_scaled(h) == 120 * ln * sd * hd - 60 * hd * cn,
            common_den(h) == 122400 * sd * hd,
            cn <= (2040 - 2 * ln) * sd,
            0 <= ln <= 1020,
            1 <= sd,
            1 <= hd,
            0 <= cn,
    ;
    assert(0 < common_den(h) <= 7959060000) by (nonlinear_arith)
        requires
            common_den(h) == 122400 * sd * hd,
            1 <= sd <= 255,
            1 <= hd <= 255,
    ;
    lemma_div_pos_is_pos(hn, 60 * hd);
    assert(hn < (60 * hd) * 6) by (nonlinear_arith)
        requires
            hn < 360 * hd,
            1 <= hd,
    ;
    lemma_multiply_divide_lt(hn, 60 * hd, 6);
}

/// One channel: `(comp + m) · 255 / den`, truncated; in [0, 255] whenever
/// `comp + m ≤ den`.
fn channel_value(comp: u64, m: u64, den: u64) -> (v: u8)
    requires
        0 < den <= 7959060000,
        comp + m <= den,
    ensures
        v == channel_of(comp as int, m as int, den as int),
{
    let z = comp + m;
    let q = (z * 255) / den;
    proof {
        lemma_div_is_ordered((z * 255) as int, (den as int) * 255, den as int);
        lemma_div_multiples_vanish(255, den as int);
    }
    q as u8
}

/// Converts an HSL color back to RGB.
pub fn hsl_to_rgb(h: &Hsl) -> (rgb: Rgb)
    requires
        h.wf(),
    ensures
        rgb == spec_hsl_to_rgb(*h),
{
    proof {
        lemma_channel_bounds(*h);
    }
    let ln = h.light_num as u64;
    let sn = h.sat_num as u64;
    let sd = h.sat_den as u64;
    let hn = h.hue_num as u64;
    let hd = h.hue_den as u64;
    let a = if 2 * ln >= 1020 {
        2 * ln - 1020
    } else {
        1020 - 2 * ln
    };
    let cn = (1020 - a) * sn;
    assert(cn == chroma_num(*h));
    let t = hn % (120 * hd);
    let w = if t >= 60 * hd {
        t - 60 * hd
    } else {
        60 * hd - t
    };
    let u = 60 * hd - w;
    assert(u == x_factor(*h));
    proof {
        lemma_mul_upper_bound(cn as int * 120, 31212000, hd as int, 255);
        lemma_mul_upper_bound(2 * cn as int, 520200, u as int, 15300);
        lemma_mul_upper_bound(120 * ln as int, 122400, sd as int, 255);
        lemma_mul_upper_bound(120 * ln as int * sd as int, 31212000, hd as int, 255);
        lemma_mul_upper_bound(60 * hd as int, 15300, cn as int, 260100);
        lemma_mul_upper_bound(122400, 122400, sd as int, 255);
        lemma_mul_upper_bound(122400 * sd as int, 31212000, hd as int, 255);
    }
    let c_s = cn * 120 * hd;
    let x_s = 2 * cn * u;
    let m_s = 120 * ln * sd * hd - 60 * hd * cn;
    let den = 122400 * sd * hd;
    assert(c_s == c_scaled(*h) && x_s == x_scaled(*h) && m_s == m_scaled(*h) && den == common_den(
        *h,
    ));
    let k = hn / (60 * hd);
    assert(k == sextant(*h));
    let (cr, cg, cb) = if k == 0 {
        (c_s, x_s, 0)
    } else if k == 1 {
        (x_s, c_s, 0)
    } else if k == 2 {
        (0, c_s, x_s)
    } else if k == 3 {
        (0, x_s, c_s)
    } else if k == 4 {
        (x_s, 0, c_s)
    } else {
        (c_s, 0, x_s)
    };
    Rgb {
        r: channel_value(cr, m_s, den),
        g: channel_value(cg, m_s, den),
        b: channel_value(cb, m_s, den),
    }
}

/// Converts a list of HSL colors to RGB, elementwise.
pub fn hsl_list_to_rgb(hsl_list: &Vec<Hsl>) -> (out: Vec<Rgb>)
    requires
        forall|i: int| 0 <= i < hsl_list@.len() ==> (#[trigger] hsl_list@[i]).wf(),
    ensures
        out@.len() == hsl_list@.len(),
        forall|i: int|
            0 <= i < out@.len() ==> #[trigger] out@[i] == spec_hsl_to_rgb(hsl_list@[i]),
{
    let n = hsl_list.len();
    let mut out: Vec<Rgb> = Vec::new();
    let mut i: usize = 0;
    while i < n
        invariant
            n == hsl_list@.len(),
            forall|j: int| 0 <= j < n ==> (#[trigger] hsl_list@[j]).wf(),
            0 <= i <= n,
            out@.len() == i,
            forall|j: int| 0 <= j < i ==> #[trigger] out@[j] == spec_hsl_to_rgb(hsl_list@[j]),
        decreases n - i,
    {
        let rgb = hsl_to_rgb(&hsl_list[i]);
        out.push(rgb);
        i = i + 1;
    }
    out
}

/// Law: the round trip through HSL is the identity on achromatic colors.
/// A gray `(v, v, v)` maps to hue 0, saturation 0, and converting that HSL
/// value back yields exactly `(v, v, v)`.
pub proof fn lemma_achromatic_round_trip(v: u8)
    ensures
        spec_rgb_to_hsl(Rgb { r: v, g: v, b: v }).hue_num == 0,
        spec_rgb_to_hsl(Rgb { r: v, g: v, b: v }).sat_num == 0,
        spec_hsl_to_rgb(spec_rgb_to_hsl(Rgb { r: v, g: v, b: v })) == (Rgb { r: v, g: v, b: v }),
{
    let h = spec_rgb_to_hsl(Rgb { r: v, g: v, b: v });
    assert(h.light_num == 4 * v);
    assert(chroma_num(h) == 0);
    assert(m_scaled(h) == 120 * (4 * v as int));
    assert(sextant(h) == 0) by {
        lemma_div_multiples_vanish(0, 60);
    }
    assert(channel_of(c_scaled(h), m_scaled(h), common_den(h)) == v) by {
        assert((0 + 120 * (4 * v as int)) * 255 == 122400 * (v as int));
        lemma_div_multiples_vanish(v as int, 122400);
    }
    assert(x_scaled(h) == 0) by (nonlinear_arith)
        requires
            x_scaled(h) == 2 * chroma_num(h) * x_factor(h),
            chroma_num(h) == 0,
    ;
    assert(channel_of(x_scaled(h), m_scaled(h), common_den(h)) == v);
    assert(channel_of(0, m_scaled(h), common_den(h)) == v);
}

} // verus!
