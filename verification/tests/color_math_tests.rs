use colortool::color::{Hsl, Rgb};
use colortool::convert::{hsl_list_to_rgb, hsl_to_rgb, rgb_to_hsl};
use colortool::palette::{derive_effects, generate_palette};
use colortool::parse::parse_hex_color;
use colortool::present::{to_decimal, to_hex};
use colortool::scale::scale;

fn chars_to_string(v: &[char]) -> String {
    v.iter().collect()
}

#[test]
fn hex_format_round_trip() {
    // format then parse is the identity
    for rgb in [
        Rgb { r: 255, g: 59, b: 66 },
        Rgb { r: 0, g: 0, b: 0 },
        Rgb { r: 255, g: 255, b: 255 },
        Rgb { r: 1, g: 16, b: 250 },
    ] {
        let hex = to_hex(&rgb);
        let s = chars_to_string(&hex);
        assert_eq!(parse_hex_color(&s), Ok(rgb));
    }
}

#[test]
fn hex_format_is_lowercase_two_digits_per_channel() {
    let hex = to_hex(&Rgb { r: 0xff, g: 0x33, b: 0x42 });
    assert_eq!(chars_to_string(&hex), "ff3342");
    let hex = to_hex(&Rgb { r: 0, g: 10, b: 171 });
    assert_eq!(chars_to_string(&hex), "000aab");
}

#[test]
fn decimal_format_has_no_leading_zeros() {
    assert_eq!(chars_to_string(&to_decimal(0)), "0");
    assert_eq!(chars_to_string(&to_decimal(7)), "7");
    assert_eq!(chars_to_string(&to_decimal(42)), "42");
    assert_eq!(chars_to_string(&to_decimal(255)), "255");
}

#[test]
fn scale_by_one_is_identity() {
    let original: Vec<u8> = (0..=255).map(|v| v as u8).collect();
    assert_eq!(scale(&original, 1, 1), original);
    assert_eq!(scale(&original, 1000, 1000), original);
}

#[test]
fn scale_by_half() {
    assert_eq!(scale(&[200, 100, 50], 1, 2), vec![100, 50, 25]);
}

#[test]
fn scale_truncates_toward_zero() {
    // 55 * 0.5 = 27.5, truncated to 27
    assert_eq!(scale(&[55], 1, 2), vec![27]);
    // 0.3 as the ratio 3/10: 200 * 0.3 = 60
    assert_eq!(scale(&[200, 1], 3, 10), vec![60, 0]);
}

#[test]
fn scale_above_range_saturates() {
    assert_eq!(scale(&[200, 10], 2, 1), vec![255, 20]);
}

#[test]
fn pure_red_derives_expected_hsl() {
    // hue 0 degrees, saturation 100%, lightness 50%
    let h = rgb_to_hsl(&Rgb { r: 255, g: 0, b: 0 });
    assert_eq!(h.hue_num, 0);
    assert_eq!(h.sat_num, h.sat_den);
    assert_eq!(h.light_num * 2, 1020);
}

#[test]
fn primary_hues_are_exact() {
    let green = rgb_to_hsl(&Rgb { r: 0, g: 255, b: 0 });
    assert_eq!(green.hue_num, 120 * green.hue_den);
    let blue = rgb_to_hsl(&Rgb { r: 0, g: 0, b: 255 });
    assert_eq!(blue.hue_num, 240 * blue.hue_den);
}

#[test]
fn achromatic_round_trip_is_identity() {
    for v in [0u8, 1, 17, 128, 200, 254, 255] {
        let rgb = Rgb { r: v, g: v, b: v };
        let h = rgb_to_hsl(&rgb);
        assert_eq!(h.hue_num, 0);
        assert_eq!(h.sat_num, 0);
        assert_eq!(hsl_to_rgb(&h), rgb);
    }
}

#[test]
fn saturated_primaries_round_trip() {
    for rgb in [
        Rgb { r: 255, g: 0, b: 0 },
        Rgb { r: 0, g: 255, b: 0 },
        Rgb { r: 0, g: 0, b: 255 },
        Rgb { r: 255, g: 255, b: 0 },
        Rgb { r: 0, g: 255, b: 255 },
    ] {
        let h = rgb_to_hsl(&rgb);
        assert_eq!(hsl_to_rgb(&h), rgb);
    }
}

#[test]
fn palette_has_twelve_ordered_entries() {
    let h = rgb_to_hsl(&Rgb { r: 10, g: 200, b: 30 });
    let p = generate_palette(&h);
    assert_eq!(p.len(), 12);
    // complementary: hue + 180
    assert_eq!(p[0].hue_num, h.hue_num + 180 * h.hue_den);
    // monochromatic ramp keeps the hue, the base sits in the middle
    assert_eq!(p[3], h);
    assert!(p[1].light_num <= p[2].light_num && p[2].light_num <= p[3].light_num);
    assert!(p[3].light_num <= p[4].light_num && p[4].light_num <= p[5].light_num);
    // analogous and triadic groups each contain the base
    assert_eq!(p[7], h);
    assert_eq!(p[10], h);
}

#[test]
fn palette_lightness_clamps() {
    let mut h = rgb_to_hsl(&Rgb { r: 40, g: 40, b: 40 });
    // near-black: lightness 160/1020; the -0.35 step clamps to 0
    assert_eq!(h.light_num, 160);
    let p = generate_palette(&h);
    assert_eq!(p[1].light_num, 0);
    // near-white clamps at 1
    h = rgb_to_hsl(&Rgb { r: 250, g: 250, b: 250 });
    let p = generate_palette(&h);
    assert_eq!(p[5].light_num, 1020);
}

#[test]
fn negative_hue_shifts_wrap_into_range() {
    // base hue 0: the -30 analogous entry lands at 330, the -240 triadic
    // entry at 120
    let h = rgb_to_hsl(&Rgb { r: 255, g: 0, b: 0 });
    let p = generate_palette(&h);
    assert_eq!(p[8].hue_num, 330 * h.hue_den);
    assert_eq!(p[11].hue_num, 120 * h.hue_den);
}

#[test]
fn effects_of_pure_red() {
    let effects = derive_effects(&Rgb { r: 255, g: 0, b: 0 });
    assert_eq!(effects.len(), 12);
    // complementary of red is cyan
    assert_eq!(effects[0], Rgb { r: 0, g: 255, b: 255 });
    // darkest monochromatic entry: lightness 0.15, chroma 0.3
    assert_eq!(effects[1], Rgb { r: 76, g: 0, b: 0 });
    // the base itself converts back exactly
    assert_eq!(effects[3], Rgb { r: 255, g: 0, b: 0 });
    // triadic +120 of red is green
    assert_eq!(effects[9], Rgb { r: 0, g: 255, b: 0 });
}

#[test]
fn hsl_list_conversion_is_elementwise() {
    let a = rgb_to_hsl(&Rgb { r: 255, g: 0, b: 0 });
    let b = rgb_to_hsl(&Rgb { r: 7, g: 7, b: 7 });
    let out = hsl_list_to_rgb(&vec![a, b]);
    assert_eq!(out, vec![Rgb { r: 255, g: 0, b: 0 }, Rgb { r: 7, g: 7, b: 7 }]);
}

#[test]
fn hsl_struct_holds_exact_rationals() {
    // (200, 100, 50): max 200, min 50, lightness 250/510, sat 150/205
    let h = rgb_to_hsl(&Rgb { r: 200, g: 100, b: 50 });
    assert_eq!(h.light_num, 500);
    assert_eq!(h.sat_num, 150);
    assert_eq!(h.sat_den, 255 - (250 - 255i32).unsigned_abs());
    assert_eq!(
        h,
        Hsl { hue_num: 3000, hue_den: 150, sat_num: 150, sat_den: 250, light_num: 500 }
    );
}
