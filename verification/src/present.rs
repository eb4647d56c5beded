//! Text formatting of colors: the lowercase 6-digit hex form and the
//! decimal form of a channel. The terminal-rendering side (ANSI swatches)
//! is a collaborator outside this library; it receives plain channel values
//! and these formatted strings.

use vstd::prelude::*;

use crate::classify::is_hex_digit;
use crate::color::Rgb;
use crate::error::ValueError;
use crate::parse::{hex_val, spec_parse_hex};
use vstd::arithmetic::div_mod::lemma_fundamental_div_mod;

verus! {

/// The lowercase hex digit of a value in [0, 16).
pub open spec fn hex_digit_char(v: int) -> char {
    if v == 0 {
        '0'
    } else if v == 1 {
        '1'
    } else if v == 2 {
        '2'
    } else if v == 3 {
        '3'
    } else if v == 4 {
        '4'
    } else if v == 5 {
        '5'
    } else if v == 6 {
        '6'
    } else if v == 7 {
        '7'
    } else if v == 8 {
        '8'
    } else if v == 9 {
        '9'
    } else if v == 10 {
        'a'
    } else if v == 11 {
        'b'
    } else if v == 12 {
        'c'
    } else if v == 13 {
        'd'
    } else if v == 14 {
        'e'
    } else {
        'f'
    }
}

/// The 6 lowercase hex digits of a color, two per channel.
pub open spec fn spec_hex_chars(rgb: Rgb) -> Seq<char> {
    seq![
        hex_digit_char(rgb.r as int / 16),
        hex_digit_char(rgb.r as int % 16),
        hex_digit_char(rgb.g as int / 16),
        hex_digit_char(rgb.g as int % 16),
        hex_digit_char(rgb.b as int / 16),
        hex_digit_char(rgb.b as int % 16),
    ]
}

/// Executable form of [`hex_digit_char`].
pub fn hex_char_of(v: u8) -> (c: char)
    requires
        v < 16,
    ensures
        c == hex_digit_char(v as int),
{
    match v {
        0 => '0',
        1 => '1',
        2 => '2',
        3 => '3',
        4 => '4',
        5 => '5',
        6 => '6',
        7 => '7',
        8 => '8',
        9 => '9',
        10 => 'a',
        11 => 'b',
        12 => 'c',
        13 => 'd',
        14 => 'e',
        _ => 'f',
    }
}

/// Formats a color as its 6 lowercase hex digits.
pub fn to_hex(rgb: &Rgb) -> (v: Vec<char>)
    ensures
        v@ == spec_hex_chars(*rgb),
{
    let mut v: Vec<char> = Vec::new();
    v.push(hex_char_of(rgb.r / 16));
    v.push(hex_char_of(rgb.r % 16));
    v.push(hex_char_of(rgb.g / 16));
    v.push(hex_char_of(rgb.g % 16));
    v.push(hex_char_of(rgb.b / 16));
    v.push(hex_char_of(rgb.b % 16));
    proof {
        assert(v@ =~= spec_hex_chars(*rgb));
    }
    v
}

/// A hex digit character produced by [`hex_digit_char`] reads back as the
/// value it was made from.
pub proof fn lemma_hex_digit_char_inverse(v: int)
    requires
        0 <= v < 16,
    ensures
        is_hex_digit(hex_digit_char(v)),
        hex_val(hex_digit_char(v)) == v,
{
}

/// Law: hex round trip. Formatting any color as `rrggbb` and parsing that
/// string back yields the same color.
pub proof fn lemma_hex_round_trip(rgb: Rgb)
    ensures
        spec_parse_hex(spec_hex_chars(rgb)) == Ok::<Rgb, ValueError>(rgb),
{
    lemma_hex_digit_char_inverse(rgb.r as int / 16);
    lemma_hex_digit_char_inverse(rgb.r as int % 16);
    lemma_hex_digit_char_inverse(rgb.g as int / 16);
    lemma_hex_digit_char_inverse(rgb.g as int % 16);
    lemma_hex_digit_char_inverse(rgb.b as int / 16);
    lemma_hex_digit_char_inverse(rgb.b as int % 16);
    lemma_fundamental_div_mod(rgb.r as int, 16);
    lemma_fundamental_div_mod(rgb.g as int, 16);
    lemma_fundamental_div_mod(rgb.b as int, 16);
}

/// The decimal digit of a value in [0, 10).
pub open spec fn dec_digit_char(v: int) -> char {
    if v == 0 {
        '0'
    } else if v == 1 {
        '1'
    } else if v == 2 {
        '2'
    } else if v == 3 {
        '3'
    } else if v == 4 {
        '4'
    } else if v == 5 {
        '5'
    } else if v == 6 {
        '6'
    } else if v == 7 {
        '7'
    } else if v == 8 {
        '8'
    } else {
        '9'
    }
}

/// The decimal digits of a channel value, without leading zeros.
pub open spec fn spec_decimal_chars(v: u8) -> Seq<char> {
    if v < 10 {
        seq![dec_digit_char(v as int)]
    } else if v < 100 {
        seq![dec_digit_char(v as int / 10), dec_digit_char(v as int % 10)]
    } else {
        seq![
            dec_digit_char(v as int / 100),
            dec_digit_char((v as int / 10) % 10),
            dec_digit_char(v as int % 10),
        ]
    }
}

/// Executable form of [`dec_digit_char`].
pub fn dec_char_of(v: u8) -> (c: char)
    requires
        v < 10,
    ensures
        c == dec_digit_char(v as int),
{
    match v {
        0 => '0',
        1 => '1',
        2 => '2',
        3 => '3',
        4 => '4',
        5 => '5',
        6 => '6',
        7 => '7',
        8 => '8',
        _ => '9',
    }
}

/// Formats a channel value in decimal, without leading zeros.
pub fn to_decimal(v: u8) -> (out: Vec<char>)
    ensures
        out@ == spec_decimal_chars(v),
{
    let mut out: Vec<char> = Vec::new();
    if v < 10 {
        out.push(dec_char_of(v));
    } else if v < 100 {
        out.push(dec_char_of(v / 10));
        out.push(dec_char_of(v % 10));
    } else {
        out.push(dec_char_of(v / 100));
        out.push(dec_char_of((v / 10) % 10));
        out.push(dec_char_of(v % 10));
    }
    proof {
        assert(out@ =~= spec_decimal_chars(v));
    }
    out
}

} // verus!
