use colortool::classify::{classify, is_valid_hex, Delimiter, InputMode};
use colortool::color::Rgb;
use colortool::error::{ParseErrorKind, ValueError};
use colortool::parse::{convert_to_numeric, parse_channel, parse_hex_color, parse_triplet};
use colortool::parse_color;

#[test]
fn classifier_hex_input() {
    assert_eq!(classify("ff3342"), Ok(InputMode::Hex));
}

#[test]
fn classifier_comma_triplet() {
    assert_eq!(classify("255,128,64"), Ok(InputMode::Triplet(Delimiter::Comma)));
}

#[test]
fn classifier_colon_triplet() {
    assert_eq!(classify("255:128:64"), Ok(InputMode::Triplet(Delimiter::Colon)));
}

#[test]
fn classifier_both_delimiters_ambiguous() {
    assert_eq!(classify("1,2:3"), Err(ValueError::AmbiguousDelimiter));
}

#[test]
fn classifier_unrecognized() {
    assert_eq!(classify("xyz"), Err(ValueError::UnrecognizedFormat));
}

#[test]
fn classifier_plain_number_is_hex() {
    // no delimiter, all characters hex digits: hex takes priority
    assert_eq!(classify("255"), Ok(InputMode::Hex));
}

#[test]
fn classifier_empty_string_is_hex() {
    // vacuously all-hex
    assert_eq!(classify(""), Ok(InputMode::Hex));
}

#[test]
fn is_valid_hex_checks_every_char() {
    assert!(is_valid_hex("00ffAB"));
    assert!(is_valid_hex(""));
    assert!(!is_valid_hex("00g"));
    assert!(!is_valid_hex("12,34"));
}

#[test]
fn hex_length_four_is_malformed() {
    // "abcd" is all hex digits, so it classifies as hex, but its length
    // is under 5
    assert_eq!(classify("abcd"), Ok(InputMode::Hex));
    assert_eq!(parse_hex_color("abcd"), Err(ValueError::MalformedHexLength));
}

#[test]
fn hex_length_seven_is_malformed() {
    assert_eq!(parse_hex_color("abcdef0"), Err(ValueError::MalformedHexLength));
}

#[test]
fn hex_six_digits_parse() {
    assert_eq!(parse_hex_color("ff3342"), Ok(Rgb { r: 0xff, g: 0x33, b: 0x42 }));
    assert_eq!(parse_hex_color("000000"), Ok(Rgb { r: 0, g: 0, b: 0 }));
    assert_eq!(parse_hex_color("FFFFFF"), Ok(Rgb { r: 255, g: 255, b: 255 }));
}

#[test]
fn hex_five_digits_parse_with_single_blue_digit() {
    // the trailing chunk is one digit wide
    assert_eq!(parse_hex_color("abcde"), Ok(Rgb { r: 0xab, g: 0xcd, b: 0x0e }));
}

#[test]
fn default_input_has_four_segments_and_is_dropped() {
    // the CLI default "0,0,0,0" splits into 4 segments, so it never
    // produces a color
    assert_eq!(parse_triplet("0,0,0,0", Delimiter::Comma), Err(ValueError::WrongSegmentCount));
    assert_eq!(parse_color("0,0,0,0"), Err(ValueError::WrongSegmentCount));
}

#[test]
fn two_segments_are_rejected() {
    assert_eq!(parse_triplet("1,2", Delimiter::Comma), Err(ValueError::WrongSegmentCount));
}

#[test]
fn comma_triplet_parses() {
    assert_eq!(parse_triplet("255,128,64", Delimiter::Comma), Ok(Rgb { r: 255, g: 128, b: 64 }));
}

#[test]
fn colon_triplet_parses() {
    assert_eq!(parse_triplet("255:128:64", Delimiter::Colon), Ok(Rgb { r: 255, g: 128, b: 64 }));
}

#[test]
fn channel_with_plus_sign_parses() {
    assert_eq!(parse_channel("+12"), Ok(12));
}

#[test]
fn empty_channel_is_empty_error() {
    assert_eq!(parse_channel(""), Err(ParseErrorKind::Empty));
}

#[test]
fn bare_plus_sign_is_invalid() {
    assert_eq!(parse_channel("+"), Err(ParseErrorKind::InvalidChar));
}

#[test]
fn out_of_range_channel_overflows() {
    assert_eq!(parse_channel("256"), Err(ParseErrorKind::Overflow));
    assert_eq!(parse_channel("2560x"), Err(ParseErrorKind::Overflow));
}

#[test]
fn negative_channel_is_invalid_char() {
    assert_eq!(parse_channel("-1"), Err(ParseErrorKind::InvalidChar));
}

#[test]
fn trailing_letter_is_invalid_char() {
    assert_eq!(parse_channel("12a"), Err(ParseErrorKind::InvalidChar));
}

#[test]
fn convert_to_numeric_parses_all_segments() {
    assert_eq!(convert_to_numeric(&["255", "128", "64"]), Ok(vec![255, 128, 64]));
}

#[test]
fn convert_to_numeric_stops_at_first_failure() {
    assert_eq!(
        convert_to_numeric(&["300", "abc"]),
        Err(ValueError::InvalidDigit(ParseErrorKind::Overflow))
    );
    assert_eq!(
        convert_to_numeric(&["1", "abc", "300"]),
        Err(ValueError::InvalidDigit(ParseErrorKind::InvalidChar))
    );
}

#[test]
fn triplet_with_bad_segment_reports_invalid_digit() {
    assert_eq!(
        parse_triplet("1,,3", Delimiter::Comma),
        Err(ValueError::InvalidDigit(ParseErrorKind::Empty))
    );
    assert_eq!(
        parse_triplet("256,0,0", Delimiter::Comma),
        Err(ValueError::InvalidDigit(ParseErrorKind::Overflow))
    );
}

#[test]
fn parse_color_dispatches_by_mode() {
    assert_eq!(parse_color("ff3342"), Ok((InputMode::Hex, Rgb { r: 0xff, g: 0x33, b: 0x42 })));
    assert_eq!(
        parse_color("10:20:30"),
        Ok((InputMode::Triplet(Delimiter::Colon), Rgb { r: 10, g: 20, b: 30 }))
    );
    assert_eq!(parse_color("1,2:3"), Err(ValueError::AmbiguousDelimiter));
    assert_eq!(parse_color("xyz"), Err(ValueError::UnrecognizedFormat));
    assert_eq!(parse_color(""), Err(ValueError::MalformedHexLength));
}

#[test]
fn error_messages_are_user_facing() {
    assert_eq!(
        ValueError::AmbiguousDelimiter.message(),
        "Please use any one of the separate i.e , or :"
    );
    assert_eq!(ValueError::MalformedHexLength.message(), "Invalid hex code, see -h for help");
    assert_eq!(ValueError::UnrecognizedFormat.message(), "Invalid args, use -h for help");
    assert_eq!(
        ValueError::InvalidDigit(ParseErrorKind::Empty).message(),
        "Invalid args, error: cannot parse integer from empty string."
    );
    assert_eq!(
        ValueError::InvalidDigit(ParseErrorKind::InvalidChar).message(),
        "Invalid args, error: invalid digit found in string."
    );
    assert_eq!(
        ValueError::InvalidDigit(ParseErrorKind::Overflow).message(),
        "Invalid args, error: number too large to fit in target type."
    );
}
