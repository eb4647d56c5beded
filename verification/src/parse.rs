//! Channel parsing: hex color codes and delimited decimal triplets.
//!
//! Hex codes of length 6 split into three 2-digit chunks; a length-5 code is
//! accepted too, its last chunk being the single trailing digit (the
//! asymmetric length rule is deliberate: the length check admits 5, and the
//! pair chunking then leaves a one-digit blue chunk). Decimal segments parse
//! like `u8::from_str`: an optional leading `+`, then decimal digits, value
//! at most 255.

use vstd::prelude::*;

use crate::classify::{all_hex_digits, contains_char, is_hex_digit, Delimiter};
use crate::color::Rgb;
use crate::error::{ParseErrorKind, ValueError};

verus! {

/// The numeric value of a hex digit (0 for non-digits).
pub open spec fn hex_val(c: char) -> int {
    if '0' <= c && c <= '9' {
        c as int - '0' as int
    } else if 'a' <= c && c <= 'f' {
        c as int - 'a' as int + 10
    } else if 'A' <= c && c <= 'F' {
        c as int - 'A' as int + 10
    } else {
        0
    }
}

/// The channel value of a 2-character hex chunk starting at `i`.
pub open spec fn hex_pair(s: Seq<char>, i: int) -> int {
    16 * hex_val(s[i]) + hex_val(s[i + 1])
}

/// The hex parsing rule: length must be 5 or 6, every character a hex
/// digit; channels come from the chunks `[0,2)`, `[2,4)` and `[4,len)`
/// (a single trailing digit when the length is 5).
pub open spec fn spec_parse_hex(s: Seq<char>) -> Result<Rgb, ValueError> {
    if s.len() < 5 || s.len() > 6 {
        Err(ValueError::MalformedHexLength)
    } else if !all_hex_digits(s) {
        Err(ValueError::InvalidDigit(ParseErrorKind::InvalidChar))
    } else {
        let blue = if s.len() == 6 {
            hex_pair(s, 4)
        } else {
            hex_val(s[4])
        };
        Ok(Rgb { r: hex_pair(s, 0) as u8, g: hex_pair(s, 2) as u8, b: blue as u8 })
    }
}

/// The numeric value of a hex digit, or `None` for any other character.
pub fn hex_digit_value(c: char) -> (v: Option<u8>)
    ensures
        v is Some <==> is_hex_digit(c),
        v is Some ==> v->0 == hex_val(c) && v->0 < 16,
{
    let x = c as u32;
    if c >= '0' && c <= '9' {
        Some((x - 48) as u8)
    } else if c >= 'a' && c <= 'f' {
        Some((x - 97 + 10) as u8)
    } else if c >= 'A' && c <= 'F' {
        Some((x - 65 + 10) as u8)
    } else {
        None
    }
}

/// Parses a hex color code into an RGB triple.
pub fn parse_hex_color(s: &str) -> (r: Result<Rgb, ValueError>)
    ensures
        r == spec_parse_hex(s@),
{
    let n = s.unicode_len();
    if n < 5 || n > 6 {
        return Err(ValueError::MalformedHexLength);
    }
    let mut digits: Vec<u8> = Vec::new();
    let mut i: usize = 0;
    while i < n
        invariant
            n == s@.len(),
            5 <= n <= 6,
            0 <= i <= n,
            digits@.len() == i,
            forall|j: int| 0 <= j < i ==> is_hex_digit(#[trigger] s@[j]),
            forall|j: int| 0 <= j < i ==> (#[trigger] digits@[j]) == hex_val(s@[j]) && digits@[j]
                < 16,
        decreases n - i,
    {
        match hex_digit_value(s.get_char(i)) {
            Some(v) => {
                digits.push(v);
            },
            None => {
                proof {
                    assert(!is_hex_digit(s@[i as int]));
                    assert(!all_hex_digits(s@));
                }
                return Err(ValueError::InvalidDigit(ParseErrorKind::InvalidChar));
            },
        }
        i = i + 1;
    }
    let red = 16 * digits[0] + digits[1];
    let green = 16 * digits[2] + digits[3];
    let blue = if n == 6 {
        16 * digits[4] + digits[5]
    } else {
        digits[4]
    };
    Ok(Rgb { r: red, g: green, b: blue })
}

/// Whether `c` is an ASCII decimal digit.
pub open spec fn is_dec_digit(c: char) -> bool {
    '0' <= c && c <= '9'
}

/// The numeric value of a decimal digit (0 for non-digits).
pub open spec fn dec_val(c: char) -> int {
    if is_dec_digit(c) {
        c as int - '0' as int
    } else {
        0
    }
}

/// Folds the remaining digit characters onto an accumulated value, failing
/// on the first non-digit or on the first step that exceeds 255.
pub open spec fn spec_parse_u8_digits(s: Seq<char>, acc: int) -> Result<u8, ParseErrorKind>
    decreases s.len(),
{
    if s.len() == 0 {
        Ok(acc as u8)
    } else if !is_dec_digit(s[0]) {
        Err(ParseErrorKind::InvalidChar)
    } else if acc * 10 + dec_val(s[0]) > 255 {
        Err(ParseErrorKind::Overflow)
    } else {
        spec_parse_u8_digits(s.skip(1), acc * 10 + dec_val(s[0]))
    }
}

/// The decimal channel parsing rule: optional leading `+`, then at least
/// one decimal digit, value at most 255.
pub open spec fn spec_parse_u8(s: Seq<char>) -> Result<u8, ParseErrorKind> {
    if s.len() == 0 {
        Err(ParseErrorKind::Empty)
    } else {
        let body = if s[0] == '+' {
            s.skip(1)
        } else {
            s
        };
        if body.len() == 0 {
            Err(ParseErrorKind::InvalidChar)
        } else {
            spec_parse_u8_digits(body, 0)
        }
    }
}

/// Parses one decimal segment into a channel value.
pub fn parse_channel(s: &str) -> (r: Result<u8, ParseErrorKind>)
    ensures
        r == spec_parse_u8(s@),
{
    let n = s.unicode_len();
    if n == 0 {
        return Err(ParseErrorKind::Empty);
    }
    let start: usize = if s.get_char(0) == '+' {
        1
    } else {
        0
    };
    if n == start {
        assert(s@[0] == '+' && s@.skip(1).len() == 0);
        return Err(ParseErrorKind::InvalidChar);
    }
    let ghost body: Seq<char> = if s@[0] == '+' {
        s@.skip(1)
    } else {
        s@
    };
    proof {
        assert(body.skip(0) =~= body);
    }
    let mut acc: u16 = 0;
    let mut i: usize = start;
    while i < n
        invariant
            n == s@.len(),
            start <= 1,
            start <= i <= n,
            start == 1 ==> s@[0] == '+',
            start == 0 ==> s@[0] != '+',
            n > start,
            body == if s@[0] == '+' { s@.skip(1) } else { s@ },
            acc <= 255,
            spec_parse_u8_digits(body, 0) == spec_parse_u8_digits(
                body.skip(i - start),
                acc as int,
            ),
        decreases n - i,
    {
        let c = s.get_char(i);
        proof {
            assert(body.skip(i - start)[0] == body[i - start]);
            if start == 1 {
                assert(s@.skip(1)[i - 1] == s@[i as int]);
            }
            assert(body[i - start] == s@[i as int]);
        }
        if c < '0' || c > '9' {
            return Err(ParseErrorKind::InvalidChar);
        }
        let d = (c as u32 - 48) as u16;
        assert(d == dec_val(s@[i as int]));
        let next = acc * 10 + d;
        if next > 255 {
            return Err(ParseErrorKind::Overflow);
        }
        assert(body.skip(i - start).skip(1) =~= body.skip(i + 1 - start));
        acc = next;
        i = i + 1;
    }
    assert(body.skip(n - start).len() == 0);
    Ok(acc as u8)
}

/// Parses a sequence of decimal segments in order, stopping at the first
/// failure; no partial results survive a failure.
pub open spec fn spec_convert(vs: Seq<Seq<char>>) -> Result<Seq<u8>, ValueError>
    decreases vs.len(),
{
    if vs.len() == 0 {
        Ok(Seq::empty())
    } else {
        match spec_parse_u8(vs[0]) {
            Err(k) => Err(ValueError::InvalidDigit(k)),
            Ok(v) => match spec_convert(vs.skip(1)) {
                Ok(rest) => Ok(seq![v] + rest),
                Err(e) => Err(e),
            },
        }
    }
}

/// Parses each segment as a decimal channel value, in order, aborting at
/// the first failing segment.
pub fn convert_to_numeric(color_value: &[&str]) -> (r: Result<Vec<u8>, ValueError>)
    ensures
        match r {
            Ok(v) => spec_convert(color_value@.map_values(|s: &str| s@)) == Ok::<_, ValueError>(
                v@,
            ),
            Err(e) => spec_convert(color_value@.map_values(|s: &str| s@)) == Err::<Seq<u8>, _>(e),
        },
{
    let ghost vs: Seq<Seq<char>> = color_value@.map_values(|s: &str| s@);
    let n = color_value.len();
    let mut numeric_vec: Vec<u8> = Vec::new();
    proof {
        assert(vs.skip(0) =~= vs);
        if spec_convert(vs) is Ok {
            assert(Seq::<u8>::empty() + spec_convert(vs)->Ok_0 =~= spec_convert(vs)->Ok_0);
        }
    }
    let mut i: usize = 0;
    while i < n
        invariant
            n == color_value@.len(),
            vs == color_value@.map_values(|s: &str| s@),
            0 <= i <= n,
            numeric_vec@.len() == i,
            spec_convert(vs) == match spec_convert(vs.skip(i as int)) {
                Ok(rest) => Ok::<Seq<u8>, ValueError>(numeric_vec@ + rest),
                Err(e) => Err::<Seq<u8>, ValueError>(e),
            },
        decreases n - i,
    {
        proof {
            assert(vs.skip(i as int)[0] == vs[i as int]);
            assert(vs[i as int] == color_value@[i as int]@);
        }
        let ghost prev: Seq<u8> = numeric_vec@;
        match parse_channel(color_value[i]) {
            Ok(v) => {
                numeric_vec.push(v);
                proof {
                    assert(vs.skip(i as int).skip(1) =~= vs.skip(i + 1));
                    if spec_convert(vs.skip(i + 1)) is Ok {
                        let rest = spec_convert(vs.skip(i + 1))->Ok_0;
                        assert(prev + (seq![v] + rest) =~= numeric_vec@ + rest);
                    }
                }
            },
            Err(k) => {
                return Err(ValueError::InvalidDigit(k));
            },
        }
        i = i + 1;
    }
    assert(vs.skip(n as int).len() == 0);
    assert(numeric_vec@ + Seq::<u8>::empty() =~= numeric_vec@);
    Ok(numeric_vec)
}

/// A successful conversion yields one value per segment.
pub proof fn lemma_spec_convert_len(vs: Seq<Seq<char>>)
    ensures
        spec_convert(vs) is Ok ==> spec_convert(vs)->Ok_0.len() == vs.len(),
    decreases vs.len(),
{
    if vs.len() > 0 {
        lemma_spec_convert_len(vs.skip(1));
    }
}

/// Splits `s` at every occurrence of `c`; the result always holds at least
/// one segment, and `n` occurrences of `c` yield `n + 1` segments.
pub open spec fn split_on(s: Seq<char>, c: char) -> Seq<Seq<char>>
    decreases s.len(),
{
    if s.len() == 0 {
        seq![Seq::<char>::empty()]
    } else if s[0] == c {
        seq![Seq::<char>::empty()] + split_on(s.skip(1), c)
    } else {
        let rest = split_on(s.skip(1), c);
        rest.update(0, seq![s[0]] + rest[0])
    }
}

/// A split yields at least one segment.
pub proof fn lemma_split_pos(s: Seq<char>, c: char)
    ensures
        split_on(s, c).len() >= 1,
    decreases s.len(),
{
    if s.len() > 0 {
        lemma_split_pos(s.skip(1), c);
    }
}

/// A sequence free of the delimiter splits into itself alone.
pub proof fn lemma_split_none(s: Seq<char>, c: char)
    requires
        forall|j: int| 0 <= j < s.len() ==> s[j] != c,
    ensures
        split_on(s, c) == seq![s],
    decreases s.len(),
{
    if s.len() == 0 {
        assert(split_on(s, c) =~~= seq![s]);
    } else {
        assert(forall|j: int| 0 <= j < s.skip(1).len() ==> #[trigger] s.skip(1)[j] != c);
        lemma_split_none(s.skip(1), c);
        assert(seq![s[0]] + s.skip(1) =~= s);
        assert(split_on(s, c) =~~= seq![s]);
    }
}

/// Splitting at the first occurrence `p` of the delimiter peels off the
/// prefix before `p` and splits the remainder.
pub proof fn lemma_split_first(s: Seq<char>, c: char, p: int)
    requires
        0 <= p < s.len(),
        s[p] == c,
        forall|j: int| 0 <= j < p ==> s[j] != c,
    ensures
        split_on(s, c) == seq![s.subrange(0, p)] + split_on(s.skip(p + 1), c),
    decreases p,
{
    if p == 0 {
        assert(s.subrange(0, 0) =~= Seq::<char>::empty());
        assert(split_on(s, c) =~~= seq![s.subrange(0, p)] + split_on(s.skip(p + 1), c));
    } else {
        let t = s.skip(1);
        assert(t[p - 1] == c);
        assert(forall|j: int| 0 <= j < p - 1 ==> #[trigger] t[j] != c);
        lemma_split_first(t, c, p - 1);
        assert(seq![s[0]] + t.subrange(0, p - 1) =~= s.subrange(0, p));
        assert(t.skip(p) =~= s.skip(p + 1));
        assert(split_on(s, c) =~~= seq![s.subrange(0, p)] + split_on(s.skip(p + 1), c));
    }
}

/// The first occurrence of `c` in `s` at or after `from`, if any.
pub fn find_char_from(s: &str, c: char, from: usize) -> (r: Option<usize>)
    requires
        from <= s@.len(),
    ensures
        match r {
            Some(p) => from <= p < s@.len() && s@[p as int] == c && forall|j: int|
                from <= j < p ==> s@[j] != c,
            None => forall|j: int| from <= j < s@.len() ==> s@[j] != c,
        },
{
    let n = s.unicode_len();
    let mut i: usize = from;
    while i < n
        invariant
            n == s@.len(),
            from <= i <= n,
            forall|j: int| from <= j < i ==> s@[j] != c,
        decreases n - i,
    {
        if s.get_char(i) == c {
            return Some(i);
        }
        i = i + 1;
    }
    None
}

/// The triplet parsing rule: the input must split on the delimiter into
/// exactly 3 segments, each a decimal channel value.
pub open spec fn spec_parse_triplet(s: Seq<char>, c: char) -> Result<Rgb, ValueError> {
    let parts = split_on(s, c);
    if parts.len() != 3 {
        Err(ValueError::WrongSegmentCount)
    } else {
        match spec_convert(parts) {
            Ok(vals) => Ok(Rgb { r: vals[0], g: vals[1], b: vals[2] }),
            Err(e) => Err(e),
        }
    }
}

/// Parses a delimited decimal triplet into an RGB triple.
pub fn parse_triplet(s: &str, d: Delimiter) -> (r: Result<Rgb, ValueError>)
    ensures
        r == spec_parse_triplet(s@, d.spec_char()),
{
    let c = d.as_char();
    let n = s.unicode_len();
    let p1 = match find_char_from(s, c, 0) {
        None => {
            proof {
                lemma_split_none(s@, c);
            }
            return Err(ValueError::WrongSegmentCount);
        },
        Some(p) => p,
    };
    proof {
        lemma_split_first(s@, c, p1 as int);
    }
    let p2 = match find_char_from(s, c, p1 + 1) {
        None => {
            proof {
                assert(forall|j: int|
                    0 <= j < s@.skip(p1 + 1).len() ==> #[trigger] s@.skip(p1 + 1)[j] != c);
                lemma_split_none(s@.skip(p1 + 1), c);
            }
            return Err(ValueError::WrongSegmentCount);
        },
        Some(p) => p,
    };
    let ghost t: Seq<char> = s@.skip(p1 + 1);
    proof {
        assert(t[p2 - p1 - 1] == c);
        assert(forall|j: int| 0 <= j < p2 - p1 - 1 ==> #[trigger] t[j] != c);
        lemma_split_first(t, c, p2 - p1 - 1);
        assert(t.skip(p2 - p1) =~= s@.skip(p2 + 1));
    }
    match find_char_from(s, c, p2 + 1) {
        Some(p3) => {
            proof {
                let u = s@.skip(p2 + 1);
                assert(u[p3 - p2 - 1] == c);
                assert(forall|j: int| 0 <= j < p3 - p2 - 1 ==> #[trigger] u[j] != c);
                lemma_split_first(u, c, p3 - p2 - 1);
                lemma_split_pos(u.skip(p3 - p2), c);
            }
            Err(ValueError::WrongSegmentCount)
        },
        None => {
            proof {
                assert(forall|j: int|
                    0 <= j < s@.skip(p2 + 1).len() ==> #[trigger] s@.skip(p2 + 1)[j] != c);
                lemma_split_none(s@.skip(p2 + 1), c);
            }
            let sa = s.substring_char(0, p1);
            let sb = s.substring_char(p1 + 1, p2);
            let sc = s.substring_char(p2 + 1, n);
            proof {
                assert(sb@ =~= t.subrange(0, p2 - p1 - 1));
                assert(split_on(s@, c) =~= seq![sa@, sb@, sc@]);
            }
            let mut segs: Vec<&str> = Vec::new();
            segs.push(sa);
            segs.push(sb);
            segs.push(sc);
            let ghost parts: Seq<Seq<char>> = split_on(s@, c);
            proof {
                assert(segs@.map_values(|x: &str| x@) =~= parts);
                lemma_spec_convert_len(parts);
            }
            match convert_to_numeric(segs.as_slice()) {
                Ok(vals) => Ok(Rgb { r: vals[0], g: vals[1], b: vals[2] }),
                Err(e) => Err(e),
            }
        },
    }
}

} // verus!
