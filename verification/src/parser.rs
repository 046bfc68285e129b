//! Reading one colour value.

use crate::chars::hex_digit_value;
use crate::notation::{
    hex_pair_value, is_float_text, p3_prefix, split_whitespace, starts_with, without_closing,
};
use crate::scan::{is_float, starts_with_at, stretches, word_ranges};
use crate::text::chars_of;
use vstd::prelude::*;
use vstd::slice::slice_subrange;
use vstd::string::*;

verus! {

/// A colour as it was read from its notation.
#[allow(inconsistent_fields)]
#[derive(Clone, Debug, PartialEq, Eq)]
pub enum ParsedColor {
    /// Three eight-bit channels, from `#rrggbb`.
    RGB8 { r: u8, g: u8, b: u8 },
    /// Three eight-bit channels and alpha, from `#rrggbbaa`.
    RGBA8 { r: u8, g: u8, b: u8, a: u8 },
    /// Three display-p3 components, each kept as the decimal text that it
    /// was written in.
    P3 { r: String, g: String, b: String },
}

/// What a [`ParsedColor`] holds.
#[allow(inconsistent_fields)]
pub ghost enum ParsedColorView {
    RGB8 { r: u8, g: u8, b: u8 },
    RGBA8 { r: u8, g: u8, b: u8, a: u8 },
    P3 { r: Seq<char>, g: Seq<char>, b: Seq<char> },
}

impl View for ParsedColor {
    type V = ParsedColorView;

    open spec fn view(&self) -> ParsedColorView {
        match *self {
            ParsedColor::RGB8 { r, g, b } => ParsedColorView::RGB8 { r, g, b },
            ParsedColor::RGBA8 { r, g, b, a } => ParsedColorView::RGBA8 { r, g, b, a },
            ParsedColor::P3 { r, g, b } => ParsedColorView::P3 { r: r@, g: g@, b: b@ },
        }
    }
}

/// A display-p3 component that is no number.
#[derive(Clone, Debug, PartialEq, Eq)]
pub struct InvalidComponent {
    /// The component as it was written.
    pub token: String,
}

/// How reading a value ends: with a colour, with nothing where the value has
/// none of the three shapes, or with the component that is no number.
pub type ColorOutcome = Result<Option<ParsedColorView>, Seq<char>>;

/// The words of a display-p3 value: what stands behind the opening, without
/// one closing bracket at the end, taken apart at white space.
pub open spec fn p3_words(raw: Seq<char>) -> Seq<Seq<char>> {
    split_whitespace(without_closing(raw.skip(p3_prefix().len() as int)))
}

/// The colour that `raw` denotes.
///
/// The shapes are tried in this order: nine characters that begin with `#`;
/// seven characters that begin with `#`; a text that begins with the
/// display-p3 opening. Any other text denotes nothing.
///
/// The two notations are not equally strict. A pair of characters that is
/// not two hexadecimal digits counts as 0, so a text of the right length
/// behind a `#` always denotes a colour. A display-p3 value of three words
/// must hold three numbers: a word that is no number is an error, the first
/// such word. A display-p3 value of any other number of words denotes
/// nothing.
pub open spec fn parsed_color(raw: Seq<char>) -> ColorOutcome {
    if raw.len() == 9 && raw[0] == '#' {
        Ok(
            Some(
                ParsedColorView::RGBA8 {
                    r: hex_pair_value(raw[1], raw[2]),
                    g: hex_pair_value(raw[3], raw[4]),
                    b: hex_pair_value(raw[5], raw[6]),
                    a: hex_pair_value(raw[7], raw[8]),
                },
            ),
        )
    } else if raw.len() == 7 && raw[0] == '#' {
        Ok(
            Some(
                ParsedColorView::RGB8 {
                    r: hex_pair_value(raw[1], raw[2]),
                    g: hex_pair_value(raw[3], raw[4]),
                    b: hex_pair_value(raw[5], raw[6]),
                },
            ),
        )
    } else if starts_with(raw, p3_prefix()) {
        let words = p3_words(raw);
        if words.len() != 3 {
            Ok(None)
        } else if !is_float_text(words[0]) {
            Err(words[0])
        } else if !is_float_text(words[1]) {
            Err(words[1])
        } else if !is_float_text(words[2]) {
            Err(words[2])
        } else {
            Ok(Some(ParsedColorView::P3 { r: words[0], g: words[1], b: words[2] }))
        }
    } else {
        Ok(None)
    }
}

/// What the result of [`parse_color`] holds.
pub open spec fn outcome_view(
    result: Result<Option<ParsedColor>, InvalidComponent>,
) -> ColorOutcome {
    match result {
        Ok(Some(color)) => Ok(Some(color@)),
        Ok(None) => Ok(None),
        Err(error) => Err(error.token@),
    }
}

/// Reads a pair of characters as a base-16 integer of two digits; 0 where it
/// is none.
pub fn hex_pair(high: char, low: char) -> (value: u8)
    ensures
        value == hex_pair_value(high, low),
{
    match (hex_digit_value(high), hex_digit_value(low)) {
        (Some(h), Some(l)) => h * 16 + l,
        _ => 0,
    }
}

/// Reads one colour value.
///
/// Gives `Ok(None)` for a value of none of the three shapes, and the error
/// for a display-p3 value with a component that is no number.
pub fn parse_color(raw: &str) -> (result: Result<Option<ParsedColor>, InvalidComponent>)
    ensures
        outcome_view(result) == parsed_color(raw@),
{
    let chars = chars_of(raw);
    let s = chars.as_slice();
    let n = s.len();
    if n == 9 && s[0] == '#' {
        return Ok(
            Some(
                ParsedColor::RGBA8 {
                    r: hex_pair(s[1], s[2]),
                    g: hex_pair(s[3], s[4]),
                    b: hex_pair(s[5], s[6]),
                    a: hex_pair(s[7], s[8]),
                },
            ),
        );
    }
    if n == 7 && s[0] == '#' {
        return Ok(
            Some(
                ParsedColor::RGB8 {
                    r: hex_pair(s[1], s[2]),
                    g: hex_pair(s[3], s[4]),
                    b: hex_pair(s[5], s[6]),
                },
            ),
        );
    }
    let opening = chars_of("color(display-p3");
    assert(s@.skip(0) =~= s@);
    if !starts_with_at(s, 0, opening.as_slice()) {
        return Ok(None);
    }
    let lo = opening.len();
    let hi: usize = if n > lo && s[n - 1] == ')' {
        n - 1
    } else {
        n
    };
    let inner = slice_subrange(s, lo, hi);
    proof {
        let rest = raw@.skip(lo as int);
        assert(opening@ == p3_prefix());
        assert(rest.len() > 0 ==> rest.last() == s@[n - 1]);
        assert(inner@ =~= without_closing(rest));
    }
    let ranges = word_ranges(inner);
    if ranges.len() != 3 {
        return Ok(None);
    }
    let (r0, r1) = ranges[0];
    let (g0, g1) = ranges[1];
    let (b0, b1) = ranges[2];
    proof {
        let words = p3_words(raw@);
        assert(words == stretches(inner@, ranges@));
        assert(words[0] =~= raw@.subrange(lo + r0, lo + r1));
        assert(words[1] =~= raw@.subrange(lo + g0, lo + g1));
        assert(words[2] =~= raw@.subrange(lo + b0, lo + b1));
    }
    let r = raw.substring_char(lo + r0, lo + r1);
    let g = raw.substring_char(lo + g0, lo + g1);
    let b = raw.substring_char(lo + b0, lo + b1);
    if !is_float(slice_subrange(inner, r0, r1)) {
        return Err(InvalidComponent { token: String::from_str(r) });
    }
    if !is_float(slice_subrange(inner, g0, g1)) {
        return Err(InvalidComponent { token: String::from_str(g) });
    }
    if !is_float(slice_subrange(inner, b0, b1)) {
        return Err(InvalidComponent { token: String::from_str(b) });
    }
    Ok(
        Some(
            ParsedColor::P3 {
                r: String::from_str(r),
                g: String::from_str(g),
                b: String::from_str(b),
            },
        ),
    )
}

} // verus!
