//! The source text that is generated for a set of constants.

use crate::chars::hex_digit_char;
use crate::constants::{constants_view, GeneratedConstant, GeneratedConstantView};
use crate::notation::{digit_run, fraction_len, lower, mantissa_len, sign_len};
use crate::parser::{ParsedColor, ParsedColorView};
use crate::scan::{lower_equals, mantissa_ends};
use crate::text::{chars_of, digit_text};
use vstd::prelude::*;
use vstd::string::*;

verus! {

/// The definitions of the three colour types, which every generated source
/// begins with.
pub const TYPE_DEFINITIONS: &'static str = "#[derive(Debug, Clone, Copy, PartialEq, Eq)]
pub struct ColorU8 {
    pub r: u8,
    pub g: u8,
    pub b: u8,
}

impl ColorU8 {
    pub fn hex(&self) -> String {
        format!(\"#{:02x}{:02x}{:02x}\", self.r, self.g, self.b)
    }

    pub fn u8(&self) -> (u8, u8, u8) {
        (self.r, self.g, self.b)
    }
}

#[derive(Debug, Clone, Copy, PartialEq, Eq)]
pub struct ColorU8A {
    pub r: u8,
    pub g: u8,
    pub b: u8,
    pub a: u8,
}

impl ColorU8A {
    pub fn hex(&self) -> String {
        format!(\"#{:02x}{:02x}{:02x}{:02x}\", self.r, self.g, self.b, self.a)
    }

    pub fn u8(&self) -> (u8, u8, u8, u8) {
        (self.r, self.g, self.b, self.a)
    }
}

#[derive(Debug, Clone, Copy, PartialEq)]
pub struct ColorP3 {
    pub r: f32,
    pub g: f32,
    pub b: f32,
}

impl ColorP3 {
    pub fn html(&self) -> String {
        format!(\"color(display-p3 {} {} {})\", self.r, self.g, self.b)
    }

    pub fn f32(&self) -> (f32, f32, f32) {
        (self.r, self.g, self.b)
    }
}
";

/// `v` in decimal digits.
pub open spec fn decimal_text(v: u8) -> Seq<char> {
    let n = v as int;
    if n >= 100 {
        seq![hex_digit_char(n / 100), hex_digit_char(n / 10 % 10), hex_digit_char(n % 10)]
    } else if n >= 10 {
        seq![hex_digit_char(n / 10), hex_digit_char(n % 10)]
    } else {
        seq![hex_digit_char(n)]
    }
}

/// The literal that stands for the unsigned decimal number `body`: its
/// digits and its exponent, with a 0 where no digit stands before the point
/// or behind it.
pub open spec fn number_literal(body: Seq<char>) -> Seq<char> {
    let whole = digit_run(body) as int;
    let fraction = fraction_len(body) as int;
    let mantissa = mantissa_len(body) as int;
    (if whole > 0 {
        body.take(whole)
    } else {
        "0"@
    }) + "."@ + (if fraction > 0 {
        body.subrange(mantissa - fraction, mantissa)
    } else {
        "0"@
    }) + body.skip(mantissa)
}

/// The literal that stands for the number `token` in the generated source.
///
/// Infinities and the value that is no number are named by their constants.
/// A decimal number keeps its minus sign; a plus sign is dropped.
pub open spec fn float_literal(token: Seq<char>) -> Seq<char> {
    let negative = token.len() > 0 && token[0] == '-';
    let body = token.skip(sign_len(token));
    if lower(body) == "nan"@ {
        "f32::NAN"@
    } else if lower(body) == "inf"@ || lower(body) == "infinity"@ {
        if negative {
            "f32::NEG_INFINITY"@
        } else {
            "f32::INFINITY"@
        }
    } else if negative {
        "-"@ + number_literal(body)
    } else {
        number_literal(body)
    }
}

/// The declaration of one constant, as a line of source text.
pub open spec fn declaration(constant: GeneratedConstantView) -> Seq<char> {
    match constant.color {
        ParsedColorView::RGB8 { r, g, b } => "pub const "@ + constant.ident
            + ": ColorU8 = ColorU8 { r: "@ + decimal_text(r) + ", g: "@ + decimal_text(g)
            + ", b: "@ + decimal_text(b) + " };\n"@,
        ParsedColorView::RGBA8 { r, g, b, a } => "pub const "@ + constant.ident
            + ": ColorU8A = ColorU8A { r: "@ + decimal_text(r) + ", g: "@ + decimal_text(g)
            + ", b: "@ + decimal_text(b) + ", a: "@ + decimal_text(a) + " };\n"@,
        ParsedColorView::P3 { r, g, b } => "pub const "@ + constant.ident
            + ": ColorP3 = ColorP3 { r: "@ + float_literal(r) + ", g: "@ + float_literal(g)
            + ", b: "@ + float_literal(b) + " };\n"@,
    }
}

/// The declarations of `constants`, one line each, in their order.
pub open spec fn declarations(constants: Seq<GeneratedConstantView>) -> Seq<char>
    decreases constants.len(),
{
    if constants.len() == 0 {
        Seq::empty()
    } else {
        declarations(constants.drop_last()) + declaration(constants.last())
    }
}

/// The generated source: the definitions of the colour types, then the
/// declarations of `constants`.
pub open spec fn source_text(constants: Seq<GeneratedConstantView>) -> Seq<char> {
    TYPE_DEFINITIONS@ + declarations(constants)
}

/// Appends `v` in decimal digits to `text`.
fn push_decimal(text: &mut String, v: u8)
    ensures
        final(text)@ == old(text)@ + decimal_text(v),
{
    if v >= 100 {
        text.append(digit_text(v / 100));
        text.append(digit_text(v / 10 % 10));
        text.append(digit_text(v % 10));
    } else if v >= 10 {
        text.append(digit_text(v / 10));
        text.append(digit_text(v % 10));
    } else {
        text.append(digit_text(v));
    }
    assert(final(text)@ =~= old(text)@ + decimal_text(v));
}

/// Writes the literal that stands for the unsigned decimal number which
/// `token` holds from `start` on.
fn number_literal_text(token: &str, s: &[char], start: usize) -> (literal: String)
    requires
        s@ == token@,
        start <= s@.len(),
    ensures
        literal@ == number_literal(token@.skip(start as int)),
{
    let ghost body = token@.skip(start as int);
    let (whole_end, mantissa_end) = mantissa_ends(s, start);
    let fraction_start: usize = if mantissa_end > whole_end {
        whole_end + 1
    } else {
        whole_end
    };
    let whole = if whole_end > start {
        token.substring_char(start, whole_end)
    } else {
        "0"
    };
    let fraction = if mantissa_end > fraction_start {
        token.substring_char(fraction_start, mantissa_end)
    } else {
        "0"
    };
    let rest = token.substring_char(mantissa_end, s.len());
    proof {
        assert(body.take(whole_end - start) =~= token@.subrange(start as int, whole_end as int));
        assert(body.subrange(fraction_start - start, mantissa_end - start) =~= token@.subrange(
            fraction_start as int,
            mantissa_end as int,
        ));
        assert(body.skip(mantissa_end - start) =~= token@.subrange(
            mantissa_end as int,
            s@.len() as int,
        ));
    }
    let mut literal = String::from_str(whole);
    literal.append(".");
    literal.append(fraction);
    literal.append(rest);
    literal
}

/// Writes the literal that stands for the number `token`.
pub fn float_literal_text(token: &str) -> (literal: String)
    ensures
        literal@ == float_literal(token@),
{
    let chars = chars_of(token);
    let s = chars.as_slice();
    let negative = s.len() > 0 && s[0] == '-';
    let start: usize = if s.len() > 0 && (s[0] == '+' || s[0] == '-') {
        1
    } else {
        0
    };
    if lower_equals(s, start, "nan") {
        String::from_str("f32::NAN")
    } else if lower_equals(s, start, "inf") || lower_equals(s, start, "infinity") {
        if negative {
            String::from_str("f32::NEG_INFINITY")
        } else {
            String::from_str("f32::INFINITY")
        }
    } else {
        let number = number_literal_text(token, s, start);
        if negative {
            let mut literal = String::from_str("-");
            literal.append(number.as_str());
            literal
        } else {
            number
        }
    }
}

/// Appends the literal that stands for the number `token` to `text`.
fn push_float_literal(text: &mut String, token: &str)
    ensures
        final(text)@ == old(text)@ + float_literal(token@),
{
    let literal = float_literal_text(token);
    text.append(literal.as_str());
}

/// Writes the declaration of one constant.
pub fn declare(constant: &GeneratedConstant) -> (line: String)
    ensures
        line@ == declaration(constant@),
{
    let mut line = String::from_str("pub const ");
    line.append(constant.ident.as_str());
    match &constant.color {
        ParsedColor::RGB8 { r, g, b } => {
            line.append(": ColorU8 = ColorU8 { r: ");
            push_decimal(&mut line, *r);
            line.append(", g: ");
            push_decimal(&mut line, *g);
            line.append(", b: ");
            push_decimal(&mut line, *b);
        },
        ParsedColor::RGBA8 { r, g, b, a } => {
            line.append(": ColorU8A = ColorU8A { r: ");
            push_decimal(&mut line, *r);
            line.append(", g: ");
            push_decimal(&mut line, *g);
            line.append(", b: ");
            push_decimal(&mut line, *b);
            line.append(", a: ");
            push_decimal(&mut line, *a);
        },
        ParsedColor::P3 { r, g, b } => {
            line.append(": ColorP3 = ColorP3 { r: ");
            push_float_literal(&mut line, r.as_str());
            line.append(", g: ");
            push_float_literal(&mut line, g.as_str());
            line.append(", b: ");
            push_float_literal(&mut line, b.as_str());
        },
    }
    line.append(" };\n");
    assert(line@ =~= declaration(constant@));
    line
}

/// Writes the source for `constants`: the definitions of the colour types,
/// then one declaration for each constant, in their order.
pub fn emit_source(constants: &Vec<GeneratedConstant>) -> (text: String)
    ensures
        text@ == source_text(constants_view(constants@)),
{
    let ghost views = constants_view(constants@);
    let mut text = String::from_str(TYPE_DEFINITIONS);
    let mut i: usize = 0;
    assert(text@ =~= TYPE_DEFINITIONS@ + declarations(views.take(0)));
    while i < constants.len()
        invariant
            i <= constants@.len(),
            views == constants_view(constants@),
            text@ == TYPE_DEFINITIONS@ + declarations(views.take(i as int)),
        decreases constants@.len() - i,
    {
        let line = declare(&constants[i]);
        proof {
            assert(views.take(i + 1).drop_last() =~= views.take(i as int));
            assert(views.take(i + 1).last() == constants@[i as int]@);
            assert(TYPE_DEFINITIONS@ + declarations(views.take(i as int)) + line@
                =~= TYPE_DEFINITIONS@ + declarations(views.take(i + 1)));
        }
        text.append(line.as_str());
        i += 1;
    }
    assert(views.take(i as int) =~= views);
    text
}

} // verus!
