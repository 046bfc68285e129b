//! The colour types of eight-bit channels, and how they are written in
//! hexadecimal.

use crate::chars::hex_digit_char;
use crate::text::digit_text;
use vstd::prelude::*;
use vstd::string::*;

verus! {

/// The two lower-case hexadecimal digits of `v`.
pub open spec fn hex_pair_text(v: u8) -> Seq<char> {
    seq![hex_digit_char(v as int / 16), hex_digit_char(v as int % 16)]
}

/// Appends the two hexadecimal digits of `v` to `text`.
fn push_hex_pair(text: &mut String, v: u8)
    ensures
        final(text)@ == old(text)@ + hex_pair_text(v),
{
    text.append(digit_text(v / 16));
    text.append(digit_text(v % 16));
    assert(final(text)@ =~= old(text)@ + hex_pair_text(v));
}

/// A colour of three eight-bit channels.
#[derive(Clone, Copy, Debug, PartialEq, Eq, Structural)]
pub struct ColorU8 {
    pub r: u8,
    pub g: u8,
    pub b: u8,
}

/// A colour of three eight-bit channels and an alpha channel.
#[derive(Clone, Copy, Debug, PartialEq, Eq, Structural)]
pub struct ColorU8A {
    pub r: u8,
    pub g: u8,
    pub b: u8,
    pub a: u8,
}

impl ColorU8 {
    /// The colour as `#rrggbb`, in lower-case digits.
    pub open spec fn hex_text(self) -> Seq<char> {
        seq!['#'] + hex_pair_text(self.r) + hex_pair_text(self.g) + hex_pair_text(self.b)
    }

    /// Writes the colour as `#rrggbb`, in lower-case digits.
    pub fn hex(&self) -> (text: String)
        ensures
            text@ == self.hex_text(),
    {
        proof {
            reveal_strlit("#");
        }
        let mut text = String::from_str("#");
        assert(text@ =~= seq!['#']);
        push_hex_pair(&mut text, self.r);
        push_hex_pair(&mut text, self.g);
        push_hex_pair(&mut text, self.b);
        text
    }

    /// The three channels.
    pub fn u8(&self) -> (channels: (u8, u8, u8))
        ensures
            channels == (self.r, self.g, self.b),
    {
        (self.r, self.g, self.b)
    }
}

impl ColorU8A {
    /// The colour as `#rrggbbaa`, in lower-case digits.
    pub open spec fn hex_text(self) -> Seq<char> {
        seq!['#'] + hex_pair_text(self.r) + hex_pair_text(self.g) + hex_pair_text(self.b)
            + hex_pair_text(self.a)
    }

    /// Writes the colour as `#rrggbbaa`, in lower-case digits.
    pub fn hex(&self) -> (text: String)
        ensures
            text@ == self.hex_text(),
    {
        proof {
            reveal_strlit("#");
        }
        let mut text = String::from_str("#");
        assert(text@ =~= seq!['#']);
        push_hex_pair(&mut text, self.r);
        push_hex_pair(&mut text, self.g);
        push_hex_pair(&mut text, self.b);
        push_hex_pair(&mut text, self.a);
        text
    }

    /// The four channels.
    pub fn u8(&self) -> (channels: (u8, u8, u8, u8))
        ensures
            channels == (self.r, self.g, self.b, self.a),
    {
        (self.r, self.g, self.b, self.a)
    }
}

} // verus!
