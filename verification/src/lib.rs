//! Turns a palette document into named colour constants.
//!
//! A palette document is a JSON object of palettes, each an object of
//! colours by name. A colour is written as `#rrggbb`, as `#rrggbbaa`, or as
//! `color(display-p3 r g b)`. For each colour the generator declares one
//! constant, named by its palette and its own name in upper case, in source
//! text that also defines the types of the constants.
//!
//! The steps are [`decode`], [`parse_color`], [`derive_identifier`] and
//! [`emit_source`]; [`generate_color_constants`] runs them all. The
//! components of a display-p3 colour are kept as decimal text from the
//! document to the generated source, where the compiler reads them as
//! numbers.

pub mod chars;
pub mod color;
pub mod document;
pub mod constants;
pub mod emit;
pub mod generate;
pub mod ident;
pub mod laws;
pub mod notation;
pub mod parser;
pub mod scan;
pub mod text;

pub use crate::color::{ColorU8, ColorU8A};
pub use crate::constants::{collect_constants, GeneratedConstant};
pub use crate::document::{decode, ColorEntry, DecodeError, Palette, PaletteDocument};
pub use crate::emit::{emit_source, TYPE_DEFINITIONS};
pub use crate::generate::{generate_color_constants, GenerateError};
pub use crate::ident::derive_identifier;
pub use crate::parser::{parse_color, InvalidComponent, ParsedColor};
