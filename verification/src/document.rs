//! The palette document: palettes by name, and in each its colours by name.

use serde_json::Value;
use vstd::prelude::*;

verus! {

/// One member of a palette: a colour's name and its value as written.
#[derive(Clone, Debug, PartialEq, Eq)]
pub struct ColorEntry {
    pub name: String,
    /// The member's text; `None` where the member is not a string.
    pub value: Option<String>,
}

/// One member of the document: a palette's name and its colours.
#[derive(Clone, Debug, PartialEq, Eq)]
pub struct Palette {
    pub name: String,
    /// The palette's members in the document's order; `None` where the
    /// palette is not an object.
    pub entries: Option<Vec<ColorEntry>>,
}

/// A decoded document.
#[derive(Clone, Debug, PartialEq, Eq)]
pub struct PaletteDocument {
    /// The document's members in its order; `None` where the document is not
    /// an object.
    pub palettes: Option<Vec<Palette>>,
}

/// What a [`ColorEntry`] holds.
pub ghost struct ColorEntryView {
    pub name: Seq<char>,
    pub value: Option<Seq<char>>,
}

/// What a [`Palette`] holds.
pub ghost struct PaletteView {
    pub name: Seq<char>,
    pub entries: Option<Seq<ColorEntryView>>,
}

/// What a [`PaletteDocument`] holds.
pub ghost struct PaletteDocumentView {
    pub palettes: Option<Seq<PaletteView>>,
}

impl View for ColorEntry {
    type V = ColorEntryView;

    open spec fn view(&self) -> ColorEntryView {
        ColorEntryView {
            name: self.name@,
            value: match self.value {
                Some(text) => Some(text@),
                None => None,
            },
        }
    }
}

impl View for Palette {
    type V = PaletteView;

    open spec fn view(&self) -> PaletteView {
        PaletteView {
            name: self.name@,
            entries: match self.entries {
                Some(entries) => Some(entries@.map_values(|e: ColorEntry| e@)),
                None => None,
            },
        }
    }
}

impl View for PaletteDocument {
    type V = PaletteDocumentView;

    open spec fn view(&self) -> PaletteDocumentView {
        PaletteDocumentView {
            palettes: match self.palettes {
                Some(palettes) => Some(palettes@.map_values(|p: Palette| p@)),
                None => None,
            },
        }
    }
}

/// The error of `serde_json`, which is carried from the decoder to
/// [`decode`] and read there for its message only.
#[verifier::external_type_specification]
#[verifier::external_body]
pub struct ExJsonError(serde_json::Error);

/// What the decoder makes of the JSON text `text`: the document, or the
/// message with which it refuses the text.
pub uninterp spec fn decoded_document(text: Seq<char>) -> Result<PaletteDocumentView, Seq<char>>;

/// The message of a decoder's error: what is wrong, and at which line and
/// column of the text.
pub uninterp spec fn error_text(error: serde_json::Error) -> Seq<char>;

/// Calls `serde_json::from_str` for a `serde_json::Value`, and copies the
/// members of the value and of each member that is an object, in the order
/// in which the value hands them out. The contract claims that the outcome
/// is a function of the text alone: the same text is always refused, with
/// an error of the same message, or always gives the same document. It
/// claims nothing of which texts are refused, nor of the order of the
/// members.
#[verifier::external_body]
fn decode_json(text: &str) -> (result: Result<PaletteDocument, serde_json::Error>)
    ensures
        match result {
            Ok(document) => decoded_document(text@) == Ok::<PaletteDocumentView, Seq<char>>(
                document@,
            ),
            Err(error) => decoded_document(text@) == Err::<PaletteDocumentView, Seq<char>>(
                error_text(error),
            ),
        },
{
    let palettes = match serde_json::from_str::<Value>(text)? {
        Value::Object(members) => Some(members.into_iter().map(|(name, value)| Palette {
            name,
            entries: match value {
                Value::Object(members) => Some(members.into_iter().map(|(name, value)| ColorEntry {
                    name,
                    value: match value { Value::String(text) => Some(text), _ => None },
                }).collect()),
                _ => None,
            },
        }).collect()),
        _ => None,
    };
    Ok(PaletteDocument { palettes })
}

/// Why a text could not be decoded.
#[derive(Clone, Debug, PartialEq, Eq)]
pub struct DecodeError {
    /// The decoder's message: what is wrong, and at which line and column.
    pub message: String,
}

/// Calls `to_string` on a `serde_json::Error`. The contract claims that the
/// text is the error's message, the one that its `Display` writes.
#[verifier::external_body]
fn error_message(error: &serde_json::Error) -> (message: String)
    ensures
        message@ == error_text(*error),
{
    error.to_string()
}

/// What the result of [`decode`] holds.
pub open spec fn decoding_view(
    result: Result<PaletteDocument, DecodeError>,
) -> Result<PaletteDocumentView, Seq<char>> {
    match result {
        Ok(document) => Ok(document@),
        Err(error) => Err(error.message@),
    }
}

/// Decodes the JSON text of a palette document.
///
/// Fails exactly where the decoder refuses the text, with the decoder's
/// message. A level that has not the expected shape is no failure: it is
/// recorded as absent.
pub fn decode(text: &str) -> (result: Result<PaletteDocument, DecodeError>)
    ensures
        decoding_view(result) == decoded_document(text@),
{
    match decode_json(text) {
        Ok(document) => Ok(document),
        Err(error) => Err(DecodeError { message: error_message(&error) }),
    }
}

} // verus!
