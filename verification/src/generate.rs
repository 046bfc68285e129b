//! The whole generation, from the text of a palette document to source text.

use crate::constants::{collect_constants, document_constants};
use crate::document::{decode, decoded_document};
use crate::emit::{emit_source, source_text};
use vstd::prelude::*;

verus! {

/// Why nothing was generated.
#[derive(Clone, Debug, PartialEq, Eq)]
pub enum GenerateError {
    /// The decoder refused the text.
    InvalidDocument {
        /// The decoder's message: what is wrong, and at which line and
        /// column.
        message: String,
    },
    /// A display-p3 value of three words holds a word that is no number.
    InvalidComponent {
        /// The word as it was written.
        token: String,
    },
}

/// Whether the generation from `json` comes to `result`.
///
/// It gives the source for the document's constants. It fails where the
/// decoder refuses `json`, with the decoder's message, and where the
/// document holds a display-p3 value of three words with a word that is no
/// number, with the first such word.
pub open spec fn generated(json: Seq<char>, result: Result<String, GenerateError>) -> bool {
    match decoded_document(json) {
        Err(refusal) => result matches Err(GenerateError::InvalidDocument { message })
            && message@ == refusal,
        Ok(document) => match document_constants(document) {
            Err(word) => result matches Err(GenerateError::InvalidComponent { token })
                && token@ == word,
            Ok(constants) => result matches Ok(text) && text@ == source_text(constants),
        },
    }
}

/// Generates the source text for the palette document `json_content`: the
/// definitions of the colour types, and one constant for each member of a
/// palette that denotes a colour.
pub fn generate_color_constants(json_content: &str) -> (result: Result<String, GenerateError>)
    ensures
        generated(json_content@, result),
{
    let document = match decode(json_content) {
        Ok(document) => document,
        Err(error) => {
            return Err(GenerateError::InvalidDocument { message: error.message });
        },
    };
    match collect_constants(&document) {
        Ok(constants) => Ok(emit_source(&constants)),
        Err(error) => Err(GenerateError::InvalidComponent { token: error.token }),
    }
}

} // verus!
