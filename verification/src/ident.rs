//! The names of the constants.

use vstd::prelude::*;
use vstd::string::*;

verus! {

/// `text` in upper case, by the Unicode rules.
pub uninterp spec fn uppercase(text: Seq<char>) -> Seq<char>;

/// Calls `str::to_uppercase`. The contract claims that the outcome is a
/// function of the text alone.
#[verifier::external_body]
fn to_uppercase(text: &str) -> (upper: String)
    ensures
        upper@ == uppercase(text@),
{
    text.to_uppercase()
}

/// Two names with one underscore between them.
pub open spec fn joined(palette: Seq<char>, color: Seq<char>) -> Seq<char> {
    palette + seq!['_'] + color
}

/// The name of the constant for the colour `color` of the palette `palette`:
/// both names in upper case, with one underscore between them.
pub open spec fn identifier(palette: Seq<char>, color: Seq<char>) -> Seq<char> {
    joined(uppercase(palette), uppercase(color))
}

/// Joins two names with one underscore.
pub fn join_names(palette: &str, color: &str) -> (name: String)
    ensures
        name@ == joined(palette@, color@),
{
    proof {
        reveal_strlit("_");
    }
    let mut name = String::from_str(palette);
    name.append("_");
    name.append(color);
    assert(name@ =~= joined(palette@, color@));
    name
}

/// Derives the name of a constant from the names of its palette and colour.
///
/// The names are taken as they are: nothing checks that the outcome can
/// stand as an identifier, nor that no other pair of names gives the same
/// one.
pub fn derive_identifier(palette: &str, color: &str) -> (name: String)
    ensures
        name@ == identifier(palette@, color@),
{
    let palette = to_uppercase(palette);
    let color = to_uppercase(color);
    join_names(palette.as_str(), color.as_str())
}

} // verus!
