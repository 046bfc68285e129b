//! From a palette document to its constants.

use crate::document::{
    ColorEntry, ColorEntryView, Palette, PaletteDocument, PaletteDocumentView, PaletteView,
};
use crate::ident::{derive_identifier, identifier};
use crate::parser::{parse_color, parsed_color, InvalidComponent, ParsedColor, ParsedColorView};
use vstd::prelude::*;

verus! {

/// A constant to generate: its name and the colour that it stands for.
#[derive(Clone, Debug, PartialEq, Eq)]
pub struct GeneratedConstant {
    pub ident: String,
    pub color: ParsedColor,
}

/// What a [`GeneratedConstant`] holds.
pub ghost struct GeneratedConstantView {
    pub ident: Seq<char>,
    pub color: ParsedColorView,
}

impl View for GeneratedConstant {
    type V = GeneratedConstantView;

    open spec fn view(&self) -> GeneratedConstantView {
        GeneratedConstantView { ident: self.ident@, color: self.color@ }
    }
}

/// What a list of constants holds.
pub open spec fn constants_view(constants: Seq<GeneratedConstant>) -> Seq<GeneratedConstantView> {
    constants.map_values(|c: GeneratedConstant| c@)
}

/// The constants of a document, or the component that stops the generation.
pub type Constants = Result<Seq<GeneratedConstantView>, Seq<char>>;

/// The constants of the members of the palette `palette`, in their order: one
/// for each member that is a string and denotes a colour. The first
/// component that is no number stops the generation.
pub open spec fn entry_constants(palette: Seq<char>, entries: Seq<ColorEntryView>) -> Constants
    decreases entries.len(),
{
    if entries.len() == 0 {
        Ok(Seq::empty())
    } else {
        let entry = entries.last();
        match entry_constants(palette, entries.drop_last()) {
            Err(token) => Err(token),
            Ok(before) => match entry.value {
                None => Ok(before),
                Some(raw) => match parsed_color(raw) {
                    Err(token) => Err(token),
                    Ok(None) => Ok(before),
                    Ok(Some(color)) => Ok(
                        before.push(
                            GeneratedConstantView { ident: identifier(palette, entry.name), color },
                        ),
                    ),
                },
            },
        }
    }
}

/// The constants of the palettes `palettes`, in their order. A palette that
/// is no object has none.
pub open spec fn palette_constants(palettes: Seq<PaletteView>) -> Constants
    decreases palettes.len(),
{
    if palettes.len() == 0 {
        Ok(Seq::empty())
    } else {
        let palette = palettes.last();
        match palette_constants(palettes.drop_last()) {
            Err(token) => Err(token),
            Ok(before) => match palette.entries {
                None => Ok(before),
                Some(entries) => match entry_constants(palette.name, entries) {
                    Err(token) => Err(token),
                    Ok(constants) => Ok(before + constants),
                },
            },
        }
    }
}

/// The constants of a document. A document that is no object has none.
pub open spec fn document_constants(document: PaletteDocumentView) -> Constants {
    match document.palettes {
        None => Ok(Seq::empty()),
        Some(palettes) => palette_constants(palettes),
    }
}

/// What the result of [`collect_constants`] holds.
pub open spec fn collected_view(
    result: Result<Vec<GeneratedConstant>, InvalidComponent>,
) -> Constants {
    match result {
        Ok(constants) => Ok(constants_view(constants@)),
        Err(error) => Err(error.token@),
    }
}

/// Appends the constants of one palette's members to `constants`.
fn push_entry_constants(
    palette: &str,
    entries: &Vec<ColorEntry>,
    constants: &mut Vec<GeneratedConstant>,
) -> (result: Result<(), InvalidComponent>)
    ensures
        match result {
            Ok(_) => {
                let added = entry_constants(palette@, entries@.map_values(|e: ColorEntry| e@));
                &&& added is Ok
                &&& constants_view(final(constants)@) == constants_view(old(constants)@)
                    + added->Ok_0
            },
            Err(error) => entry_constants(palette@, entries@.map_values(|e: ColorEntry| e@))
                == Err::<Seq<GeneratedConstantView>, Seq<char>>(error.token@),
        },
{
    let ghost views = entries@.map_values(|e: ColorEntry| e@);
    let ghost before = constants_view(constants@);
    let mut i: usize = 0;
    assert(constants_view(constants@) =~= before + Seq::<GeneratedConstantView>::empty());
    while i < entries.len()
        invariant
            i <= entries@.len(),
            views == entries@.map_values(|e: ColorEntry| e@),
            entry_constants(palette@, views.take(i as int)) is Ok,
            constants_view(constants@) == before + entry_constants(
                palette@,
                views.take(i as int),
            )->Ok_0,
        decreases entries@.len() - i,
    {
        let entry = &entries[i];
        proof {
            assert(views.take(i + 1).drop_last() =~= views.take(i as int));
            assert(views.take(i + 1).last() == entry@);
        }
        let ghost so_far = entry_constants(palette@, views.take(i as int))->Ok_0;
        match &entry.value {
            None => {},
            Some(raw) => {
                match parse_color(raw.as_str()) {
                    Err(error) => {
                        proof {
                            lemma_entry_error_stays(palette@, views, i + 1);
                        }
                        return Err(error);
                    },
                    Ok(None) => {},
                    Ok(Some(color)) => {
                        let ident = derive_identifier(palette, entry.name.as_str());
                        let constant = GeneratedConstant { ident, color };
                        assert(constants_view(constants@.push(constant)) =~= constants_view(
                            constants@,
                        ).push(constant@));
                        assert((before + so_far).push(constant@) =~= before + so_far.push(
                            constant@,
                        ));
                        constants.push(constant);
                    },
                }
            },
        }
        i += 1;
    }
    assert(views.take(i as int) =~= views);
    Ok(())
}

/// Once the members up to `n` stop the generation, so do all the members.
proof fn lemma_entry_error_stays(palette: Seq<char>, entries: Seq<ColorEntryView>, n: int)
    requires
        0 <= n <= entries.len(),
        entry_constants(palette, entries.take(n)) is Err,
    ensures
        entry_constants(palette, entries) == entry_constants(palette, entries.take(n)),
    decreases entries.len() - n,
{
    if n < entries.len() {
        assert(entries.take(n + 1).drop_last() =~= entries.take(n));
        lemma_entry_error_stays(palette, entries, n + 1);
    } else {
        assert(entries.take(n) =~= entries);
    }
}

/// Once the palettes up to `n` stop the generation, so do all the palettes.
proof fn lemma_palette_error_stays(palettes: Seq<PaletteView>, n: int)
    requires
        0 <= n <= palettes.len(),
        palette_constants(palettes.take(n)) is Err,
    ensures
        palette_constants(palettes) == palette_constants(palettes.take(n)),
    decreases palettes.len() - n,
{
    if n < palettes.len() {
        assert(palettes.take(n + 1).drop_last() =~= palettes.take(n));
        lemma_palette_error_stays(palettes, n + 1);
    } else {
        assert(palettes.take(n) =~= palettes);
    }
}

/// Collects the constants of a document, in the document's order.
///
/// Fails exactly where a display-p3 value of three words holds a word that
/// is no number, with the first such word.
pub fn collect_constants(document: &PaletteDocument) -> (result: Result<
    Vec<GeneratedConstant>,
    InvalidComponent,
>)
    ensures
        collected_view(result) == document_constants(document@),
{
    let mut constants: Vec<GeneratedConstant> = Vec::new();
    assert(constants_view(constants@) =~= Seq::<GeneratedConstantView>::empty());
    match &document.palettes {
        None => {},
        Some(palettes) => {
            let ghost views = palettes@.map_values(|p: Palette| p@);
            let mut i: usize = 0;
            while i < palettes.len()
                invariant
                    i <= palettes@.len(),
                    document.palettes == Some(*palettes),
                    views == palettes@.map_values(|p: Palette| p@),
                    palette_constants(views.take(i as int)) == Ok::<
                        Seq<GeneratedConstantView>,
                        Seq<char>,
                    >(constants_view(constants@)),
                decreases palettes@.len() - i,
            {
                let palette = &palettes[i];
                proof {
                    assert(views.take(i + 1).drop_last() =~= views.take(i as int));
                    assert(views.take(i + 1).last() == palette@);
                }
                match &palette.entries {
                    None => {},
                    Some(entries) => {
                        match push_entry_constants(palette.name.as_str(), entries, &mut constants) {
                            Err(error) => {
                                proof {
                                    assert(palette@.entries == Some(
                                        entries@.map_values(|e: ColorEntry| e@),
                                    ));
                                    assert(palette_constants(views.take(i + 1)) == Err::<
                                        Seq<GeneratedConstantView>,
                                        Seq<char>,
                                    >(error.token@));
                                    lemma_palette_error_stays(views, i + 1);
                                    assert(document@.palettes == Some(views));
                                }
                                return Err(error);
                            },
                            Ok(_) => {},
                        }
                    },
                }
                i += 1;
            }
            assert(views.take(i as int) =~= views);
        },
    }
    Ok(constants)
}

} // verus!
