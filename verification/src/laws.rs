//! What holds of reading, writing and collecting colours, on every input.

use crate::chars::{ascii_lower, hex_digit_char, hex_value, is_hex_digit, is_whitespace};
use crate::color::{hex_pair_text, ColorU8, ColorU8A};
use crate::constants::{
    document_constants, entry_constants, palette_constants, GeneratedConstantView,
};
use crate::document::{ColorEntryView, PaletteDocumentView, PaletteView};
use crate::emit::{declaration, source_text, TYPE_DEFINITIONS};
use crate::ident::identifier;
use crate::notation::{
    hex_pair_value, is_float_text, lemma_float_text_is_one_word, lemma_split_after_space,
    lemma_split_after_word, lemma_word_holds_no_whitespace, lemma_word_len_bound, lower,
    p3_prefix, split_whitespace, starts_with, without_closing, word_len,
};
use crate::parser::{p3_words, parsed_color, ParsedColorView};
use vstd::prelude::*;

verus! {

/// The digit that is written for the value of a hexadecimal digit is that
/// digit in lower case.
pub proof fn lemma_digit_of_value(c: char)
    requires
        is_hex_digit(c),
    ensures
        0 <= hex_value(c) < 16,
        hex_digit_char(hex_value(c)) == ascii_lower(c),
{
}

/// A pair of hexadecimal digits is written back as it was read, in lower
/// case.
pub proof fn lemma_pair_round_trip(high: char, low: char)
    requires
        is_hex_digit(high),
        is_hex_digit(low),
    ensures
        hex_pair_text(hex_pair_value(high, low)) == seq![ascii_lower(high), ascii_lower(low)],
{
    lemma_digit_of_value(high);
    lemma_digit_of_value(low);
    let v = hex_pair_value(high, low);
    assert(v as int == hex_value(high) * 16 + hex_value(low));
    assert(v as int / 16 == hex_value(high));
    assert(v as int % 16 == hex_value(low));
}

/// Six hexadecimal digits behind a `#` are read as a colour of three
/// channels, and that colour is written as the same text in lower case.
pub proof fn lemma_rgb8_round_trip(digits: Seq<char>)
    requires
        digits.len() == 6,
        forall|i: int| 0 <= i < 6 ==> is_hex_digit(#[trigger] digits[i]),
    ensures
        parsed_color(seq!['#'] + digits) matches Ok(Some(ParsedColorView::RGB8 { r, g, b }))
            && (ColorU8 { r, g, b }).hex_text() == seq!['#'] + lower(digits),
{
    let raw = seq!['#'] + digits;
    assert(raw.len() == 7 && raw[0] == '#');
    assert(forall|i: int| 0 <= i < 6 ==> raw[i + 1] == digits[i]);
    lemma_pair_round_trip(digits[0], digits[1]);
    lemma_pair_round_trip(digits[2], digits[3]);
    lemma_pair_round_trip(digits[4], digits[5]);
    let color = ColorU8 {
        r: hex_pair_value(digits[0], digits[1]),
        g: hex_pair_value(digits[2], digits[3]),
        b: hex_pair_value(digits[4], digits[5]),
    };
    assert(color.hex_text() =~= seq!['#'] + lower(digits));
}

/// Eight hexadecimal digits behind a `#` are read as a colour of four
/// channels, and that colour is written as the same text in lower case.
pub proof fn lemma_rgba8_round_trip(digits: Seq<char>)
    requires
        digits.len() == 8,
        forall|i: int| 0 <= i < 8 ==> is_hex_digit(#[trigger] digits[i]),
    ensures
        parsed_color(seq!['#'] + digits) matches Ok(Some(ParsedColorView::RGBA8 { r, g, b, a }))
            && (ColorU8A { r, g, b, a }).hex_text() == seq!['#'] + lower(digits),
{
    let raw = seq!['#'] + digits;
    assert(raw.len() == 9 && raw[0] == '#');
    assert(forall|i: int| 0 <= i < 8 ==> raw[i + 1] == digits[i]);
    lemma_pair_round_trip(digits[0], digits[1]);
    lemma_pair_round_trip(digits[2], digits[3]);
    lemma_pair_round_trip(digits[4], digits[5]);
    lemma_pair_round_trip(digits[6], digits[7]);
    let color = ColorU8A {
        r: hex_pair_value(digits[0], digits[1]),
        g: hex_pair_value(digits[2], digits[3]),
        b: hex_pair_value(digits[4], digits[5]),
        a: hex_pair_value(digits[6], digits[7]),
    };
    assert(color.hex_text() =~= seq!['#'] + lower(digits));
}

/// What a channel is for the pair of characters that stands for it: sixteen
/// times the first digit and the second, where both are hexadecimal digits,
/// and 0 where one of them is not.
pub open spec fn channel_value(high: char, low: char) -> int {
    if is_hex_digit(high) && is_hex_digit(low) {
        hex_value(high) * 16 + hex_value(low)
    } else {
        0
    }
}

/// Seven characters that begin with `#` always denote a colour of three
/// channels, whatever the six behind the `#` are. Each channel goes by its
/// own pair alone: a pair that is not two hexadecimal digits gives 0, and
/// leaves the other channels as they are.
pub proof fn lemma_malformed_pairs_are_zero(raw: Seq<char>)
    requires
        raw.len() == 7,
        raw[0] == '#',
    ensures
        parsed_color(raw) matches Ok(Some(ParsedColorView::RGB8 { r, g, b })) && {
            &&& r == channel_value(raw[1], raw[2])
            &&& g == channel_value(raw[3], raw[4])
            &&& b == channel_value(raw[5], raw[6])
        },
{
}

/// Nine characters that begin with `#` always denote a colour of four
/// channels, whatever the eight behind the `#` are. Each channel goes by its
/// own pair alone: a pair that is not two hexadecimal digits gives 0, and
/// leaves the other channels as they are.
pub proof fn lemma_malformed_pairs_with_alpha_are_zero(raw: Seq<char>)
    requires
        raw.len() == 9,
        raw[0] == '#',
    ensures
        parsed_color(raw) matches Ok(Some(ParsedColorView::RGBA8 { r, g, b, a })) && {
            &&& r == channel_value(raw[1], raw[2])
            &&& g == channel_value(raw[3], raw[4])
            &&& b == channel_value(raw[5], raw[6])
            &&& a == channel_value(raw[7], raw[8])
        },
{
}

/// Two members of one palette whose names give the same identifier are both
/// declared, under that one identifier: nothing is merged or refused.
pub proof fn lemma_same_identifier_in_one_palette(
    palette: Seq<char>,
    first: ColorEntryView,
    second: ColorEntryView,
    first_color: ParsedColorView,
    second_color: ParsedColorView,
)
    requires
        first.value matches Some(raw) && parsed_color(raw) == Ok::<_, Seq<char>>(
            Some(first_color),
        ),
        second.value matches Some(raw) && parsed_color(raw) == Ok::<_, Seq<char>>(
            Some(second_color),
        ),
        identifier(palette, first.name) == identifier(palette, second.name),
    ensures
        entry_constants(palette, seq![first, second]) == Ok::<_, Seq<char>>(
            seq![
                GeneratedConstantView {
                    ident: identifier(palette, first.name),
                    color: first_color,
                },
                GeneratedConstantView {
                    ident: identifier(palette, first.name),
                    color: second_color,
                },
            ],
        ),
{
    let both = seq![first, second];
    assert(both.drop_last() =~= seq![first]);
    assert(seq![first].drop_last() =~= Seq::<ColorEntryView>::empty());
    assert(entry_constants(palette, seq![first]) == Ok::<_, Seq<char>>(
        seq![GeneratedConstantView { ident: identifier(palette, first.name), color: first_color }],
    )) by {
        assert(entry_constants(palette, Seq::<ColorEntryView>::empty()) == Ok::<_, Seq<char>>(
            Seq::<GeneratedConstantView>::empty(),
        ));
        assert(Seq::<GeneratedConstantView>::empty().push(
            GeneratedConstantView { ident: identifier(palette, first.name), color: first_color },
        ) =~= seq![
            GeneratedConstantView { ident: identifier(palette, first.name), color: first_color },
        ]);
    }
    assert(seq![
        GeneratedConstantView { ident: identifier(palette, first.name), color: first_color },
    ].push(
        GeneratedConstantView { ident: identifier(palette, second.name), color: second_color },
    ) =~= seq![
        GeneratedConstantView { ident: identifier(palette, first.name), color: first_color },
        GeneratedConstantView { ident: identifier(palette, first.name), color: second_color },
    ]);
}

/// The constants of two palettes are those of the first, then those of the
/// second, also where constants of the two bear the same identifier.
pub proof fn lemma_same_identifier_in_two_palettes(
    first: PaletteView,
    second: PaletteView,
    first_constants: Seq<GeneratedConstantView>,
    second_constants: Seq<GeneratedConstantView>,
)
    requires
        first.entries matches Some(entries) && entry_constants(first.name, entries) == Ok::<
            _,
            Seq<char>,
        >(first_constants),
        second.entries matches Some(entries) && entry_constants(second.name, entries) == Ok::<
            _,
            Seq<char>,
        >(second_constants),
    ensures
        palette_constants(seq![first, second]) == Ok::<_, Seq<char>>(
            first_constants + second_constants,
        ),
{
    let both = seq![first, second];
    assert(both.drop_last() =~= seq![first]);
    assert(seq![first].drop_last() =~= Seq::<PaletteView>::empty());
    assert(palette_constants(Seq::<PaletteView>::empty()) == Ok::<_, Seq<char>>(
        Seq::<GeneratedConstantView>::empty(),
    ));
    assert(Seq::<GeneratedConstantView>::empty() + first_constants =~= first_constants);
    assert(palette_constants(seq![first]) == Ok::<_, Seq<char>>(first_constants));
    assert(both.last() == second);
}

/// The display-p3 notation of three components: the opening, the
/// components with one space before each, and a closing bracket.
pub open spec fn p3_notation(r: Seq<char>, g: Seq<char>, b: Seq<char>) -> Seq<char> {
    p3_prefix() + seq![' '] + r + seq![' '] + g + seq![' '] + b + seq![')']
}

/// Three numbers written in the display-p3 notation are read back as the
/// same three components, each as it was written.
pub proof fn lemma_p3_round_trip(r: Seq<char>, g: Seq<char>, b: Seq<char>)
    requires
        is_float_text(r),
        is_float_text(g),
        is_float_text(b),
    ensures
        parsed_color(p3_notation(r, g, b)) == Ok::<_, Seq<char>>(
            Some(ParsedColorView::P3 { r, g, b }),
        ),
{
    reveal_strlit("color(display-p3");
    lemma_float_text_is_one_word(r);
    lemma_float_text_is_one_word(g);
    lemma_float_text_is_one_word(b);
    let prefix = p3_prefix();
    let raw = p3_notation(r, g, b);
    let space = seq![' '];
    let from_b = space + b;
    let from_g = space + (g + from_b);
    let inner = space + (r + from_g);
    let after = inner + seq![')'];
    assert(raw =~= prefix + after);
    assert(prefix.len() == 16);
    assert(raw[0] == prefix[0]);
    assert(raw.take(prefix.len() as int) =~= prefix);
    assert(raw.skip(prefix.len() as int) =~= after);
    assert(after.drop_last() =~= inner);
    assert(without_closing(after) == inner);
    assert(split_whitespace(inner) =~= seq![r, g, b]) by {
        assert(b + Seq::<char>::empty() =~= b);
        assert(split_whitespace(Seq::<char>::empty()) =~= Seq::<Seq<char>>::empty());
        lemma_split_after_word(b, Seq::empty());
        lemma_split_after_space(' ', b);
        lemma_split_after_word(g, from_b);
        lemma_split_after_space(' ', g + from_b);
        lemma_split_after_word(r, from_g);
        lemma_split_after_space(' ', r + from_g);
    }
    assert(p3_words(raw) == seq![r, g, b]);
}

/// Each word of a text holds a character, and none that is white space.
pub proof fn lemma_words_hold_no_whitespace(s: Seq<char>, k: int)
    requires
        0 <= k < split_whitespace(s).len(),
    ensures
        split_whitespace(s)[k].len() > 0,
        forall|i: int|
            0 <= i < split_whitespace(s)[k].len() ==> !is_whitespace(
                #[trigger] split_whitespace(s)[k][i],
            ),
    decreases s.len(),
{
    if s.len() > 0 {
        if is_whitespace(s[0]) {
            lemma_words_hold_no_whitespace(s.skip(1), k);
        } else {
            lemma_word_len_bound(s);
            let n = word_len(s) as int;
            if k == 0 {
                let word = s.take(n);
                assert(split_whitespace(s)[0] == word);
                assert forall|i: int| 0 <= i < word.len() implies !is_whitespace(
                    #[trigger] word[i],
                ) by {
                    lemma_word_holds_no_whitespace(s, i);
                }
            } else {
                assert(split_whitespace(s)[k] == split_whitespace(s.skip(n))[k - 1]);
                lemma_words_hold_no_whitespace(s.skip(n), k - 1);
            }
        }
    }
}

/// Whether `raw` is a display-p3 value of three words, one of which is no
/// number.
pub open spec fn has_bad_component(raw: Seq<char>) -> bool {
    let words = p3_words(raw);
    &&& starts_with(raw, p3_prefix())
    &&& words.len() == 3
    &&& (!is_float_text(words[0]) || !is_float_text(words[1]) || !is_float_text(words[2]))
}

/// A text that begins with the display-p3 opening is judged by its words
/// alone: read as a colour where they are three numbers, an error where
/// they are three and one is no number, and nothing where they are not
/// three. No other text is an error.
pub proof fn lemma_display_p3_is_judged_by_its_words(raw: Seq<char>)
    ensures
        parsed_color(raw) is Err <==> has_bad_component(raw),
        starts_with(raw, p3_prefix()) && p3_words(raw).len() != 3 ==> parsed_color(raw) == Ok::<
            Option<ParsedColorView>,
            Seq<char>,
        >(None),
        starts_with(raw, p3_prefix()) && p3_words(raw).len() == 3 && !has_bad_component(raw)
            ==> parsed_color(raw) == Ok::<_, Seq<char>>(
            Some(
                ParsedColorView::P3 {
                    r: p3_words(raw)[0],
                    g: p3_words(raw)[1],
                    b: p3_words(raw)[2],
                },
            ),
        ),
{
    reveal_strlit("color(display-p3");
    if starts_with(raw, p3_prefix()) {
        assert(raw.take(p3_prefix().len() as int)[0] == 'c');
    }
}

/// Whether one of the members `entries` is a string with a bad component.
pub open spec fn entries_have_bad_component(entries: Seq<ColorEntryView>) -> bool {
    exists|j: int|
        0 <= j < entries.len() && (#[trigger] entries[j]).value is Some && has_bad_component(
            entries[j].value->Some_0,
        )
}

/// Whether one of the palettes `palettes` is an object with a member that
/// is a string with a bad component.
pub open spec fn palettes_have_bad_component(palettes: Seq<PaletteView>) -> bool {
    exists|i: int|
        0 <= i < palettes.len() && (#[trigger] palettes[i]).entries is Some
            && entries_have_bad_component(palettes[i].entries->Some_0)
}

/// The members of a palette stop the generation if and only if one of them
/// is a string with a bad component.
pub proof fn lemma_entries_fail_on_bad_components_only(
    palette: Seq<char>,
    entries: Seq<ColorEntryView>,
)
    ensures
        entry_constants(palette, entries) is Err <==> entries_have_bad_component(entries),
    decreases entries.len(),
{
    if entries.len() > 0 {
        let before = entries.drop_last();
        let entry = entries.last();
        lemma_entries_fail_on_bad_components_only(palette, before);
        if entry.value is Some {
            lemma_display_p3_is_judged_by_its_words(entry.value->Some_0);
        }
        if entries_have_bad_component(before) {
            let j = choose|j: int|
                0 <= j < before.len() && (#[trigger] before[j]).value is Some
                    && has_bad_component(before[j].value->Some_0);
            assert(entries[j] == before[j]);
        }
        if entries_have_bad_component(entries) {
            let j = choose|j: int|
                0 <= j < entries.len() && (#[trigger] entries[j]).value is Some
                    && has_bad_component(entries[j].value->Some_0);
            if j < before.len() {
                assert(before[j] == entries[j]);
            }
        }
    }
}

/// The palettes of a document stop the generation if and only if one of
/// them is an object with a member that is a string with a bad component.
pub proof fn lemma_palettes_fail_on_bad_components_only(palettes: Seq<PaletteView>)
    ensures
        palette_constants(palettes) is Err <==> palettes_have_bad_component(palettes),
    decreases palettes.len(),
{
    if palettes.len() > 0 {
        let before = palettes.drop_last();
        let palette = palettes.last();
        lemma_palettes_fail_on_bad_components_only(before);
        if palette.entries is Some {
            lemma_entries_fail_on_bad_components_only(palette.name, palette.entries->Some_0);
        }
        if palettes_have_bad_component(before) {
            let i = choose|i: int|
                0 <= i < before.len() && (#[trigger] before[i]).entries is Some
                    && entries_have_bad_component(before[i].entries->Some_0);
            assert(palettes[i] == before[i]);
        }
        if palettes_have_bad_component(palettes) {
            let i = choose|i: int|
                0 <= i < palettes.len() && (#[trigger] palettes[i]).entries is Some
                    && entries_have_bad_component(palettes[i].entries->Some_0);
            if i < before.len() {
                assert(before[i] == palettes[i]);
            }
        }
    }
}

/// The constants of a document cannot be collected if and only if the
/// document is an object, and one of its palettes is an object with a
/// member that is a display-p3 value of three words, one of which is no
/// number. A level of another kind and a value of no known shape stop
/// nothing.
pub proof fn lemma_generation_fails_on_bad_components_only(document: PaletteDocumentView)
    ensures
        document_constants(document) is Err <==> document.palettes is Some
            && palettes_have_bad_component(document.palettes->Some_0),
{
    if document.palettes is Some {
        lemma_palettes_fail_on_bad_components_only(document.palettes->Some_0);
    }
}

/// Every generated source begins with the definitions of the colour types,
/// whatever constants follow, and also where none does.
pub proof fn lemma_source_begins_with_the_types(constants: Seq<GeneratedConstantView>)
    ensures
        starts_with(source_text(constants), TYPE_DEFINITIONS@),
        source_text(Seq::empty()) == TYPE_DEFINITIONS@,
{
    assert(source_text(constants).take(TYPE_DEFINITIONS@.len() as int) =~= TYPE_DEFINITIONS@);
    assert(source_text(Seq::empty()) =~= TYPE_DEFINITIONS@);
}

/// A constant more adds its declaration behind the source so far, and
/// changes nothing before it.
pub proof fn lemma_source_grows_by_one_declaration(
    constants: Seq<GeneratedConstantView>,
    constant: GeneratedConstantView,
)
    ensures
        source_text(constants.push(constant)) == source_text(constants) + declaration(constant),
{
    assert(constants.push(constant).drop_last() =~= constants);
    assert(source_text(constants.push(constant)) =~= source_text(constants) + declaration(
        constant,
    ));
}

} // verus!
