use radix_colors::chars::{digit, hex_digit_value, to_ascii_lower, whitespace};
use radix_colors::parser::hex_pair;
use radix_colors::{parse_color, InvalidComponent, ParsedColor};

fn p3(r: &str, g: &str, b: &str) -> ParsedColor {
    ParsedColor::P3 { r: r.to_string(), g: g.to_string(), b: b.to_string() }
}

#[test]
fn six_digits_give_three_channels() {
    assert_eq!(parse_color("#f8faff"), Ok(Some(ParsedColor::RGB8 { r: 248, g: 250, b: 255 })));
    assert_eq!(parse_color("#000000"), Ok(Some(ParsedColor::RGB8 { r: 0, g: 0, b: 0 })));
    assert_eq!(parse_color("#FFFFFF"), Ok(Some(ParsedColor::RGB8 { r: 255, g: 255, b: 255 })));
    assert_eq!(parse_color("#0a1B2c"), Ok(Some(ParsedColor::RGB8 { r: 10, g: 27, b: 44 })));
}

#[test]
fn eight_digits_give_four_channels() {
    assert_eq!(
        parse_color("#f8faffcc"),
        Ok(Some(ParsedColor::RGBA8 { r: 248, g: 250, b: 255, a: 204 }))
    );
    assert_eq!(
        parse_color("#00000000"),
        Ok(Some(ParsedColor::RGBA8 { r: 0, g: 0, b: 0, a: 0 }))
    );
}

#[test]
fn a_pair_that_is_no_number_counts_as_zero() {
    assert_eq!(parse_color("#zzggbb"), Ok(Some(ParsedColor::RGB8 { r: 0, g: 0, b: 187 })));
    assert_eq!(parse_color("#zz10ff"), Ok(Some(ParsedColor::RGB8 { r: 0, g: 16, b: 255 })));
    assert_eq!(parse_color("#f 10ff"), Ok(Some(ParsedColor::RGB8 { r: 0, g: 16, b: 255 })));
    assert_eq!(parse_color("#-110ff"), Ok(Some(ParsedColor::RGB8 { r: 0, g: 16, b: 255 })));
    assert_eq!(
        parse_color("#12345x78"),
        Ok(Some(ParsedColor::RGBA8 { r: 18, g: 52, b: 0, a: 120 }))
    );
    assert_eq!(parse_color("#######"), Ok(Some(ParsedColor::RGB8 { r: 0, g: 0, b: 0 })));
}

#[test]
fn a_sign_is_no_digit() {
    assert_eq!(parse_color("#+f+a+0"), Ok(Some(ParsedColor::RGB8 { r: 0, g: 0, b: 0 })));
    assert_eq!(parse_color("#+f0000"), Ok(Some(ParsedColor::RGB8 { r: 0, g: 0, b: 0 })));
    assert_eq!(parse_color("#f+10ff"), Ok(Some(ParsedColor::RGB8 { r: 0, g: 16, b: 255 })));
    assert_eq!(
        parse_color("#+f000000"),
        Ok(Some(ParsedColor::RGBA8 { r: 0, g: 0, b: 0, a: 0 }))
    );
    assert_eq!(
        parse_color("#-1ff+1ff"),
        Ok(Some(ParsedColor::RGBA8 { r: 0, g: 255, b: 0, a: 255 }))
    );
}

#[test]
fn each_pair_is_judged_by_itself() {
    assert_eq!(parse_color("#1zff80"), Ok(Some(ParsedColor::RGB8 { r: 0, g: 255, b: 128 })));
    assert_eq!(parse_color("#ffz180"), Ok(Some(ParsedColor::RGB8 { r: 255, g: 0, b: 128 })));
    assert_eq!(parse_color("#ff80 1"), Ok(Some(ParsedColor::RGB8 { r: 255, g: 128, b: 0 })));
    assert_eq!(
        parse_color("#ff8001g0"),
        Ok(Some(ParsedColor::RGBA8 { r: 255, g: 128, b: 1, a: 0 }))
    );
}

#[test]
fn two_digits_are_read_as_a_base_16_integer_and_any_other_pair_as_zero() {
    for high in 0u8..128 {
        for low in 0u8..128 {
            let (high, low) = (high as char, low as char);
            let pair: String = [high, low].iter().collect();
            let expected = if high.is_ascii_hexdigit() && low.is_ascii_hexdigit() {
                u8::from_str_radix(&pair, 16).unwrap()
            } else {
                0
            };
            assert_eq!(hex_pair(high, low), expected, "pair {:?}", pair);
        }
    }
    assert_eq!(hex_pair('f', '8'), 248);
    assert_eq!(hex_pair('C', 'c'), 204);
    assert_eq!(hex_pair('+', 'f'), 0);
    assert_eq!(hex_pair('é', 'f'), 0);
    assert_eq!(hex_pair('f', '٣'), 0);
}

#[test]
fn other_lengths_after_a_hash_denote_nothing() {
    assert_eq!(parse_color("#fff"), Ok(None));
    assert_eq!(parse_color("#ffffff0"), Ok(None));
    assert_eq!(parse_color("#ffffff000"), Ok(None));
    assert_eq!(parse_color("#"), Ok(None));
    assert_eq!(parse_color(""), Ok(None));
    assert_eq!(parse_color("ffffff0"), Ok(None));
    assert_eq!(parse_color("rgb(1, 2, 3)"), Ok(None));
}

#[test]
fn three_components_give_a_display_p3_colour() {
    assert_eq!(
        parse_color("color(display-p3 0.082 0.07 0.05)"),
        Ok(Some(p3("0.082", "0.07", "0.05")))
    );
    assert_eq!(parse_color("color(display-p3 1 0 .5)"), Ok(Some(p3("1", "0", ".5"))));
    assert_eq!(
        parse_color("color(display-p3\t-1e3\n +2.5E-2 \u{3000} inf)"),
        Ok(Some(p3("-1e3", "+2.5E-2", "inf")))
    );
}

#[test]
fn two_components_denote_nothing() {
    assert_eq!(parse_color("color(display-p3 0.1 0.2)"), Ok(None));
}

#[test]
fn other_counts_of_components_denote_nothing() {
    assert_eq!(parse_color("color(display-p3"), Ok(None));
    assert_eq!(parse_color("color(display-p3)"), Ok(None));
    assert_eq!(parse_color("color(display-p3 1)"), Ok(None));
    assert_eq!(parse_color("color(display-p3 1 2 3 4)"), Ok(None));
    assert_eq!(parse_color("color(display-p3 a b)"), Ok(None));
    assert_eq!(parse_color("color(display-p3 1 2 3 / 0.5)"), Ok(None));
}

#[test]
fn a_component_that_is_no_number_is_an_error() {
    assert_eq!(
        parse_color("color(display-p3 a b c)"),
        Err(InvalidComponent { token: "a".to_string() })
    );
    assert_eq!(
        parse_color("color(display-p3 1 b c)"),
        Err(InvalidComponent { token: "b".to_string() })
    );
    assert_eq!(
        parse_color("color(display-p3 1 2 3%)"),
        Err(InvalidComponent { token: "3%".to_string() })
    );
    assert_eq!(
        parse_color("color(display-p3 0.1, 0.2, 0.3)"),
        Err(InvalidComponent { token: "0.1,".to_string() })
    );
}

#[test]
fn the_opening_must_stand_first_and_in_lower_case() {
    assert_eq!(parse_color(" color(display-p3 1 2 3)"), Ok(None));
    assert_eq!(parse_color("Color(display-p3 1 2 3)"), Ok(None));
    assert_eq!(parse_color("color(display-P3 1 2 3)"), Ok(None));
    assert_eq!(parse_color("color(srgb 1 2 3)"), Ok(None));
}

#[test]
fn the_opening_needs_no_space_behind_it() {
    assert_eq!(parse_color("color(display-p31 2 3)"), Ok(Some(p3("1", "2", "3"))));
    assert_eq!(
        parse_color("color(display-p3-linear 1 2)"),
        Err(InvalidComponent { token: "-linear".to_string() })
    );
}

#[test]
fn one_closing_bracket_is_removed_and_no_more() {
    assert_eq!(parse_color("color(display-p3 1 2 3"), Ok(Some(p3("1", "2", "3"))));
    assert_eq!(parse_color("color(display-p3 1 2 3 )"), Ok(Some(p3("1", "2", "3"))));
    assert_eq!(
        parse_color("color(display-p3 1 2 3))"),
        Err(InvalidComponent { token: "3)".to_string() })
    );
    assert_eq!(
        parse_color("color(display-p3 1 2 3) )"),
        Err(InvalidComponent { token: "3)".to_string() })
    );
    assert_eq!(
        parse_color("color(display-p3 1 2 3) "),
        Err(InvalidComponent { token: "3)".to_string() })
    );
    assert_eq!(
        parse_color("color(display-p3 1 2 ))"),
        Err(InvalidComponent { token: ")".to_string() })
    );
    assert_eq!(parse_color("color(display-p3 1 2 3 ) )"), Ok(None));
}

#[test]
fn the_opening_is_removed_once() {
    assert_eq!(parse_color("color(display-p3color(display-p3 1 2 3)"), Ok(None));
    assert_eq!(
        parse_color("color(display-p3color(display-p3 1 2)"),
        Err(InvalidComponent { token: "color(display-p3".to_string() })
    );
    assert_eq!(
        parse_color("color(display-p3 color(display-p3 1 2)"),
        Err(InvalidComponent { token: "color(display-p3".to_string() })
    );
}

#[test]
fn a_hash_shape_wins_over_any_other_reading() {
    let nine = "#olor(dis";
    assert_eq!(
        parse_color(nine),
        Ok(Some(ParsedColor::RGBA8 { r: 0, g: 0, b: 0, a: 0 }))
    );
}

#[test]
fn lengths_are_counted_in_characters() {
    assert_eq!(parse_color("#é0ff00"), Ok(Some(ParsedColor::RGB8 { r: 0, g: 255, b: 0 })));
    assert_eq!(parse_color("#ffffé"), Ok(None));
}

#[test]
fn white_space_is_what_the_standard_library_calls_so() {
    let mut c = 0u32;
    while c <= 0x10FFFF {
        if let Some(ch) = char::from_u32(c) {
            assert_eq!(whitespace(ch), ch.is_whitespace(), "U+{:04X}", c);
        }
        c += 1;
    }
}

#[test]
fn character_classes_agree_with_the_standard_library() {
    let mut c = 0u32;
    while c <= 0x10FFFF {
        if let Some(ch) = char::from_u32(c) {
            assert_eq!(digit(ch), ch.is_ascii_digit());
            assert_eq!(hex_digit_value(ch), ch.to_digit(16).filter(|_| ch.is_ascii()).map(|d| d as u8));
            assert_eq!(to_ascii_lower(ch), ch.to_ascii_lowercase());
        }
        c += 1;
    }
}
