use radix_colors::{parse_color, ColorU8, ColorU8A, ParsedColor};

#[test]
fn three_channels_are_written_as_six_digits() {
    assert_eq!(ColorU8 { r: 248, g: 250, b: 255 }.hex(), "#f8faff");
    assert_eq!(ColorU8 { r: 0, g: 0, b: 0 }.hex(), "#000000");
    assert_eq!(ColorU8 { r: 1, g: 10, b: 16 }.hex(), "#010a10");
    assert_eq!(ColorU8 { r: 255, g: 255, b: 255 }.hex(), "#ffffff");
}

#[test]
fn four_channels_are_written_as_eight_digits() {
    assert_eq!(ColorU8A { r: 248, g: 250, b: 255, a: 204 }.hex(), "#f8faffcc");
    assert_eq!(ColorU8A { r: 0, g: 0, b: 0, a: 0 }.hex(), "#00000000");
    assert_eq!(ColorU8A { r: 171, g: 205, b: 239, a: 9 }.hex(), "#abcdef09");
}

#[test]
fn the_channels_come_out_in_order() {
    assert_eq!(ColorU8 { r: 1, g: 2, b: 3 }.u8(), (1, 2, 3));
    assert_eq!(ColorU8A { r: 1, g: 2, b: 3, a: 4 }.u8(), (1, 2, 3, 4));
}

#[test]
fn every_channel_is_written_as_the_standard_library_writes_it() {
    for v in 0..=255u8 {
        assert_eq!(ColorU8 { r: v, g: 0, b: v }.hex(), format!("#{:02x}{:02x}{:02x}", v, 0, v));
        assert_eq!(
            ColorU8A { r: 0, g: v, b: 0, a: v }.hex(),
            format!("#{:02x}{:02x}{:02x}{:02x}", 0, v, 0, v)
        );
    }
}

#[test]
fn six_digits_are_written_back_in_lower_case() {
    for text in ["#f8faff", "#F8FAFF", "#0a1B2c", "#000000", "#AbCdEf", "#123456", "#789abc"] {
        match parse_color(text) {
            Ok(Some(ParsedColor::RGB8 { r, g, b })) => {
                assert_eq!(ColorU8 { r, g, b }.hex(), text.to_lowercase());
            }
            other => panic!("{:?} was read as {:?}", text, other),
        }
    }
}

#[test]
fn eight_digits_are_written_back_in_lower_case() {
    for text in ["#f8faffcc", "#F8FAFFCC", "#0a1B2c3D", "#00000000", "#AbCdEf01", "#12345678"] {
        match parse_color(text) {
            Ok(Some(ParsedColor::RGBA8 { r, g, b, a })) => {
                assert_eq!(ColorU8A { r, g, b, a }.hex(), text.to_lowercase());
            }
            other => panic!("{:?} was read as {:?}", text, other),
        }
    }
}

#[test]
fn every_pair_of_digits_is_written_back() {
    let digits: Vec<char> = "0123456789abcdefABCDEF".chars().collect();
    for high in &digits {
        for low in &digits {
            let text = format!("#{}{}00{}{}", high, low, low, high);
            match parse_color(&text) {
                Ok(Some(ParsedColor::RGB8 { r, g, b })) => {
                    assert_eq!(ColorU8 { r, g, b }.hex(), text.to_lowercase());
                }
                other => panic!("{:?} was read as {:?}", text, other),
            }
        }
    }
}
