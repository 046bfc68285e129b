use radix_colors::{parse_color, InvalidComponent, ParsedColor};

fn read_with_the_standard_library(raw: &str) -> Result<Option<ParsedColor>, InvalidComponent> {
    let rest = match raw.strip_prefix("color(display-p3") {
        Some(rest) => rest,
        None => return Ok(None),
    };
    let parts: Vec<&str> = rest.strip_suffix(')').unwrap_or(rest).split_whitespace().collect();
    if parts.len() != 3 {
        return Ok(None);
    }
    for part in &parts {
        if part.parse::<f32>().is_err() {
            return Err(InvalidComponent { token: part.to_string() });
        }
    }
    Ok(Some(ParsedColor::P3 {
        r: parts[0].to_string(),
        g: parts[1].to_string(),
        b: parts[2].to_string(),
    }))
}

#[test]
fn values_are_taken_apart_as_the_standard_library_takes_them_apart() {
    for raw in [
        "color(display-p3 0.082 0.07 0.05)",
        "color(display-p3 0.082 0.07 0.05",
        "color(display-p3 0.082 0.07 0.05))))",
        "color(display-p3)",
        "color(display-p3",
        "color(display-p3 )",
        "color(display-p3)))",
        "color(display-p3color(display-p3color(display-p3 1 2 3)",
        "color(display-p3 color(display-p3 1 2 3)",
        "color(display-p3color(display-p 1 2 3)",
        "color(display-p3 1 2 3 )",
        "color(display-p3 1 2 3) ",
        "color(display-p3 1 2 3)\n",
        "color(display-p3\u{a0}1\u{2003}2\u{3000}3)",
        "color(display-p3\u{85}1\u{1680}2\u{2028}3\u{2029})",
        "color(display-p3 1\u{200b}2 3 4)",
        "color(display-p3 1\u{feff} 2 3)",
        "color(display-p3 1) 2) 3)",
        "color(display-p3 ) ) )",
        "color(display-p3 1 2)",
        "color(display-p3 1 2 3 4)",
        "color(display-p3 1,2,3)",
        "color(display-p3 1, 2, 3)",
        "color(display-p3 NaN -inf +Infinity)",
        "color(display-p3 1e-3 .5 5.)",
        "color(display-p3 é ü ß)",
        "color(display-p3\t\t1\r\n2\u{b}\u{c}3)",
        "color(display-p30.5 0.5 0.5)",
        "color(display-p3 0.5 0.5 0.5 / 50%)",
        "color(display-p3 0.5 0.5 50%)",
    ] {
        assert_eq!(parse_color(raw), read_with_the_standard_library(raw), "{:?}", raw);
    }
}

#[test]
fn words_between_openings_and_brackets_are_taken_apart_alike() {
    let pieces = ["color(display-p3", ")", " ", "1", "x", "\u{2003}", ".5"];
    let mut texts = vec!["color(display-p3".to_string()];
    for _ in 0..5 {
        let mut longer = Vec::new();
        for text in &texts {
            for piece in &pieces {
                longer.push(format!("{}{}", text, piece));
            }
        }
        for text in &longer {
            assert_eq!(parse_color(text), read_with_the_standard_library(text), "{:?}", text);
        }
        texts = longer;
    }
}

fn components(color: ParsedColor) -> (f32, f32, f32) {
    match color {
        ParsedColor::P3 { r, g, b } => {
            (r.parse().unwrap(), g.parse().unwrap(), b.parse().unwrap())
        }
        other => panic!("{:?}", other),
    }
}

#[test]
fn numbers_that_were_written_out_are_read_back() {
    let values = [
        0.0f32,
        -0.0,
        1.0,
        0.082,
        0.07,
        0.05,
        0.1,
        0.2,
        1.0 / 3.0,
        -2.5,
        1.0e-10,
        3.4028235e38,
        1.17549435e-38,
        1.0e-45,
        123456.79,
        f32::INFINITY,
        f32::NEG_INFINITY,
    ];
    for r in values {
        for g in values {
            let b = r * 0.5 + g;
            let text = format!("color(display-p3 {} {} {})", r, g, b);
            let read = components(parse_color(&text).unwrap().unwrap());
            assert_eq!(read.0.to_bits(), r.to_bits(), "{:?}", text);
            assert_eq!(read.1.to_bits(), g.to_bits(), "{:?}", text);
            if b.is_nan() {
                assert!(read.2.is_nan(), "{:?}", text);
            } else {
                assert_eq!(read.2.to_bits(), b.to_bits(), "{:?}", text);
            }
        }
    }
}

#[test]
fn a_value_that_is_no_number_is_read_back_as_one() {
    let text = format!("color(display-p3 {} {} {})", f32::NAN, 0.5f32, -f32::NAN);
    let read = components(parse_color(&text).unwrap().unwrap());
    assert!(read.0.is_nan());
    assert_eq!(read.1, 0.5);
    assert!(read.2.is_nan());
}

#[test]
fn components_written_in_the_notation_are_read_back_as_written() {
    for (r, g, b) in [("0.082", "0.07", "0.05"), ("1", "0", "1"), ("-1e3", "+.5", "NaN"), ("inf", "5.", "1E-2")] {
        let text = format!("color(display-p3 {} {} {})", r, g, b);
        assert_eq!(
            parse_color(&text),
            Ok(Some(ParsedColor::P3 { r: r.to_string(), g: g.to_string(), b: b.to_string() }))
        );
    }
}
