use radix_colors::{decode, ColorEntry, Palette, PaletteDocument};

#[test]
fn text_that_is_not_json_is_refused() {
    assert!(decode("{\"blue\":").is_err());
    assert!(decode("").is_err());
    assert!(decode("{\"blue\":{}} trailing").is_err());
}

#[test]
fn the_message_of_a_refusal_names_the_place() {
    let error = decode("{\"blue\":").unwrap_err();
    assert_eq!(error.message, "EOF while parsing a value at line 1 column 8");
    let error = decode("{\"blue\": {\n  \"one\" \"#ffffff\"}}").unwrap_err();
    assert_eq!(error.message, "expected `:` at line 2 column 9");
}

#[test]
fn the_message_of_a_refusal_is_the_decoders() {
    for text in ["", "{", "{\"a\":}", "[1,]", "{\"a\":1} x", "nul", "\"open", "{\"a\":1e999}"] {
        let expected = serde_json::from_str::<serde_json::Value>(text).unwrap_err().to_string();
        assert_eq!(decode(text).unwrap_err().message, expected, "{:?}", text);
    }
}

#[test]
fn json_that_is_nested_too_deeply_is_refused() {
    let text = format!("{}{}", "[".repeat(200), "]".repeat(200));
    assert!(decode(&text).unwrap_err().message.contains("recursion limit"));
}

#[test]
fn a_document_of_two_levels_is_decoded() {
    let document = decode("{\"blue\":{\"blue1\":\"#f8faff\",\"blue2\":\"#f8faffcc\"}}").unwrap();
    let expected = PaletteDocument {
        palettes: Some(vec![Palette {
            name: "blue".to_string(),
            entries: Some(vec![
                ColorEntry { name: "blue1".to_string(), value: Some("#f8faff".to_string()) },
                ColorEntry { name: "blue2".to_string(), value: Some("#f8faffcc".to_string()) },
            ]),
        }]),
    };
    assert_eq!(document, expected);
}

#[test]
fn levels_of_another_shape_are_recorded_as_absent() {
    let document = decode("{\"a\":1,\"b\":{\"x\":\"#ffffff\",\"y\":[],\"z\":{\"deep\":\"#000000\"}}}").unwrap();
    let palettes = document.palettes.unwrap();
    assert_eq!(palettes.len(), 2);
    assert_eq!(palettes[0].name, "a");
    assert!(palettes[0].entries.is_none());
    let entries = palettes[1].entries.as_ref().unwrap();
    assert_eq!(entries.len(), 3);
    assert_eq!(entries[0].name, "x");
    assert_eq!(entries[0].value.as_deref(), Some("#ffffff"));
    assert_eq!(entries[1].name, "y");
    assert_eq!(entries[1].value, None);
    assert_eq!(entries[2].name, "z");
    assert_eq!(entries[2].value, None);
}

#[test]
fn a_document_that_is_no_object_has_no_palettes() {
    assert_eq!(decode("[1, 2]").unwrap().palettes, None);
    assert_eq!(decode("\"#ffffff\"").unwrap().palettes, None);
    assert_eq!(decode("null").unwrap().palettes, None);
}

#[test]
fn an_empty_object_has_an_empty_list_of_palettes() {
    assert_eq!(decode("{}").unwrap().palettes, Some(vec![]));
}

#[test]
fn escapes_in_names_and_values_are_resolved() {
    let document = decode("{\"p\\u0041\":{\"c\":\"#\\u0066fffff\"}}").unwrap();
    let palettes = document.palettes.unwrap();
    assert_eq!(palettes[0].name, "pA");
    assert_eq!(palettes[0].entries.as_ref().unwrap()[0].value.as_deref(), Some("#ffffff"));
}
