use scraper::{Html, Selector};
use unicum_api::outbound::official::error::ScraperError;
use unicum_api::outbound::official::html::Node;
use unicum_api::outbound::official::scraper::{
    parse_required_attr, parse_u8_attr, sel_to_row_and_col, to_digit_next,
};

/// The first `input` of an HTML fragment, as the library's node.
fn input_element(fragment: &str) -> Node {
    let document = Html::parse_fragment(fragment);
    let selector = Selector::parse("input").expect("selector should be valid");
    let element = document
        .select(&selector)
        .next()
        .expect("input should exist");
    Node::new(
        element
            .value()
            .attrs()
            .map(|(name, value)| (name.to_owned(), value.to_owned()))
            .collect(),
        element.inner_html(),
        element.text().map(|t| t.to_owned()).collect(),
    )
}

#[test]
fn path_ok_attribute_exists() {
    let element = input_element(r#"<input name="selection" value="A1">"#);

    let result = parse_required_attr(&element, "value");

    assert!(result.is_ok());
    assert_eq!("A1", result.expect("attribute should be returned"));
}

#[test]
fn path_err_attribute_missing() {
    let element = input_element(r#"<input name="selection">"#);

    let result = parse_required_attr(&element, "value");

    assert!(result.is_err());
    match result.expect_err("missing attribute should fail") {
        ScraperError::MissingAttribute { attribute } => {
            assert_eq!("value", attribute);
        }
        error => panic!("expected MissingAttribute, got {error:?}"),
    }
}

#[test]
fn path_ok_attribute_is_u8() {
    let element = input_element(r#"<input value="255">"#);

    let result = parse_u8_attr(&element, "value");

    assert!(result.is_ok());
    assert_eq!(255, result.expect("attribute should parse as u8"));
}

#[test]
fn scraper_path_err_attribute_missing() {
    let element = input_element("<input>");

    let result = parse_u8_attr(&element, "value");

    assert!(result.is_err());
    match result.expect_err("missing attribute should fail") {
        ScraperError::MissingAttribute { attribute } => {
            assert_eq!("value", attribute);
        }
        error => panic!("expected MissingAttribute, got {error:?}"),
    }
}

#[test]
fn path_err_attribute_is_not_a_number() {
    let element = input_element(r#"<input value="many">"#);

    let result = parse_u8_attr(&element, "value");

    assert!(result.is_err());
    match result.expect_err("non-numeric attribute should fail") {
        ScraperError::InvalidValue { field, value } => {
            assert_eq!("value", field);
            assert_eq!("invalid digit found in string", value);
        }
        error => panic!("expected InvalidValue, got {error:?}"),
    }
}

#[test]
fn path_err_attribute_exceeds_u8() {
    let element = input_element(r#"<input value="256">"#);

    let result = parse_u8_attr(&element, "value");

    assert!(result.is_err());
    match result.expect_err("out-of-range attribute should fail") {
        ScraperError::InvalidValue { field, value } => {
            assert_eq!("value", field);
            assert_eq!("number too large to fit in target type", value);
        }
        error => panic!("expected InvalidValue, got {error:?}"),
    }
}

#[test]
fn path_ok_decimal_character() {
    let mut characters = "9x".chars();

    let result = to_digit_next(&mut characters, 10);

    assert!(result.is_ok());
    assert_eq!(9, result.expect("decimal character should parse"));
    assert_eq!(Some('x'), characters.next());
}

#[test]
fn path_ok_hexadecimal_character() {
    let mut characters = "F".chars();

    let result = to_digit_next(&mut characters, 16);

    assert!(result.is_ok());
    assert_eq!(15, result.expect("hexadecimal character should parse"));
    assert_eq!(None, characters.next());
}

#[test]
fn path_err_iterator_is_empty() {
    let mut characters = "".chars();

    let result = to_digit_next(&mut characters, 16);

    assert!(result.is_err());
    match result.expect_err("empty iterator should fail") {
        ScraperError::MissingElement { element } => {
            assert_eq!("character", element);
        }
        error => panic!("expected MissingElement, got {error:?}"),
    }
}

#[test]
fn path_err_character_is_invalid_for_radix() {
    let mut characters = "A".chars();

    let result = to_digit_next(&mut characters, 10);

    assert!(result.is_err());
    match result.expect_err("non-decimal character should fail") {
        ScraperError::InvalidValue { field, value } => {
            assert_eq!("character", field);
            assert_eq!("'A'", value);
        }
        error => panic!("expected InvalidValue, got {error:?}"),
    }
}

#[test]
fn path_ok_hexadecimal_selection() {
    let result = sel_to_row_and_col("AF");

    assert!(result.is_ok());
    assert_eq!((10, 15), result.expect("selection should parse"));
}

#[test]
fn anxiety_trailing_characters_are_ignored() {
    let result = sel_to_row_and_col("12extra");

    assert!(result.is_ok());
    assert_eq!((1, 2), result.expect("first two characters should parse"));
}

#[test]
fn path_err_selection_is_empty() {
    let result = sel_to_row_and_col("");

    assert!(result.is_err());
    match result.expect_err("empty selection should fail") {
        ScraperError::MissingElement { element } => {
            assert_eq!("character", element);
        }
        error => panic!("expected MissingElement, got {error:?}"),
    }
}

#[test]
fn path_err_selection_has_only_row() {
    let result = sel_to_row_and_col("A");

    assert!(result.is_err());
    match result.expect_err("selection without column should fail") {
        ScraperError::MissingElement { element } => {
            assert_eq!("character", element);
        }
        error => panic!("expected MissingElement, got {error:?}"),
    }
}

#[test]
fn path_err_row_is_not_hexadecimal() {
    let result = sel_to_row_and_col("G1");

    assert!(result.is_err());
    match result.expect_err("invalid row should fail") {
        ScraperError::InvalidValue { field, value } => {
            assert_eq!("character", field);
            assert_eq!("'G'", value);
        }
        error => panic!("expected InvalidValue, got {error:?}"),
    }
}

#[test]
fn path_err_column_is_not_hexadecimal() {
    let result = sel_to_row_and_col("1G");

    assert!(result.is_err());
    match result.expect_err("invalid column should fail") {
        ScraperError::InvalidValue { field, value } => {
            assert_eq!("character", field);
            assert_eq!("'G'", value);
        }
        error => panic!("expected InvalidValue, got {error:?}"),
    }
}
