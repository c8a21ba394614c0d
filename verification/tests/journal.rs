use edcas_client::journal::{
    fractions_are_short, line_is_empty, parse, ParseError, MAX_FRACTION_DIGITS,
};

#[test]
fn valid_line_becomes_event() {
    let line = "{\"timestamp\":\"2023-05-01T12:00:00Z\",\"event\":\"FSDJump\"}\n";
    match parse(line) {
        Ok(Some(event)) => assert_eq!(event.text(), line),
        other => panic!("unexpected: {:?}", other),
    }
}

#[test]
fn any_json_document_is_an_event() {
    for line in ["{}", "[1, 2, 3]", "\"text\"", "12.5e3", "true", "null", " {\"a\": {\"b\": []}} "] {
        match parse(line) {
            Ok(Some(event)) => assert_eq!(event.text(), line),
            other => panic!("unexpected for {:?}: {:?}", line, other),
        }
    }
}

#[test]
fn empty_line_is_skipped() {
    assert!(matches!(parse(""), Ok(None)));
    assert!(matches!(parse("\n"), Ok(None)));
    assert!(matches!(parse("\r\n"), Ok(None)));
    assert!(matches!(parse("\r"), Ok(None)));
}

#[test]
fn line_is_empty_looks_at_every_character() {
    assert!(line_is_empty(""));
    assert!(line_is_empty("\n\r\n"));
    assert!(!line_is_empty(" "));
    assert!(!line_is_empty("\n{}"));
    assert!(!line_is_empty("{}\n"));
    assert!(!line_is_empty("\u{e9}\n"));
}

#[test]
fn blank_but_not_empty_line_is_malformed() {
    assert_eq!(parse(" \n").err(), Some(ParseError::UnexpectedEnd));
    assert_eq!(parse("\t").err(), Some(ParseError::UnexpectedEnd));
}

#[test]
fn malformed_line_is_reported() {
    assert_eq!(parse("{\"event\":").err(), Some(ParseError::UnexpectedEnd));
    assert_eq!(
        parse("{\"event\" 1}").err(),
        Some(ParseError::UnexpectedCharacter { ch: '1', line: 1, column: 10 })
    );
    assert_eq!(
        parse("{}\n{}").err(),
        Some(ParseError::UnexpectedCharacter { ch: '{', line: 1, column: 3 })
    );
    assert_eq!(
        parse("not json").err(),
        Some(ParseError::UnexpectedCharacter { ch: 'o', line: 1, column: 2 })
    );
}

#[test]
fn too_deep_nesting_is_reported() {
    let shallow = format!("{}1{}", "[".repeat(512), "]".repeat(512));
    assert!(matches!(parse(&shallow), Ok(Some(_))));
    let deep = format!("{}1{}", "[".repeat(513), "]".repeat(513));
    assert_eq!(parse(&deep).err(), Some(ParseError::DepthLimit));
}

#[test]
fn broken_escape_is_reported() {
    assert_eq!(parse("\"\\ud800\\u0041\"").err(), Some(ParseError::InvalidUtf8));
}

#[test]
fn event_clone_keeps_the_text() {
    let line = "{\"event\":\"Scan\"}";
    let event = parse(line).unwrap().unwrap();
    let copy = event.clone();
    assert_eq!(copy.text(), line);
    assert_eq!(event.text(), line);
}

#[test]
fn longest_fraction_is_still_parsed() {
    assert_eq!(MAX_FRACTION_DIGITS, 32_768);
    let longest = format!("0.{}", "0".repeat(MAX_FRACTION_DIGITS));
    assert!(fractions_are_short(&longest));
    assert_eq!(parse(&longest).unwrap().unwrap().text(), longest);
    let negative = format!("{{\"x\":-0.{}1}}", "0".repeat(MAX_FRACTION_DIGITS - 1));
    assert!(fractions_are_short(&negative));
    assert_eq!(parse(&negative).unwrap().unwrap().text(), negative);
    let with_exponent = format!("[0.{}e5]\n", "0".repeat(MAX_FRACTION_DIGITS));
    assert_eq!(parse(&with_exponent).unwrap().unwrap().text(), with_exponent);
}

#[test]
fn fraction_that_is_too_long_is_refused() {
    let zeros = format!("0.{}", "0".repeat(MAX_FRACTION_DIGITS + 1));
    assert!(!fractions_are_short(&zeros));
    assert_eq!(parse(&zeros).err(), Some(ParseError::FractionTooLong));
    let in_an_event = format!("{{\"event\":\"Scan\",\"x\":0.{}}}\n", "0".repeat(40_000));
    assert_eq!(parse(&in_an_event).err(), Some(ParseError::FractionTooLong));
    let late_digit = format!("0.{}12345678901234567890", "0".repeat(MAX_FRACTION_DIGITS - 1));
    assert_eq!(parse(&late_digit).err(), Some(ParseError::FractionTooLong));
    let other_digits = format!("1.{}", "5".repeat(MAX_FRACTION_DIGITS + 1));
    assert_eq!(parse(&other_digits).err(), Some(ParseError::FractionTooLong));
    let in_a_text = format!("\"v.{}\"", "7".repeat(MAX_FRACTION_DIGITS + 1));
    assert_eq!(parse(&in_a_text).err(), Some(ParseError::FractionTooLong));
}

#[test]
fn only_digits_in_a_row_behind_a_point_count() {
    let many_fractions = format!("[{}0.5]", "0.25,".repeat(20_000));
    assert!(fractions_are_short(&many_fractions));
    assert!(matches!(parse(&many_fractions), Ok(Some(_))));
    let no_point = format!("\"{}\"", "0".repeat(40_000));
    assert!(fractions_are_short(&no_point));
    assert!(matches!(parse(&no_point), Ok(Some(_))));
    let broken_run = format!("\".{}x{}\"", "0".repeat(30_000), "0".repeat(30_000));
    assert!(fractions_are_short(&broken_run));
    assert!(matches!(parse(&broken_run), Ok(Some(_))));
    let long_whole = format!("1{}", "0".repeat(30_000));
    assert!(matches!(parse(&long_whole), Ok(Some(_))));
    let too_long_whole = format!("1{}", "0".repeat(40_000));
    assert!(fractions_are_short(&too_long_whole));
    assert_eq!(parse(&too_long_whole).err(), Some(ParseError::DepthLimit));
    assert!(fractions_are_short(""));
    assert!(fractions_are_short("."));
    assert!(fractions_are_short("\u{e9}.5"));
}
