use erasmus_validator::erasmus_code::ErasmusCode;

fn parts(code: &ErasmusCode) -> (String, String, u32) {
    (code.pais().to_string(), code.region().to_string(), code.universidad())
}

#[test]
fn parses_padded_country_code() {
    let code = ErasmusCode::try_from("E  MADRID03").unwrap();
    assert_eq!(parts(&code), ("E".to_string(), "MADRID".to_string(), 3));
}

#[test]
fn parses_three_digit_number() {
    let code = ErasmusCode::try_from("I ROMA123").unwrap();
    assert_eq!(parts(&code), ("I".to_string(), "ROMA".to_string(), 123));
}

#[test]
fn trims_region_and_number() {
    let code = ErasmusCode::try_from("D  BERLIN 01 ").unwrap();
    assert_eq!(parts(&code), ("D".to_string(), "BERLIN".to_string(), 1));
}

#[test]
fn number_with_plus_sign() {
    let code = ErasmusCode::try_from("F PARIS+7").unwrap();
    // '+' is not numeric: it stays in the region, and the number is 7.
    assert_eq!(parts(&code), ("F".to_string(), "PARIS+".to_string(), 7));
}

#[test]
fn empty_country_when_text_starts_with_space() {
    let code = ErasmusCode::try_from(" X01").unwrap();
    assert_eq!(parts(&code), ("".to_string(), "X".to_string(), 1));
}

#[test]
fn rejects_text_without_space() {
    assert!(ErasmusCode::try_from("EMADRID03").is_err());
}

#[test]
fn rejects_text_without_number() {
    assert!(ErasmusCode::try_from("E  MADRID").is_err());
}

#[test]
fn rejects_number_with_trailing_letters() {
    assert!(ErasmusCode::try_from("E  MADRID03b").is_err());
}

#[test]
fn rejects_number_that_overflows() {
    assert!(ErasmusCode::try_from("E  MADRID4294967296").is_err());
    let max = ErasmusCode::try_from("E  MADRID4294967295").unwrap();
    assert_eq!(max.universidad(), u32::MAX);
}

#[test]
fn non_ascii_numeric_starts_number() {
    // U+0663 ARABIC-INDIC DIGIT THREE is numeric but not an ASCII digit:
    // the number starts there and does not read.
    assert!(ErasmusCode::try_from("E  MADRID\u{663}1").is_err());
}

#[test]
fn displays_with_two_digits() {
    let code = ErasmusCode::try_from("E  MADRID3").unwrap();
    assert_eq!(code.to_string(), "E MADRID03");
    let code = ErasmusCode::try_from("I ROMA123").unwrap();
    assert_eq!(code.to_string(), "I ROMA123");
}

#[test]
fn display_then_parse_gives_same_code() {
    for text in ["E  MADRID03", "D  BERLIN 01 ", " X7", "UK LONDON 250"] {
        let code = ErasmusCode::try_from(text).unwrap();
        let again = ErasmusCode::try_from(code.to_string().as_str()).unwrap();
        assert_eq!(parts(&code), parts(&again));
    }
}

#[test]
fn clone_keeps_parts() {
    let code = ErasmusCode::try_from("P  LISBOA109").unwrap();
    assert_eq!(parts(&code.clone()), parts(&code));
}

#[test]
fn parsed_codes_are_canonical() {
    for text in ["E  MADRID03", "  \u{a0}X Y  \t 5", "AB CD\tEF 12 ", "P\u{2003}LISBOA 7"] {
        let code = ErasmusCode::try_from(text).unwrap();
        assert!(!code.pais().contains(' '));
        assert_eq!(code.region(), code.region().trim());
        assert!(!code.region().chars().any(|c| c.is_numeric()));
    }
}

#[test]
fn reading_normalises_once() {
    let first = ErasmusCode::try_from("  \u{a0}X Y  \t 5").unwrap();
    // U+00A0 is white space: trimming drops it with the spaces and the tab.
    assert_eq!(parts(&first), ("".to_string(), "X Y".to_string(), 5));
    assert_eq!(first.to_string(), " X Y05");
    let second = ErasmusCode::try_from(first.to_string().as_str()).unwrap();
    assert_eq!(parts(&second), parts(&first));
}
