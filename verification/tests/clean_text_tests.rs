use drug_extraction::text::{ascii_uppercase, clean_text, remove_symbols_except_dash};

#[test]
fn test_clean_text_no_changes() {
    let s = "This is a test string.";
    assert_eq!(clean_text(s), "this is a test string".to_ascii_uppercase());
}

#[test]
fn test_clean_text_numeric() {
    let s = "This is a test string with 1234 numbers.";
    assert_eq!(
        clean_text(s),
        "this is a test string with 1234 numbers".to_ascii_uppercase()
    );
}

#[test]
fn test_clean_text_symbols() {
    let s = "!@#$%^&*()_+-";
    assert_eq!(clean_text(s), "-");
}

#[test]
fn test_clean_empty() {
    let s = "";
    assert_eq!(clean_text(s), "");
}

#[test]
fn test_clean_end_whitespace() {
    let s = "!! This is a test string.   ";
    assert_eq!(clean_text(s), "this is a test string".to_ascii_uppercase());
}

#[test]
fn test_clean_end_whitespace2() {
    let s = "!! This is a test to test- - hyphenated string.   ";
    assert_eq!(
        clean_text(s),
        "this is a test to test- - hyphenated string".to_ascii_uppercase()
    );
}

#[test]
fn test_whitespace_split() {
    let s = "!! This is a test to test- - hyphenated string.   ";
    assert_eq!(
        clean_text(s),
        "this is a test to test- - hyphenated string".to_ascii_uppercase()
    );
    let c = clean_text(s);
    let v = drug_extraction::ngram::words(&c);
    assert_eq!(
        v,
        vec!["THIS", "IS", "A", "TEST", "TO", "TEST-", "-", "HYPHENATED", "STRING"]
    );
}

#[test]
fn test_keep_dash() {
    let s = "self-harm; ideation!";
    assert_eq!(remove_symbols_except_dash(s), "SELF-HARM  IDEATION");
    assert_eq!(clean_text(s), "SELF-HARM  IDEATION");
}

#[test]
fn test_clean_idempotent_examples() {
    for s in ["", "  a  b ", "Mixed-CASE text!", "1234", "...---..."] {
        let once = clean_text(s);
        assert_eq!(clean_text(&once), once);
        let once_dash = remove_symbols_except_dash(s);
        assert_eq!(remove_symbols_except_dash(&once_dash), once_dash);
    }
}

#[test]
fn test_ascii_uppercase() {
    assert_eq!(ascii_uppercase("abc-Def 9?"), "ABC-DEF 9?");
}

#[test]
fn test_clean_non_ascii() {
    assert_eq!(clean_text("caf\u{e9} au lait"), "CAF  AU LAIT");
}
