use banglakit::english::{contains, tokenize};

#[test]
fn loads_top_words() {
    assert!(contains("the"));
    assert!(contains("price"));
    assert!(contains("Today"));
    assert!(!contains("evsjvq"));
}

#[test]
fn tokenize_filters_short_and_punct() {
    let toks = tokenize("Gas price is $5 today!");
    // "is" is length 2 → filtered. "$5" trims to "$5", length 2 → filtered.
    // Remaining: Gas, price, today
    assert_eq!(toks, vec!["Gas", "price", "today"]);
}

#[test]
fn empty_token_is_not_a_word() {
    assert!(!contains(""));
}

#[test]
fn non_ascii_token_is_lowercased_with_unicode_rules() {
    // "TÖDAY" is not all ASCII letters: it goes through Unicode
    // lower-casing and is still not a listed word.
    assert!(!contains("TÖDAY"));
    assert!(contains("WORLD"));
}

#[test]
fn tokenize_splits_on_unicode_space_and_counts_bytes() {
    // U+00A0 separates; "আমি" is 9 bytes so it is kept although it has
    // three characters, "ab" is dropped.
    let toks = tokenize("ab\u{00A0}আমি,(xyz)");
    assert_eq!(toks, vec!["আমি", "xyz"]);
}
