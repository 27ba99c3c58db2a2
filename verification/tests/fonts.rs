use banglakit::encoding::Encoding;
use banglakit::fonts::{is_ansi_font, is_unicode_bengali_font, resolve_matched_font, strip_subset_prefix};

#[test]
fn ansi_font_matches_named() {
    assert!(is_ansi_font("SutonnyMJ", Encoding::Bijoy));
    assert!(is_ansi_font("sutonnyomj", Encoding::Bijoy));
    assert!(is_ansi_font("ABCDEF+SutonnyMJ", Encoding::Bijoy));
    assert!(is_ansi_font("NikoshMJ", Encoding::Bijoy));
}

#[test]
fn ansi_font_mj_suffix_fallback() {
    assert!(is_ansi_font("RandomUnknownMJ", Encoding::Bijoy));
}

#[test]
fn ansi_font_rejects_unicode_and_latin() {
    assert!(!is_ansi_font("Arial", Encoding::Bijoy));
    assert!(!is_ansi_font("Times New Roman", Encoding::Bijoy));
    assert!(!is_ansi_font("Calibri", Encoding::Bijoy));
}

#[test]
fn unicode_font_allowlist() {
    assert!(is_unicode_bengali_font("Kalpurush"));
    assert!(is_unicode_bengali_font("Nikosh"));
    assert!(is_unicode_bengali_font("Noto Sans Bengali"));
    assert!(!is_unicode_bengali_font("SutonnyMJ"));
}

#[test]
fn subset_prefix_is_stripped_only_when_six_uppercase_letters() {
    assert_eq!(strip_subset_prefix("ABCDEF+SutonnyMJ"), "SutonnyMJ");
    assert_eq!(strip_subset_prefix("SutonnyMJ"), "SutonnyMJ");
    assert_eq!(strip_subset_prefix("ABCDE+SutonnyMJ"), "ABCDE+SutonnyMJ");
    assert_eq!(strip_subset_prefix("abcdef+SutonnyMJ"), "abcdef+SutonnyMJ");
    // Stripping twice changes nothing more.
    assert_eq!(strip_subset_prefix(strip_subset_prefix("ABCDEF+X")), "X");
}

#[test]
fn matched_font_for_sutonny_only() {
    assert_eq!(resolve_matched_font("SutonnyMJ", Encoding::Bijoy), Some("SutonnyOMJ"));
    assert_eq!(resolve_matched_font("ABCDEF+SUTONNYMJ", Encoding::Bijoy), Some("SutonnyOMJ"));
    assert_eq!(resolve_matched_font("NikoshMJ", Encoding::Bijoy), None);
}

#[test]
fn font_matching_ignores_case_and_subset_tags() {
    for name in ["SutonnyMJ", "Kalpurush", "Arial", "RandomUnknownMj"] {
        let upper = name.to_ascii_uppercase();
        let tagged = format!("QWERTY+{name}");
        assert_eq!(is_ansi_font(name, Encoding::Bijoy), is_ansi_font(&upper, Encoding::Bijoy));
        assert_eq!(is_unicode_bengali_font(name), is_unicode_bengali_font(&upper));
        assert_eq!(is_ansi_font(name, Encoding::Bijoy), is_ansi_font(&tagged, Encoding::Bijoy));
        assert_eq!(is_unicode_bengali_font(name), is_unicode_bengali_font(&tagged));
        assert_eq!(resolve_matched_font(name, Encoding::Bijoy), resolve_matched_font(&tagged, Encoding::Bijoy));
    }
    assert!(is_ansi_font("someFontmJ", Encoding::Bijoy));
}
