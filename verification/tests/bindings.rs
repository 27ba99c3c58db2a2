use banglakit::bindings::{decision_label, parse_encoding, parse_mode, parse_unicode_font, stage_label};
use banglakit::classifier::{Decision, Mode, Stage};
use banglakit::encoding::Encoding;

#[test]
fn defaults_match_cli() {
    assert!(matches!(parse_mode(None).unwrap(), Mode::Safe));
    assert!(matches!(parse_encoding(None).unwrap(), Encoding::Bijoy));
}

#[test]
fn parse_mode_rejects_garbage() {
    assert!(parse_mode(Some("yolo".into())).is_err());
}

#[test]
fn parse_encoding_rejects_garbage() {
    assert!(parse_encoding(Some("klingon".into())).is_err());
}

#[test]
fn parse_unicode_font_known() {
    assert_eq!(parse_unicode_font(None).unwrap(), "Kalpurush");
    assert_eq!(
        parse_unicode_font(Some("SolaimanLipi".into())).unwrap(),
        "SolaimanLipi"
    );
    assert!(parse_unicode_font(Some("Comic Sans".into())).is_err());
}

#[test]
fn option_errors_name_the_value() {
    assert_eq!(
        parse_mode(Some("Safe".into())).unwrap_err(),
        "unknown mode: \"Safe\"; expected \"safe\" or \"aggressive\""
    );
    assert_eq!(
        parse_encoding(Some("klingon".into())).unwrap_err(),
        "unknown encoding family: \"klingon\""
    );
    assert_eq!(parse_encoding(Some("sutonnymj".into())).unwrap(), Encoding::Bijoy);
    assert_eq!(parse_mode(Some("aggressive".into())).unwrap(), Mode::Aggressive);
}

#[test]
fn labels() {
    assert_eq!(decision_label(Decision::AnsiBengali(Encoding::Bijoy)), ("ansi_bengali", Some("bijoy")));
    assert_eq!(decision_label(Decision::Ambiguous), ("ambiguous", None));
    assert_eq!(stage_label(Stage::UnicodeFont), "unicode_font");
}
