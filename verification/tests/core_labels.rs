use banglakit::classifier::{Decision, Mode, Stage};
use banglakit::encoding::Encoding;

#[test]
fn stage_as_str_matches_audit_log_contract() {
    assert_eq!(Stage::UnicodeRange.as_str(), "unicode_range");
    assert_eq!(Stage::AnsiFont.as_str(), "ansi_font");
    assert_eq!(Stage::UnicodeFont.as_str(), "unicode_font");
    assert_eq!(Stage::Heuristic.as_str(), "heuristic");
}

#[test]
fn decision_as_str_and_encoding() {
    assert_eq!(Decision::AnsiBengali(Encoding::Bijoy).as_str(), "ansi_bengali");
    assert_eq!(Decision::UnicodeBengali.as_str(), "unicode_bengali");
    assert_eq!(Decision::Latin.as_str(), "latin");
    assert_eq!(Decision::Ambiguous.as_str(), "ambiguous");
    assert_eq!(
        Decision::AnsiBengali(Encoding::Bijoy).encoding(),
        Some(Encoding::Bijoy)
    );
    assert_eq!(Decision::Latin.encoding(), None);
}

#[test]
fn mode_from_str_round_trips() {
    assert_eq!("safe".parse::<Mode>().unwrap(), Mode::Safe);
    assert_eq!("AGGRESSIVE".parse::<Mode>().unwrap(), Mode::Aggressive);
    assert!("yolo".parse::<Mode>().is_err());
}

#[test]
fn mode_error_names_the_lowercased_input() {
    let err = "YoLo".parse::<Mode>().unwrap_err();
    assert_eq!(err, "unknown mode: \"yolo\"; expected \"safe\" or \"aggressive\"");
}

#[test]
fn encoding_name_is_bijoy() {
    assert_eq!(Encoding::Bijoy.as_str(), "bijoy");
    assert_eq!(Encoding::default(), Encoding::Bijoy);
}

#[test]
fn encoding_from_str_is_case_insensitive() {
    assert_eq!("Bijoy".parse::<Encoding>().unwrap(), Encoding::Bijoy);
    assert_eq!("SUTONNYMJ".parse::<Encoding>().unwrap(), Encoding::Bijoy);
    assert_eq!("Lekhoni".parse::<Encoding>().unwrap_err(), "unknown encoding family: lekhoni");
}

#[test]
fn registry_data_is_well_formed() {
    let r = banglakit::encoding::registry(Encoding::Bijoy);
    assert_eq!(r.name, Encoding::Bijoy.as_str());
    assert!(r.bigram_patterns.iter().all(|p| !p.is_empty()));
    assert!(r.distinctive_chars.iter().all(|c| *c as u32 > 0x7F));
}
