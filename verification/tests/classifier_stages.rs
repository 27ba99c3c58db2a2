use banglakit::classifier::{
    classify_stage, has_bengali_unicode, heuristic_counts, threshold_decision, Decision,
    HeuristicCounts, Stage, StageOutcome,
};
use banglakit::encoding::Encoding;
use banglakit::policy::{convert_decided, should_convert, should_convert_in_mode, RunOutcome};
use banglakit::classifier::Mode;
use banglakit::visitor::RunAction;

#[test]
fn unicode_range_stage_short_circuits() {
    let o = classify_stage("আমি বাংলায়", Some("SutonnyMJ"), Encoding::Bijoy);
    assert_eq!(o, StageOutcome::UnicodeRange);
    assert_eq!(o.stage(), Stage::UnicodeRange);
    assert_eq!(o.early_decision(Encoding::Bijoy), Some(Decision::UnicodeBengali));
}

#[test]
fn font_stages_short_circuit() {
    let a = classify_stage("hello", Some("SutonnyMJ"), Encoding::Bijoy);
    assert_eq!(a, StageOutcome::AnsiFont);
    assert_eq!(a.early_decision(Encoding::Bijoy), Some(Decision::AnsiBengali(Encoding::Bijoy)));
    let u = classify_stage("hello", Some("Kalpurush"), Encoding::Bijoy);
    assert_eq!(u, StageOutcome::UnicodeFont);
    assert_eq!(u.stage(), Stage::UnicodeFont);
}

#[test]
fn empty_text_is_latin_at_the_heuristic_stage() {
    let o = classify_stage("", Some("SutonnyMJ"), Encoding::Bijoy);
    assert_eq!(o, StageOutcome::Empty);
    assert_eq!(o.stage(), Stage::Heuristic);
    assert_eq!(o.early_decision(Encoding::Bijoy), Some(Decision::Latin));
}

#[test]
fn heuristic_counts_of_bijoy_prose() {
    let c = heuristic_counts("Avwg evsjvq Mvb MvB|", Encoding::Bijoy);
    assert_eq!(
        c,
        HeuristicCounts {
            total_chars: 20,
            high_byte_chars: 0,
            distinctive_chars: 0,
            bigram_hits: 6,
            word_count: 4,
            english_tokens: 4,
            english_hits: 0,
        }
    );
    assert_eq!(
        classify_stage("Avwg evsjvq Mvb MvB|", None, Encoding::Bijoy),
        StageOutcome::Heuristic(c)
    );
}

#[test]
fn heuristic_counts_of_english_prose() {
    let c = heuristic_counts("Gas price is $5 today", Encoding::Bijoy);
    assert_eq!(c.total_chars, 21);
    assert_eq!(c.bigram_hits, 0);
    assert_eq!(c.word_count, 5);
    assert_eq!(c.english_tokens, 3);
    assert_eq!(c.english_hits, 3);
}

#[test]
fn heuristic_counts_daggers_and_high_bytes() {
    let c = heuristic_counts("†Kv ‡Mv", Encoding::Bijoy);
    assert_eq!(c.total_chars, 7);
    assert_eq!(c.distinctive_chars, 2);
    assert_eq!(c.bigram_hits, 5);
    assert_eq!(c.word_count, 2);
    let h = heuristic_counts("\u{00C0}b\u{00FF}\u{0100}", Encoding::Bijoy);
    assert_eq!(h.high_byte_chars, 2);
}

#[test]
fn bengali_block_detection() {
    assert!(has_bengali_unicode("abc\u{0980}"));
    assert!(has_bengali_unicode("\u{09FF}"));
    assert!(!has_bengali_unicode("abc\u{0A00}"));
}

#[test]
fn threshold_policy() {
    assert_eq!(threshold_decision(true, false, Encoding::Bijoy), Decision::AnsiBengali(Encoding::Bijoy));
    assert_eq!(threshold_decision(false, true, Encoding::Bijoy), Decision::Latin);
    assert_eq!(threshold_decision(false, false, Encoding::Bijoy), Decision::Ambiguous);
}

#[test]
fn conversion_policy() {
    assert!(should_convert(Stage::AnsiFont, Decision::AnsiBengali(Encoding::Bijoy), false));
    assert!(should_convert(Stage::Heuristic, Decision::Ambiguous, true));
    assert!(!should_convert(Stage::Heuristic, Decision::Ambiguous, false));
    assert!(!should_convert(Stage::UnicodeRange, Decision::UnicodeBengali, true));
    assert!(!should_convert(Stage::UnicodeFont, Decision::UnicodeBengali, true));
    assert!(!should_convert(Stage::Heuristic, Decision::Latin, true));
    // An explicit threshold above the mode's default overrides it: a
    // heuristic ANSI Bengali reading below that threshold stays.
    assert!(!should_convert(Stage::Heuristic, Decision::AnsiBengali(Encoding::Bijoy), false));
    assert!(should_convert(Stage::Heuristic, Decision::AnsiBengali(Encoding::Bijoy), true));
    assert!(should_convert_in_mode(Decision::Ambiguous, Mode::Aggressive));
    assert!(!should_convert_in_mode(Decision::Ambiguous, Mode::Safe));
}

#[test]
fn converted_run_carries_text_and_font() {
    let r = convert_decided("Avwg evsjvq", Some("SutonnyMJ"), Encoding::Bijoy, "Kalpurush", false, true);
    assert!(r.changed);
    assert_eq!(r.font, Some("Kalpurush"));
    assert!(r.text.contains("আমি"));
    let m = convert_decided("Avwg", Some("SutonnyMJ"), Encoding::Bijoy, "Kalpurush", true, true);
    assert_eq!(m.font, Some("SutonnyOMJ"));
    let n = convert_decided("Avwg", Some("NikoshMJ"), Encoding::Bijoy, "Kalpurush", true, true);
    assert_eq!(n.font, Some("Kalpurush"));
}

#[test]
fn unconverted_run_is_untouched() {
    let r = convert_decided("Gas price is $5 today", None, Encoding::Bijoy, "Kalpurush", false, false);
    assert!(!r.changed);
    assert!(r.font.is_none());
    assert_eq!(r.text, "Gas price is $5 today");
    assert!(matches!(RunAction::from_outcome(r), RunAction::Keep));
}

#[test]
fn from_outcome_replaces_changed_runs() {
    let r = convert_decided("Kv", None, Encoding::Bijoy, "Kalpurush", false, true);
    match RunAction::from_outcome(r) {
        RunAction::Replace { new_text, new_font } => {
            assert_eq!(new_text, "কা");
            assert_eq!(new_font.as_deref(), Some("Kalpurush"));
        }
        RunAction::Keep => panic!("expected Replace"),
    }
}

#[test]
fn unicode_range_short_circuits() {
    let o = classify_stage("আমি বাংলায়", None, Encoding::Bijoy);
    assert!(matches!(o.early_decision(Encoding::Bijoy), Some(Decision::UnicodeBengali)));
    assert_eq!(o.stage(), Stage::UnicodeRange);
}

#[test]
fn ansi_font_short_circuits() {
    let o = classify_stage("hello", Some("SutonnyMJ"), Encoding::Bijoy);
    assert!(matches!(o.early_decision(Encoding::Bijoy), Some(Decision::AnsiBengali(Encoding::Bijoy))));
    assert_eq!(o.stage(), Stage::AnsiFont);
}

#[test]
fn unicode_font_short_circuits() {
    let o = classify_stage("hello", Some("Kalpurush"), Encoding::Bijoy);
    assert!(matches!(o.early_decision(Encoding::Bijoy), Some(Decision::UnicodeBengali)));
    assert_eq!(o.stage(), Stage::UnicodeFont);
}

#[test]
fn from_converted_changed_becomes_replace() {
    let r = RunOutcome { text: "আমি".to_string(), font: Some("Kalpurush"), changed: true };
    match RunAction::from_outcome(r) {
        RunAction::Replace { new_text, new_font } => {
            assert_eq!(new_text, "আমি");
            assert_eq!(new_font.as_deref(), Some("Kalpurush"));
        }
        RunAction::Keep => panic!("expected Replace"),
    }
}

#[test]
fn from_converted_unchanged_becomes_keep() {
    let r = RunOutcome { text: "hello".to_string(), font: None, changed: false };
    assert!(matches!(RunAction::from_outcome(r), RunAction::Keep));
}

/// The decision of the early stages, then the policy for both answers of
/// the threshold comparison, committed with `Kalpurush` as the target font.
fn convert_early(text: &str, font: Option<&str>) -> Vec<(Decision, banglakit::policy::RunOutcome<'static>)> {
    let outcome = classify_stage(text, font, Encoding::Bijoy);
    let decision = outcome.early_decision(Encoding::Bijoy).expect("an early stage decides");
    [true, false]
        .iter()
        .map(|&meets| {
            let convert = should_convert(outcome.stage(), decision, meets);
            (decision, convert_decided(text, font, Encoding::Bijoy, "Kalpurush", false, convert))
        })
        .collect()
}

#[test]
fn bijoy_with_font_hint_converts() {
    for (decision, r) in convert_early("Avwg evsjvq", Some("SutonnyMJ")) {
        assert!(r.changed);
        assert_eq!(r.font, Some("Kalpurush"));
        assert!(r.text.contains("আমি"));
        assert!(matches!(decision, Decision::AnsiBengali(_)));
    }
}

#[test]
fn unicode_bengali_short_circuits() {
    for (decision, r) in convert_early("আমি বাংলায়", None) {
        assert!(!r.changed);
        assert!(matches!(decision, Decision::UnicodeBengali));
    }
}
