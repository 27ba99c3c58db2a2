//! The per-run conversion policy that every host shares: file adapters
//! (DOCX, PPTX), browser bindings and any future connector call it once per
//! run to decide whether the run is converted, and to what text and font.
//!
//! The classifier's probability is compared with the threshold in force
//! (the caller's explicit threshold, or else the mode's default) by the
//! caller; this module decides from the stage, the decision and that
//! comparison, and commits the conversion.

use vstd::prelude::*;
use crate::classifier::{
    spec_classify_stage, spec_early_decision, spec_has_bengali, spec_outcome_stage, Decision, Mode, Stage,
};
use crate::encoding::Encoding;
use crate::fonts::{resolve_matched_font, spec_is_ansi_font, spec_matched_font};
use crate::transliterate::{spec_transliterate, transliterate};

verus! {

/// Whether a run is converted, given the stage that classified it, its
/// decision and whether its probability meets the threshold in force (the
/// caller's explicit threshold, or else the mode's default):
/// - an ANSI Bengali font always converts, a Unicode range or a Unicode
///   font never does;
/// - a heuristic run converts exactly when its probability meets the
///   threshold, unless the classifier reads it as Latin (probability below
///   one half, or empty text).
pub open spec fn spec_should_convert(stage: Stage, decision: Decision, meets_threshold: bool) -> bool {
    match stage {
        Stage::AnsiFont => true,
        Stage::UnicodeRange | Stage::UnicodeFont => false,
        Stage::Heuristic => meets_threshold && decision != Decision::Latin,
    }
}

/// The conversion decision of the policy.
pub fn should_convert(stage: Stage, decision: Decision, meets_threshold: bool) -> (r: bool)
    ensures
        r == spec_should_convert(stage, decision, meets_threshold),
{
    match stage {
        Stage::AnsiFont => true,
        Stage::UnicodeRange | Stage::UnicodeFont => false,
        Stage::Heuristic => meets_threshold && !matches!(decision, Decision::Latin),
    }
}

/// The conversion decision of the browser bindings: ANSI Bengali is
/// converted, an ambiguous run only in aggressive mode.
pub open spec fn spec_should_convert_in_mode(decision: Decision, mode: Mode) -> bool {
    match decision {
        Decision::AnsiBengali(_) => true,
        Decision::Ambiguous => mode == Mode::Aggressive,
        _ => false,
    }
}

pub fn should_convert_in_mode(decision: Decision, mode: Mode) -> (r: bool)
    ensures
        r == spec_should_convert_in_mode(decision, mode),
{
    match decision {
        Decision::AnsiBengali(_) => true,
        Decision::Ambiguous => match mode {
            Mode::Aggressive => true,
            Mode::Safe => false,
        },
        _ => false,
    }
}

/// What the host commits for one run.
pub struct RunOutcome<'a> {
    /// The input text when unchanged, the transliteration otherwise.
    pub text: String,
    /// The font to write back; `Some` only when changed.
    pub font: Option<&'a str>,
    /// Whether the run was converted.
    pub changed: bool,
}

/// The font written back for a converted run: the Unicode counterpart of
/// the run's Bijoy font when auto-matching is on and one is known, the
/// caller's Unicode font otherwise.
pub open spec fn spec_target_font(
    font_hint: Option<Seq<char>>,
    encoding: Encoding,
    unicode_font: Seq<char>,
    auto_match_fonts: bool,
) -> Seq<char> {
    if auto_match_fonts {
        match font_hint {
            Some(f) => match spec_matched_font(f, encoding) {
                Some(m) => m,
                None => unicode_font,
            },
            None => unicode_font,
        }
    } else {
        unicode_font
    }
}

pub open spec fn opt_view(o: Option<&str>) -> Option<Seq<char>> {
    match o {
        Some(s) => Some(s@),
        None => None,
    }
}

/// Commit the policy's decision for one run: transliterate and pick the
/// target font when `convert`, hand the text back untouched otherwise.
pub fn convert_decided<'a>(
    text: &str,
    font_hint: Option<&str>,
    encoding: Encoding,
    unicode_font: &'a str,
    auto_match_fonts: bool,
    convert: bool,
) -> (r: RunOutcome<'a>)
    ensures
        r.changed == convert,
        convert ==> r.text@ == spec_transliterate(text@, encoding),
        convert ==> (r.font matches Some(f) && f@ == spec_target_font(
            opt_view(font_hint),
            encoding,
            unicode_font@,
            auto_match_fonts,
        )),
        !convert ==> r.text@ == text@ && r.font is None,
{
    if convert {
        let new_text = transliterate(text, encoding);
        let target_font: &'a str = if auto_match_fonts {
            match font_hint {
                Some(fh) => match resolve_matched_font(fh, encoding) {
                    Some(m) => m,
                    None => unicode_font,
                },
                None => unicode_font,
            }
        } else {
            unicode_font
        };
        RunOutcome { text: new_text, font: Some(target_font), changed: true }
    } else {
        RunOutcome { text: text.to_owned(), font: None, changed: false }
    }
}


// ---------------------------------------------------------------------------
// Laws of the policy

/// A run that already holds Unicode Bengali is never converted, whatever
/// its font, the threshold or the mode.
pub proof fn lemma_unicode_bengali_never_converted(
    text: Seq<char>,
    font: Option<Seq<char>>,
    encoding: Encoding,
    meets_threshold: bool,
    mode: Mode,
)
    requires
        spec_has_bengali(text),
    ensures
        spec_early_decision(spec_classify_stage(text, font, encoding), encoding) == Some(Decision::UnicodeBengali),
        spec_outcome_stage(spec_classify_stage(text, font, encoding)) == Stage::UnicodeRange,
        !spec_should_convert(Stage::UnicodeRange, Decision::UnicodeBengali, meets_threshold),
        !spec_should_convert_in_mode(Decision::UnicodeBengali, mode),
{
    assert(text.len() > 0);
}

/// A non-empty run in an ANSI font of the family, without Unicode Bengali
/// in it, is converted, whatever the threshold or the mode.
pub proof fn lemma_ansi_font_always_converted(
    text: Seq<char>,
    font: Seq<char>,
    encoding: Encoding,
    meets_threshold: bool,
    mode: Mode,
)
    requires
        text.len() > 0,
        !spec_has_bengali(text),
        spec_is_ansi_font(font, encoding),
    ensures
        spec_early_decision(spec_classify_stage(text, Some(font), encoding), encoding) == Some(
            Decision::AnsiBengali(encoding),
        ),
        spec_outcome_stage(spec_classify_stage(text, Some(font), encoding)) == Stage::AnsiFont,
        spec_should_convert(Stage::AnsiFont, Decision::AnsiBengali(encoding), meets_threshold),
        spec_should_convert_in_mode(Decision::AnsiBengali(encoding), mode),
{
}

} // verus!
