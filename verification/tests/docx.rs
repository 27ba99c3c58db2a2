use banglakit::classifier::classify_stage;
use banglakit::docx::transform_document_xml;
use banglakit::encoding::Encoding;
use banglakit::policy::{convert_decided, should_convert};
use banglakit::styles::{Style, Stylesheet};
use banglakit::visitor::{RunAction, RunRef, RunVisitor};

/// Keeps every run and records what it was handed.
#[derive(Default)]
struct Recorder {
    fonts: Vec<Option<String>>,
    texts: Vec<String>,
}

impl RunVisitor for Recorder {
    fn visit(&mut self, run: RunRef<'_>) -> RunAction {
        self.fonts.push(run.font_name.map(|s| s.to_string()));
        self.texts.push(run.text.to_string());
        RunAction::Keep
    }
}

/// Replaces the runs whose text starts with `prefix`.
struct ReplaceStartingWith {
    prefix: &'static str,
    new_text: &'static str,
    new_font: &'static str,
}

impl RunVisitor for ReplaceStartingWith {
    fn visit(&mut self, run: RunRef<'_>) -> RunAction {
        if run.text.starts_with(self.prefix) {
            RunAction::Replace {
                new_text: self.new_text.to_string(),
                new_font: Some(self.new_font.to_string()),
            }
        } else {
            RunAction::Keep
        }
    }
}

/// Converts the runs that an early classifier stage calls ANSI Bengali.
struct FontPolicy;

impl RunVisitor for FontPolicy {
    fn visit(&mut self, run: RunRef<'_>) -> RunAction {
        let outcome = classify_stage(run.text, run.font_name, Encoding::Bijoy);
        let convert = match outcome.early_decision(Encoding::Bijoy) {
            Some(d) => should_convert(outcome.stage(), d, false),
            None => false,
        };
        RunAction::from_outcome(convert_decided(
            run.text,
            run.font_name,
            Encoding::Bijoy,
            "Kalpurush",
            false,
            convert,
        ))
    }
}

fn texts_in(out: &str) -> Vec<&str> {
    out.split("<w:t")
        .skip(1)
        .filter_map(|s| {
            let start = s.find('>')? + 1;
            let end = s.find("</w:t>")?;
            Some(&s[start..end])
        })
        .collect()
}

const MINIMAL_DOC: &str = r#"<?xml version="1.0" encoding="UTF-8" standalone="yes"?>
<w:document xmlns:w="http://schemas.openxmlformats.org/wordprocessingml/2006/main">
  <w:body>
    <w:p>
      <w:r>
        <w:rPr>
          <w:rFonts w:ascii="SutonnyMJ" w:hAnsi="SutonnyMJ"/>
        </w:rPr>
        <w:t>Avwg evsjvq</w:t>
      </w:r>
    </w:p>
    <w:p>
      <w:r>
        <w:rPr>
          <w:rFonts w:ascii="Times New Roman" w:hAnsi="Times New Roman"/>
        </w:rPr>
        <w:t>Hello world</w:t>
      </w:r>
    </w:p>
  </w:body>
</w:document>"#;

#[test]
fn round_trip_no_changes() {
    let sheet = Stylesheet::default();
    let out = transform_document_xml(MINIMAL_DOC, &sheet, None, &mut Recorder::default()).unwrap();
    assert!(out.contains("Avwg evsjvq"), "output: {out}");
    assert!(out.contains("Hello world"));
}

#[test]
fn replaces_run_text() {
    let sheet = Stylesheet::default();
    let mut v = ReplaceStartingWith { prefix: "Avwg", new_text: "আমি বাংলায়", new_font: "Kalpurush" };
    let out = transform_document_xml(MINIMAL_DOC, &sheet, None, &mut v).unwrap();
    assert!(out.contains("আমি বাংলায়"), "output: {out}");
    assert!(out.contains("Kalpurush"), "output: {out}");
    assert!(out.contains("Hello world"), "output: {out}");
}

#[test]
fn cascade_from_paragraph_style_visible_to_visitor() {
    // Run has no font of its own; paragraph references style "BijoyBody".
    let xml = r#"<?xml version="1.0"?>
<w:document xmlns:w="http://schemas.openxmlformats.org/wordprocessingml/2006/main">
  <w:body>
    <w:p>
      <w:pPr><w:pStyle w:val="BijoyBody"/></w:pPr>
      <w:r><w:t>Avwg</w:t></w:r>
    </w:p>
  </w:body>
</w:document>"#;
    let mut sheet = Stylesheet::default();
    sheet.insert_style(
        "BijoyBody".to_string(),
        Style { based_on: None, font: Some("SutonnyMJ".to_string()) },
    );
    let mut rec = Recorder::default();
    let _ = transform_document_xml(xml, &sheet, None, &mut rec).unwrap();
    assert_eq!(rec.fonts.last().cloned().flatten().as_deref(), Some("SutonnyMJ"));
}

#[test]
fn cascade_from_paragraph_run_default() {
    // Run has no rFonts, paragraph's pPr/rPr/rFonts says SutonnyMJ.
    let xml = r#"<?xml version="1.0"?>
<w:document xmlns:w="http://schemas.openxmlformats.org/wordprocessingml/2006/main">
  <w:body>
    <w:p>
      <w:pPr><w:rPr><w:rFonts w:ascii="SutonnyMJ"/></w:rPr></w:pPr>
      <w:r><w:t>Avwg</w:t></w:r>
    </w:p>
  </w:body>
</w:document>"#;
    let sheet = Stylesheet::default();
    let mut rec = Recorder::default();
    let _ = transform_document_xml(xml, &sheet, None, &mut rec).unwrap();
    assert_eq!(rec.fonts.last().cloned().flatten().as_deref(), Some("SutonnyMJ"));
}

#[test]
fn cascade_to_doc_defaults_when_nothing_else() {
    let xml = r#"<?xml version="1.0"?>
<w:document xmlns:w="http://schemas.openxmlformats.org/wordprocessingml/2006/main">
  <w:body><w:p><w:r><w:t>Avwg</w:t></w:r></w:p></w:body>
</w:document>"#;
    let mut sheet = Stylesheet::default();
    sheet.default_font = Some("DocDefault".to_string());
    let mut rec = Recorder::default();
    let _ = transform_document_xml(xml, &sheet, None, &mut rec).unwrap();
    assert_eq!(rec.fonts.last().cloned().flatten().as_deref(), Some("DocDefault"));
}

#[test]
fn run_level_font_wins_over_cascade() {
    let xml = r#"<?xml version="1.0"?>
<w:document xmlns:w="http://schemas.openxmlformats.org/wordprocessingml/2006/main">
  <w:body>
    <w:p>
      <w:pPr><w:pStyle w:val="BijoyBody"/></w:pPr>
      <w:r><w:rPr><w:rFonts w:ascii="Arial"/></w:rPr><w:t>x</w:t></w:r>
    </w:p>
  </w:body>
</w:document>"#;
    let mut sheet = Stylesheet::default();
    sheet.insert_style(
        "BijoyBody".to_string(),
        Style { based_on: None, font: Some("SutonnyMJ".to_string()) },
    );
    let mut rec = Recorder::default();
    let _ = transform_document_xml(xml, &sheet, None, &mut rec).unwrap();
    assert_eq!(rec.fonts.last().cloned().flatten().as_deref(), Some("Arial"));
}

fn two_runs(first_font: &str, first: &str, second_font: &str, second: &str) -> String {
    format!(
        r#"<?xml version="1.0"?>
<w:document xmlns:w="http://schemas.openxmlformats.org/wordprocessingml/2006/main">
  <w:body>
    <w:p>
      <w:r>
        <w:rPr><w:rFonts w:ascii="{first_font}" w:hAnsi="{first_font}"/></w:rPr>
        <w:t>{first}</w:t>
      </w:r>
      <w:r>
        <w:rPr><w:rFonts w:ascii="{second_font}" w:hAnsi="{second_font}"/></w:rPr>
        <w:t>{second}</w:t>
      </w:r>
    </w:p>
  </w:body>
</w:document>"#
    )
}

#[test]
fn merge_prebase_orphan_ekar_into_next_run() {
    // run1 = "‡" (e-kar), run2 = "`k" (দেশ in Bijoy): one run "‡`k".
    let xml = two_runs("SutonnyMJ", "‡", "SutonnyMJ", "`k");
    let sheet = Stylesheet::default();
    let mut rec = Recorder::default();
    let _ = transform_document_xml(&xml, &sheet, None, &mut rec).unwrap();
    let seen_texts = rec.texts;
    assert_eq!(seen_texts.len(), 1, "orphan run should be merged: {seen_texts:?}");
    assert_eq!(seen_texts[0], "‡`k");
}

#[test]
fn merge_postbase_orphan_reph_into_previous_run() {
    // run1 = "Kv" (consonant cluster), run2 = "©" (reph): one run "Kv©".
    let xml = two_runs("SutonnyMJ", "Kv", "SutonnyMJ", "©");
    let sheet = Stylesheet::default();
    let mut rec = Recorder::default();
    let _ = transform_document_xml(&xml, &sheet, None, &mut rec).unwrap();
    let seen_texts = rec.texts;
    assert_eq!(seen_texts.len(), 1, "orphan run should be merged: {seen_texts:?}");
    assert_eq!(seen_texts[0], "Kv©");
}

#[test]
fn no_merge_across_different_fonts() {
    let xml = two_runs("SutonnyMJ", "‡", "Arial", "hello");
    let sheet = Stylesheet::default();
    let mut rec = Recorder::default();
    let _ = transform_document_xml(&xml, &sheet, None, &mut rec).unwrap();
    let seen_texts = rec.texts;
    assert_eq!(seen_texts.len(), 2, "should NOT merge across fonts: {seen_texts:?}");
}

#[test]
fn no_merge_when_non_bijoy_font() {
    let xml = two_runs("Arial", "‡", "Arial", "text");
    let sheet = Stylesheet::default();
    let mut rec = Recorder::default();
    let _ = transform_document_xml(&xml, &sheet, None, &mut rec).unwrap();
    let seen_texts = rec.texts;
    assert_eq!(seen_texts.len(), 2, "should NOT merge non-Bijoy fonts: {seen_texts:?}");
}

#[test]
fn merge_multiple_prebase_orphans_chain() {
    // run1 = "‡" (e-kar), run2 = "‰" (ai-kar), run3 = "`k": both orphans
    // merge into run3.
    let xml = r#"<?xml version="1.0"?>
<w:document xmlns:w="http://schemas.openxmlformats.org/wordprocessingml/2006/main">
  <w:body>
    <w:p>
      <w:r>
        <w:rPr><w:rFonts w:ascii="SutonnyMJ" w:hAnsi="SutonnyMJ"/></w:rPr>
        <w:t>‡</w:t>
      </w:r>
      <w:r>
        <w:rPr><w:rFonts w:ascii="SutonnyMJ" w:hAnsi="SutonnyMJ"/></w:rPr>
        <w:t>‰</w:t>
      </w:r>
      <w:r>
        <w:rPr><w:rFonts w:ascii="SutonnyMJ" w:hAnsi="SutonnyMJ"/></w:rPr>
        <w:t>`k</w:t>
      </w:r>
    </w:p>
  </w:body>
</w:document>"#;
    let sheet = Stylesheet::default();
    let mut rec = Recorder::default();
    let _ = transform_document_xml(xml, &sheet, None, &mut rec).unwrap();
    let seen_texts = rec.texts;
    assert_eq!(seen_texts.len(), 1, "chained orphans should merge: {seen_texts:?}");
    assert!(seen_texts[0].starts_with("‡"), "merged text: {}", seen_texts[0]);
}

#[test]
fn post_conversion_merge_combining_mark_into_previous() {
    // run1: "K" → "ক"; run2: "¨" → "্য". The two SutonnyMJ runs are
    // converted as one, so the output holds one run with "ক্য".
    let xml = two_runs("SutonnyMJ", "K", "SutonnyMJ", "¨");
    let sheet = Stylesheet::default();
    let out = transform_document_xml(&xml, &sheet, None, &mut FontPolicy).unwrap();
    let texts = texts_in(&out);
    assert_eq!(texts.len(), 1, "should merge into one run, got: {texts:?}");
    assert!(
        texts[0].contains("ক") && texts[0].contains("্য"),
        "merged text should contain kya conjunct: {}",
        texts[0]
    );
}

#[test]
fn malformed_document_is_an_error_after_earlier_paragraphs_were_visited() {
    let xml = r#"<w:document><w:body><w:p><w:r><w:t>Kv</w:t></w:r></w:p><w:p></w:body></w:document>"#;
    let sheet = Stylesheet::default();
    let mut rec = Recorder::default();
    let r = transform_document_xml(xml, &sheet, None, &mut rec);
    assert!(r.unwrap_err().starts_with("XML parse error: "));
    assert_eq!(rec.texts, vec!["Kv".to_string()]);
}

#[test]
fn new_font_is_injected_into_a_run_without_fonts() {
    let xml = r#"<w:document><w:body><w:p><w:r><w:t>Avwg</w:t></w:r></w:p></w:body></w:document>"#;
    let sheet = Stylesheet::default();
    let mut v = ReplaceStartingWith { prefix: "Avwg", new_text: "আমি", new_font: "Kalpurush" };
    let out = transform_document_xml(xml, &sheet, None, &mut v).unwrap();
    assert_eq!(
        out,
        "<w:document><w:body><w:p><w:r><w:rPr><w:rFonts w:ascii=\"Kalpurush\" w:hAnsi=\"Kalpurush\"/></w:rPr><w:t>আমি</w:t></w:r></w:p></w:body></w:document>"
    );
}

#[test]
fn replaced_text_is_escaped_and_fonts_rewritten() {
    let xml = r#"<w:p><w:r><w:rPr><w:rFonts w:ascii="SutonnyMJ" w:cs="Vrinda"/></w:rPr><w:t>Avwg</w:t></w:r></w:p>"#;
    let sheet = Stylesheet::default();
    let mut v = ReplaceStartingWith { prefix: "Avwg", new_text: "a<b", new_font: "K&K" };
    let out = transform_document_xml(xml, &sheet, None, &mut v).unwrap();
    assert_eq!(
        out,
        "<w:p><w:r><w:rPr><w:rFonts w:ascii=\"K&K\" w:cs=\"Vrinda\" w:hAnsi=\"K&amp;K\"/></w:rPr><w:t>a&lt;b</w:t></w:r></w:p>"
    );
}

#[test]
fn keep_everywhere_round_trips_a_simple_paragraph() {
    let xml = r#"<w:p><w:pPr><w:jc w:val="left"/></w:pPr><w:r><w:t xml:space="preserve">Hello </w:t></w:r></w:p>"#;
    let sheet = Stylesheet::default();
    let out = transform_document_xml(xml, &sheet, None, &mut Recorder::default()).unwrap();
    assert_eq!(out, xml);
}

#[test]
fn runs_listed_up_front_are_the_runs_visited() {
    let xml = two_runs("SutonnyMJ", "‡", "SutonnyMJ", "`k");
    let sheet = Stylesheet::default();
    let events = banglakit::xml::read_events(&xml).unwrap();
    let listed = banglakit::docx::document_runs(&events, &sheet, None);
    let listed_texts: Vec<String> = listed.iter().map(|r| r.as_run_ref().text.to_string()).collect();
    let mut rec = Recorder::default();
    transform_document_xml(&xml, &sheet, None, &mut rec).unwrap();
    assert_eq!(listed_texts, rec.texts);
    let mut conv = ReplaceStartingWith { prefix: "‡", new_text: "দেশ", new_font: "Kalpurush" };
    transform_document_xml(&xml, &sheet, None, &mut conv).unwrap();
    assert_eq!(listed_texts, vec!["‡`k".to_string()]);
}

#[test]
fn kept_latin_run_is_written_back_byte_for_byte() {
    let xml = two_runs("Times New Roman", "Gas price is $5 today", "SutonnyMJ", "Avwg");
    let sheet = Stylesheet::default();
    let out = transform_document_xml(&xml, &sheet, None, &mut FontPolicy).unwrap();
    let latin_run = r#"<w:r>
        <w:rPr><w:rFonts w:ascii="Times New Roman" w:hAnsi="Times New Roman"/></w:rPr>
        <w:t>Gas price is $5 today</w:t>
      </w:r>"#;
    assert!(xml.contains(latin_run));
    assert!(out.contains(latin_run), "output: {out}");
    assert!(!out.contains("Avwg"), "output: {out}");
}

#[test]
fn merging_keeps_every_character_in_order() {
    let xml = two_runs("SutonnyMJ", "Kv", "SutonnyMJ", "©");
    let sheet = Stylesheet::default();
    let mut rec = Recorder::default();
    transform_document_xml(&xml, &sheet, None, &mut rec).unwrap();
    assert_eq!(rec.texts.concat(), "Kv©");
}
