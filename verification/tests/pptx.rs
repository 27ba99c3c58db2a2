use banglakit::pptx::{is_slide_xml, parse_slide_index, transform_slide_xml};
use banglakit::visitor::{RunAction, RunRef, RunVisitor};

const SLIDE_WITH_BIJOY_AND_ENGLISH: &str = r#"<?xml version="1.0" encoding="UTF-8" standalone="yes"?>
<p:sld xmlns:a="http://schemas.openxmlformats.org/drawingml/2006/main"
       xmlns:p="http://schemas.openxmlformats.org/presentationml/2006/main">
  <p:cSld>
    <p:spTree>
      <p:sp>
        <p:txBody>
          <a:p>
            <a:r>
              <a:rPr lang="en-US">
                <a:latin typeface="SutonnyMJ"/>
              </a:rPr>
              <a:t>Avwg evsjvq</a:t>
            </a:r>
          </a:p>
          <a:p>
            <a:r>
              <a:rPr lang="en-US">
                <a:latin typeface="Calibri"/>
              </a:rPr>
              <a:t>Hello world</a:t>
            </a:r>
          </a:p>
        </p:txBody>
      </p:sp>
    </p:spTree>
  </p:cSld>
</p:sld>"#;

#[derive(Default)]
struct Collect {
    runs: Vec<(usize, Option<String>, String, Option<usize>, usize)>,
}

impl RunVisitor for Collect {
    fn visit(&mut self, run: RunRef<'_>) -> RunAction {
        self.runs.push((
            run.run_index,
            run.font_name.map(|s| s.to_string()),
            run.text.to_string(),
            run.slide_index,
            run.paragraph_index,
        ));
        RunAction::Keep
    }
}

struct ReplaceSutonny;

impl RunVisitor for ReplaceSutonny {
    fn visit(&mut self, run: RunRef<'_>) -> RunAction {
        if run.font_name == Some("SutonnyMJ") {
            RunAction::Replace {
                new_text: "আমি বাংলায়".to_string(),
                new_font: Some("Kalpurush".to_string()),
            }
        } else {
            RunAction::Keep
        }
    }
}

struct ReplaceAll;

impl RunVisitor for ReplaceAll {
    fn visit(&mut self, _run: RunRef<'_>) -> RunAction {
        RunAction::Replace { new_text: "y".to_string(), new_font: Some("Kalpurush".to_string()) }
    }
}

#[test]
fn extracts_runs_and_fonts() {
    let mut c = Collect::default();
    let _ = transform_slide_xml(SLIDE_WITH_BIJOY_AND_ENGLISH, 1, &mut c).unwrap();
    let collected = c.runs;
    assert_eq!(collected.len(), 2);
    assert_eq!(collected[0].1.as_deref(), Some("SutonnyMJ"));
    assert_eq!(collected[0].2, "Avwg evsjvq");
    assert_eq!(collected[1].1.as_deref(), Some("Calibri"));
    assert_eq!(collected[1].2, "Hello world");
}

#[test]
fn rewrites_text_and_typeface() {
    let out = transform_slide_xml(SLIDE_WITH_BIJOY_AND_ENGLISH, 1, &mut ReplaceSutonny).unwrap();
    assert!(out.contains("আমি বাংলায়"), "{out}");
    assert!(out.contains("Kalpurush"), "{out}");
    assert!(out.contains("Hello world"), "{out}");
    assert!(out.contains("Calibri"), "Calibri lost: {out}");
}

#[test]
fn injects_latin_when_missing() {
    // Run has <a:rPr/> (Empty) and no <a:latin>; injection adds a:latin.
    let xml = r#"<?xml version="1.0"?>
<p:sld xmlns:a="http://schemas.openxmlformats.org/drawingml/2006/main"
       xmlns:p="http://schemas.openxmlformats.org/presentationml/2006/main">
  <p:cSld><p:spTree><p:sp><p:txBody>
    <a:p><a:r><a:rPr lang="en-US"/><a:t>x</a:t></a:r></a:p>
  </p:txBody></p:sp></p:spTree></p:cSld>
</p:sld>"#;
    let out = transform_slide_xml(xml, 1, &mut ReplaceAll).unwrap();
    assert!(out.contains("Kalpurush"), "{out}");
    assert!(out.contains(">y<"), "{out}");
}

#[test]
fn slide_xml_name_filter() {
    assert!(is_slide_xml("ppt/slides/slide1.xml"));
    assert!(is_slide_xml("ppt/slides/slide12.xml"));
    assert!(!is_slide_xml("ppt/slideLayouts/slideLayout1.xml"));
    assert!(!is_slide_xml("ppt/slideMasters/slideMaster1.xml"));
    assert!(!is_slide_xml("ppt/slides/_rels/slide1.xml.rels"));
}

#[test]
fn slide_index_is_parsed_from_the_name() {
    assert_eq!(parse_slide_index("ppt/slides/slide12.xml"), Some(12));
    assert_eq!(parse_slide_index("ppt/slides/slide+7.xml"), Some(7));
    assert_eq!(parse_slide_index("ppt/slides/slide.xml"), None);
    assert_eq!(parse_slide_index("ppt/slides/slideX.xml"), None);
    assert_eq!(parse_slide_index("ppt/slides/slide99999999999999999999999.xml"), None);
    assert_eq!(parse_slide_index("ppt/other/slide1.xml"), None);
}

#[test]
fn injected_rpr_keeps_attributes_and_run_indices_restart_per_paragraph() {
    let xml = r#"<a:p><a:r><a:rPr lang="en-US" b="1"/><a:t>x</a:t></a:r><a:r><a:t>z</a:t></a:r></a:p><a:p><a:r><a:t>w</a:t></a:r></a:p>"#;
    let out = transform_slide_xml(xml, 3, &mut ReplaceAll).unwrap();
    assert_eq!(
        out,
        "<a:p><a:r><a:rPr lang=\"en-US\" b=\"1\"><a:latin typeface=\"Kalpurush\"/></a:rPr><a:t>y</a:t></a:r><a:r><a:rPr><a:latin typeface=\"Kalpurush\"/></a:rPr><a:t>y</a:t></a:r></a:p><a:p><a:r><a:rPr><a:latin typeface=\"Kalpurush\"/></a:rPr><a:t>y</a:t></a:r></a:p>"
    );
    let mut c = Collect::default();
    let _ = transform_slide_xml(xml, 3, &mut c).unwrap();
    let idx: Vec<(usize, Option<usize>, usize)> = c.runs.iter().map(|r| (r.0, r.3, r.4)).collect();
    assert_eq!(idx, vec![(0, Some(3), 0), (1, Some(3), 0), (0, Some(3), 1)]);
}

#[test]
fn keeping_every_run_writes_the_slide_back_unchanged() {
    let mut v = Collect::default();
    let out = transform_slide_xml(SLIDE_WITH_BIJOY_AND_ENGLISH, 4, &mut v).unwrap();
    assert_eq!(out, SLIDE_WITH_BIJOY_AND_ENGLISH);
    assert_eq!(v.runs.len(), 2);
}

#[test]
fn runs_handed_over_do_not_depend_on_the_answers() {
    let mut keep = Collect::default();
    transform_slide_xml(SLIDE_WITH_BIJOY_AND_ENGLISH, 1, &mut keep).unwrap();
    let events = banglakit::xml::read_events(SLIDE_WITH_BIJOY_AND_ENGLISH).unwrap();
    let runs = banglakit::pptx::slide_runs(&events, 1);
    let listed: Vec<(usize, Option<String>, String, Option<usize>, usize)> = runs
        .iter()
        .map(|r| {
            let rr = r.as_run_ref();
            (rr.run_index, rr.font_name.map(|s| s.to_string()), rr.text.to_string(), rr.slide_index, rr.paragraph_index)
        })
        .collect();
    assert_eq!(listed, keep.runs);
}
