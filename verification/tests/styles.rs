use banglakit::styles::{parse_styles, Style, Stylesheet};

const STYLES_XML: &str = r#"<?xml version="1.0" encoding="UTF-8" standalone="yes"?>
<w:styles xmlns:w="http://schemas.openxmlformats.org/wordprocessingml/2006/main">
  <w:docDefaults>
    <w:rPrDefault>
      <w:rPr>
        <w:rFonts w:ascii="Calibri" w:hAnsi="Calibri"/>
      </w:rPr>
    </w:rPrDefault>
  </w:docDefaults>
  <w:style w:type="paragraph" w:styleId="Normal" w:default="1">
    <w:name w:val="Normal"/>
    <w:rPr>
      <w:rFonts w:ascii="Times New Roman" w:hAnsi="Times New Roman"/>
    </w:rPr>
  </w:style>
  <w:style w:type="paragraph" w:styleId="Heading1">
    <w:name w:val="heading 1"/>
    <w:basedOn w:val="Normal"/>
    <w:rPr>
      <w:rFonts w:ascii="Arial Bold"/>
    </w:rPr>
  </w:style>
  <w:style w:type="paragraph" w:styleId="BijoyBody">
    <w:name w:val="Bijoy Body"/>
    <w:basedOn w:val="Normal"/>
    <w:rPr>
      <w:rFonts w:ascii="SutonnyMJ" w:hAnsi="SutonnyMJ"/>
    </w:rPr>
  </w:style>
  <w:style w:type="paragraph" w:styleId="UnstyledChild">
    <w:name w:val="Unstyled Child"/>
    <w:basedOn w:val="BijoyBody"/>
  </w:style>
</w:styles>"#;

#[test]
fn parses_doc_defaults() {
    let s = parse_styles(STYLES_XML).unwrap();
    assert_eq!(s.default_font.as_deref(), Some("Calibri"));
}

#[test]
fn parses_default_paragraph_style_id() {
    let s = parse_styles(STYLES_XML).unwrap();
    assert_eq!(s.default_paragraph_style.as_deref(), Some("Normal"));
}

#[test]
fn resolves_style_font_directly() {
    let s = parse_styles(STYLES_XML).unwrap();
    assert_eq!(s.resolve_style_font("Normal"), Some("Times New Roman"));
    assert_eq!(s.resolve_style_font("BijoyBody"), Some("SutonnyMJ"));
}

#[test]
fn resolves_via_based_on_chain() {
    let s = parse_styles(STYLES_XML).unwrap();
    // UnstyledChild has no font of its own; based_on=BijoyBody resolves
    // to SutonnyMJ.
    assert_eq!(s.resolve_style_font("UnstyledChild"), Some("SutonnyMJ"));
}

#[test]
fn cascade_run_font_wins() {
    let s = parse_styles(STYLES_XML).unwrap();
    assert_eq!(
        s.resolve_run_font(Some("Direct"), Some("Para"), Some("Normal")),
        Some("Direct")
    );
}

#[test]
fn cascade_paragraph_default_runs_second() {
    let s = parse_styles(STYLES_XML).unwrap();
    assert_eq!(
        s.resolve_run_font(None, Some("Para"), Some("Normal")),
        Some("Para")
    );
}

#[test]
fn cascade_paragraph_style_runs_third() {
    let s = parse_styles(STYLES_XML).unwrap();
    assert_eq!(
        s.resolve_run_font(None, None, Some("BijoyBody")),
        Some("SutonnyMJ")
    );
}

#[test]
fn cascade_default_paragraph_style_runs_fourth() {
    let s = parse_styles(STYLES_XML).unwrap();
    assert_eq!(s.resolve_run_font(None, None, None), Some("Times New Roman"));
}

#[test]
fn cascade_doc_defaults_run_last() {
    // Sheet with only docDefaults, no styles.
    let xml = r#"<?xml version="1.0"?>
<w:styles xmlns:w="http://schemas.openxmlformats.org/wordprocessingml/2006/main">
  <w:docDefaults>
    <w:rPrDefault>
      <w:rPr>
        <w:rFonts w:ascii="OnlyDefault"/>
      </w:rPr>
    </w:rPrDefault>
  </w:docDefaults>
</w:styles>"#;
    let s = parse_styles(xml).unwrap();
    assert_eq!(s.resolve_run_font(None, None, None), Some("OnlyDefault"));
}

#[test]
fn empty_xml_yields_empty_sheet() {
    let s = parse_styles("").unwrap();
    assert!(s.styles.is_empty());
    assert!(s.default_font.is_none());
}

#[test]
fn cycle_guard_does_not_loop() {
    // Manually inject a cyclic style and verify resolution terminates.
    let mut s = Stylesheet::default();
    s.insert_style(
        "A".to_string(),
        Style { based_on: Some("B".to_string()), font: None },
    );
    s.insert_style(
        "B".to_string(),
        Style { based_on: Some("A".to_string()), font: None },
    );
    assert_eq!(s.resolve_style_font("A"), None);
}

#[test]
fn inserting_a_style_again_replaces_it() {
    let mut s = Stylesheet::default();
    s.insert_style("A".to_string(), Style { based_on: None, font: Some("X".to_string()) });
    s.insert_style("A".to_string(), Style { based_on: None, font: Some("Y".to_string()) });
    assert_eq!(s.styles.len(), 1);
    assert_eq!(s.resolve_style_font("A"), Some("Y"));
    assert!(s.get_style("B").is_none());
}

#[test]
fn chain_longer_than_sixty_four_styles_is_cut() {
    // S0 -> S1 -> ... -> S70, only S70 has a font.
    let mut s = Stylesheet::default();
    for k in 0..70 {
        s.insert_style(
            format!("S{k}"),
            Style { based_on: Some(format!("S{}", k + 1)), font: None },
        );
    }
    s.insert_style("S70".to_string(), Style { based_on: None, font: Some("Far".to_string()) });
    assert_eq!(s.resolve_style_font("S10"), Some("Far"));
    assert_eq!(s.resolve_style_font("S0"), None);
}

#[test]
fn malformed_styles_are_an_error() {
    let r = parse_styles("<w:styles><w:style></w:styles>");
    assert!(r.is_err());
    assert!(r.unwrap_err().starts_with("styles.xml parse error: "));
}

#[test]
fn parsed_style_ids_are_unique() {
    let xml = r#"<w:styles xmlns:w="w"><w:style w:type="paragraph" w:styleId="A"><w:rPr><w:rFonts w:ascii="X"/></w:rPr></w:style><w:style w:type="paragraph" w:styleId="B"></w:style><w:style w:type="paragraph" w:styleId="A"><w:rPr><w:rFonts w:ascii="Y"/></w:rPr></w:style></w:styles>"#;
    let s = parse_styles(xml).unwrap();
    let ids: Vec<&str> = s.styles.iter().map(|(k, _)| k.as_str()).collect();
    assert_eq!(ids, vec!["A", "B"]);
    assert_eq!(s.resolve_style_font("A"), Some("Y"));
}
