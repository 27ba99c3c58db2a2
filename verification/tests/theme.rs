use banglakit::theme::{font_from_rfonts, parse_theme};
use banglakit::xml::{read_events, XmlKind};

const THEME_XML: &str = r#"<?xml version="1.0" encoding="UTF-8" standalone="yes"?>
<a:theme xmlns:a="http://schemas.openxmlformats.org/drawingml/2006/main">
  <a:themeElements>
    <a:fontScheme>
      <a:majorFont>
        <a:latin typeface="Calibri Light"/>
        <a:ea typeface=""/>
        <a:cs typeface=""/>
      </a:majorFont>
      <a:minorFont>
        <a:latin typeface="SutonnyMJ"/>
        <a:ea typeface=""/>
        <a:cs typeface=""/>
      </a:minorFont>
    </a:fontScheme>
  </a:themeElements>
</a:theme>"#;

#[test]
fn parses_both_slots() {
    let t = parse_theme(THEME_XML).unwrap();
    assert_eq!(t.minor_latin.as_deref(), Some("SutonnyMJ"));
    assert_eq!(t.major_latin.as_deref(), Some("Calibri Light"));
}

#[test]
fn empty_input_is_default() {
    let t = parse_theme("").unwrap();
    assert!(t.minor_latin.is_none());
    assert!(t.major_latin.is_none());
}

#[test]
fn missing_major_slot() {
    let xml = r#"<a:theme xmlns:a="http://schemas.openxmlformats.org/drawingml/2006/main">
  <a:themeElements><a:fontScheme>
    <a:minorFont><a:latin typeface="X"/></a:minorFont>
  </a:fontScheme></a:themeElements>
</a:theme>"#;
    let t = parse_theme(xml).unwrap();
    assert_eq!(t.minor_latin.as_deref(), Some("X"));
    assert!(t.major_latin.is_none());
}

#[test]
fn resolve_token_maps_correctly() {
    let t = parse_theme(THEME_XML).unwrap();
    assert_eq!(t.resolve_token("minorHAnsi"), Some("SutonnyMJ"));
    assert_eq!(t.resolve_token("minorAscii"), Some("SutonnyMJ"));
    assert_eq!(t.resolve_token("majorHAnsi"), Some("Calibri Light"));
    assert_eq!(t.resolve_token("majorAscii"), Some("Calibri Light"));
    assert_eq!(t.resolve_token("minorBidi"), None);
    assert_eq!(t.resolve_token("nonsense"), None);
}

#[test]
fn font_from_rfonts_prefers_direct_ascii() {
    let theme = parse_theme(THEME_XML).unwrap();
    let xml = r#"<w:rFonts xmlns:w="http://schemas.openxmlformats.org/wordprocessingml/2006/main" w:ascii="Arial" w:asciiTheme="minorHAnsi"/>"#;
    let events = read_events(xml).unwrap();
    let event = &events[0];
    assert!(event.kind == XmlKind::Empty, "expected Empty: {event:?}");
    assert_eq!(font_from_rfonts(event, Some(&theme)).as_deref(), Some("Arial"));
}

#[test]
fn font_from_rfonts_falls_back_to_theme() {
    let theme = parse_theme(THEME_XML).unwrap();
    let xml = r#"<w:rFonts xmlns:w="http://schemas.openxmlformats.org/wordprocessingml/2006/main" w:asciiTheme="minorHAnsi" w:hAnsiTheme="minorHAnsi"/>"#;
    let events = read_events(xml).unwrap();
    let event = &events[0];
    assert!(event.kind == XmlKind::Empty, "expected Empty: {event:?}");
    assert_eq!(
        font_from_rfonts(event, Some(&theme)).as_deref(),
        Some("SutonnyMJ")
    );
}

#[test]
fn font_from_rfonts_without_theme_yields_none_for_theme_only() {
    let xml = r#"<w:rFonts xmlns:w="http://schemas.openxmlformats.org/wordprocessingml/2006/main" w:asciiTheme="minorHAnsi"/>"#;
    let events = read_events(xml).unwrap();
    let event = &events[0];
    if event.kind == XmlKind::Empty {
        assert!(font_from_rfonts(event, None).is_none());
    }
}

#[test]
fn escaped_typeface_is_unescaped() {
    let xml = r#"<a:theme><a:fontScheme><a:minorFont><a:latin typeface="A&amp;B"/></a:minorFont></a:fontScheme></a:theme>"#;
    let t = parse_theme(xml).unwrap();
    assert_eq!(t.minor_latin.as_deref(), Some("A&B"));
}

#[test]
fn malformed_theme_is_an_error() {
    let r = parse_theme("<a:theme><a:fontScheme></a:theme>");
    assert!(r.is_err());
    assert!(r.unwrap_err().starts_with("theme1.xml parse error: "));
}
