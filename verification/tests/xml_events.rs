use banglakit::ooxml::set_run_text;
use banglakit::xml::{attr, attributes, is_element, read_events, write_events, XmlEvent, XmlKind};

#[test]
fn events_write_back_to_the_same_text() {
    let xml = "<?xml version=\"1.0\"?><!DOCTYPE x><a:b c=\"1\"><!--hi--><![CDATA[<z>]]>t&amp;u<?pi x?><e/></a:b>";
    let events = read_events(xml).unwrap();
    let kinds: Vec<XmlKind> = events.iter().map(|e| e.kind).collect();
    assert_eq!(
        kinds,
        vec![
            XmlKind::Decl,
            XmlKind::DocType,
            XmlKind::Start,
            XmlKind::Comment,
            XmlKind::CData,
            XmlKind::Text,
            XmlKind::PI,
            XmlKind::Empty,
            XmlKind::End
        ]
    );
    let mut out = String::new();
    write_events(&mut out, &events);
    assert_eq!(out, xml);
}

#[test]
fn element_names_and_attributes() {
    let events = read_events("<w:rFonts w:ascii=\"A&amp;B\" w:hAnsi='C'/>").unwrap();
    let e: &XmlEvent = &events[0];
    assert!(is_element(e, XmlKind::Empty, "rFonts"));
    assert!(!is_element(e, XmlKind::Start, "rFonts"));
    assert!(!is_element(e, XmlKind::Empty, "w:rFonts"));
    let attrs = attributes(e);
    assert_eq!(
        attrs,
        vec![("w:ascii".to_string(), "A&amp;B".to_string()), ("w:hAnsi".to_string(), "C".to_string())]
    );
    assert_eq!(attr(e, "ascii").as_deref(), Some("A&B"));
    assert_eq!(attr(e, "cs"), None);
}

#[test]
fn escape_replaces_the_five_special_characters() {
    let events = read_events("<w:r><w:t>x</w:t></w:r>").unwrap();
    for (text, escaped) in [("<a & 'b' \"c\">", "&lt;a &amp; &apos;b&apos; &quot;c&quot;&gt;"), ("plain", "plain")] {
        let mut out = String::new();
        write_events(&mut out, &set_run_text(&events, text));
        assert_eq!(out, format!("<w:r><w:t xml:space=\"preserve\">{escaped}</w:t></w:r>"));
    }
}

#[test]
fn reader_errors_are_reported() {
    assert!(read_events("<a></b>").is_err());
}
