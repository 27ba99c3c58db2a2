use banglakit::archive::{process_docx_bytes, process_pptx_bytes};
use banglakit::visitor::{RunAction, RunRef, RunVisitor};
use std::io::{Cursor, Read, Write};

/// Replaces every run in a Bijoy font, keeps the others, and counts visits.
#[derive(Default)]
struct ConvertBijoy {
    seen: Vec<(Option<String>, String, Option<usize>)>,
}

impl RunVisitor for ConvertBijoy {
    fn visit(&mut self, run: RunRef<'_>) -> RunAction {
        self.seen.push((run.font_name.map(|s| s.to_string()), run.text.to_string(), run.slide_index));
        if run.font_name == Some("SutonnyMJ") {
            RunAction::Replace { new_text: "আমি".to_string(), new_font: Some("Kalpurush".to_string()) }
        } else {
            RunAction::Keep
        }
    }
}

fn package(entries: &[(&str, &[u8], bool)]) -> Vec<u8> {
    let mut w = zip::ZipWriter::new(Cursor::new(Vec::new()));
    for (name, data, stored) in entries {
        let method = if *stored { zip::CompressionMethod::Stored } else { zip::CompressionMethod::Deflated };
        w.start_file(*name, zip::write::SimpleFileOptions::default().compression_method(method)).unwrap();
        w.write_all(data).unwrap();
    }
    w.finish().unwrap().into_inner()
}

fn unpack(bytes: &[u8]) -> Vec<(String, Vec<u8>, bool)> {
    let mut a = zip::ZipArchive::new(Cursor::new(bytes)).unwrap();
    let mut out = Vec::new();
    for i in 0..a.len() {
        let mut f = a.by_index(i).unwrap();
        let mut data = Vec::new();
        f.read_to_end(&mut data).unwrap();
        out.push((f.name().to_string(), data, f.compression() == zip::CompressionMethod::Stored));
    }
    out
}

const DOCUMENT: &str = r#"<?xml version="1.0"?><w:document xmlns:w="w"><w:body><w:p><w:r><w:rPr><w:rFonts w:ascii="SutonnyMJ" w:hAnsi="SutonnyMJ"/></w:rPr><w:t>Avwg</w:t></w:r><w:r><w:t>Hello</w:t></w:r></w:p></w:body></w:document>"#;

const STYLES: &str = r#"<w:styles xmlns:w="w"><w:docDefaults><w:rPrDefault><w:rPr><w:rFonts w:ascii="Calibri"/></w:rPr></w:rPrDefault></w:docDefaults></w:styles>"#;

#[test]
fn docx_package_rewrites_only_the_document() {
    let media: &[u8] = &[0, 1, 2, 255, 254];
    let input = package(&[
        ("[Content_Types].xml", b"<Types/>", false),
        ("word/document.xml", DOCUMENT.as_bytes(), false),
        ("word/styles.xml", STYLES.as_bytes(), false),
        ("word/media/image1.png", media, true),
    ]);
    let mut v = ConvertBijoy::default();
    let out = process_docx_bytes(&input, &mut v).unwrap();
    let before = unpack(&input);
    let after = unpack(&out);
    assert_eq!(after.len(), before.len());
    for (b, a) in before.iter().zip(after.iter()) {
        assert_eq!(a.0, b.0);
        assert_eq!(a.2, b.2);
        if a.0 != "word/document.xml" {
            assert_eq!(a.1, b.1, "entry {} changed", a.0);
        }
    }
    let doc = String::from_utf8(after[1].1.clone()).unwrap();
    assert!(doc.contains("আমি"), "{doc}");
    assert!(doc.contains("Kalpurush"), "{doc}");
    assert!(doc.contains("<w:r><w:t>Hello</w:t></w:r>"), "{doc}");
    assert_eq!(
        v.seen,
        vec![
            (Some("SutonnyMJ".to_string()), "Avwg".to_string(), None),
            (Some("Calibri".to_string()), "Hello".to_string(), None),
        ]
    );
}

#[test]
fn docx_without_document_is_refused() {
    let input = package(&[("word/styles.xml", STYLES.as_bytes(), false)]);
    assert!(process_docx_bytes(&input, &mut ConvertBijoy::default()).is_err());
}

#[test]
fn docx_with_malformed_document_is_refused() {
    let input = package(&[("word/document.xml", b"<w:p></w:r>", false)]);
    assert!(process_docx_bytes(&input, &mut ConvertBijoy::default()).is_err());
}

#[test]
fn bytes_that_are_not_a_package_are_refused() {
    assert!(process_docx_bytes(b"not a zip", &mut ConvertBijoy::default()).is_err());
    assert!(process_pptx_bytes(b"not a zip", &mut ConvertBijoy::default()).is_err());
}

const SLIDE: &str = r#"<p:sld xmlns:a="a" xmlns:p="p"><a:p><a:r><a:rPr><a:latin typeface="SutonnyMJ"/></a:rPr><a:t>Avwg</a:t></a:r></a:p></p:sld>"#;

#[test]
fn pptx_package_rewrites_slides_only() {
    let layout = r#"<p:sldLayout><a:p><a:r><a:rPr><a:latin typeface="SutonnyMJ"/></a:rPr><a:t>Avwg</a:t></a:r></a:p></p:sldLayout>"#;
    let input = package(&[
        ("ppt/slides/slide3.xml", SLIDE.as_bytes(), false),
        ("ppt/slideLayouts/slideLayout1.xml", layout.as_bytes(), false),
    ]);
    let mut v = ConvertBijoy::default();
    let out = process_pptx_bytes(&input, &mut v).unwrap();
    let after = unpack(&out);
    assert_eq!(after.len(), 2);
    let slide = String::from_utf8(after[0].1.clone()).unwrap();
    assert!(slide.contains("আমি") && slide.contains("Kalpurush"), "{slide}");
    assert_eq!(after[1].1, layout.as_bytes());
    assert_eq!(v.seen, vec![(Some("SutonnyMJ".to_string()), "Avwg".to_string(), Some(3))]);
}

#[test]
fn pptx_with_malformed_slide_is_refused() {
    let input = package(&[("ppt/slides/slide1.xml", b"<a:p></a:r>", false)]);
    assert!(process_pptx_bytes(&input, &mut ConvertBijoy::default()).is_err());
}
