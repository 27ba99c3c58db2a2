//! Zip packages (DOCX, PPTX) as lists of entries: reading them with the zip
//! crate, writing them back, and converting their OOXML parts.
//!
//! Only the parts that hold runs are rewritten; every other entry is written
//! back with the same name, data and compression kind.

use vstd::prelude::*;
use vstd::string::StrSliceExecFns;
use vstd::utf8::{decode_utf8, valid_utf8};
use crate::docx::{spec_doc_state, sv, transform_document_xml};
use crate::pptx::{is_slide_xml, parse_slide_index, spec_is_slide_xml, spec_slide_index, spec_slide_state, transform_slide_xml};
use crate::styles::{parse_styles, sheet_view, spec_sheet_from_events, Stylesheet};
use crate::text::str_equal;
use crate::theme::{opt_theme_view, parse_error, parse_theme, spec_is_blank, spec_theme_from_events, theme_view, Theme};
use crate::visitor::RunVisitor;
use crate::xml::spec_xml_events;
use std::io::Cursor;
use zip::{ZipArchive, ZipWriter};

verus! {

/// One entry of a zip package.
#[derive(Debug)]
pub struct ZipEntry {
    pub name: String,
    /// The entry's uncompressed data.
    pub data: Vec<u8>,
    /// Whether the entry is stored without compression (it is deflated
    /// otherwise when written).
    pub stored: bool,
}

/// An entry as values: (name, data, stored).
pub open spec fn entry_view(e: ZipEntry) -> (Seq<char>, Seq<u8>, bool) {
    (e.name@, e.data@, e.stored)
}

pub open spec fn entries_view(v: Seq<ZipEntry>) -> Seq<(Seq<char>, Seq<u8>, bool)> {
    v.map_values(|e: ZipEntry| entry_view(e))
}

// ---------------------------------------------------------------------------
// Reading a package

#[verifier::external_type_specification]
#[verifier::external_body]
#[verifier::reject_recursive_types(T)]
pub struct ExCursor<T>(std::io::Cursor<T>);

#[verifier::external_type_specification]
#[verifier::external_body]
#[verifier::reject_recursive_types(R)]
pub struct ExZipArchive<R>(zip::ZipArchive<R>);

/// What the zip crate finds in a package: `None` when it cannot read the
/// central directory, else each entry in the archive's order, as it reads
/// it (name, data, stored), or `None` when the entry cannot be read.
pub uninterp spec fn spec_zip_open(input: Seq<u8>) -> Option<Seq<Option<(Seq<char>, Seq<u8>, bool)>>>;

/// The entries of an opened archive, each as read, or `None` when the entry
/// cannot be read.
pub uninterp spec fn spec_archive_entries(archive: ZipArchive<Cursor<&[u8]>>) -> Seq<
    Option<(Seq<char>, Seq<u8>, bool)>,
>;

/// `ZipArchive::new` on the bytes: the archive holds the package's entries;
/// the error's message when the package cannot be read.
#[verifier::external_body]
fn zip_open<'a>(input: &'a [u8]) -> (r: Result<ZipArchive<Cursor<&'a [u8]>>, String>)
    ensures
        r is Ok == spec_zip_open(input@) is Some,
        r matches Ok(a) ==> spec_archive_entries(a) == spec_zip_open(input@)->0,
{
    ZipArchive::new(Cursor::new(input)).map_err(|e| e.to_string())
}

/// `ZipArchive::len`: the number of entries.
#[verifier::external_body]
fn zip_len(archive: &ZipArchive<Cursor<&[u8]>>) -> (r: usize)
    ensures
        r == spec_archive_entries(*archive).len(),
{
    archive.len()
}

/// `ZipArchive::by_index`, with the entry's name, its data read to the end
/// (`Read::read_to_end`) and whether it is stored; the error's message when
/// the entry cannot be read. The archive's entries stay as they were.
#[verifier::external_body]
fn zip_entry(archive: &mut ZipArchive<Cursor<&[u8]>>, i: usize) -> (r: Result<ZipEntry, String>)
    requires
        i < spec_archive_entries(*old(archive)).len(),
    ensures
        spec_archive_entries(*final(archive)) == spec_archive_entries(*old(archive)),
        r is Ok == spec_archive_entries(*old(archive))[i as int] is Some,
        r matches Ok(e) ==> spec_archive_entries(*old(archive))[i as int] == Some(entry_view(e)),
{
    let mut entry = archive.by_index(i).map_err(|e| e.to_string())?;
    let mut data = Vec::new();
    std::io::Read::read_to_end(&mut entry, &mut data).map_err(|e| e.to_string())?;
    let stored = matches!(entry.compression(), zip::CompressionMethod::Stored);
    Ok(ZipEntry { name: entry.name().to_string(), data, stored })
}

/// The entries of a package, when the zip crate reads the package and every
/// entry of it.
pub open spec fn spec_zip_read(input: Seq<u8>) -> Option<Seq<(Seq<char>, Seq<u8>, bool)>> {
    match spec_zip_open(input) {
        Some(es) => if forall|k: int| 0 <= k < es.len() ==> #[trigger] es[k] is Some {
            Some(es.map_values(|e: Option<(Seq<char>, Seq<u8>, bool)>| e->0))
        } else {
            None
        },
        None => None,
    }
}

/// Read every entry of a zip package, in the archive's order; the zip
/// crate's message when the package or an entry cannot be read.
pub(crate) fn zip_read(input: &[u8]) -> (r: Result<Vec<ZipEntry>, String>)
    ensures
        r is Ok <==> spec_zip_read(input@) is Some,
        r matches Ok(v) ==> spec_zip_read(input@) == Some(entries_view(v@)),
{
    let mut archive = zip_open(input)?;
    let ghost es = spec_archive_entries(archive);
    let n = zip_len(&archive);
    let mut out: Vec<ZipEntry> = Vec::new();
    let mut i: usize = 0;
    while i < n
        invariant
            i <= n,
            n == es.len(),
            spec_zip_open(input@) == Some(es),
            spec_archive_entries(archive) == es,
            out@.len() == i,
            forall|k: int| 0 <= k < i ==> #[trigger] es[k] == Some(entry_view(out@[k])),
        decreases n - i,
    {
        match zip_entry(&mut archive, i) {
            Ok(e) => out.push(e),
            Err(msg) => {
                assert(!(es[i as int] is Some));
                return Err(msg);
            },
        }
        i += 1;
    }
    assert(entries_view(out@) =~= es.map_values(|e: Option<(Seq<char>, Seq<u8>, bool)>| e->0));
    Ok(out)
}

// ---------------------------------------------------------------------------
// Writing a package

/// A zip package being written to memory by `zip::ZipWriter`. (Verus
/// refuses the declaration of `ZipWriter` itself, whose `Write + Seek`
/// bounds name traits of std it does not know.)
#[verifier::external_body]
pub struct PackageWriter {
    inner: ZipWriter<Cursor<Vec<u8>>>,
}

/// The entries written to a package writer so far, in order.
pub uninterp spec fn spec_writer_entries(writer: PackageWriter) -> Seq<(Seq<char>, Seq<u8>, bool)>;

/// Whether the zip crate accepts one more entry `e` after the entries
/// `written` (it refuses, among others, a name already written).
pub uninterp spec fn spec_zip_accepts(written: Seq<(Seq<char>, Seq<u8>, bool)>, e: (Seq<char>, Seq<u8>, bool)) -> bool;

/// The package `ZipWriter::finish` gives for the entries written; `None`
/// when it fails.
pub uninterp spec fn spec_zip_finish(written: Seq<(Seq<char>, Seq<u8>, bool)>) -> Option<Seq<u8>>;

/// `ZipWriter::new` on an empty in-memory buffer: no entry written yet.
#[verifier::external_body]
fn zip_writer() -> (r: PackageWriter)
    ensures
        spec_writer_entries(r) == Seq::<(Seq<char>, Seq<u8>, bool)>::empty(),
{
    PackageWriter { inner: ZipWriter::new(Cursor::new(Vec::new())) }
}

/// `ZipWriter::start_file`, stored or deflated as the entry says, then its
/// data (`Write::write_all`); the error's message when the entry is
/// refused. An accepted entry is written after the others.
#[verifier::external_body]
fn zip_add(writer: &mut PackageWriter, e: &ZipEntry) -> (r: Result<(), String>)
    ensures
        r is Ok == spec_zip_accepts(spec_writer_entries(*old(writer)), entry_view(*e)),
        r is Ok ==> spec_writer_entries(*final(writer)) == spec_writer_entries(*old(writer)).push(entry_view(*e)),
{
    let method = if e.stored { zip::CompressionMethod::Stored } else { zip::CompressionMethod::Deflated };
    let options = zip::write::SimpleFileOptions::default().compression_method(method);
    writer.inner.start_file(e.name.as_str(), options).map_err(|e| e.to_string())?;
    std::io::Write::write_all(&mut writer.inner, &e.data).map_err(|e| e.to_string())
}

/// `ZipWriter::finish`: the package bytes; the error's message when it
/// fails.
#[verifier::external_body]
fn zip_finish(writer: PackageWriter) -> (r: Result<Vec<u8>, String>)
    ensures
        r is Ok == spec_zip_finish(spec_writer_entries(writer)) is Some,
        r matches Ok(b) ==> spec_zip_finish(spec_writer_entries(writer)) == Some(b@),
{
    writer.inner.finish().map(|c| c.into_inner()).map_err(|e| e.to_string())
}

/// Whether the zip crate accepts each entry after the ones before it.
pub open spec fn spec_zip_all_accepted(entries: Seq<(Seq<char>, Seq<u8>, bool)>) -> bool
    decreases entries.len(),
{
    entries.len() == 0 || (spec_zip_all_accepted(entries.drop_last()) && spec_zip_accepts(
        entries.drop_last(),
        entries.last(),
    ))
}

/// The package the zip crate writes for a list of entries; `None` when an
/// entry is refused or finishing fails.
pub open spec fn spec_zip_write(entries: Seq<(Seq<char>, Seq<u8>, bool)>) -> Option<Seq<u8>> {
    if spec_zip_all_accepted(entries) {
        spec_zip_finish(entries)
    } else {
        None
    }
}

proof fn lemma_accepted_prefix(entries: Seq<(Seq<char>, Seq<u8>, bool)>, k: int)
    requires
        0 <= k <= entries.len(),
        spec_zip_all_accepted(entries),
    ensures
        spec_zip_all_accepted(entries.take(k)),
    decreases entries.len() - k,
{
    if k < entries.len() {
        lemma_accepted_prefix(entries.drop_last(), k);
        assert(entries.drop_last().take(k) =~= entries.take(k));
    } else {
        assert(entries.take(k) =~= entries);
    }
}

/// Write entries, in order, with the zip crate: stored entries stored, the
/// others deflated; the zip crate's message when it fails.
pub(crate) fn zip_write(entries: &Vec<ZipEntry>) -> (r: Result<Vec<u8>, String>)
    ensures
        r is Ok <==> spec_zip_write(entries_view(entries@)) is Some,
        r matches Ok(b) ==> spec_zip_write(entries_view(entries@)) == Some(b@),
{
    let ghost all = entries_view(entries@);
    let mut writer = zip_writer();
    let mut i: usize = 0;
    while i < entries.len()
        invariant
            i <= entries.len(),
            all == entries_view(entries@),
            spec_writer_entries(writer) == all.take(i as int),
            spec_zip_all_accepted(all.take(i as int)),
        decreases entries.len() - i,
    {
        let r = zip_add(&mut writer, &entries[i]);
        proof {
            assert(all.take(i + 1).drop_last() =~= all.take(i as int));
            assert(all.take(i + 1).last() == entry_view(entries@[i as int]));
        }
        match r {
            Ok(()) => {},
            Err(msg) => {
                proof {
                    if spec_zip_all_accepted(all) {
                        lemma_accepted_prefix(all, i + 1);
                    }
                }
                return Err(msg);
            },
        }
        i += 1;
    }
    assert(all.take(entries.len() as int) =~= all);
    zip_finish(writer)
}

/// `String::from_utf8`: the text of UTF-8 bytes, `None` for invalid UTF-8.
#[verifier::external_body]
fn utf8_text(bytes: &Vec<u8>) -> (r: Option<String>)
    ensures
        r is Some <==> valid_utf8(bytes@),
        r matches Some(s) ==> s@ == decode_utf8(bytes@),
{
    String::from_utf8(bytes.clone()).ok()
}

/// Index of the first entry named `name`, or -1.
pub open spec fn spec_entry_index(entries: Seq<(Seq<char>, Seq<u8>, bool)>, name: Seq<char>) -> int
    decreases entries.len(),
{
    if entries.len() == 0 {
        -1
    } else if spec_entry_index(entries.drop_last(), name) >= 0 {
        spec_entry_index(entries.drop_last(), name)
    } else if entries.last().0 == name {
        entries.len() - 1
    } else {
        -1
    }
}

pub proof fn lemma_entry_index(entries: Seq<(Seq<char>, Seq<u8>, bool)>, name: Seq<char>)
    ensures
        -1 <= spec_entry_index(entries, name) < entries.len(),
        spec_entry_index(entries, name) >= 0 ==> entries[spec_entry_index(entries, name)].0 == name,
    decreases entries.len(),
{
    if entries.len() > 0 {
        lemma_entry_index(entries.drop_last(), name);
    }
}

fn find_entry(entries: &Vec<ZipEntry>, name: &str) -> (r: Option<usize>)
    ensures
        match r {
            Some(k) => k == spec_entry_index(entries_view(entries@), name@) && k < entries@.len(),
            None => spec_entry_index(entries_view(entries@), name@) == -1,
        },
{
    let ghost v = entries_view(entries@);
    let mut k: usize = 0;
    while k < entries.len()
        invariant
            k <= entries.len(),
            v == entries_view(entries@),
            spec_entry_index(v.take(k as int), name@) == -1,
        decreases entries.len() - k,
    {
        proof {
            assert(v.take(k + 1).drop_last() == v.take(k as int));
            assert(v.take(k + 1).last() == v[k as int]);
            assert(v[k as int] == entry_view(entries@[k as int]));
        }
        if str_equal(entries[k].name.as_str(), name) {
            proof {
                lemma_entry_index(v, name@);
                lemma_prefix_index(v, name@, (k + 1) as int);
            }
            return Some(k);
        }
        k += 1;
    }
    assert(v.take(entries.len() as int) == v);
    None
}

/// The first index in a prefix that holds the name is the first index in
/// the whole list.
proof fn lemma_prefix_index(entries: Seq<(Seq<char>, Seq<u8>, bool)>, name: Seq<char>, n: int)
    requires
        0 <= n <= entries.len(),
        spec_entry_index(entries.take(n), name) >= 0,
    ensures
        spec_entry_index(entries, name) == spec_entry_index(entries.take(n), name),
    decreases entries.len() - n,
{
    if n < entries.len() {
        assert(entries.take(n + 1).drop_last() == entries.take(n));
        lemma_prefix_index(entries, name, n + 1);
        assert(entries.take(entries.len() as int) == entries);
    } else {
        assert(entries.take(n) == entries);
    }
}

fn copy_bytes(v: &Vec<u8>) -> (r: Vec<u8>)
    ensures
        r@ == v@,
{
    v.clone()
}

// ---------------------------------------------------------------------------
// DOCX

pub open spec fn spec_parsed_theme(text: Seq<char>) -> Option<(Option<Seq<char>>, Option<Seq<char>>)> {
    if spec_is_blank(text) {
        Some((None, None))
    } else if spec_xml_events(text).1 {
        None
    } else {
        Some(spec_theme_from_events(spec_xml_events(text).0))
    }
}

pub open spec fn spec_parsed_sheet(text: Seq<char>) -> Option<
    (Option<Seq<char>>, Seq<(Seq<char>, (Option<Seq<char>>, Option<Seq<char>>))>, Option<Seq<char>>),
> {
    if spec_is_blank(text) {
        Some((None, Seq::empty(), None))
    } else if spec_xml_events(text).1 {
        None
    } else {
        Some(spec_sheet_from_events(spec_xml_events(text).0))
    }
}

/// The theme of a package's entries: the empty theme without
/// `word/theme/theme1.xml`.
pub open spec fn spec_package_theme(entries: Seq<(Seq<char>, Seq<u8>, bool)>) -> Option<(Option<Seq<char>>, Option<Seq<char>>)> {
    let k = spec_entry_index(entries, "word/theme/theme1.xml"@);
    if k < 0 {
        Some((None, None))
    } else if !valid_utf8(entries[k].1) {
        None
    } else {
        spec_parsed_theme(decode_utf8(entries[k].1))
    }
}

/// The stylesheet of a package's entries: the empty sheet without
/// `word/styles.xml`.
pub open spec fn spec_package_sheet(entries: Seq<(Seq<char>, Seq<u8>, bool)>) -> Option<
    (Option<Seq<char>>, Seq<(Seq<char>, (Option<Seq<char>>, Option<Seq<char>>))>, Option<Seq<char>>),
> {
    let k = spec_entry_index(entries, "word/styles.xml"@);
    if k < 0 {
        Some((None, Seq::empty(), None))
    } else if !valid_utf8(entries[k].1) {
        None
    } else {
        spec_parsed_sheet(decode_utf8(entries[k].1))
    }
}

/// `written` keeps every entry of `read` (name, order and compression kind),
/// with the same data except where `rewritten` says otherwise.
pub open spec fn spec_same_entries(
    read: Seq<(Seq<char>, Seq<u8>, bool)>,
    written: Seq<(Seq<char>, Seq<u8>, bool)>,
) -> bool {
    &&& written.len() == read.len()
    &&& forall|k: int| 0 <= k < read.len() ==> #[trigger] written[k].0 == read[k].0 && written[k].2 == read[k].2
}

fn read_text_entry(entries: &Vec<ZipEntry>, k: usize) -> (r: Result<String, String>)
    requires
        k < entries.len(),
    ensures
        r is Ok <==> valid_utf8(entries@[k as int].data@),
        r matches Ok(s) ==> s@ == decode_utf8(entries@[k as int].data@),
{
    match utf8_text(&entries[k].data) {
        Some(s) => Ok(s),
        None => Err(parse_error("entry is not valid UTF-8: ", entries[k].name.as_str())),
    }
}

/// What a converted DOCX package holds, given the entries read: the same
/// entries (names, order, compression kinds), the same data but in
/// `word/document.xml`, which holds the UTF-8 of the document walked with
/// some answers of the visitor, fonts resolved with the package's styles and
/// theme.
pub open spec fn spec_docx_written(
    read: Seq<(Seq<char>, Seq<u8>, bool)>,
    written: Seq<(Seq<char>, Seq<u8>, bool)>,
) -> bool {
    let d = spec_entry_index(read, "word/document.xml"@);
    let doc = decode_utf8(read[d].1);
    &&& d >= 0
    &&& spec_same_entries(read, written)
    &&& forall|k: int| 0 <= k < read.len() && k != d ==> #[trigger] written[k].1 == read[k].1
    &&& valid_utf8(read[d].1)
    &&& spec_package_theme(read) matches Some(th)
    &&& spec_package_sheet(read) matches Some(sh)
    &&& exists|acts: Seq<Option<(Seq<char>, Option<Seq<char>>)>>|
        written[d].1 == vstd::utf8::encode_utf8(#[trigger] spec_doc_state(spec_xml_events(doc).0, sh, Some(th), acts).out)
}

/// Why a DOCX package read is refused: it has no `word/document.xml`, or
/// that entry is not UTF-8 or not well-formed XML as the reader sees it, or
/// the theme or the styles entry cannot be read.
pub open spec fn spec_docx_refused(read: Seq<(Seq<char>, Seq<u8>, bool)>) -> bool {
    let d = spec_entry_index(read, "word/document.xml"@);
    ||| d < 0
    ||| !valid_utf8(read[d].1)
    ||| spec_xml_events(decode_utf8(read[d].1)).1
    ||| spec_package_theme(read) is None
    ||| spec_package_sheet(read) is None
}

/// Convert a DOCX package in memory: stream each run of
/// `word/document.xml` past `visitor` and write the package back.
///
/// Every entry keeps its name, position and compression kind; every entry
/// but `word/document.xml` keeps its data byte for byte, and
/// `word/document.xml` holds the rewritten document. Fonts are resolved
/// with `word/styles.xml` and `word/theme/theme1.xml` when present.
pub fn process_docx_bytes<V: RunVisitor>(input: &[u8], visitor: &mut V) -> (r: Result<Vec<u8>, String>)
    ensures
        spec_zip_read(input@) is None ==> r is Err,
        spec_zip_read(input@) matches Some(read) ==> (spec_docx_refused(read) ==> r is Err),
        r matches Ok(out) ==> (spec_zip_read(input@) matches Some(read) && exists|written: Seq<(Seq<char>, Seq<u8>, bool)>|
            #[trigger] spec_zip_write(written) == Some(out@) && spec_docx_written(read, written)),
        r is Err ==> (spec_zip_read(input@) matches Some(read) ==> (spec_docx_refused(read) || exists|
            written: Seq<(Seq<char>, Seq<u8>, bool)>,
        | #[trigger] spec_zip_write(written) is None && spec_docx_written(read, written))),
{
    let entries = zip_read(input)?;
    let ghost read = entries_view(entries@);
    let d = match find_entry(&entries, "word/document.xml") {
        Some(k) => k,
        None => {
            return Err("word/document.xml not in archive".to_owned());
        },
    };
    let document_xml = read_text_entry(&entries, d)?;
    proof {
        lemma_entry_index(read, "word/document.xml"@);
        assert(read[d as int] == entry_view(entries@[d as int]));
    }
    let theme = match find_entry(&entries, "word/theme/theme1.xml") {
        Some(k) => {
            let s = read_text_entry(&entries, k)?;
            proof {
                assert(read[k as int] == entry_view(entries@[k as int]));
            }
            let t = parse_theme(s.as_str())?;
            assert(spec_package_theme(read) == Some(theme_view(t)));
            t
        },
        None => Theme { minor_latin: None, major_latin: None },
    };
    let stylesheet = match find_entry(&entries, "word/styles.xml") {
        Some(k) => {
            let s = read_text_entry(&entries, k)?;
            proof {
                assert(read[k as int] == entry_view(entries@[k as int]));
            }
            let sh = parse_styles(s.as_str())?;
            assert(spec_package_sheet(read) == Some(sheet_view(sh)));
            sh
        },
        None => {
            let s = Stylesheet { default_font: None, styles: Vec::new(), default_paragraph_style: None };
            assert(crate::styles::styles_view(s.styles@) =~= Seq::empty());
            s
        },
    };
    assert(spec_package_theme(read) == Some(theme_view(theme)));
    assert(spec_package_sheet(read) == Some(sheet_view(stylesheet)));
    let new_document_xml = transform_document_xml(document_xml.as_str(), &stylesheet, Some(&theme), visitor)?;
    let ghost acts = choose|acts: Seq<Option<(Seq<char>, Option<Seq<char>>)>>|
        acts.len() == spec_doc_state(spec_xml_events(document_xml@).0, sv(&stylesheet), opt_theme_view(Some(&theme)), Seq::empty()).visits.len()
            && new_document_xml@ == #[trigger] spec_doc_state(spec_xml_events(document_xml@).0, sv(&stylesheet), opt_theme_view(Some(&theme)), acts).out;
    let mut out: Vec<ZipEntry> = Vec::new();
    let mut k: usize = 0;
    while k < entries.len()
        invariant
            k <= entries.len(),
            d < entries.len(),
            read == entries_view(entries@),
            out@.len() == k,
            forall|m: int| 0 <= m < k ==> #[trigger] entries_view(out@)[m].0 == read[m].0 && entries_view(out@)[m].2 == read[m].2,
            forall|m: int| 0 <= m < k && m != d ==> #[trigger] entries_view(out@)[m].1 == read[m].1,
            d < k ==> entries_view(out@)[d as int].1 == vstd::utf8::encode_utf8(new_document_xml@),
        decreases entries.len() - k,
    {
        let data = if k == d {
            new_document_xml.as_str().as_bytes_vec()
        } else {
            copy_bytes(&entries[k].data)
        };
        let ghost before = entries_view(out@);
        let e = ZipEntry { name: entries[k].name.clone(), data, stored: entries[k].stored };
        let ghost ev = entry_view(e);
        out.push(e);
        proof {
            assert(read[k as int] == entry_view(entries@[k as int]));
            assert(entries_view(out@) =~= before.push(ev));
        }
        k += 1;
    }
    let bytes = zip_write(&out)?;
    proof {
        let written = entries_view(out@);
        assert(spec_same_entries(read, written));
        assert(written[d as int].1 == vstd::utf8::encode_utf8(
            spec_doc_state(spec_xml_events(decode_utf8(read[d as int].1)).0, sheet_view(stylesheet), Some(theme_view(theme)), acts).out,
        ));
        assert(spec_zip_write(written) == Some(bytes@));
        assert(spec_zip_read(input@) == Some(read));
        assert(spec_entry_index(read, "word/document.xml"@) == d);
        assert(spec_docx_written(read, written));
    }
    Ok(bytes)
}

// ---------------------------------------------------------------------------
// PPTX

/// The slide number used for a slide entry: the number in its name, 0 when
/// the name has none.
pub open spec fn spec_slide_number(name: Seq<char>) -> nat {
    match spec_slide_index(name) {
        Some(i) => i as nat,
        None => 0,
    }
}

/// What a converted PPTX entry holds, given the entry read: a slide holds
/// the UTF-8 of the slide walked with some answers of the visitor, any other
/// entry its data unchanged.
pub open spec fn spec_pptx_entry_written(r: (Seq<char>, Seq<u8>, bool), w: (Seq<char>, Seq<u8>, bool)) -> bool {
    if spec_is_slide_xml(r.0) {
        valid_utf8(r.1) && exists|acts: Seq<Option<(Seq<char>, Option<Seq<char>>)>>|
            w.1 == vstd::utf8::encode_utf8(
                #[trigger] spec_slide_state(spec_xml_events(decode_utf8(r.1)).0, spec_slide_number(r.0), acts).out,
            )
    } else {
        w.1 == r.1
    }
}

/// A slide entry that cannot be converted: not UTF-8, or not well-formed XML
/// as the reader sees it.
pub open spec fn spec_slide_refused(e: (Seq<char>, Seq<u8>, bool)) -> bool {
    spec_is_slide_xml(e.0) && (!valid_utf8(e.1) || spec_xml_events(decode_utf8(e.1)).1)
}

/// Why a PPTX package read is refused: one of its slides cannot be
/// converted.
pub open spec fn spec_pptx_refused(read: Seq<(Seq<char>, Seq<u8>, bool)>) -> bool {
    exists|k: int| 0 <= k < read.len() && #[trigger] spec_slide_refused(read[k])
}

/// Convert a PPTX package in memory: stream each run of every slide past
/// `visitor`, slide by slide in package order, and write the package back.
///
/// Every entry keeps its name, position and compression kind; every entry
/// that is not a slide keeps its data byte for byte, and each slide holds
/// its rewritten XML.
pub fn process_pptx_bytes<V: RunVisitor>(input: &[u8], visitor: &mut V) -> (r: Result<Vec<u8>, String>)
    ensures
        spec_zip_read(input@) is None ==> r is Err,
        spec_zip_read(input@) matches Some(read) ==> (spec_pptx_refused(read) ==> r is Err),
        r matches Ok(out) ==> (spec_zip_read(input@) matches Some(read) && exists|written: Seq<(Seq<char>, Seq<u8>, bool)>|
            #[trigger] spec_zip_write(written) == Some(out@) && spec_same_entries(read, written)
                && forall|k: int| 0 <= k < read.len() ==> #[trigger] spec_pptx_entry_written(read[k], written[k])),
        r is Err ==> (spec_zip_read(input@) matches Some(read) ==> (spec_pptx_refused(read) || exists|
            written: Seq<(Seq<char>, Seq<u8>, bool)>,
        | #[trigger] spec_zip_write(written) is None && spec_same_entries(read, written) && forall|k: int|
            0 <= k < read.len() ==> #[trigger] spec_pptx_entry_written(read[k], written[k]))),
{
    let entries = zip_read(input)?;
    let ghost read = entries_view(entries@);
    let mut out: Vec<ZipEntry> = Vec::new();
    let mut k: usize = 0;
    while k < entries.len()
        invariant
            k <= entries.len(),
            read == entries_view(entries@),
            out@.len() == k,
            forall|m: int| 0 <= m < k ==> #[trigger] entries_view(out@)[m].0 == read[m].0 && entries_view(out@)[m].2 == read[m].2,
            forall|m: int| 0 <= m < k ==> #[trigger] spec_pptx_entry_written(read[m], entries_view(out@)[m]),
            forall|m: int| 0 <= m < k ==> !#[trigger] spec_slide_refused(read[m]),
            spec_zip_read(input@) == Some(read),
        decreases entries.len() - k,
    {
        let ghost before = entries_view(out@);
        proof {
            assert(read[k as int] == entry_view(entries@[k as int]));
        }
        let name = entries[k].name.as_str();
        if is_slide_xml(name) {
            let slide_idx = match parse_slide_index(name) {
                Some(i) => i,
                None => 0,
            };
            let xml = match read_text_entry(&entries, k) {
                Ok(x) => x,
                Err(e) => {
                    assert(spec_slide_refused(read[k as int]));
                    return Err(e);
                },
            };
            let new_xml = match transform_slide_xml(xml.as_str(), slide_idx, visitor) {
                Ok(x) => x,
                Err(e) => {
                    assert(spec_slide_refused(read[k as int]));
                    return Err(e);
                },
            };
            let ghost acts = choose|acts: Seq<Option<(Seq<char>, Option<Seq<char>>)>>|
                acts.len() == spec_slide_state(spec_xml_events(xml@).0, slide_idx as nat, Seq::empty()).visits.len()
                    && new_xml@ == #[trigger] spec_slide_state(spec_xml_events(xml@).0, slide_idx as nat, acts).out;
            let e = ZipEntry { name: entries[k].name.clone(), data: new_xml.as_str().as_bytes_vec(), stored: entries[k].stored };
            let ghost ev = entry_view(e);
            out.push(e);
            proof {
                assert(entries_view(out@) =~= before.push(ev));
                assert(spec_slide_number(read[k as int].0) == slide_idx as nat);
                assert(entries_view(out@)[k as int].1 == vstd::utf8::encode_utf8(
                    spec_slide_state(spec_xml_events(decode_utf8(read[k as int].1)).0, spec_slide_number(read[k as int].0), acts).out,
                ));
                assert(spec_pptx_entry_written(read[k as int], entries_view(out@)[k as int]));
                assert forall|m: int| 0 <= m < k + 1 implies #[trigger] spec_pptx_entry_written(read[m], entries_view(out@)[m]) by {
                    if m < k {
                        assert(entries_view(out@)[m] == before[m]);
                    }
                }
            }
        } else {
            let e = ZipEntry { name: entries[k].name.clone(), data: copy_bytes(&entries[k].data), stored: entries[k].stored };
            let ghost ev = entry_view(e);
            out.push(e);
            proof {
                assert(entries_view(out@) =~= before.push(ev));
                assert(spec_pptx_entry_written(read[k as int], entries_view(out@)[k as int]));
                assert forall|m: int| 0 <= m < k + 1 implies #[trigger] spec_pptx_entry_written(read[m], entries_view(out@)[m]) by {
                    if m < k {
                        assert(entries_view(out@)[m] == before[m]);
                    }
                }
            }
        }
        k += 1;
    }
    let ghost written = entries_view(out@);
    proof {
        assert(written.len() == read.len());
        assert forall|m: int| 0 <= m < read.len() implies #[trigger] written[m].0 == read[m].0 && written[m].2
            == read[m].2 by {
            assert(entries_view(out@)[m].0 == read[m].0);
        }
        assert(spec_same_entries(read, written));
        assert(!spec_pptx_refused(read));
    }
    let bytes = zip_write(&out)?;
    assert(spec_zip_write(written) == Some(bytes@));
    Ok(bytes)
}

} // verus!
