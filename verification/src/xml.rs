//! XML events as plain values, with what the OOXML walkers need of them:
//! names, attributes, text escaping, and serialization back to text.
//!
//! The events are those quick-xml's reader yields for a document. Each
//! event keeps the raw text quick-xml holds for it: the inside of a tag
//! (name and attributes), the name of an end tag, escaped character data,
//! or the inside of a comment, CDATA section, declaration, processing
//! instruction or DOCTYPE. Writing an event back wraps that text in its
//! delimiters, as quick-xml's writer does.

use vstd::prelude::*;
use vstd::string::StrSliceExecFns;
use quick_xml::events::{BytesStart, Event};
use quick_xml::Reader;
use crate::text::{append, chars_equal, chars_of};

verus! {

/// The kind of an XML event.
#[derive(Debug, Clone, Copy, PartialEq, Eq, Structural)]
pub enum XmlKind {
    Start,
    End,
    Empty,
    Text,
    CData,
    Comment,
    Decl,
    PI,
    DocType,
}

/// One XML event: its kind and its raw text.
#[derive(Debug)]
pub struct XmlEvent {
    pub kind: XmlKind,
    pub raw: String,
}

/// An event as a value: its kind and its raw text.
pub open spec fn ev_view(e: XmlEvent) -> (XmlKind, Seq<char>) {
    (e.kind, e.raw@)
}

pub open spec fn evs_view(v: Seq<XmlEvent>) -> Seq<(XmlKind, Seq<char>)> {
    v.map_values(|e: XmlEvent| ev_view(e))
}

pub open spec fn pairs_view(v: Seq<(String, String)>) -> Seq<(Seq<char>, Seq<char>)> {
    v.map_values(|p: (String, String)| (p.0@, p.1@))
}

impl XmlEvent {
    pub fn new(kind: XmlKind, raw: String) -> (r: XmlEvent)
        ensures
            r.kind == kind,
            r.raw@ == raw@,
    {
        XmlEvent { kind, raw }
    }

    /// A copy of the event.
    pub fn duplicate(&self) -> (r: XmlEvent)
        ensures
            ev_view(r) == ev_view(*self),
    {
        XmlEvent { kind: self.kind, raw: self.raw.clone() }
    }
}

pub fn copy_events(v: &Vec<XmlEvent>) -> (r: Vec<XmlEvent>)
    ensures
        evs_view(r@) == evs_view(v@),
{
    let mut out: Vec<XmlEvent> = Vec::new();
    let mut i: usize = 0;
    while i < v.len()
        invariant
            i <= v.len(),
            evs_view(out@) == evs_view(v@.take(i as int)),
        decreases v.len() - i,
    {
        out.push(v[i].duplicate());
        assert(evs_view(v@.take(i + 1)) == evs_view(v@.take(i as int)).push(ev_view(v@[i as int])));
        i += 1;
    }
    assert(v@.take(v.len() as int) == v@);
    out
}

// ---------------------------------------------------------------------------
// quick-xml

#[verifier::external_type_specification]
#[verifier::external_body]
#[verifier::reject_recursive_types(R)]
pub struct ExReader<R>(quick_xml::Reader<R>);

/// The events quick-xml's reader yields for `xml` (default configuration:
/// text is not trimmed, end names are checked), in order, up to the end of
/// the input or up to the first error; and whether it stops on an error.
pub uninterp spec fn spec_xml_events(xml: Seq<char>) -> (Seq<(XmlKind, Seq<char>)>, bool);

/// The events a reader has still to yield, in order, up to the end of its
/// input or up to its first error; and whether it stops on an error.
pub uninterp spec fn spec_reader_events(reader: Reader<&[u8]>) -> (Seq<(XmlKind, Seq<char>)>, bool);

/// `quick_xml::Reader::from_str`, default configuration: the reader is to
/// yield the events of `xml`.
#[verifier::external_body]
fn xml_reader<'a>(xml: &'a str) -> (r: Reader<&'a [u8]>)
    ensures
        spec_reader_events(r) == spec_xml_events(xml@),
{
    Reader::from_str(xml)
}

/// `quick_xml::Reader::read_event`: the next event, as its kind and raw
/// text, which the reader then no longer has to yield; `None` at the end of
/// the input; the error's message when the reader stops on an error. The
/// last arm is `Event::DocType`, the one variant left.
#[verifier::external_body]
fn xml_next<'a>(reader: &mut Reader<&'a [u8]>) -> (r: Result<Option<XmlEvent>, String>)
    ensures
        spec_reader_events(*old(reader)).0.len() > 0 ==> (r matches Ok(Some(e)) && ev_view(e)
            == spec_reader_events(*old(reader)).0[0] && spec_reader_events(*final(reader)) == (
            spec_reader_events(*old(reader)).0.drop_first(),
            spec_reader_events(*old(reader)).1,
        )),
        spec_reader_events(*old(reader)).0.len() == 0 ==> (r is Err <==> spec_reader_events(*old(reader)).1),
        spec_reader_events(*old(reader)).0.len() == 0 ==> (r is Ok ==> r == Ok::<Option<XmlEvent>, String>(None)),
{
    let ev = match reader.read_event() { Ok(ev) => ev, Err(e) => return Err(e.to_string()) };
    let kind = match ev {
        Event::Eof => return Ok(None),
        Event::Start(_) => XmlKind::Start, Event::End(_) => XmlKind::End, Event::Empty(_) => XmlKind::Empty,
        Event::Text(_) => XmlKind::Text, Event::CData(_) => XmlKind::CData, Event::Comment(_) => XmlKind::Comment,
        Event::Decl(_) => XmlKind::Decl, Event::PI(_) => XmlKind::PI, _ => XmlKind::DocType,
    };
    Ok(Some(XmlEvent { kind, raw: String::from_utf8_lossy(&ev).into_owned() }))
}

/// All events of `xml`, up to the end or the first error, with the error's
/// message if the reader stopped on one.
pub(crate) fn xml_events(xml: &str) -> (r: (Vec<XmlEvent>, Option<String>))
    ensures
        evs_view(r.0@) == spec_xml_events(xml@).0,
        r.1 is Some == spec_xml_events(xml@).1,
{
    let mut reader = xml_reader(xml);
    let mut out: Vec<XmlEvent> = Vec::new();
    loop
        invariant
            spec_xml_events(xml@).0 == evs_view(out@) + spec_reader_events(reader).0,
            spec_reader_events(reader).1 == spec_xml_events(xml@).1,
        decreases spec_reader_events(reader).0.len(),
    {
        let ghost before = evs_view(out@);
        let ghost pending = spec_reader_events(reader).0;
        match xml_next(&mut reader) {
            Ok(Some(e)) => {
                out.push(e);
                assert(evs_view(out@) =~= before.push(pending[0]));
                assert(before.push(pending[0]) + pending.drop_first() =~= before + pending);
            },
            Ok(None) => {
                assert(evs_view(out@) + pending =~= evs_view(out@));
                return (out, None);
            },
            Err(e) => {
                assert(evs_view(out@) + pending =~= evs_view(out@));
                return (out, Some(e));
            },
        }
    }
}

/// Read all events of an XML text, or the reader's error message.
pub fn read_events(xml: &str) -> (r: Result<Vec<XmlEvent>, String>)
    ensures
        match r {
            Ok(v) => !spec_xml_events(xml@).1 && evs_view(v@) == spec_xml_events(xml@).0,
            Err(_) => spec_xml_events(xml@).1,
        },
{
    let (events, err) = xml_events(xml);
    match err {
        Some(e) => Err(e),
        None => Ok(events),
    }
}

/// The items quick-xml's attribute iterator (without well-formedness
/// checks) yields for a tag whose text after the name is `rest`: each
/// attribute as its raw key and raw (still escaped) value, or `None` for an
/// item reported as an error.
pub uninterp spec fn spec_xml_attribute_items(rest: Seq<char>) -> Seq<Option<(Seq<char>, Seq<char>)>>;

pub open spec fn opt_pairs_view(v: Seq<Option<(String, String)>>) -> Seq<Option<(Seq<char>, Seq<char>)>> {
    v.map_values(
        |p: Option<(String, String)>|
            match p {
                Some(kv) => Some((kv.0@, kv.1@)),
                None => None,
            },
    )
}

/// `BytesStart::attributes().with_checks(false)`, each item as raw key and
/// raw value, or `None` for an error item.
#[verifier::external_body]
fn xml_attribute_items(rest: &str) -> (r: Vec<Option<(String, String)>>)
    ensures
        opt_pairs_view(r@) == spec_xml_attribute_items(rest@),
{
    BytesStart::from_content(rest, 0).attributes().with_checks(false).map(|a| a.ok().map(
        |a| (String::from_utf8_lossy(a.key.as_ref()).into_owned(), String::from_utf8_lossy(&a.value).into_owned()),
    )).collect()
}

/// The attributes of the items, skipping the error items.
pub open spec fn spec_present(items: Seq<Option<(Seq<char>, Seq<char>)>>) -> Seq<(Seq<char>, Seq<char>)>
    decreases items.len(),
{
    if items.len() == 0 {
        Seq::empty()
    } else {
        match items.last() {
            Some(kv) => spec_present(items.drop_last()).push(kv),
            None => spec_present(items.drop_last()),
        }
    }
}

/// The attributes quick-xml finds (without well-formedness checks, skipping
/// malformed ones) in a tag whose text after the name is `rest`: each as its
/// raw key and raw (still escaped) value.
pub open spec fn spec_xml_attributes(rest: Seq<char>) -> Seq<(Seq<char>, Seq<char>)> {
    spec_present(spec_xml_attribute_items(rest))
}

/// The attributes of a tag's text after its name, skipping malformed ones.
fn xml_attributes(rest: &str) -> (r: Vec<(String, String)>)
    ensures
        pairs_view(r@) == spec_xml_attributes(rest@),
{
    let items = xml_attribute_items(rest);
    let ghost iv = opt_pairs_view(items@);
    let mut out: Vec<(String, String)> = Vec::new();
    let mut i: usize = 0;
    while i < items.len()
        invariant
            i <= items.len(),
            iv == opt_pairs_view(items@),
            pairs_view(out@) == spec_present(iv.take(i as int)),
        decreases items.len() - i,
    {
        proof {
            assert(iv.take(i + 1).drop_last() =~= iv.take(i as int));
        }
        match &items[i] {
            Some(kv) => {
                let ghost before = pairs_view(out@);
                out.push((kv.0.clone(), kv.1.clone()));
                assert(pairs_view(out@) =~= before.push((kv.0@, kv.1@)));
            },
            None => {},
        }
        i += 1;
    }
    assert(iv.take(items.len() as int) =~= iv);
    out
}

/// What `quick_xml::escape::unescape` gives for `raw`: the text with
/// character and predefined entity references resolved, or `None` when a
/// reference is malformed or unknown.
pub uninterp spec fn spec_xml_unescape(raw: Seq<char>) -> Option<Seq<char>>;

pub open spec fn opt_string_view(o: Option<String>) -> Option<Seq<char>> {
    match o {
        Some(s) => Some(s@),
        None => None,
    }
}

/// `quick_xml::escape::unescape`. Text without `&` comes back unchanged.
#[verifier::external_body]
pub(crate) fn xml_unescape(raw: &str) -> (r: Option<String>)
    ensures
        opt_string_view(r) == spec_xml_unescape(raw@),
        !raw@.contains('&') ==> opt_string_view(r) == Some(raw@),
{
    match quick_xml::escape::unescape(raw) {
        Ok(s) => Some(s.into_owned()),
        Err(_) => None,
    }
}

pub open spec fn spec_escape_char(c: char) -> Seq<char> {
    if c == '<' {
        "&lt;"@
    } else if c == '>' {
        "&gt;"@
    } else if c == '&' {
        "&amp;"@
    } else if c == '\'' {
        "&apos;"@
    } else if c == '"' {
        "&quot;"@
    } else {
        seq![c]
    }
}

/// `s` with `<`, `>`, `&`, `'` and `"` replaced by their entity references.
pub open spec fn spec_xml_escape(s: Seq<char>) -> Seq<char>
    decreases s.len(),
{
    if s.len() == 0 {
        Seq::empty()
    } else {
        spec_xml_escape(s.drop_last()) + spec_escape_char(s.last())
    }
}

/// `quick_xml::escape::escape`: replaces `<`, `>`, `&`, `'` and `"` by
/// `&lt;`, `&gt;`, `&amp;`, `&apos;` and `&quot;`.
#[verifier::external_body]
pub(crate) fn xml_escape(s: &str) -> (r: String)
    ensures
        r@ == spec_xml_escape(s@),
{
    quick_xml::escape::escape(s).into_owned()
}

// ---------------------------------------------------------------------------
// Names

pub open spec fn spec_is_xml_space(c: char) -> bool {
    c == ' ' || c == '\r' || c == '\n' || c == '\t'
}

/// Where the name of a tag ends in its raw text: at the first XML white
/// space, or at the end.
pub open spec fn spec_name_end(raw: Seq<char>) -> int
    decreases raw.len(),
{
    if raw.len() == 0 {
        0
    } else if spec_name_end(raw.drop_last()) < raw.len() - 1 {
        spec_name_end(raw.drop_last())
    } else if spec_is_xml_space(raw.last()) {
        raw.len() - 1
    } else {
        raw.len() as int
    }
}

pub proof fn lemma_name_end_bounds(raw: Seq<char>)
    ensures
        0 <= spec_name_end(raw) <= raw.len(),
    decreases raw.len(),
{
    if raw.len() > 0 {
        lemma_name_end_bounds(raw.drop_last());
    }
}

/// The name of an element event: the text up to the first white space of a
/// start or empty tag, the whole text of an end tag.
pub open spec fn spec_event_name(e: (XmlKind, Seq<char>)) -> Option<Seq<char>> {
    match e.0 {
        XmlKind::Start | XmlKind::Empty => Some(e.1.take(spec_name_end(e.1))),
        XmlKind::End => Some(e.1),
        _ => None,
    }
}

/// Index of the last `c` in `s`, or -1.
pub open spec fn spec_last_index(s: Seq<char>, c: char) -> int
    decreases s.len(),
{
    if s.len() == 0 {
        -1
    } else if s.last() == c {
        s.len() - 1
    } else {
        spec_last_index(s.drop_last(), c)
    }
}

pub proof fn lemma_last_index_bounds(s: Seq<char>, c: char)
    ensures
        -1 <= spec_last_index(s, c) < s.len(),
    decreases s.len(),
{
    if s.len() > 0 {
        lemma_last_index_bounds(s.drop_last(), c);
    }
}

/// The local part of a qualified name: what follows the last `:`.
pub open spec fn spec_local(name: Seq<char>) -> Seq<char> {
    name.subrange(spec_last_index(name, ':') + 1, name.len() as int)
}

/// The local name of an element event.
pub open spec fn spec_local_name(e: (XmlKind, Seq<char>)) -> Option<Seq<char>> {
    match spec_event_name(e) {
        Some(n) => Some(spec_local(n)),
        None => None,
    }
}

/// Whether `e` is of kind `k` with local name `want`.
pub open spec fn spec_is(e: (XmlKind, Seq<char>), k: XmlKind, want: Seq<char>) -> bool {
    e.0 == k && spec_local_name(e) == Some(want)
}

/// The text after the name of a start or empty tag.
pub open spec fn spec_after_name(raw: Seq<char>) -> Seq<char> {
    raw.subrange(spec_name_end(raw), raw.len() as int)
}

/// The attributes of a start or empty tag.
pub open spec fn spec_attributes(e: (XmlKind, Seq<char>)) -> Seq<(Seq<char>, Seq<char>)> {
    spec_xml_attributes(spec_after_name(e.1))
}

pub fn name_end(cs: &Vec<char>) -> (r: usize)
    ensures
        r == spec_name_end(cs@),
{
    let mut i: usize = 0;
    let mut end: usize = 0;
    let mut found = false;
    while i < cs.len()
        invariant
            i <= cs.len(),
            found ==> end == spec_name_end(cs@.take(i as int)) && end < i,
            !found ==> spec_name_end(cs@.take(i as int)) == i,
        decreases cs.len() - i,
    {
        proof {
            assert(cs@.take(i + 1).drop_last() == cs@.take(i as int));
            assert(cs@.take(i + 1).last() == cs@[i as int]);
        }
        if !found {
            let c = cs[i];
            if c == ' ' || c == '\r' || c == '\n' || c == '\t' {
                found = true;
                end = i;
            }
        }
        i += 1;
    }
    assert(cs@.take(cs.len() as int) == cs@);
    if found {
        end
    } else {
        cs.len()
    }
}

/// The characters of the event's name, if it is an element event.
fn event_name_chars(e: &XmlEvent) -> (r: Option<Vec<char>>)
    ensures
        match r {
            Some(v) => spec_event_name(ev_view(*e)) == Some(v@),
            None => spec_event_name(ev_view(*e)) is None,
        },
{
    match e.kind {
        XmlKind::Start | XmlKind::Empty => {
            let cs = chars_of(e.raw.as_str());
            let n = name_end(&cs);
            proof {
                lemma_name_end_bounds(cs@);
            }
            let mut out: Vec<char> = Vec::new();
            let mut i: usize = 0;
            while i < n
                invariant
                    i <= n <= cs.len(),
                    out@ == cs@.take(i as int),
                decreases n - i,
            {
                out.push(cs[i]);
                assert(cs@.take(i + 1) == cs@.take(i as int).push(cs@[i as int]));
                i += 1;
            }
            Some(out)
        },
        XmlKind::End => Some(chars_of(e.raw.as_str())),
        _ => None,
    }
}

/// The local part of a name.
fn local_chars(name: &Vec<char>) -> (r: Vec<char>)
    ensures
        r@ == spec_local(name@),
{
    let mut last: usize = 0;
    let mut seen = false;
    let mut i: usize = 0;
    while i < name.len()
        invariant
            i <= name.len(),
            seen ==> last == spec_last_index(name@.take(i as int), ':') && last < i,
            !seen ==> spec_last_index(name@.take(i as int), ':') == -1,
        decreases name.len() - i,
    {
        proof {
            assert(name@.take(i + 1).drop_last() == name@.take(i as int));
            assert(name@.take(i + 1).last() == name@[i as int]);
        }
        if name[i] == ':' {
            seen = true;
            last = i;
        }
        i += 1;
    }
    assert(name@.take(name.len() as int) == name@);
    let start: usize = if seen {
        last + 1
    } else {
        0
    };
    let mut out: Vec<char> = Vec::new();
    let mut j: usize = start;
    while j < name.len()
        invariant
            start <= j <= name.len(),
            out@ == name@.subrange(start as int, j as int),
        decreases name.len() - j,
    {
        out.push(name[j]);
        assert(name@.subrange(start as int, j + 1) == name@.subrange(start as int, j as int).push(
            name@[j as int],
        ));
        j += 1;
    }
    out
}

/// Whether the event is of kind `k` with local name `want`.
pub fn is_element(e: &XmlEvent, k: XmlKind, want: &str) -> (r: bool)
    ensures
        r == spec_is(ev_view(*e), k, want@),
{
    if e.kind != k {
        return false;
    }
    match event_name_chars(e) {
        Some(name) => {
            let local = local_chars(&name);
            let w = chars_of(want);
            chars_equal(&local, &w)
        },
        None => false,
    }
}

/// Whether the event is a start or an empty tag with local name `want`.
pub fn is_tag(e: &XmlEvent, want: &str) -> (r: bool)
    ensures
        r == (spec_is(ev_view(*e), XmlKind::Start, want@) || spec_is(
            ev_view(*e),
            XmlKind::Empty,
            want@,
        )),
{
    is_element(e, XmlKind::Start, want) || is_element(e, XmlKind::Empty, want)
}

/// The text of a start or empty tag after its name.
fn after_name(e: &XmlEvent) -> (r: &str)
    ensures
        r@ == spec_after_name(e.raw@),
{
    let cs = chars_of(e.raw.as_str());
    let n = name_end(&cs);
    proof {
        lemma_name_end_bounds(cs@);
    }
    e.raw.as_str().substring_char(n, cs.len())
}

/// The attributes of a start or empty tag, as raw keys and values.
pub fn attributes(e: &XmlEvent) -> (r: Vec<(String, String)>)
    ensures
        pairs_view(r@) == spec_attributes(ev_view(*e)),
{
    xml_attributes(after_name(e))
}

/// Whether the local part of `key` is `want`.
pub fn key_local_is(key: &str, want: &str) -> (r: bool)
    ensures
        r == (spec_local(key@) == want@),
{
    let k = chars_of(key);
    let local = local_chars(&k);
    let w = chars_of(want);
    chars_equal(&local, &w)
}

/// The first attribute whose key has local name `want`, unescaped; `None`
/// when there is none or when its value does not unescape.
pub open spec fn spec_attr_from(attrs: Seq<(Seq<char>, Seq<char>)>, want: Seq<char>) -> Option<Seq<char>>
    decreases attrs.len(),
{
    if attrs.len() == 0 {
        None
    } else if spec_local(attrs[0].0) == want {
        spec_xml_unescape(attrs[0].1)
    } else {
        spec_attr_from(attrs.drop_first(), want)
    }
}

pub open spec fn spec_attr(e: (XmlKind, Seq<char>), want: Seq<char>) -> Option<Seq<char>> {
    spec_attr_from(spec_attributes(e), want)
}

/// The unescaped value of the first attribute whose key has local name
/// `want`.
pub fn attr(e: &XmlEvent, want: &str) -> (r: Option<String>)
    ensures
        opt_string_view(r) == spec_attr(ev_view(*e), want@),
{
    let attrs = attributes(e);
    let ghost all = pairs_view(attrs@);
    assert(all.skip(0) == all);
    let mut i: usize = 0;
    while i < attrs.len()
        invariant
            i <= attrs.len(),
            all == pairs_view(attrs@),
            all == spec_attributes(ev_view(*e)),
            spec_attr_from(all, want@) == spec_attr_from(all.skip(i as int), want@),
        decreases attrs.len() - i,
    {
        assert(all.skip(i as int).drop_first() == all.skip(i + 1));
        assert(all.skip(i as int)[0] == all[i as int]);
        assert(all[i as int] == (attrs@[i as int].0@, attrs@[i as int].1@));
        let key = attrs[i].0.as_str();
        let value = attrs[i].1.as_str();
        if key_local_is(key, want) {
            let r = xml_unescape(value);
            assert(spec_attr_from(all.skip(i as int), want@) == spec_xml_unescape(value@));
            return r;
        }
        i += 1;
    }
    assert(all.skip(i as int).len() == 0);
    None
}

// ---------------------------------------------------------------------------
// Writing

/// An event written back as text.
pub open spec fn spec_serialize(e: (XmlKind, Seq<char>)) -> Seq<char> {
    match e.0 {
        XmlKind::Start => "<"@ + e.1 + ">"@,
        XmlKind::End => "</"@ + e.1 + ">"@,
        XmlKind::Empty => "<"@ + e.1 + "/>"@,
        XmlKind::Text => e.1,
        XmlKind::CData => "<![CDATA["@ + e.1 + "]]>"@,
        XmlKind::Comment => "<!--"@ + e.1 + "-->"@,
        XmlKind::Decl => "<?"@ + e.1 + "?>"@,
        XmlKind::PI => "<?"@ + e.1 + "?>"@,
        XmlKind::DocType => "<!DOCTYPE "@ + e.1 + ">"@,
    }
}

/// Events written back one after the other.
pub open spec fn spec_serialize_all(evs: Seq<(XmlKind, Seq<char>)>) -> Seq<char>
    decreases evs.len(),
{
    if evs.len() == 0 {
        Seq::empty()
    } else {
        spec_serialize_all(evs.drop_last()) + spec_serialize(evs.last())
    }
}

/// Append the text of `e` to `out`.
pub fn write_event(out: &mut String, e: &XmlEvent)
    ensures
        final(out)@ == old(out)@ + spec_serialize(ev_view(*e)),
{
    let (open, close): (&str, &str) = match e.kind {
        XmlKind::Start => ("<", ">"),
        XmlKind::End => ("</", ">"),
        XmlKind::Empty => ("<", "/>"),
        XmlKind::Text => ("", ""),
        XmlKind::CData => ("<![CDATA[", "]]>"),
        XmlKind::Comment => ("<!--", "-->"),
        XmlKind::Decl => ("<?", "?>"),
        XmlKind::PI => ("<?", "?>"),
        XmlKind::DocType => ("<!DOCTYPE ", ">"),
    };
    proof {
        reveal_strlit("");
    }
    append(out, open);
    append(out, e.raw.as_str());
    append(out, close);
    assert(old(out)@ + spec_serialize(ev_view(*e)) =~= old(out)@ + open@ + e.raw@ + close@);
}

/// Append the text of all `evs` to `out`.
pub fn write_events(out: &mut String, evs: &Vec<XmlEvent>)
    ensures
        final(out)@ == old(out)@ + spec_serialize_all(evs_view(evs@)),
{
    let mut i: usize = 0;
    while i < evs.len()
        invariant
            i <= evs.len(),
            out@ == old(out)@ + spec_serialize_all(evs_view(evs@.take(i as int))),
        decreases evs.len() - i,
    {
        proof {
            assert(evs_view(evs@.take(i + 1)).drop_last() == evs_view(evs@.take(i as int)));
        }
        write_event(out, &evs[i]);
        i += 1;
    }
    assert(evs@.take(evs.len() as int) == evs@);
}

/// The text of a tag holding `name` and one attribute per pair, each
/// written ` key="value"` with the value as given.
pub open spec fn spec_tag_text(name: Seq<char>, attrs: Seq<(Seq<char>, Seq<char>)>) -> Seq<char>
    decreases attrs.len(),
{
    if attrs.len() == 0 {
        name
    } else {
        spec_tag_text(name, attrs.drop_last()) + " "@ + attrs.last().0 + "=\""@ + attrs.last().1
            + "\""@
    }
}

/// Append ` key="value"` to a tag's text.
pub fn push_attribute(tag: &mut String, key: &str, value: &str)
    ensures
        final(tag)@ == old(tag)@ + " "@ + key@ + "=\""@ + value@ + "\""@,
{
    append(tag, " ");
    append(tag, key);
    append(tag, "=\"");
    append(tag, value);
    append(tag, "\"");
}

} // verus!
