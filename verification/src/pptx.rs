//! The slide walker of the PPTX adapter.
//!
//! Every `<a:r>` run of a slide is handed to the visitor with the font of
//! its `<a:latin typeface="…">` and its text, and written back with the
//! visitor's text and font. Everything else passes through unchanged.
//!
//! The PPTX style cascade (shape, layout, master, theme) is not followed:
//! a run whose font is inherited is handed over without a font.

use vstd::prelude::*;
use vstd::string::StrSliceExecFns;
use crate::docx::{
    action_view, actions_view, info_view, infos_view, opt_ev_view, rb_view, spec_action_at,
    spec_run_as_read, RunBufV, RunBuffer, RunInfo, VisitV,
};
use crate::fonts::{contains_chars, spec_contains};
use crate::ooxml::{
    emit_run_events, insert_before, make_latin, opt_str_view, run_text, scan_tags, spec_emit_state,
    spec_has_tag, spec_is_tag, spec_last_of, spec_make_latin, spec_run_text, str_seq_view,
    lemma_last_of_bounds,
};
use crate::text::{append, chars_of};
use crate::visitor::{RunAction, RunVisitor};
use crate::xml::{
    attr, attributes, copy_events, ev_view, evs_view, is_element, opt_string_view, pairs_view,
    push_attribute, spec_attr, spec_attributes, spec_is, spec_name_end, spec_serialize,
    spec_serialize_all, spec_tag_text, spec_xml_events, write_event, xml_events, XmlEvent, XmlKind,
};

verus! {

// ---------------------------------------------------------------------------
// Slide entries

/// `s` starts with `p`.
pub open spec fn spec_starts_with(s: Seq<char>, p: Seq<char>) -> bool {
    p.len() <= s.len() && s.take(p.len() as int) == p
}

/// `s` ends with `p`.
pub open spec fn spec_ends_with(s: Seq<char>, p: Seq<char>) -> bool {
    p.len() <= s.len() && s.skip(s.len() - p.len()) == p
}

fn starts_with(s: &Vec<char>, p: &Vec<char>) -> (r: bool)
    ensures
        r == spec_starts_with(s@, p@),
{
    if p.len() > s.len() {
        return false;
    }
    let mut i: usize = 0;
    while i < p.len()
        invariant
            p.len() <= s.len(),
            i <= p.len(),
            forall|k: int| 0 <= k < i ==> s@[k] == p@[k],
        decreases p.len() - i,
    {
        if s[i] != p[i] {
            assert(s@.take(p.len() as int)[i as int] != p@[i as int]);
            return false;
        }
        i += 1;
    }
    assert(s@.take(p.len() as int) =~= p@);
    true
}

fn ends_with(s: &Vec<char>, p: &Vec<char>) -> (r: bool)
    ensures
        r == spec_ends_with(s@, p@),
{
    if p.len() > s.len() {
        return false;
    }
    let off = s.len() - p.len();
    let mut i: usize = 0;
    while i < p.len()
        invariant
            p.len() <= s.len(),
            off == s.len() - p.len(),
            i <= p.len(),
            forall|k: int| 0 <= k < i ==> s@[off + k] == p@[k],
        decreases p.len() - i,
    {
        if s[off + i] != p[i] {
            assert(s@.skip(off as int)[i as int] != p@[i as int]);
            return false;
        }
        i += 1;
    }
    assert(s@.skip(off as int) =~= p@);
    true
}

/// Whether a zip entry is a slide: under `ppt/slides/slide`, ending in
/// `.xml`, and not a layout, master or relationship part.
pub open spec fn spec_is_slide_xml(name: Seq<char>) -> bool {
    spec_starts_with(name, "ppt/slides/slide"@) && spec_ends_with(name, ".xml"@) && !spec_contains(
        name,
        "Layout"@,
    ) && !spec_contains(name, "Master"@) && !spec_contains(name, "_rels"@)
}

/// Whether a zip entry name is a slide XML part.
pub fn is_slide_xml(name: &str) -> (r: bool)
    ensures
        r == spec_is_slide_xml(name@),
{
    let cs = chars_of(name);
    starts_with(&cs, &chars_of("ppt/slides/slide")) && ends_with(&cs, &chars_of(".xml"))
        && !contains_chars(&cs, &chars_of("Layout")) && !contains_chars(&cs, &chars_of("Master"))
        && !contains_chars(&cs, &chars_of("_rels"))
}

pub open spec fn spec_is_digit(c: char) -> bool {
    '0' <= c && c <= '9'
}

/// The decimal value of a string of digits.
pub open spec fn spec_decimal(s: Seq<char>) -> nat
    decreases s.len(),
{
    if s.len() == 0 {
        0
    } else {
        spec_decimal(s.drop_last()) * 10 + ((s.last() as u32) - ('0' as u32)) as nat
    }
}

/// The digits of an unsigned decimal: an optional leading `+` is dropped.
pub open spec fn spec_digits(s: Seq<char>) -> Seq<char> {
    if s.len() > 1 && s[0] == '+' {
        s.drop_first()
    } else {
        s
    }
}

/// What `str::parse::<usize>` gives: the value of a non-empty string of
/// decimal digits (after an optional `+`) that fits in `usize`.
pub open spec fn spec_parse_usize(s: Seq<char>) -> Option<usize> {
    let d = spec_digits(s);
    if d.len() > 0 && (forall|k: int| 0 <= k < d.len() ==> spec_is_digit(#[trigger] d[k])) && spec_decimal(d)
        <= usize::MAX {
        Some(spec_decimal(d) as usize)
    } else {
        None
    }
}

proof fn lemma_decimal_monotone(s: Seq<char>, k: int)
    requires
        0 <= k <= s.len(),
        forall|m: int| 0 <= m < s.len() ==> spec_is_digit(#[trigger] s[m]),
    ensures
        spec_decimal(s.take(k)) <= spec_decimal(s),
    decreases s.len() - k,
{
    if k < s.len() {
        lemma_decimal_monotone(s, k + 1);
        assert(s.take(k + 1).drop_last() == s.take(k));
    } else {
        assert(s.take(k) == s);
    }
}

/// Parse an unsigned decimal the way `str::parse::<usize>` does.
pub fn parse_usize(s: &str) -> (r: Option<usize>)
    ensures
        r == spec_parse_usize(s@),
{
    let cs = chars_of(s);
    let start: usize = if cs.len() > 1 && cs[0] == '+' {
        1
    } else {
        0
    };
    let ghost d = spec_digits(s@);
    assert(d == cs@.skip(start as int));
    if cs.len() == start {
        return None;
    }
    let mut value: usize = 0;
    let mut i: usize = start;
    while i < cs.len()
        invariant
            start <= i <= cs.len(),
            cs@ == s@,
            d == cs@.skip(start as int),
            d == spec_digits(s@),
            forall|k: int| start <= k < i ==> spec_is_digit(#[trigger] cs@[k]),
            value == spec_decimal(d.take(i - start)),
        decreases cs.len() - i,
    {
        proof {
            assert(d.take(i - start + 1).drop_last() == d.take(i - start));
            assert(d.take(i - start + 1).last() == cs@[i as int]);
        }
        let c = cs[i];
        if !('0' <= c && c <= '9') {
            assert(d[i - start] == cs@[i as int]);
            assert(!spec_is_digit(d[i - start]));
            assert(!(forall|k: int| 0 <= k < d.len() ==> spec_is_digit(#[trigger] d[k])));
            return None;
        }
        let digit = ((c as u32) - ('0' as u32)) as usize;
        proof {
            assert(spec_decimal(d.take(i - start + 1)) == value * 10 + digit);
        }
        match value.checked_mul(10) {
            Some(v) => match v.checked_add(digit) {
                Some(w) => {
                    value = w;
                },
                None => {
                    proof {
                        assert forall|k: int| 0 <= k < d.take(i - start + 1).len() implies spec_is_digit(#[trigger] d.take(i - start + 1)[k]) by {
                            assert(d.take(i - start + 1)[k] == cs@[start + k]);
                        }
                        if forall|k: int| 0 <= k < d.len() ==> spec_is_digit(#[trigger] d[k]) {
                            lemma_decimal_monotone(d, i - start + 1);
                        }
                    }
                    return None;
                },
            },
            None => {
                proof {
                    if forall|k: int| 0 <= k < d.len() ==> spec_is_digit(#[trigger] d[k]) {
                        lemma_decimal_monotone(d, i - start + 1);
                    }
                }
                return None;
            },
        }
        i += 1;
    }
    assert(d.take(cs.len() - start) == d);
    assert forall|k: int| 0 <= k < d.len() implies spec_is_digit(#[trigger] d[k]) by {
        assert(d[k] == cs@[start + k]);
    }
    Some(value)
}

/// The slide number in a slide entry name (`ppt/slides/slide12.xml` is 12).
pub open spec fn spec_slide_index(name: Seq<char>) -> Option<usize> {
    let p = "ppt/slides/slide"@;
    let x = ".xml"@;
    if spec_starts_with(name, p) && spec_ends_with(name.skip(p.len() as int), x) {
        spec_parse_usize(name.subrange(p.len() as int, name.len() - x.len()))
    } else {
        None
    }
}

/// The slide number in a slide entry name, if it has one.
pub fn parse_slide_index(name: &str) -> (r: Option<usize>)
    ensures
        r == spec_slide_index(name@),
{
    let cs = chars_of(name);
    let p = chars_of("ppt/slides/slide");
    let x = chars_of(".xml");
    if !starts_with(&cs, &p) {
        return None;
    }
    let mut rest: Vec<char> = Vec::new();
    let mut i: usize = p.len();
    while i < cs.len()
        invariant
            p.len() <= i <= cs.len(),
            rest@ == cs@.subrange(p.len() as int, i as int),
        decreases cs.len() - i,
    {
        rest.push(cs[i]);
        assert(cs@.subrange(p.len() as int, i + 1) == cs@.subrange(p.len() as int, i as int).push(cs@[i as int]));
        i += 1;
    }
    assert(rest@ == cs@.skip(p.len() as int));
    if !ends_with(&rest, &x) {
        return None;
    }
    let stem = name.substring_char(p.len(), cs.len() - x.len());
    parse_usize(stem)
}

// ---------------------------------------------------------------------------
// Runs

/// The font a run names: the `typeface` of its first `<a:latin>`.
pub open spec fn spec_latin_font(evs: Seq<(XmlKind, Seq<char>)>) -> Option<Seq<char>>
    decreases evs.len(),
{
    if evs.len() == 0 {
        None
    } else {
        let prev = spec_latin_font(evs.drop_last());
        if prev is Some {
            prev
        } else if spec_is_tag(evs.last(), "latin"@) {
            spec_attr(evs.last(), "typeface"@)
        } else {
            None
        }
    }
}

/// The font a run names and its text.
pub fn extract_font_and_text(events: &Vec<XmlEvent>) -> (r: (Option<String>, String))
    ensures
        opt_string_view(r.0) == spec_latin_font(evs_view(events@)),
        r.1@ == spec_run_text(evs_view(events@)),
{
    let mut font: Option<String> = None;
    let mut i: usize = 0;
    while i < events.len()
        invariant
            i <= events.len(),
            opt_string_view(font) == spec_latin_font(evs_view(events@.take(i as int))),
        decreases events.len() - i,
    {
        proof {
            assert(evs_view(events@.take(i + 1)).drop_last() == evs_view(events@.take(i as int)));
            assert(evs_view(events@.take(i + 1)).last() == ev_view(events@[i as int]));
        }
        if font.is_none() {
            let e = &events[i];
            if is_element(e, XmlKind::Empty, "latin") || is_element(e, XmlKind::Start, "latin") {
                font = attr(e, "typeface");
            }
        }
        i += 1;
    }
    assert(events@.take(events.len() as int) == events@);
    (font, run_text(events))
}

/// A run's events with an `<a:latin>` for `font` added when the run has
/// none: an empty `<a:rPr …/>` is opened around it, an `<a:rPr>` receives
/// it before its last end, and a run without properties gets a new
/// `<a:rPr>` at the front.
pub open spec fn spec_inject_latin(evs: Seq<(XmlKind, Seq<char>)>, font: Seq<char>) -> Seq<(XmlKind, Seq<char>)> {
    let empty_at = spec_last_of(evs, XmlKind::Empty, "rPr"@);
    if spec_has_tag(evs, "latin"@) {
        evs
    } else if empty_at >= 0 {
        let e = evs[empty_at];
        let name = e.1.take(spec_name_end(e.1));
        evs.take(empty_at) + seq![
            (XmlKind::Start, spec_tag_text(name, spec_attributes(e))),
            (XmlKind::Empty, spec_make_latin(font)),
            (XmlKind::End, name),
        ] + evs.skip(empty_at + 1)
    } else if spec_has_tag(evs, "rPr"@) {
        let k = spec_last_of(evs, XmlKind::End, "rPr"@);
        if k >= 0 {
            evs.insert(k, (XmlKind::Empty, spec_make_latin(font)))
        } else {
            evs
        }
    } else {
        seq![(XmlKind::Start, "a:rPr"@), (XmlKind::Empty, spec_make_latin(font)), (XmlKind::End, "a:rPr"@)]
            + evs
    }
}

/// The start tag text of an empty tag reopened: its name and its attributes
/// written back.
fn reopened_tag(e: &XmlEvent) -> (r: (String, String))
    ensures
        r.0@ == spec_tag_text(e.raw@.take(spec_name_end(e.raw@)), spec_attributes(ev_view(*e))),
        r.1@ == e.raw@.take(spec_name_end(e.raw@)),
{
    let cs = chars_of(e.raw.as_str());
    let n = crate::xml::name_end(&cs);
    proof {
        crate::xml::lemma_name_end_bounds(cs@);
    }
    let mut name = String::new();
    let mut i: usize = 0;
    while i < n
        invariant
            i <= n <= cs.len(),
            cs@ == e.raw@,
            n == spec_name_end(cs@),
            name@ == cs@.take(i as int),
        decreases n - i,
    {
        name.push(cs[i]);
        assert(cs@.take(i + 1) == cs@.take(i as int).push(cs@[i as int]));
        i += 1;
    }
    let attrs = attributes(e);
    let ghost av = pairs_view(attrs@);
    let mut tag = String::new();
    append(&mut tag, name.as_str());
    assert(Seq::<char>::empty() + name@ == name@);
    let mut k: usize = 0;
    while k < attrs.len()
        invariant
            k <= attrs.len(),
            av == pairs_view(attrs@),
            tag@ == spec_tag_text(name@, av.take(k as int)),
        decreases attrs.len() - k,
    {
        proof {
            assert(av.take(k + 1).drop_last() == av.take(k as int));
            assert(av.take(k + 1).last() == (attrs@[k as int].0@, attrs@[k as int].1@));
        }
        push_attribute(&mut tag, attrs[k].0.as_str(), attrs[k].1.as_str());
        k += 1;
    }
    assert(av.take(attrs.len() as int) == av);
    (tag, name)
}

/// If the run has no `<a:latin>`, inject one so the new font survives.
pub fn inject_font_if_missing(events: &Vec<XmlEvent>, font: &str) -> (r: Vec<XmlEvent>)
    ensures
        evs_view(r@) == spec_inject_latin(evs_view(events@), font@),
{
    let ghost v = evs_view(events@);
    let (has_latin, _) = scan_tags(events, "latin", XmlKind::End, "rPr");
    let (has_rpr, rpr_end) = scan_tags(events, "rPr", XmlKind::End, "rPr");
    let (_, rpr_empty) = scan_tags(events, "rPr", XmlKind::Empty, "rPr");
    proof {
        lemma_last_of_bounds(v, XmlKind::End, "rPr"@);
        lemma_last_of_bounds(v, XmlKind::Empty, "rPr"@);
    }
    if has_latin {
        return copy_events(events);
    }
    match rpr_empty {
        Some(at) => {
            let (open, name) = reopened_tag(&events[at]);
            assert(v[at as int] == ev_view(events@[at as int]));
            let mut out: Vec<XmlEvent> = Vec::new();
            let mut i: usize = 0;
            while i < at
                invariant
                    i <= at < events.len(),
                    v == evs_view(events@),
                    evs_view(out@) == v.take(i as int),
                decreases at - i,
            {
                let ghost b = evs_view(out@);
                out.push(events[i].duplicate());
                assert(evs_view(out@) =~= b.push(v[i as int]));
                assert(v.take(i + 1) == v.take(i as int).push(v[i as int]));
                i += 1;
            }
            let ghost head = evs_view(out@);
            out.push(XmlEvent::new(XmlKind::Start, open));
            out.push(XmlEvent::new(XmlKind::Empty, make_latin(font)));
            out.push(XmlEvent::new(XmlKind::End, name));
            let ghost mid = evs_view(out@);
            assert(mid =~= head + seq![
                (XmlKind::Start, spec_tag_text(v[at as int].1.take(spec_name_end(v[at as int].1)), spec_attributes(v[at as int]))),
                (XmlKind::Empty, spec_make_latin(font@)),
                (XmlKind::End, v[at as int].1.take(spec_name_end(v[at as int].1))),
            ]);
            let mut j: usize = at + 1;
            while j < events.len()
                invariant
                    at < j <= events.len(),
                    v == evs_view(events@),
                    evs_view(out@) == mid + v.subrange(at + 1, j as int),
                decreases events.len() - j,
            {
                let ghost b = evs_view(out@);
                out.push(events[j].duplicate());
                assert(evs_view(out@) =~= b.push(v[j as int]));
                assert(v.subrange(at + 1, j + 1) == v.subrange(at + 1, j as int).push(v[j as int]));
                assert(evs_view(out@) =~= mid + v.subrange(at + 1, j + 1));
                j += 1;
            }
            assert(v.subrange(at + 1, events.len() as int) == v.skip(at + 1));
            out
        },
        None => {
            if has_rpr {
                match rpr_end {
                    Some(k) => insert_before(events, k, XmlEvent::new(XmlKind::Empty, make_latin(font))),
                    None => copy_events(events),
                }
            } else {
                let mut out: Vec<XmlEvent> = Vec::new();
                out.push(XmlEvent::new(XmlKind::Start, "a:rPr".to_owned()));
                out.push(XmlEvent::new(XmlKind::Empty, make_latin(font)));
                out.push(XmlEvent::new(XmlKind::End, "a:rPr".to_owned()));
                let ghost head = evs_view(out@);
                let mut i: usize = 0;
                while i < events.len()
                    invariant
                        i <= events.len(),
                        v == evs_view(events@),
                        evs_view(out@) == head + v.take(i as int),
                    decreases events.len() - i,
                {
                    let ghost b = evs_view(out@);
                    out.push(events[i].duplicate());
                    assert(evs_view(out@) =~= b.push(v[i as int]));
                    assert(v.take(i + 1) == v.take(i as int).push(v[i as int]));
                    assert(evs_view(out@) =~= head + v.take(i + 1));
                    i += 1;
                }
                assert(v.take(events.len() as int) == v);
                assert(head =~= seq![(XmlKind::Start, "a:rPr"@), (XmlKind::Empty, spec_make_latin(font@)), (XmlKind::End, "a:rPr"@)]);
                out
            }
        },
    }
}

pub open spec fn spec_latin_slots() -> Seq<Seq<char>> {
    seq!["typeface"@]
}

/// The text written for a run with the visitor's answer.
pub open spec fn spec_flush_run(rb: RunBufV, a: Option<(Seq<char>, Option<Seq<char>>)>) -> Seq<char> {
    let (new_text, new_font) = match a {
        None => (None, None),
        Some((t, f)) => (Some(t), f),
    };
    let evs = match new_font {
        Some(f) => spec_inject_latin(rb.events, f),
        None => rb.events,
    };
    spec_serialize(rb.start) + spec_emit_state(evs, new_text, new_font, "latin"@, spec_latin_slots(), spec_latin_slots()).0
        + match rb.end {
        Some(e) => spec_serialize(e),
        None => Seq::empty(),
    }
}

/// The slide walker's state, as values.
pub struct SlideStateV {
    pub out: Seq<char>,
    pub run: Option<RunBufV>,
    pub paragraph_index: nat,
    pub run_index: nat,
    pub in_paragraph: bool,
    pub visits: Seq<VisitV>,
}

/// One event of the slide walk: inside a run everything is captured up to
/// the first `</a:r>`, where the run is visited and written back;
/// paragraphs are counted; everything else is written back.
pub open spec fn spec_slide_step(
    s: SlideStateV,
    e: (XmlKind, Seq<char>),
    slide_index: nat,
    actions: Seq<Option<(Seq<char>, Option<Seq<char>>)>>,
) -> SlideStateV {
    match s.run {
        Some(rb) => if spec_is(e, XmlKind::End, "r"@) {
            let closed = RunBufV { end: Some(e), ..rb };
            let visit = VisitV {
                paragraph_index: s.paragraph_index,
                run_index: s.run_index,
                slide_index: Some(slide_index),
                font: spec_latin_font(rb.events),
                text: spec_run_text(rb.events),
            };
            SlideStateV {
                out: s.out + spec_flush_run(closed, spec_action_at(actions, s.visits.len() as int)),
                run: None,
                run_index: s.run_index + 1,
                visits: s.visits.push(visit),
                ..s
            }
        } else {
            SlideStateV { run: Some(RunBufV { events: rb.events.push(e), ..rb }), ..s }
        },
        None => if spec_is(e, XmlKind::Start, "p"@) {
            SlideStateV { in_paragraph: true, run_index: 0, out: s.out + spec_serialize(e), ..s }
        } else if spec_is(e, XmlKind::End, "p"@) {
            SlideStateV {
                in_paragraph: false,
                paragraph_index: s.paragraph_index + 1,
                out: s.out + spec_serialize(e),
                ..s
            }
        } else if spec_is(e, XmlKind::Start, "r"@) && s.in_paragraph {
            SlideStateV { run: Some(RunBufV { start: e, end: None, events: Seq::empty() }), ..s }
        } else {
            SlideStateV { out: s.out + spec_serialize(e), ..s }
        },
    }
}

pub open spec fn spec_slide_state(
    evs: Seq<(XmlKind, Seq<char>)>,
    slide_index: nat,
    actions: Seq<Option<(Seq<char>, Option<Seq<char>>)>>,
) -> SlideStateV
    decreases evs.len(),
{
    if evs.len() == 0 {
        SlideStateV {
            out: Seq::empty(),
            run: None,
            paragraph_index: 0,
            run_index: 0,
            in_paragraph: false,
            visits: Seq::empty(),
        }
    } else {
        spec_slide_step(spec_slide_state(evs.drop_last(), slide_index, actions), evs.last(), slide_index, actions)
    }
}

/// Write a closed run back with an answer.
fn flush_run(out: &mut String, rb: &RunBuffer, action: Option<&RunAction>)
    ensures
        final(out)@ == old(out)@ + spec_flush_run(
            rb_view(*rb),
            match action {
                Some(a) => action_view(*a),
                None => None,
            },
        ),
{
    let slots: Vec<&str> = vec!["typeface"];
    assert(str_seq_view(slots@) =~= spec_latin_slots());
    let (new_text, new_font): (Option<&str>, Option<&str>) = match action {
        Some(RunAction::Replace { new_text, new_font }) => (
            Some(new_text.as_str()),
            match new_font {
                Some(f) => Some(f.as_str()),
                None => None,
            },
        ),
        _ => (None, None),
    };
    let ghost start = out@;
    write_event(out, &rb.start_event);
    let evs = match new_font {
        Some(f) => inject_font_if_missing(&rb.events, f),
        None => copy_events(&rb.events),
    };
    emit_run_events(out, &evs, new_text, new_font, "latin", &slots, &slots);
    match &rb.end_event {
        Some(end) => write_event(out, end),
        None => {},
    }
    assert(out@ =~= start + spec_flush_run(
        rb_view(*rb),
        match action {
            Some(a) => action_view(*a),
            None => None,
        },
    ));
}

pub open spec fn opt_rb_view(o: Option<RunBuffer>) -> Option<RunBufV> {
    match o {
        Some(rb) => Some(rb_view(rb)),
        None => None,
    }
}

/// Walk a slide's events: the runs handed to the visitor, in order, and
/// the text written with the visitor's answers (the `k`-th answer for the
/// `k`-th run; a missing answer keeps the run).
pub fn walk_slide(events: &Vec<XmlEvent>, slide_index: usize, actions: &Vec<RunAction>) -> (r: (Vec<RunInfo>, String))
    ensures
        infos_view(r.0@) == spec_slide_state(evs_view(events@), slide_index as nat, actions_view(actions@)).visits,
        r.1@ == spec_slide_state(evs_view(events@), slide_index as nat, actions_view(actions@)).out,
{
    let ghost av = actions_view(actions@);
    let mut out = String::new();
    let mut run: Option<RunBuffer> = None;
    let mut paragraph_index: usize = 0;
    let mut run_index: usize = 0;
    let mut in_paragraph = false;
    let mut visits: Vec<RunInfo> = Vec::new();
    assert(infos_view(visits@) =~= Seq::empty());
    let mut i: usize = 0;
    while i < events.len()
        invariant
            i <= events.len(),
            av == actions_view(actions@),
            paragraph_index <= i,
            run_index <= i,
            visits@.len() <= i,
            ({
                let s = spec_slide_state(evs_view(events@.take(i as int)), slide_index as nat, av);
                &&& s.out == out@
                &&& s.run == opt_rb_view(run)
                &&& s.paragraph_index == paragraph_index
                &&& s.run_index == run_index
                &&& s.in_paragraph == in_paragraph
                &&& s.visits == infos_view(visits@)
            }),
        decreases events.len() - i,
    {
        proof {
            assert(evs_view(events@.take(i + 1)).drop_last() == evs_view(events@.take(i as int)));
            assert(evs_view(events@.take(i + 1)).last() == ev_view(events@[i as int]));
        }
        let e = &events[i];
        let cur = run;
        run = None;
        match cur {
            Some(mut rb) => {
                if is_element(e, XmlKind::End, "r") {
                    let (font, text) = extract_font_and_text(&rb.events);
                    rb.end_event = Some(e.duplicate());
                    let k = visits.len();
                    let action: Option<&RunAction> = if k < actions.len() {
                        Some(&actions[k])
                    } else {
                        None
                    };
                    proof {
                        if k < actions.len() {
                            assert(av[k as int] == action_view(actions@[k as int]));
                        }
                    }
                    flush_run(&mut out, &rb, action);
                    let info = RunInfo {
                        paragraph_index,
                        run_index,
                        slide_index: Some(slide_index),
                        font_name: font,
                        text,
                    };
                    let ghost vb = infos_view(visits@);
                    visits.push(info);
                    assert(infos_view(visits@) =~= vb.push(info_view(info)));
                    run_index += 1;
                } else {
                    rb.push(e.duplicate());
                    run = Some(rb);
                }
            },
            None => {
                if is_element(e, XmlKind::Start, "p") {
                    in_paragraph = true;
                    run_index = 0;
                    write_event(&mut out, e);
                } else if is_element(e, XmlKind::End, "p") {
                    in_paragraph = false;
                    paragraph_index += 1;
                    write_event(&mut out, e);
                } else if is_element(e, XmlKind::Start, "r") && in_paragraph {
                    run = Some(RunBuffer::new(e.duplicate()));
                } else {
                    write_event(&mut out, e);
                }
            },
        }
        i += 1;
    }
    assert(events@.take(events.len() as int) == events@);
    (visits, out)
}

/// The runs of a slide's events that the visitor is handed, in order.
pub fn slide_runs(events: &Vec<XmlEvent>, slide_index: usize) -> (r: Vec<RunInfo>)
    ensures
        infos_view(r@) == spec_slide_state(evs_view(events@), slide_index as nat, Seq::empty()).visits,
{
    let none: Vec<RunAction> = Vec::new();
    assert(actions_view(none@) =~= Seq::empty());
    let (runs, _) = walk_slide(events, slide_index, &none);
    runs
}

/// A slide's events written back with the visitor's answers: the `k`-th
/// answer applies to the `k`-th run of [`slide_runs`].
pub fn apply_slide_actions(events: &Vec<XmlEvent>, slide_index: usize, actions: &Vec<RunAction>) -> (r: String)
    ensures
        r@ == spec_slide_state(evs_view(events@), slide_index as nat, actions_view(actions@)).out,
{
    let (_, out) = walk_slide(events, slide_index, actions);
    out
}

/// Stream each run of a slide past `visitor` and return the rewritten XML.
///
/// The visitor is handed, in order, the runs of [`slide_runs`] for the
/// events the reader yields; the output is [`apply_slide_actions`] with its
/// answers. When the reader fails, the runs read before the failure have
/// been visited, and the result is an error.
pub fn transform_slide_xml<V: RunVisitor>(xml: &str, slide_index: usize, visitor: &mut V) -> (r: Result<String, String>)
    ensures
        spec_xml_events(xml@).1 <==> r is Err,
        r matches Ok(s) ==> exists|acts: Seq<Option<(Seq<char>, Option<Seq<char>>)>>|
            acts.len() == spec_slide_state(spec_xml_events(xml@).0, slide_index as nat, Seq::empty()).visits.len()
                && s@ == #[trigger] spec_slide_state(spec_xml_events(xml@).0, slide_index as nat, acts).out,
{
    let (events, err) = xml_events(xml);
    let runs = slide_runs(&events, slide_index);
    let mut actions: Vec<RunAction> = Vec::new();
    let mut k: usize = 0;
    while k < runs.len()
        invariant
            k <= runs.len(),
            actions@.len() == k,
        decreases runs.len() - k,
    {
        let a = visitor.visit(runs[k].as_run_ref());
        actions.push(a);
        k += 1;
    }
    match err {
        Some(e) => Err(crate::theme::parse_error("slide XML parse error: ", e.as_str())),
        None => {
            let out = apply_slide_actions(&events, slide_index, &actions);
            proof {
                assert(runs@.len() == infos_view(runs@).len());
                assert(actions_view(actions@).len() == actions@.len());
            }
            Ok(out)
        },
    }
}


// ---------------------------------------------------------------------------
// Laws of the walk

/// A run the visitor keeps is written back exactly as it was read.
pub proof fn lemma_kept_slide_run_written_verbatim(rb: RunBufV)
    ensures
        spec_flush_run(rb, None) == spec_run_as_read(rb),
{
    crate::ooxml::lemma_emit_unchanged(rb.events, "latin"@, spec_latin_slots(), spec_latin_slots());
}

/// What a slide walk has read but not yet written: the run being captured.
pub open spec fn spec_pending(s: SlideStateV) -> Seq<char> {
    match s.run {
        Some(rb) => spec_serialize(rb.start) + spec_serialize_all(rb.events),
        None => Seq::empty(),
    }
}

/// A slide whose runs are all kept is written back as it was read: the
/// text written, followed by the run still being captured (none once every
/// run is closed), is the slide's events written back one after the other.
pub proof fn lemma_kept_slide_written_back(
    evs: Seq<(XmlKind, Seq<char>)>,
    slide_index: nat,
    actions: Seq<Option<(Seq<char>, Option<Seq<char>>)>>,
)
    requires
        forall|k: int| 0 <= k < actions.len() ==> #[trigger] actions[k] is None,
    ensures
        spec_slide_state(evs, slide_index, actions).out + spec_pending(spec_slide_state(evs, slide_index, actions))
            == spec_serialize_all(evs),
        spec_slide_state(evs, slide_index, actions).run is None ==> spec_slide_state(evs, slide_index, actions).out
            == spec_serialize_all(evs),
    decreases evs.len(),
{
    if evs.len() > 0 {
        lemma_kept_slide_written_back(evs.drop_last(), slide_index, actions);
        let s = spec_slide_state(evs.drop_last(), slide_index, actions);
        let e = evs.last();
        let t = spec_slide_state(evs, slide_index, actions);
        match s.run {
            Some(rb) => {
                if spec_is(e, XmlKind::End, "r"@) {
                    let k = s.visits.len() as int;
                    assert(spec_action_at(actions, k) is None);
                    lemma_kept_slide_run_written_verbatim(RunBufV { end: Some(e), ..rb });
                    assert(t.out == s.out + spec_serialize(rb.start) + spec_serialize_all(rb.events) + spec_serialize(e));
                    assert(t.out + spec_pending(t) =~= spec_serialize_all(evs));
                } else {
                    assert(rb.events.push(e).drop_last() =~= rb.events);
                    assert(t.out + spec_pending(t) =~= spec_serialize_all(evs));
                }
            },
            None => {
                assert(Seq::<(XmlKind, Seq<char>)>::empty().len() == 0);
                assert(t.out + spec_pending(t) =~= spec_serialize_all(evs));
            },
        }
    }
    let t = spec_slide_state(evs, slide_index, actions);
    if t.run is None {
        assert(t.out + spec_pending(t) =~= t.out);
    }
}

/// Two slide walk states that agree on everything but the text written.
pub open spec fn same_slide_walk(a: SlideStateV, b: SlideStateV) -> bool {
    &&& a.run == b.run
    &&& a.paragraph_index == b.paragraph_index
    &&& a.run_index == b.run_index
    &&& a.in_paragraph == b.in_paragraph
    &&& a.visits == b.visits
}

/// The runs a slide hands to the visitor do not depend on the visitor's
/// answers.
pub proof fn lemma_slide_visits_independent(
    evs: Seq<(XmlKind, Seq<char>)>,
    slide_index: nat,
    a1: Seq<Option<(Seq<char>, Option<Seq<char>>)>>,
    a2: Seq<Option<(Seq<char>, Option<Seq<char>>)>>,
)
    ensures
        same_slide_walk(spec_slide_state(evs, slide_index, a1), spec_slide_state(evs, slide_index, a2)),
        spec_slide_state(evs, slide_index, a1).visits == spec_slide_state(evs, slide_index, a2).visits,
    decreases evs.len(),
{
    if evs.len() > 0 {
        lemma_slide_visits_independent(evs.drop_last(), slide_index, a1, a2);
    }
}

} // verus!
