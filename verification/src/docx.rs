//! The `word/document.xml` walker of the DOCX adapter.
//!
//! Every `<w:r>` (run) of a paragraph is captured until the paragraph ends,
//! then:
//! 1. orphaned Bijoy combining-mark runs are merged into their neighbours
//!    (pre-base marks into the next run, post-base marks into the previous);
//! 2. adjacent runs in the same Bijoy font are handed to the visitor as one
//!    run, so that the normalization passes see whole words;
//! 3. the runs are written back with the visitor's text and font.
//!
//! Font resolution for a run, in order: run `rPr`, paragraph `rPr`
//! defaults, paragraph style and its `basedOn` chain, default paragraph
//! style, `docDefaults`. Each `<w:rFonts>` honours theme references.
//!
//! Everything else passes through unchanged. The runs handed to the visitor
//! depend on the document alone, so the walk is split in two: the runs are
//! collected first, then the visitor's actions are applied.

use vstd::prelude::*;
use crate::encoding::Encoding;
use crate::fonts::{is_ansi_font, spec_is_ansi_font};
use crate::mapping::strings_view;
use crate::ooxml::{
    emit_run_events, insert_before, make_rfonts, opt_str_view, run_text, scan_tags,
    spec_emit_state, spec_has_tag, spec_is_tag, spec_last_of, spec_make_rfonts, spec_run_text,
    str_seq_view, lemma_last_of_bounds,
};
use crate::styles::{sheet_view, spec_run_font, Stylesheet};
use crate::text::{append, chars_of, concat};
use crate::theme::{font_from_rfonts, opt_theme_view, spec_font_from_rfonts, Theme};
use crate::visitor::{RunAction, RunRef, RunVisitor};
use crate::xml::{
    attr, copy_events, ev_view, evs_view, is_element, opt_string_view, spec_attr, spec_is,
    spec_serialize, spec_serialize_all, spec_xml_events, write_event, write_events, xml_events,
    XmlEvent, XmlKind,
};

verus! {

/// A stylesheet as values.
pub open spec fn sv(s: &Stylesheet) -> (
    Option<Seq<char>>,
    Seq<(Seq<char>, (Option<Seq<char>>, Option<Seq<char>>))>,
    Option<Seq<char>>,
) {
    sheet_view(*s)
}

// ---------------------------------------------------------------------------
// Runs

/// The font a run names itself: the first `<w:rFonts>` that names one.
pub open spec fn spec_own_font(
    evs: Seq<(XmlKind, Seq<char>)>,
    theme: Option<(Option<Seq<char>>, Option<Seq<char>>)>,
) -> Option<Seq<char>>
    decreases evs.len(),
{
    if evs.len() == 0 {
        None
    } else {
        let prev = spec_own_font(evs.drop_last(), theme);
        if prev is Some {
            prev
        } else if spec_is_tag(evs.last(), "rFonts"@) {
            spec_font_from_rfonts(evs.last(), theme)
        } else {
            None
        }
    }
}

/// The font a run names itself and its text.
pub fn extract_font_and_text(events: &Vec<XmlEvent>, theme: Option<&Theme>) -> (r: (Option<String>, String))
    ensures
        opt_string_view(r.0) == spec_own_font(evs_view(events@), opt_theme_view(theme)),
        r.1@ == spec_run_text(evs_view(events@)),
{
    let mut font: Option<String> = None;
    let mut i: usize = 0;
    while i < events.len()
        invariant
            i <= events.len(),
            opt_string_view(font) == spec_own_font(evs_view(events@.take(i as int)), opt_theme_view(theme)),
        decreases events.len() - i,
    {
        proof {
            assert(evs_view(events@.take(i + 1)).drop_last() == evs_view(events@.take(i as int)));
            assert(evs_view(events@.take(i + 1)).last() == ev_view(events@[i as int]));
        }
        if font.is_none() {
            let e = &events[i];
            if is_element(e, XmlKind::Empty, "rFonts") || is_element(e, XmlKind::Start, "rFonts") {
                font = font_from_rfonts(e, theme);
            }
        }
        i += 1;
    }
    assert(events@.take(events.len() as int) == events@);
    (font, run_text(events))
}

/// A run's events with a `<w:rFonts>` for `font` added when the run has
/// none: before the last `</w:rPr>` when the run has properties, in a new
/// `<w:rPr>` at the front otherwise.
pub open spec fn spec_inject_rfonts(evs: Seq<(XmlKind, Seq<char>)>, font: Seq<char>) -> Seq<(XmlKind, Seq<char>)> {
    if spec_has_tag(evs, "rFonts"@) {
        evs
    } else if spec_has_tag(evs, "rPr"@) {
        let k = spec_last_of(evs, XmlKind::End, "rPr"@);
        if k >= 0 {
            evs.insert(k, (XmlKind::Empty, spec_make_rfonts(font)))
        } else {
            evs
        }
    } else {
        seq![(XmlKind::Start, "w:rPr"@), (XmlKind::Empty, spec_make_rfonts(font)), (XmlKind::End, "w:rPr"@)]
            + evs
    }
}

/// If the run has no `<w:rFonts>`, inject one so the run carries the new
/// font.
pub fn inject_font_if_missing(events: &Vec<XmlEvent>, font: &str) -> (r: Vec<XmlEvent>)
    ensures
        evs_view(r@) == spec_inject_rfonts(evs_view(events@), font@),
{
    let (has_rfonts, _) = scan_tags(events, "rFonts", XmlKind::End, "rPr");
    let (has_rpr, rpr_end) = scan_tags(events, "rPr", XmlKind::End, "rPr");
    if has_rfonts {
        return copy_events(events);
    }
    proof {
        lemma_last_of_bounds(evs_view(events@), XmlKind::End, "rPr"@);
    }
    if has_rpr {
        match rpr_end {
            Some(k) => insert_before(events, k, XmlEvent::new(XmlKind::Empty, make_rfonts(font))),
            None => copy_events(events),
        }
    } else {
        let mut out: Vec<XmlEvent> = Vec::new();
        out.push(XmlEvent::new(XmlKind::Start, "w:rPr".to_owned()));
        out.push(XmlEvent::new(XmlKind::Empty, make_rfonts(font)));
        out.push(XmlEvent::new(XmlKind::End, "w:rPr".to_owned()));
        let ghost head = evs_view(out@);
        let mut i: usize = 0;
        while i < events.len()
            invariant
                i <= events.len(),
                evs_view(out@) == head + evs_view(events@.take(i as int)),
            decreases events.len() - i,
        {
            let ghost before = evs_view(out@);
            out.push(events[i].duplicate());
            assert(evs_view(events@.take(i + 1)) == evs_view(events@.take(i as int)).push(ev_view(events@[i as int])));
            assert(evs_view(out@) == before.push(ev_view(events@[i as int])));
            assert(evs_view(out@) =~= head + evs_view(events@.take(i + 1)));
            i += 1;
        }
        assert(events@.take(events.len() as int) == events@);
        assert(head =~= seq![(XmlKind::Start, "w:rPr"@), (XmlKind::Empty, spec_make_rfonts(font@)), (XmlKind::End, "w:rPr"@)]);
        out
    }
}

// ---------------------------------------------------------------------------
// Paragraph properties

/// The paragraph properties a run's font resolution needs.
pub struct ParagraphContext {
    /// `<w:pStyle w:val="…"/>`.
    pub style_id: Option<String>,
    /// `<w:rPr>/<w:rFonts>` inside `<w:pPr>`.
    pub run_default_font: Option<String>,
}

pub open spec fn ctx_view(c: ParagraphContext) -> (Option<Seq<char>>, Option<Seq<char>>) {
    (opt_string_view(c.style_id), opt_string_view(c.run_default_font))
}

/// Reading `<w:pPr>…</w:pPr>`: (style id, run default font, `rPr` depth).
pub open spec fn spec_ppr_state(
    evs: Seq<(XmlKind, Seq<char>)>,
    theme: Option<(Option<Seq<char>>, Option<Seq<char>>)>,
) -> (Option<Seq<char>>, Option<Seq<char>>, nat)
    decreases evs.len(),
{
    if evs.len() == 0 {
        (None, None, 0)
    } else {
        let (style, font, depth) = spec_ppr_state(evs.drop_last(), theme);
        let e = evs.last();
        if spec_is_tag(e, "pStyle"@) {
            match spec_attr(e, "val"@) {
                Some(v) => (Some(v), font, depth),
                None => (style, font, depth),
            }
        } else if spec_is(e, XmlKind::Start, "rPr"@) {
            (style, font, depth + 1)
        } else if spec_is(e, XmlKind::End, "rPr"@) {
            (style, font, if depth > 0 {
                (depth - 1) as nat
            } else {
                0
            })
        } else if spec_is_tag(e, "rFonts"@) && depth > 0 {
            (style, if font is None {
                spec_font_from_rfonts(e, theme)
            } else {
                font
            }, depth)
        } else {
            (style, font, depth)
        }
    }
}

/// The context read from captured paragraph properties: the last
/// `pStyle` value, and the first font named by an `rFonts` inside `rPr`.
pub open spec fn spec_parse_ppr(
    evs: Seq<(XmlKind, Seq<char>)>,
    theme: Option<(Option<Seq<char>>, Option<Seq<char>>)>,
) -> (Option<Seq<char>>, Option<Seq<char>>) {
    (spec_ppr_state(evs, theme).0, spec_ppr_state(evs, theme).1)
}

/// Parse a captured `<w:pPr>…</w:pPr>` event sequence.
pub fn parse_ppr(events: &Vec<XmlEvent>, theme: Option<&Theme>) -> (r: ParagraphContext)
    ensures
        ctx_view(r) == spec_parse_ppr(evs_view(events@), opt_theme_view(theme)),
{
    let mut ctx = ParagraphContext { style_id: None, run_default_font: None };
    let mut in_rpr: usize = 0;
    let mut i: usize = 0;
    while i < events.len()
        invariant
            i <= events.len(),
            in_rpr <= i,
            spec_ppr_state(evs_view(events@.take(i as int)), opt_theme_view(theme)) == (
                opt_string_view(ctx.style_id),
                opt_string_view(ctx.run_default_font),
                in_rpr as nat,
            ),
        decreases events.len() - i,
    {
        proof {
            assert(evs_view(events@.take(i + 1)).drop_last() == evs_view(events@.take(i as int)));
            assert(evs_view(events@.take(i + 1)).last() == ev_view(events@[i as int]));
        }
        let e = &events[i];
        if is_element(e, XmlKind::Empty, "pStyle") || is_element(e, XmlKind::Start, "pStyle") {
            match attr(e, "val") {
                Some(v) => {
                    ctx.style_id = Some(v);
                },
                None => {},
            }
        } else if is_element(e, XmlKind::Start, "rPr") {
            in_rpr += 1;
        } else if is_element(e, XmlKind::End, "rPr") {
            if in_rpr > 0 {
                in_rpr -= 1;
            }
        } else if (is_element(e, XmlKind::Empty, "rFonts") || is_element(e, XmlKind::Start, "rFonts"))
            && in_rpr > 0 {
            if ctx.run_default_font.is_none() {
                ctx.run_default_font = font_from_rfonts(e, theme);
            }
        }
        i += 1;
    }
    assert(events@.take(events.len() as int) == events@);
    ctx
}

// ---------------------------------------------------------------------------
// Run buffers and their fonts

/// A captured run as values: its start tag, its end tag and the events in
/// between.
pub struct RunBufV {
    pub start: (XmlKind, Seq<char>),
    pub end: Option<(XmlKind, Seq<char>)>,
    pub events: Seq<(XmlKind, Seq<char>)>,
}

/// A captured `<w:r>`: its start tag, its end tag once seen, and the events
/// in between.
pub struct RunBuffer {
    pub start_event: XmlEvent,
    pub end_event: Option<XmlEvent>,
    pub events: Vec<XmlEvent>,
}

pub open spec fn opt_ev_view(o: Option<XmlEvent>) -> Option<(XmlKind, Seq<char>)> {
    match o {
        Some(e) => Some(ev_view(e)),
        None => None,
    }
}

pub open spec fn rb_view(rb: RunBuffer) -> RunBufV {
    RunBufV { start: ev_view(rb.start_event), end: opt_ev_view(rb.end_event), events: evs_view(rb.events@) }
}

pub open spec fn rbs_view(v: Seq<RunBuffer>) -> Seq<RunBufV> {
    v.map_values(|rb: RunBuffer| rb_view(rb))
}

impl RunBuffer {
    pub fn new(start_event: XmlEvent) -> (r: RunBuffer)
        ensures
            rb_view(r) == (RunBufV { start: ev_view(start_event), end: None, events: Seq::empty() }),
    {
        let r = RunBuffer { start_event, end_event: None, events: Vec::new() };
        assert(evs_view(r.events@) =~= Seq::empty());
        r
    }

    pub fn push(&mut self, e: XmlEvent)
        ensures
            rb_view(*final(self)) == (RunBufV {
                events: rb_view(*old(self)).events.push(ev_view(e)),
                ..rb_view(*old(self))
            }),
    {
        self.events.push(e);
        assert(evs_view(self.events@) =~= evs_view(old(self).events@).push(ev_view(e)));
    }

    pub fn duplicate(&self) -> (r: RunBuffer)
        ensures
            rb_view(r) == rb_view(*self),
    {
        RunBuffer {
            start_event: self.start_event.duplicate(),
            end_event: match &self.end_event {
                Some(e) => Some(e.duplicate()),
                None => None,
            },
            events: copy_events(&self.events),
        }
    }
}

/// A run's font through the cascade.
pub open spec fn spec_resolved_font(
    evs: Seq<(XmlKind, Seq<char>)>,
    sheet: (Option<Seq<char>>, Seq<(Seq<char>, (Option<Seq<char>>, Option<Seq<char>>))>, Option<Seq<char>>),
    ctx: (Option<Seq<char>>, Option<Seq<char>>),
    theme: Option<(Option<Seq<char>>, Option<Seq<char>>)>,
) -> Option<Seq<char>> {
    spec_run_font(sheet, spec_own_font(evs, theme), ctx.1, ctx.0)
}

fn as_opt_str(o: &Option<String>) -> (r: Option<&str>)
    ensures
        opt_str_view(r) == opt_string_view(*o),
{
    match o {
        Some(s) => Some(s.as_str()),
        None => None,
    }
}

/// Resolve the font of a captured run through the cascade.
pub fn resolve_run_font_from_buffer(
    events: &Vec<XmlEvent>,
    stylesheet: &Stylesheet,
    paragraph: &ParagraphContext,
    theme: Option<&Theme>,
) -> (r: Option<String>)
    ensures
        opt_string_view(r) == spec_resolved_font(evs_view(events@), sv(stylesheet), ctx_view(*paragraph), opt_theme_view(theme)),
{
    let (run_font, _) = extract_font_and_text(events, theme);
    let f = stylesheet.resolve_run_font(
        as_opt_str(&run_font),
        as_opt_str(&paragraph.run_default_font),
        as_opt_str(&paragraph.style_id),
    );
    match f {
        Some(s) => Some(s.to_owned()),
        None => None,
    }
}

/// Whether a font belongs to the Bijoy family.
pub open spec fn spec_is_bijoy(f: Option<Seq<char>>) -> bool {
    match f {
        Some(n) => spec_is_ansi_font(n, Encoding::Bijoy),
        None => false,
    }
}

pub fn is_bijoy_font(font: &Option<String>) -> (r: bool)
    ensures
        r == spec_is_bijoy(opt_string_view(*font)),
{
    match font {
        Some(f) => is_ansi_font(f.as_str(), Encoding::Bijoy),
        None => false,
    }
}

pub open spec fn opts_view(v: Seq<Option<String>>) -> Seq<Option<Seq<char>>> {
    v.map_values(|o: Option<String>| opt_string_view(o))
}

/// The resolved fonts of a paragraph's runs.
pub open spec fn spec_fonts_of(
    runs: Seq<RunBufV>,
    sheet: (Option<Seq<char>>, Seq<(Seq<char>, (Option<Seq<char>>, Option<Seq<char>>))>, Option<Seq<char>>),
    ctx: (Option<Seq<char>>, Option<Seq<char>>),
    theme: Option<(Option<Seq<char>>, Option<Seq<char>>)>,
) -> Seq<Option<Seq<char>>> {
    runs.map_values(|r: RunBufV| spec_resolved_font(r.events, sheet, ctx, theme))
}

fn fonts_of(
    runs: &Vec<RunBuffer>,
    stylesheet: &Stylesheet,
    paragraph: &ParagraphContext,
    theme: Option<&Theme>,
) -> (r: Vec<Option<String>>)
    ensures
        opts_view(r@) == spec_fonts_of(rbs_view(runs@), sv(stylesheet), ctx_view(*paragraph), opt_theme_view(theme)),
{
    let mut out: Vec<Option<String>> = Vec::new();
    let mut i: usize = 0;
    while i < runs.len()
        invariant
            i <= runs.len(),
            opts_view(out@) == spec_fonts_of(rbs_view(runs@.take(i as int)), sv(stylesheet), ctx_view(*paragraph), opt_theme_view(theme)),
        decreases runs.len() - i,
    {
        let ghost before = opts_view(out@);
        out.push(resolve_run_font_from_buffer(&runs[i].events, stylesheet, paragraph, theme));
        proof {
            assert(rbs_view(runs@.take(i + 1)) == rbs_view(runs@.take(i as int)).push(rb_view(runs@[i as int])));
            assert(opts_view(out@) =~= before.push(opt_string_view(out@[i as int])));
            assert(opts_view(out@) =~= spec_fonts_of(rbs_view(runs@.take(i + 1)), sv(stylesheet), ctx_view(*paragraph), opt_theme_view(theme)));
        }
        i += 1;
    }
    assert(runs@.take(runs.len() as int) == runs@);
    out
}

// ---------------------------------------------------------------------------
// Orphaned combining marks

/// Bijoy characters that become pre-base vowel signs: `†` `‡` (e-kar),
/// `ˆ` `‰` (ai-kar).
pub open spec fn spec_is_prebase(c: char) -> bool {
    c == '\u{2020}' || c == '\u{2021}' || c == '\u{02C6}' || c == '\u{2030}'
}

/// Bijoy characters that attach after the consonant cluster: `©` (reph),
/// `Š` (au length mark).
pub open spec fn spec_is_postbase(c: char) -> bool {
    c == '\u{00A9}' || c == '\u{0160}'
}

/// A non-empty text made of pre-base marks only.
pub open spec fn spec_prebase_only(t: Seq<char>) -> bool {
    t.len() > 0 && forall|k: int| 0 <= k < t.len() ==> spec_is_prebase(#[trigger] t[k])
}

/// A non-empty text made of pre-base marks and `w` (i-kar, a pre-base mark
/// only in a Bijoy font).
pub open spec fn spec_prebase_or_ikar_only(t: Seq<char>) -> bool {
    t.len() > 0 && forall|k: int| 0 <= k < t.len() ==> (spec_is_prebase(#[trigger] t[k]) || t[k] == 'w')
}

/// A non-empty text made of post-base marks only.
pub open spec fn spec_postbase_only(t: Seq<char>) -> bool {
    t.len() > 0 && forall|k: int| 0 <= k < t.len() ==> spec_is_postbase(#[trigger] t[k])
}

fn is_bijoy_prebase_only(t: &String) -> (r: bool)
    ensures
        r == spec_prebase_only(t@),
{
    let cs = chars_of(t.as_str());
    if cs.len() == 0 {
        return false;
    }
    let mut i: usize = 0;
    while i < cs.len()
        invariant
            i <= cs.len(),
            cs@ == t@,
            forall|k: int| 0 <= k < i ==> spec_is_prebase(#[trigger] cs@[k]),
        decreases cs.len() - i,
    {
        let c = cs[i];
        if !(c == '\u{2020}' || c == '\u{2021}' || c == '\u{02C6}' || c == '\u{2030}') {
            return false;
        }
        i += 1;
    }
    true
}

fn is_bijoy_prebase_only_with_font(t: &String) -> (r: bool)
    ensures
        r == spec_prebase_or_ikar_only(t@),
{
    let cs = chars_of(t.as_str());
    if cs.len() == 0 {
        return false;
    }
    let mut i: usize = 0;
    while i < cs.len()
        invariant
            i <= cs.len(),
            cs@ == t@,
            forall|k: int| 0 <= k < i ==> (spec_is_prebase(#[trigger] cs@[k]) || cs@[k] == 'w'),
        decreases cs.len() - i,
    {
        let c = cs[i];
        if !(c == '\u{2020}' || c == '\u{2021}' || c == '\u{02C6}' || c == '\u{2030}' || c == 'w') {
            return false;
        }
        i += 1;
    }
    true
}

fn is_bijoy_postbase_only(t: &String) -> (r: bool)
    ensures
        r == spec_postbase_only(t@),
{
    let cs = chars_of(t.as_str());
    if cs.len() == 0 {
        return false;
    }
    let mut i: usize = 0;
    while i < cs.len()
        invariant
            i <= cs.len(),
            cs@ == t@,
            forall|k: int| 0 <= k < i ==> spec_is_postbase(#[trigger] cs@[k]),
        decreases cs.len() - i,
    {
        let c = cs[i];
        if !(c == '\u{00A9}' || c == '\u{0160}') {
            return false;
        }
        i += 1;
    }
    true
}

/// The merge's working state: each run's text, whether it was merged away,
/// and its events.
pub struct MergeV {
    pub texts: Seq<Seq<char>>,
    pub removed: Seq<bool>,
    pub evs: Seq<Seq<(XmlKind, Seq<char>)>>,
}

/// The first run at or after `j` not merged away (or the run count).
pub open spec fn spec_next_kept(removed: Seq<bool>, j: int) -> int
    decreases removed.len() - j,
{
    if j < 0 || j >= removed.len() {
        removed.len() as int
    } else if !removed[j] {
        j
    } else {
        spec_next_kept(removed, j + 1)
    }
}

/// The last run at or before `j` not merged away, or 0.
pub open spec fn spec_prev_kept(removed: Seq<bool>, j: int) -> int
    decreases j,
{
    if j <= 0 {
        0
    } else if !removed[j] {
        j
    } else {
        spec_prev_kept(removed, j - 1)
    }
}

pub proof fn lemma_next_kept_bounds(removed: Seq<bool>, j: int)
    requires
        0 <= j,
    ensures
        j <= spec_next_kept(removed, j) <= removed.len() || (j > removed.len() && spec_next_kept(removed, j) == removed.len()),
    decreases removed.len() - j,
{
    if j < removed.len() && removed[j] {
        lemma_next_kept_bounds(removed, j + 1);
    }
}

pub proof fn lemma_prev_kept_bounds(removed: Seq<bool>, j: int)
    requires
        0 <= j,
    ensures
        0 <= spec_prev_kept(removed, j) <= j,
    decreases j,
{
    if j > 0 && removed[j] {
        lemma_prev_kept_bounds(removed, j - 1);
    }
}

/// Merging run `i` forward: a Bijoy run of pre-base marks only is prepended
/// to the next remaining run when that one is Bijoy too.
pub open spec fn spec_forward_step(m: MergeV, fonts: Seq<Option<Seq<char>>>, i: int) -> MergeV {
    let n = m.removed.len();
    if m.removed[i] || !spec_is_bijoy(fonts[i]) || !(spec_prebase_only(m.texts[i]) || (
    spec_prebase_or_ikar_only(m.texts[i]) && spec_is_bijoy(fonts[i]))) {
        m
    } else {
        let j = spec_next_kept(m.removed, i + 1);
        if j >= n || !spec_is_bijoy(fonts[j]) {
            m
        } else {
            let t = m.texts[i] + m.texts[j];
            MergeV {
                texts: m.texts.update(j, t),
                removed: m.removed.update(i, true),
                evs: m.evs.update(j, crate::ooxml::spec_set_run_text(m.evs[j], t)),
            }
        }
    }
}

/// Merging run `i` backward: a Bijoy run of post-base marks only is appended
/// to the previous remaining run when that one is Bijoy too.
pub open spec fn spec_backward_step(m: MergeV, fonts: Seq<Option<Seq<char>>>, i: int) -> MergeV {
    if m.removed[i] || !spec_is_bijoy(fonts[i]) || !spec_postbase_only(m.texts[i]) {
        m
    } else {
        let j = spec_prev_kept(m.removed, i - 1);
        if m.removed[j] || !spec_is_bijoy(fonts[j]) {
            m
        } else {
            let t = m.texts[j] + m.texts[i];
            MergeV {
                texts: m.texts.update(j, t),
                removed: m.removed.update(i, true),
                evs: m.evs.update(j, crate::ooxml::spec_set_run_text(m.evs[j], t)),
            }
        }
    }
}

/// The forward pass over runs `0..k`.
pub open spec fn spec_forward(m: MergeV, fonts: Seq<Option<Seq<char>>>, k: nat) -> MergeV
    decreases k,
{
    if k == 0 {
        m
    } else {
        spec_forward_step(spec_forward(m, fonts, (k - 1) as nat), fonts, k - 1)
    }
}

/// The backward pass over runs `n-1` down to `n-k`.
pub open spec fn spec_backward(m: MergeV, fonts: Seq<Option<Seq<char>>>, k: nat) -> MergeV
    decreases k,
{
    if k == 0 {
        m
    } else {
        spec_backward_step(spec_backward(m, fonts, (k - 1) as nat), fonts, fonts.len() - k)
    }
}

/// The runs `0..k` not merged away, with their merged events.
pub open spec fn spec_kept_runs(runs: Seq<RunBufV>, m: MergeV, k: nat) -> Seq<RunBufV>
    decreases k,
{
    if k == 0 {
        Seq::empty()
    } else {
        let prev = spec_kept_runs(runs, m, (k - 1) as nat);
        if !m.removed[k - 1] {
            prev.push(RunBufV { events: m.evs[k - 1], ..runs[k - 1] })
        } else {
            prev
        }
    }
}

pub open spec fn spec_merge_start(runs: Seq<RunBufV>) -> MergeV {
    MergeV {
        texts: runs.map_values(|r: RunBufV| spec_run_text(r.events)),
        removed: Seq::new(runs.len(), |k: int| false),
        evs: runs.map_values(|r: RunBufV| r.events),
    }
}

/// A paragraph's runs after merging orphaned Bijoy combining-mark runs into
/// their neighbours: a forward pass for pre-base marks, then a backward pass
/// for post-base marks; merged-away runs are dropped.
pub open spec fn spec_merge(runs: Seq<RunBufV>, fonts: Seq<Option<Seq<char>>>) -> Seq<RunBufV> {
    let n = runs.len();
    if n < 2 {
        runs
    } else {
        let f = spec_forward(spec_merge_start(runs), fonts, (n - 1) as nat);
        spec_kept_runs(runs, spec_backward(f, fonts, (n - 1) as nat), n)
    }
}

pub open spec fn evss_view(v: Seq<Vec<XmlEvent>>) -> Seq<Seq<(XmlKind, Seq<char>)>> {
    v.map_values(|x: Vec<XmlEvent>| evs_view(x@))
}

pub open spec fn merge_view(texts: Seq<String>, removed: Seq<bool>, evs: Seq<Vec<XmlEvent>>) -> MergeV {
    MergeV { texts: strings_view(texts), removed, evs: evss_view(evs) }
}

fn next_kept(removed: &Vec<bool>, j: usize) -> (r: usize)
    ensures
        r == spec_next_kept(removed@, j as int),
{
    let mut k = j;
    while k < removed.len() && removed[k]
        invariant
            j <= k,
            spec_next_kept(removed@, j as int) == spec_next_kept(removed@, k as int),
        decreases removed.len() - k,
    {
        k += 1;
    }
    if k >= removed.len() {
        removed.len()
    } else {
        k
    }
}

fn prev_kept(removed: &Vec<bool>, j: usize) -> (r: usize)
    requires
        j < removed.len(),
    ensures
        r == spec_prev_kept(removed@, j as int),
{
    let mut k = j;
    loop
        invariant
            k <= j < removed.len(),
            spec_prev_kept(removed@, j as int) == spec_prev_kept(removed@, k as int),
        decreases k,
    {
        if !removed[k] {
            return k;
        }
        if k == 0 {
            return 0;
        }
        k -= 1;
    }
}

fn merge_into(
    texts: &mut Vec<String>,
    removed: &mut Vec<bool>,
    evs: &mut Vec<Vec<XmlEvent>>,
    i: usize,
    j: usize,
    t: String,
)
    requires
        old(texts).len() == old(removed).len() == old(evs).len(),
        i < old(texts).len(),
        j < old(texts).len(),
    ensures
        merge_view(final(texts)@, final(removed)@, final(evs)@) == (MergeV {
            texts: strings_view(old(texts)@).update(j as int, t@),
            removed: old(removed)@.update(i as int, true),
            evs: evss_view(old(evs)@).update(j as int, crate::ooxml::spec_set_run_text(evs_view(old(evs)@[j as int]@), t@)),
        }),
        final(texts).len() == old(texts).len(),
        final(removed).len() == old(removed).len(),
        final(evs).len() == old(evs).len(),
{
    let new_events = crate::ooxml::set_run_text(&evs[j], t.as_str());
    let ghost tv = t@;
    evs.set(j, new_events);
    texts.set(j, t);
    removed.set(i, true);
    assert(strings_view(texts@) =~= strings_view(old(texts)@).update(j as int, tv));
    assert(evss_view(evs@) =~= evss_view(old(evs)@).update(j as int, crate::ooxml::spec_set_run_text(evs_view(old(evs)@[j as int]@), tv)));
}

/// Merge orphaned Bijoy combining-mark runs into their neighbours.
///
/// Pre-base orphans (`†` `‡` `ˆ` `‰`, and `w` in a Bijoy font) are prepended
/// to the next run's text; post-base orphans (`©` `Š`) are appended to the
/// previous run's text. Only runs that both have a Bijoy font are merged,
/// so Latin text never joins a Bijoy run. The merged run keeps its own
/// formatting; the orphan run is dropped.
pub fn merge_orphaned_bijoy_runs(
    runs: Vec<RunBuffer>,
    stylesheet: &Stylesheet,
    paragraph: &ParagraphContext,
    theme: Option<&Theme>,
) -> (r: Vec<RunBuffer>)
    ensures
        rbs_view(r@) == spec_merge(
            rbs_view(runs@),
            spec_fonts_of(rbs_view(runs@), sv(stylesheet), ctx_view(*paragraph), opt_theme_view(theme)),
        ),
{
    let n = runs.len();
    if n < 2 {
        return runs;
    }
    let fonts = fonts_of(&runs, stylesheet, paragraph, theme);
    let ghost fv = opts_view(fonts@);
    let ghost rv = rbs_view(runs@);
    let mut texts: Vec<String> = Vec::new();
    let mut removed: Vec<bool> = Vec::new();
    let mut evs: Vec<Vec<XmlEvent>> = Vec::new();
    proof {
        let st = spec_merge_start(rv);
        assert(strings_view(texts@) =~= st.texts.take(0));
        assert(removed@ =~= st.removed.take(0));
        assert(evss_view(evs@) =~= st.evs.take(0));
        assert(fv.len() == spec_fonts_of(rv, sv(stylesheet), ctx_view(*paragraph), opt_theme_view(theme)).len());
        assert(fonts@.len() == fv.len());
    }
    let mut k: usize = 0;
    while k < n
        invariant
            k <= n == runs.len(),
            rv == rbs_view(runs@),
            texts.len() == k && removed.len() == k && evs.len() == k,
            merge_view(texts@, removed@, evs@) == (MergeV {
                texts: spec_merge_start(rv).texts.take(k as int),
                removed: spec_merge_start(rv).removed.take(k as int),
                evs: spec_merge_start(rv).evs.take(k as int),
            }),
        decreases n - k,
    {
        let ghost m0 = merge_view(texts@, removed@, evs@);
        texts.push(run_text(&runs[k].events));
        removed.push(false);
        evs.push(copy_events(&runs[k].events));
        proof {
            let st = spec_merge_start(rv);
            assert(rv[k as int] == rb_view(runs@[k as int]));
            assert(strings_view(texts@) =~= st.texts.take(k + 1));
            assert(removed@ =~= st.removed.take(k + 1));
            assert(evss_view(evs@) =~= st.evs.take(k + 1));
        }
        k += 1;
    }
    proof {
        let st = spec_merge_start(rv);
        assert(st.texts.take(n as int) == st.texts);
        assert(st.removed.take(n as int) == st.removed);
        assert(st.evs.take(n as int) == st.evs);
    }
    let ghost m0 = spec_merge_start(rv);
    let mut i: usize = 0;
    while i < n - 1
        invariant
            n == runs.len() >= 2,
            i <= n - 1,
            fonts.len() == n,
            fv == opts_view(fonts@),
            rv == rbs_view(runs@),
            m0 == spec_merge_start(rv),
            texts.len() == n && removed.len() == n && evs.len() == n,
            merge_view(texts@, removed@, evs@) == spec_forward(m0, fv, i as nat),
        decreases n - 1 - i,
    {
        let ghost m = merge_view(texts@, removed@, evs@);
        proof {
            assert(spec_forward(m0, fv, (i + 1) as nat) == spec_forward_step(m, fv, i as int));
            assert(fv[i as int] == opt_string_view(fonts@[i as int]));
            assert(m.texts[i as int] == texts@[i as int]@);
        }
        if !removed[i] && is_bijoy_font(&fonts[i]) && (is_bijoy_prebase_only(&texts[i]) || (
        is_bijoy_prebase_only_with_font(&texts[i]) && is_bijoy_font(&fonts[i]))) {
            let j = next_kept(&removed, i + 1);
            proof {
                lemma_next_kept_bounds(removed@, i + 1);
            }
            if j < n && is_bijoy_font(&fonts[j]) {
                proof {
                    assert(fv[j as int] == opt_string_view(fonts@[j as int]));
                    assert(m.texts[j as int] == texts@[j as int]@);
                    assert(m.evs[j as int] == evs_view(evs@[j as int]@));
                }
                let t = concat(texts[i].as_str(), texts[j].as_str());
                merge_into(&mut texts, &mut removed, &mut evs, i, j, t);
            }
        }
        i += 1;
    }
    let ghost m1 = merge_view(texts@, removed@, evs@);
    let mut kb: usize = 1;
    while kb < n
        invariant
            n == runs.len() >= 2,
            1 <= kb <= n,
            fonts.len() == n,
            fv == opts_view(fonts@),
            fv.len() == n,
            rv == rbs_view(runs@),
            texts.len() == n && removed.len() == n && evs.len() == n,
            merge_view(texts@, removed@, evs@) == spec_backward(m1, fv, (kb - 1) as nat),
        decreases n - kb,
    {
        let ii = n - kb;
        let ghost m = merge_view(texts@, removed@, evs@);
        proof {
            assert(spec_backward(m1, fv, kb as nat) == spec_backward_step(m, fv, ii as int));
            assert(fv[ii as int] == opt_string_view(fonts@[ii as int]));
            assert(m.texts[ii as int] == texts@[ii as int]@);
        }
        if !removed[ii] && is_bijoy_font(&fonts[ii]) && is_bijoy_postbase_only(&texts[ii]) {
            let j = prev_kept(&removed, ii - 1);
            proof {
                lemma_prev_kept_bounds(removed@, ii - 1);
            }
            if !removed[j] && is_bijoy_font(&fonts[j]) {
                proof {
                    assert(fv[j as int] == opt_string_view(fonts@[j as int]));
                    assert(m.texts[j as int] == texts@[j as int]@);
                    assert(m.evs[j as int] == evs_view(evs@[j as int]@));
                }
                let t = concat(texts[j].as_str(), texts[ii].as_str());
                merge_into(&mut texts, &mut removed, &mut evs, ii, j, t);
            }
        }
        kb += 1;
    }
    let ghost mf = merge_view(texts@, removed@, evs@);
    let mut out: Vec<RunBuffer> = Vec::new();
    let mut q: usize = 0;
    while q < n
        invariant
            q <= n == runs.len(),
            rv == rbs_view(runs@),
            removed.len() == n && evs.len() == n,
            mf == merge_view(texts@, removed@, evs@),
            rbs_view(out@) == spec_kept_runs(rv, mf, q as nat),
        decreases n - q,
    {
        let ghost before = rbs_view(out@);
        if !removed[q] {
            let rb = RunBuffer {
                start_event: runs[q].start_event.duplicate(),
                end_event: match &runs[q].end_event {
                    Some(e) => Some(e.duplicate()),
                    None => None,
                },
                events: copy_events(&evs[q]),
            };
            out.push(rb);
            proof {
                assert(rv[q as int] == rb_view(runs@[q as int]));
                assert(mf.evs[q as int] == evs_view(evs@[q as int]@));
                assert(rbs_view(out@) =~= before.push(RunBufV { events: mf.evs[q as int], ..rv[q as int] }));
            }
        }
        q += 1;
    }
    out
}

// ---------------------------------------------------------------------------
// What the visitor sees, and what it answers

/// A run handed to the visitor, as values.
pub struct VisitV {
    pub paragraph_index: nat,
    pub run_index: nat,
    pub slide_index: Option<nat>,
    pub font: Option<Seq<char>>,
    pub text: Seq<char>,
}

/// A run handed to the visitor.
#[derive(Debug)]
pub struct RunInfo {
    pub paragraph_index: usize,
    pub run_index: usize,
    pub slide_index: Option<usize>,
    pub font_name: Option<String>,
    pub text: String,
}

pub open spec fn opt_usize_view(o: Option<usize>) -> Option<nat> {
    match o {
        Some(u) => Some(u as nat),
        None => None,
    }
}

pub open spec fn info_view(r: RunInfo) -> VisitV {
    VisitV {
        paragraph_index: r.paragraph_index as nat,
        run_index: r.run_index as nat,
        slide_index: opt_usize_view(r.slide_index),
        font: opt_string_view(r.font_name),
        text: r.text@,
    }
}

pub open spec fn infos_view(v: Seq<RunInfo>) -> Seq<VisitV> {
    v.map_values(|r: RunInfo| info_view(r))
}

impl RunInfo {
    /// The run as handed to a [`RunVisitor`].
    pub fn as_run_ref(&self) -> (r: RunRef<'_>)
        ensures
            r.paragraph_index == self.paragraph_index,
            r.run_index == self.run_index,
            r.slide_index == self.slide_index,
            opt_str_view(r.font_name) == opt_string_view(self.font_name),
            r.text@ == self.text@,
    {
        RunRef {
            paragraph_index: self.paragraph_index,
            run_index: self.run_index,
            slide_index: self.slide_index,
            font_name: as_opt_str(&self.font_name),
            text: self.text.as_str(),
        }
    }
}

/// A visitor's answer as a value: `None` keeps the run, `Some((text, font))`
/// replaces it.
pub open spec fn action_view(a: RunAction) -> Option<(Seq<char>, Option<Seq<char>>)> {
    match a {
        RunAction::Keep => None,
        RunAction::Replace { new_text, new_font } => Some((new_text@, opt_string_view(new_font))),
    }
}

pub open spec fn actions_view(v: Seq<RunAction>) -> Seq<Option<(Seq<char>, Option<Seq<char>>)>> {
    v.map_values(|a: RunAction| action_view(a))
}

/// The answer for the `k`-th visit; a missing answer keeps the run.
pub open spec fn spec_action_at(actions: Seq<Option<(Seq<char>, Option<Seq<char>>)>>, k: int) -> Option<
    (Seq<char>, Option<Seq<char>>),
> {
    if 0 <= k < actions.len() {
        actions[k]
    } else {
        None
    }
}

/// What happens to one run of a paragraph, as a value.
pub struct ConvV {
    pub new_text: Option<Seq<char>>,
    pub new_font: Option<Seq<char>>,
    pub suppress: bool,
}

/// What happens to one run of a paragraph: its replacement text and font,
/// if any, or its suppression (its text went to an earlier run).
pub struct ConvertedRunResult {
    pub new_text: Option<String>,
    pub new_font: Option<String>,
    pub suppress: bool,
}

pub open spec fn conv_view(c: ConvertedRunResult) -> ConvV {
    ConvV { new_text: opt_string_view(c.new_text), new_font: opt_string_view(c.new_font), suppress: c.suppress }
}

pub open spec fn convs_view(v: Seq<ConvertedRunResult>) -> Seq<ConvV> {
    v.map_values(|c: ConvertedRunResult| conv_view(c))
}

pub open spec fn spec_keep_conv() -> ConvV {
    ConvV { new_text: None, new_font: None, suppress: false }
}

pub open spec fn spec_suppress_conv() -> ConvV {
    ConvV { new_text: None, new_font: None, suppress: true }
}

pub open spec fn spec_conv_of(a: Option<(Seq<char>, Option<Seq<char>>)>) -> ConvV {
    match a {
        None => spec_keep_conv(),
        Some((t, f)) => ConvV { new_text: Some(t), new_font: f, suppress: false },
    }
}

// ---------------------------------------------------------------------------
// Grouping a paragraph's runs

/// The end of the group of adjacent runs from `j` on whose font is the
/// Bijoy font `gf`.
pub open spec fn spec_group_end(fonts: Seq<Option<Seq<char>>>, j: int, gf: Option<Seq<char>>) -> int
    decreases fonts.len() - j,
{
    if 0 <= j < fonts.len() && spec_is_bijoy(fonts[j]) && fonts[j] == gf {
        spec_group_end(fonts, j + 1, gf)
    } else {
        j
    }
}

pub proof fn lemma_group_end_bounds(fonts: Seq<Option<Seq<char>>>, j: int, gf: Option<Seq<char>>)
    requires
        0 <= j <= fonts.len(),
    ensures
        j <= spec_group_end(fonts, j, gf) <= fonts.len(),
    decreases fonts.len() - j,
{
    if 0 <= j < fonts.len() && spec_is_bijoy(fonts[j]) && fonts[j] == gf {
        lemma_group_end_bounds(fonts, j + 1, gf);
    }
}

/// The texts `from..to` joined.
pub open spec fn spec_concat_texts(texts: Seq<Seq<char>>, from: int, to: int) -> Seq<char>
    decreases to - from,
{
    if from >= to {
        Seq::empty()
    } else {
        spec_concat_texts(texts, from, to - 1) + texts[to - 1]
    }
}

/// Where run `i`'s group ends: after the adjacent runs sharing its Bijoy
/// font, or right after it when its font is not Bijoy.
pub open spec fn spec_group_from(fonts: Seq<Option<Seq<char>>>, i: int) -> int {
    if spec_is_bijoy(fonts[i]) {
        spec_group_end(fonts, i + 1, fonts[i])
    } else {
        i + 1
    }
}

/// The visits and results for runs `i..`: a run outside a Bijoy group of
/// two or more is visited alone; a group is visited once, with its texts
/// joined, and a replacement goes to its first run while the others are
/// suppressed. Answers are taken from `actions` from index `base` on.
pub open spec fn spec_convert_from(
    texts: Seq<Seq<char>>,
    fonts: Seq<Option<Seq<char>>>,
    p: nat,
    actions: Seq<Option<(Seq<char>, Option<Seq<char>>)>>,
    base: nat,
    i: nat,
) -> (Seq<VisitV>, Seq<ConvV>)
    decreases fonts.len() - i,
{
    if i >= fonts.len() {
        (Seq::empty(), Seq::empty())
    } else {
        proof {
            lemma_group_end_bounds(fonts, (i + 1) as int, fonts[i as int]);
        }
        let ge = spec_group_from(fonts, i as int);
        let a = spec_action_at(actions, base as int);
        if ge == i + 1 {
            let visit = VisitV { paragraph_index: p, run_index: i, slide_index: None, font: fonts[i as int], text: texts[i as int] };
            let rest = spec_convert_from(texts, fonts, p, actions, base + 1, i + 1);
            (seq![visit] + rest.0, seq![spec_conv_of(a)] + rest.1)
        } else {
            let visit = VisitV {
                paragraph_index: p,
                run_index: i,
                slide_index: None,
                font: fonts[i as int],
                text: spec_concat_texts(texts, i as int, ge),
            };
            let convs = match a {
                None => Seq::new((ge - i) as nat, |k: int| spec_keep_conv()),
                Some((t, f)) => seq![ConvV { new_text: Some(t), new_font: f, suppress: false }] + Seq::new(
                    (ge - i - 1) as nat,
                    |k: int| spec_suppress_conv(),
                ),
            };
            let rest = spec_convert_from(texts, fonts, p, actions, base + 1, ge as nat);
            (seq![visit] + rest.0, convs + rest.1)
        }
    }
}

pub open spec fn spec_texts_of(runs: Seq<RunBufV>) -> Seq<Seq<char>> {
    runs.map_values(|r: RunBufV| spec_run_text(r.events))
}

fn group_end(fonts: &Vec<Option<String>>, j: usize, gf: &Option<String>) -> (r: usize)
    requires
        j <= fonts.len(),
    ensures
        r == spec_group_end(opts_view(fonts@), j as int, opt_string_view(*gf)),
{
    let ghost fv = opts_view(fonts@);
    let mut k = j;
    while k < fonts.len()
        invariant
            j <= k <= fonts.len(),
            fv == opts_view(fonts@),
            spec_group_end(fv, j as int, opt_string_view(*gf)) == spec_group_end(fv, k as int, opt_string_view(*gf)),
        decreases fonts.len() - k,
    {
        assert(fv[k as int] == opt_string_view(fonts@[k as int]));
        if !(is_bijoy_font(&fonts[k]) && same_font(&fonts[k], gf)) {
            return k;
        }
        k += 1;
    }
    k
}

fn same_font(a: &Option<String>, b: &Option<String>) -> (r: bool)
    ensures
        r == (opt_string_view(*a) == opt_string_view(*b)),
{
    match (a, b) {
        (Some(x), Some(y)) => crate::text::str_equal(x.as_str(), y.as_str()),
        (None, None) => true,
        _ => false,
    }
}

fn copy_opt(o: &Option<String>) -> (r: Option<String>)
    ensures
        opt_string_view(r) == opt_string_view(*o),
{
    match o {
        Some(s) => Some(s.clone()),
        None => None,
    }
}

fn conv_of_action(actions: &Vec<RunAction>, k: usize) -> (r: ConvertedRunResult)
    ensures
        conv_view(r) == spec_conv_of(spec_action_at(actions_view(actions@), k as int)),
{
    if k < actions.len() {
        assert(actions_view(actions@)[k as int] == action_view(actions@[k as int]));
        match &actions[k] {
            RunAction::Keep => ConvertedRunResult { new_text: None, new_font: None, suppress: false },
            RunAction::Replace { new_text, new_font } => ConvertedRunResult {
                new_text: Some(new_text.clone()),
                new_font: copy_opt(new_font),
                suppress: false,
            },
        }
    } else {
        ConvertedRunResult { new_text: None, new_font: None, suppress: false }
    }
}

/// Decide the visits and results for a paragraph's runs (after merging),
/// taking the visitor's answers from `actions` from index `base` on.
pub fn convert_paragraph_runs(
    runs: &Vec<RunBuffer>,
    paragraph_index: usize,
    paragraph: &ParagraphContext,
    stylesheet: &Stylesheet,
    theme: Option<&Theme>,
    actions: &Vec<RunAction>,
    base: usize,
) -> (r: (Vec<RunInfo>, Vec<ConvertedRunResult>))
    requires
        base + runs@.len() <= usize::MAX,
    ensures
        ({
            let fonts = spec_fonts_of(rbs_view(runs@), sv(stylesheet), ctx_view(*paragraph), opt_theme_view(theme));
            let spec = spec_convert_from(spec_texts_of(rbs_view(runs@)), fonts, paragraph_index as nat,
                actions_view(actions@), base as nat, 0);
            infos_view(r.0@) == spec.0 && convs_view(r.1@) == spec.1
        }),
        r.0@.len() <= runs@.len(),
{
    let fonts = fonts_of(runs, stylesheet, paragraph, theme);
    let n = runs.len();
    let ghost fv = opts_view(fonts@);
    let ghost tv = spec_texts_of(rbs_view(runs@));
    let ghost av = actions_view(actions@);
    let ghost p = paragraph_index as nat;
    let ghost whole = spec_convert_from(tv, fv, p, av, base as nat, 0);
    let mut texts: Vec<String> = Vec::new();
    let mut k: usize = 0;
    while k < n
        invariant
            k <= n == runs.len(),
            tv == spec_texts_of(rbs_view(runs@)),
            strings_view(texts@) == tv.take(k as int),
        decreases n - k,
    {
        let (_, t) = extract_font_and_text(&runs[k].events, theme);
        let ghost before = strings_view(texts@);
        let ghost tt = t@;
        texts.push(t);
        proof {
            assert(rbs_view(runs@)[k as int] == rb_view(runs@[k as int]));
            assert(tv[k as int] == spec_run_text(rb_view(runs@[k as int]).events));
            assert(tv[k as int] == tt);
            assert(tv.take(k + 1) == tv.take(k as int).push(tv[k as int]));
            assert(strings_view(texts@) =~= before.push(tt));
        }
        k += 1;
    }
    assert(tv.take(n as int) =~= tv);
    assert(fonts@.len() == n);
    let mut infos: Vec<RunInfo> = Vec::new();
    let mut convs: Vec<ConvertedRunResult> = Vec::new();
    let mut i: usize = 0;
    let mut next: usize = base;
    while i < n
        invariant
            i <= n == runs.len() == fonts.len() == texts.len(),
            fv == opts_view(fonts@),
            strings_view(texts@) == tv,
            av == actions_view(actions@),
            p == paragraph_index as nat,
            whole == spec_convert_from(tv, fv, p, av, base as nat, 0),
            next - base == infos@.len(),
            infos@.len() <= i,
            base + n <= usize::MAX,
            base <= next,
            infos_view(infos@) + spec_convert_from(tv, fv, p, av, next as nat, i as nat).0 == whole.0,
            convs_view(convs@) + spec_convert_from(tv, fv, p, av, next as nat, i as nat).1 == whole.1,
        decreases n - i,
    {
        proof {
            lemma_group_end_bounds(fv, i + 1, fv[i as int]);
            assert(fv[i as int] == opt_string_view(fonts@[i as int]));
        }
        let bijoy = is_bijoy_font(&fonts[i]);
        let ge = if bijoy {
            group_end(&fonts, i + 1, &fonts[i])
        } else {
            i + 1
        };
        let ghost rest_before = spec_convert_from(tv, fv, p, av, next as nat, i as nat);
        let ghost vb = infos_view(infos@);
        let ghost cb = convs_view(convs@);
        if ge == i + 1 {
            let info = RunInfo {
                paragraph_index,
                run_index: i,
                slide_index: None,
                font_name: copy_opt(&fonts[i]),
                text: texts[i].clone(),
            };
            infos.push(info);
            convs.push(conv_of_action(actions, next));
            proof {
                let rest = spec_convert_from(tv, fv, p, av, (next + 1) as nat, (i + 1) as nat);
                assert(infos_view(infos@) =~= vb.push(info_view(infos@[i as int - (i - infos@.len() + 1)])));
                assert(infos_view(infos@) + rest.0 =~= vb + rest_before.0);
                assert(convs_view(convs@) + rest.1 =~= cb + rest_before.1);
            }
            i += 1;
        } else {
            let mut joined = String::new();
            let mut j: usize = i;
            while j < ge
                invariant
                    i <= j <= ge <= n == texts.len(),
                    strings_view(texts@) == tv,
                    joined@ == spec_concat_texts(tv, i as int, j as int),
                decreases ge - j,
            {
                append(&mut joined, texts[j].as_str());
                j += 1;
            }
            let info = RunInfo {
                paragraph_index,
                run_index: i,
                slide_index: None,
                font_name: copy_opt(&fonts[i]),
                text: joined,
            };
            infos.push(info);
            let ghost before_group = convs_view(convs@);
            let first = conv_of_action(actions, next);
            let replaced = first.new_text.is_some();
            let ghost first_v = conv_view(first);
            convs.push(first);
            assert(convs_view(convs@) =~= before_group + seq![first_v]);
            let mut q: usize = i + 1;
            while q < ge
                invariant
                    i + 1 <= q <= ge,
                    convs_view(convs@) == before_group + seq![first_v]
                        + Seq::new((q - i - 1) as nat, |k: int| if replaced { spec_suppress_conv() } else { spec_keep_conv() }),
                decreases ge - q,
            {
                let ghost cbq = convs_view(convs@);
                let c = ConvertedRunResult { new_text: None, new_font: None, suppress: replaced };
                assert(conv_view(c) == (if replaced { spec_suppress_conv() } else { spec_keep_conv() }));
                convs.push(c);
                assert(convs_view(convs@) =~= cbq.push(conv_view(c)));
                assert(convs_view(convs@) =~= before_group + seq![first_v]
                    + Seq::new((q + 1 - i - 1) as nat, |k: int| if replaced { spec_suppress_conv() } else { spec_keep_conv() }));
                q += 1;
            }
            proof {
                let rest = spec_convert_from(tv, fv, p, av, (next + 1) as nat, ge as nat);
                assert(infos_view(infos@) + rest.0 =~= vb + rest_before.0);
                let a = spec_action_at(av, next as int);
                assert(first_v == spec_conv_of(a));
                if a is None {
                    assert(convs_view(convs@) =~= cb + Seq::new((ge - i) as nat, |k: int| spec_keep_conv()));
                } else {
                    assert(convs_view(convs@) =~= cb + (seq![spec_conv_of(a)] + Seq::new((ge - i - 1) as nat, |k: int| spec_suppress_conv())));
                }
                assert(convs_view(convs@) + rest.1 =~= cb + rest_before.1);
            }
            i = ge;
        }
        next = next + 1;
    }
    assert(infos_view(infos@) =~= whole.0);
    assert(convs_view(convs@) =~= whole.1);
    (infos, convs)
}

pub proof fn lemma_convert_len(
    texts: Seq<Seq<char>>,
    fonts: Seq<Option<Seq<char>>>,
    p: nat,
    actions: Seq<Option<(Seq<char>, Option<Seq<char>>)>>,
    base: nat,
    i: nat,
)
    requires
        i <= fonts.len(),
    ensures
        spec_convert_from(texts, fonts, p, actions, base, i).1.len() == fonts.len() - i,
        spec_convert_from(texts, fonts, p, actions, base, i).0.len() <= fonts.len() - i,
    decreases fonts.len() - i,
{
    if i < fonts.len() {
        lemma_group_end_bounds(fonts, (i + 1) as int, fonts[i as int]);
        let ge = spec_group_from(fonts, i as int);
        lemma_convert_len(texts, fonts, p, actions, base + 1, ge as nat);
    }
}

// ---------------------------------------------------------------------------
// Writing a paragraph's runs

pub open spec fn spec_rfonts_slots() -> Seq<Seq<char>> {
    seq!["ascii"@, "hAnsi"@]
}

pub open spec fn spec_rfonts_keys() -> Seq<Seq<char>> {
    seq!["w:ascii"@, "w:hAnsi"@]
}

/// The text written for a run: nothing when suppressed; otherwise its start
/// tag, its events with the new text and font (a missing `<w:rFonts>` added
/// for a new font), and its end tag.
pub open spec fn spec_write_converted(rb: RunBufV, cv: ConvV) -> Seq<char> {
    if cv.suppress {
        Seq::empty()
    } else {
        let evs = match cv.new_font {
            Some(f) => spec_inject_rfonts(rb.events, f),
            None => rb.events,
        };
        spec_serialize(rb.start) + spec_emit_state(
            evs,
            cv.new_text,
            cv.new_font,
            "rFonts"@,
            spec_rfonts_slots(),
            spec_rfonts_keys(),
        ).0 + match rb.end {
            Some(e) => spec_serialize(e),
            None => Seq::empty(),
        }
    }
}

/// The text written for runs `0..k`.
pub open spec fn spec_write_runs(runs: Seq<RunBufV>, convs: Seq<ConvV>, k: nat) -> Seq<char>
    decreases k,
{
    if k == 0 {
        Seq::empty()
    } else {
        spec_write_runs(runs, convs, (k - 1) as nat) + spec_write_converted(runs[k - 1], convs[k - 1])
    }
}

/// Write a run with its new text and font.
pub fn write_converted_run(out: &mut String, rb: &RunBuffer, cr: &ConvertedRunResult)
    ensures
        final(out)@ == old(out)@ + spec_write_converted(rb_view(*rb), conv_view(*cr)),
{
    if cr.suppress {
        return;
    }
    let slots: Vec<&str> = vec!["ascii", "hAnsi"];
    let keys: Vec<&str> = vec!["w:ascii", "w:hAnsi"];
    assert(str_seq_view(slots@) =~= spec_rfonts_slots());
    assert(str_seq_view(keys@) =~= spec_rfonts_keys());
    let ghost start = out@;
    write_event(out, &rb.start_event);
    let evs = match &cr.new_font {
        Some(f) => inject_font_if_missing(&rb.events, f.as_str()),
        None => copy_events(&rb.events),
    };
    emit_run_events(out, &evs, as_opt_str(&cr.new_text), as_opt_str(&cr.new_font), "rFonts", &slots, &keys);
    match &rb.end_event {
        Some(end) => write_event(out, end),
        None => {},
    }
    assert(out@ =~= start + spec_write_converted(rb_view(*rb), conv_view(*cr)));
}

// ---------------------------------------------------------------------------
// The document walk

/// The walker's state, as values.
pub struct DocStateV {
    /// The text written so far.
    pub out: Seq<char>,
    /// The run being captured.
    pub run: Option<RunBufV>,
    /// How many `<w:r>` are open inside the captured run.
    pub run_depth: nat,
    /// The paragraph properties being captured.
    pub ppr: Option<Seq<(XmlKind, Seq<char>)>>,
    pub paragraph_index: nat,
    pub in_paragraph: bool,
    /// The current paragraph's (style id, run default font).
    pub ctx: (Option<Seq<char>>, Option<Seq<char>>),
    /// The current paragraph's captured runs.
    pub runs: Seq<RunBufV>,
    /// The runs handed to the visitor so far.
    pub visits: Seq<VisitV>,
}

pub open spec fn spec_doc_init() -> DocStateV {
    DocStateV {
        out: Seq::empty(),
        run: None,
        run_depth: 0,
        ppr: None,
        paragraph_index: 0,
        in_paragraph: false,
        ctx: (None, None),
        runs: Seq::empty(),
        visits: Seq::empty(),
    }
}

/// The end of a paragraph: merge orphaned runs, visit the runs (groups as
/// one), write them back, then the end tag.
pub open spec fn spec_paragraph_end(
    s: DocStateV,
    e: (XmlKind, Seq<char>),
    sheet: (Option<Seq<char>>, Seq<(Seq<char>, (Option<Seq<char>>, Option<Seq<char>>))>, Option<Seq<char>>),
    theme: Option<(Option<Seq<char>>, Option<Seq<char>>)>,
    actions: Seq<Option<(Seq<char>, Option<Seq<char>>)>>,
) -> DocStateV {
    let merged = spec_merge(s.runs, spec_fonts_of(s.runs, sheet, s.ctx, theme));
    let conv = spec_convert_from(
        spec_texts_of(merged),
        spec_fonts_of(merged, sheet, s.ctx, theme),
        s.paragraph_index,
        actions,
        s.visits.len(),
        0,
    );
    DocStateV {
        out: s.out + spec_write_runs(merged, conv.1, merged.len()) + spec_serialize(e),
        runs: Seq::empty(),
        visits: s.visits + conv.0,
        in_paragraph: false,
        paragraph_index: s.paragraph_index + 1,
        ..s
    }
}

/// One event of the walk: inside a run everything is captured up to the
/// matching `</w:r>`; inside paragraph properties everything is captured up
/// to `</w:pPr>`, then read and written back; a paragraph starts afresh at
/// `<w:p>` and is processed at `</w:p>`; everything else is written back.
pub open spec fn spec_doc_step(
    s: DocStateV,
    e: (XmlKind, Seq<char>),
    sheet: (Option<Seq<char>>, Seq<(Seq<char>, (Option<Seq<char>>, Option<Seq<char>>))>, Option<Seq<char>>),
    theme: Option<(Option<Seq<char>>, Option<Seq<char>>)>,
    actions: Seq<Option<(Seq<char>, Option<Seq<char>>)>>,
) -> DocStateV {
    match s.run {
        Some(rb) => if spec_is(e, XmlKind::Start, "r"@) {
            DocStateV { run: Some(RunBufV { events: rb.events.push(e), ..rb }), run_depth: s.run_depth + 1, ..s }
        } else if spec_is(e, XmlKind::End, "r"@) {
            if s.run_depth == 0 {
                DocStateV { run: None, runs: s.runs.push(RunBufV { end: Some(e), ..rb }), ..s }
            } else {
                DocStateV {
                    run: Some(RunBufV { events: rb.events.push(e), ..rb }),
                    run_depth: (s.run_depth - 1) as nat,
                    ..s
                }
            }
        } else {
            DocStateV { run: Some(RunBufV { events: rb.events.push(e), ..rb }), ..s }
        },
        None => match s.ppr {
            Some(p) => if spec_is(e, XmlKind::End, "pPr"@) {
                let captured = p.push(e);
                DocStateV {
                    ctx: spec_parse_ppr(captured, theme),
                    out: s.out + spec_serialize_all(captured),
                    ppr: None,
                    ..s
                }
            } else {
                DocStateV { ppr: Some(p.push(e)), ..s }
            },
            None => if spec_is(e, XmlKind::Start, "p"@) {
                DocStateV {
                    in_paragraph: true,
                    runs: Seq::empty(),
                    ctx: (None, None),
                    out: s.out + spec_serialize(e),
                    ..s
                }
            } else if spec_is(e, XmlKind::End, "p"@) {
                spec_paragraph_end(s, e, sheet, theme, actions)
            } else if spec_is(e, XmlKind::Start, "pPr"@) {
                DocStateV { ppr: Some(seq![e]), ..s }
            } else if spec_is(e, XmlKind::Start, "r"@) && s.in_paragraph {
                DocStateV {
                    run: Some(RunBufV { start: e, end: None, events: Seq::empty() }),
                    run_depth: 0,
                    ..s
                }
            } else {
                DocStateV { out: s.out + spec_serialize(e), ..s }
            },
        },
    }
}

pub open spec fn spec_doc_state(
    evs: Seq<(XmlKind, Seq<char>)>,
    sheet: (Option<Seq<char>>, Seq<(Seq<char>, (Option<Seq<char>>, Option<Seq<char>>))>, Option<Seq<char>>),
    theme: Option<(Option<Seq<char>>, Option<Seq<char>>)>,
    actions: Seq<Option<(Seq<char>, Option<Seq<char>>)>>,
) -> DocStateV
    decreases evs.len(),
{
    if evs.len() == 0 {
        spec_doc_init()
    } else {
        spec_doc_step(spec_doc_state(evs.drop_last(), sheet, theme, actions), evs.last(), sheet, theme, actions)
    }
}

pub proof fn lemma_kept_runs_len(runs: Seq<RunBufV>, m: MergeV, k: nat)
    ensures
        spec_kept_runs(runs, m, k).len() <= k,
    decreases k,
{
    if k > 0 {
        lemma_kept_runs_len(runs, m, (k - 1) as nat);
    }
}

pub proof fn lemma_merge_len(runs: Seq<RunBufV>, fonts: Seq<Option<Seq<char>>>)
    ensures
        spec_merge(runs, fonts).len() <= runs.len(),
{
    if runs.len() >= 2 {
        let f = spec_forward(spec_merge_start(runs), fonts, (runs.len() - 1) as nat);
        lemma_kept_runs_len(runs, spec_backward(f, fonts, (runs.len() - 1) as nat), runs.len());
    }
}

pub open spec fn opt_rb_view(o: Option<RunBuffer>) -> Option<RunBufV> {
    match o {
        Some(rb) => Some(rb_view(rb)),
        None => None,
    }
}

pub open spec fn opt_evs_view(o: Option<Vec<XmlEvent>>) -> Option<Seq<(XmlKind, Seq<char>)>> {
    match o {
        Some(v) => Some(evs_view(v@)),
        None => None,
    }
}

/// Walk `word/document.xml`'s events: the runs handed to the visitor, in
/// order, and the text written with the visitor's answers `actions` (the
/// `k`-th answer for the `k`-th run; a missing answer keeps the run).
pub fn walk_document(
    events: &Vec<XmlEvent>,
    stylesheet: &Stylesheet,
    theme: Option<&Theme>,
    actions: &Vec<RunAction>,
) -> (r: (Vec<RunInfo>, String))
    ensures
        infos_view(r.0@) == spec_doc_state(evs_view(events@), sv(stylesheet), opt_theme_view(theme), actions_view(actions@)).visits,
        r.1@ == spec_doc_state(evs_view(events@), sv(stylesheet), opt_theme_view(theme), actions_view(actions@)).out,
{
    let ghost sh = sv(stylesheet);
    let ghost th = opt_theme_view(theme);
    let ghost av = actions_view(actions@);
    let mut out = String::new();
    let mut run: Option<RunBuffer> = None;
    let mut run_depth: usize = 0;
    let mut ppr: Option<Vec<XmlEvent>> = None;
    let mut paragraph_index: usize = 0;
    let mut in_paragraph = false;
    let mut ctx = ParagraphContext { style_id: None, run_default_font: None };
    let mut runs: Vec<RunBuffer> = Vec::new();
    let mut visits: Vec<RunInfo> = Vec::new();
    proof {
        assert(rbs_view(runs@) =~= Seq::empty());
        assert(infos_view(visits@) =~= Seq::empty());
    }
    let mut i: usize = 0;
    while i < events.len()
        invariant
            i <= events.len(),
            sh == sv(stylesheet),
            th == opt_theme_view(theme),
            av == actions_view(actions@),
            run_depth <= i,
            paragraph_index <= i,
            visits@.len() + runs@.len() <= i,
            ({
                let s = spec_doc_state(evs_view(events@.take(i as int)), sh, th, av);
                &&& s.out == out@
                &&& s.run == opt_rb_view(run)
                &&& s.run_depth == run_depth
                &&& s.ppr == opt_evs_view(ppr)
                &&& s.paragraph_index == paragraph_index
                &&& s.in_paragraph == in_paragraph
                &&& s.ctx == ctx_view(ctx)
                &&& s.runs == rbs_view(runs@)
                &&& s.visits == infos_view(visits@)
            }),
        decreases events.len() - i,
    {
        proof {
            assert(evs_view(events@.take(i + 1)).drop_last() == evs_view(events@.take(i as int)));
            assert(evs_view(events@.take(i + 1)).last() == ev_view(events@[i as int]));
        }
        let ghost s = spec_doc_state(evs_view(events@.take(i as int)), sh, th, av);
        let e = &events[i];
        let cur_run = run;
        run = None;
        let cur_ppr = ppr;
        ppr = None;
        match cur_run {
            Some(mut rb) => {
                if is_element(e, XmlKind::Start, "r") {
                    run_depth += 1;
                    rb.push(e.duplicate());
                    run = Some(rb);
                } else if is_element(e, XmlKind::End, "r") {
                    if run_depth == 0 {
                        rb.end_event = Some(e.duplicate());
                        let ghost before = rbs_view(runs@);
                        runs.push(rb);
                        assert(rbs_view(runs@) =~= before.push(RunBufV { end: Some(ev_view(*e)), ..s.run->0 }));
                    } else {
                        run_depth -= 1;
                        rb.push(e.duplicate());
                        run = Some(rb);
                    }
                } else {
                    rb.push(e.duplicate());
                    run = Some(rb);
                }
                ppr = cur_ppr;
            },
            None => match cur_ppr {
                Some(mut p) => {
                    if is_element(e, XmlKind::End, "pPr") {
                        let ghost pv = evs_view(p@);
                        p.push(e.duplicate());
                        assert(evs_view(p@) =~= pv.push(ev_view(*e)));
                        ctx = parse_ppr(&p, theme);
                        write_events(&mut out, &p);
                    } else {
                        let ghost pv = evs_view(p@);
                        p.push(e.duplicate());
                        assert(evs_view(p@) =~= pv.push(ev_view(*e)));
                        ppr = Some(p);
                    }
                },
                None => {
                    if is_element(e, XmlKind::Start, "p") {
                        in_paragraph = true;
                        runs = Vec::new();
                        assert(rbs_view(runs@) =~= Seq::empty());
                        ctx = ParagraphContext { style_id: None, run_default_font: None };
                        write_event(&mut out, e);
                    } else if is_element(e, XmlKind::End, "p") {
                        let taken = runs;
                        runs = Vec::new();
                        assert(rbs_view(runs@) =~= Seq::empty());
                        proof {
                            lemma_merge_len(rbs_view(taken@), spec_fonts_of(rbs_view(taken@), sh, ctx_view(ctx), th));
                        }
                        let merged = merge_orphaned_bijoy_runs(taken, stylesheet, &ctx, theme);
                        assert(merged@.len() == rbs_view(merged@).len());
                        let (mut infos, convs) = convert_paragraph_runs(&merged, paragraph_index, &ctx, stylesheet, theme, actions, visits.len());
                        proof {
                            lemma_convert_len(
                                spec_texts_of(rbs_view(merged@)),
                                spec_fonts_of(rbs_view(merged@), sh, ctx_view(ctx), th),
                                paragraph_index as nat,
                                av,
                                visits@.len() as nat,
                                0,
                            );
                            assert(convs@.len() == convs_view(convs@).len());
                        }
                        let ghost out0 = out@;
                        let mut k: usize = 0;
                        while k < merged.len()
                            invariant
                                k <= merged.len() == convs.len(),
                                out@ == out0 + spec_write_runs(rbs_view(merged@), convs_view(convs@), k as nat),
                            decreases merged.len() - k,
                        {
                            write_converted_run(&mut out, &merged[k], &convs[k]);
                            proof {
                                assert(rbs_view(merged@)[k as int] == rb_view(merged@[k as int]));
                                assert(convs_view(convs@)[k as int] == conv_view(convs@[k as int]));
                            }
                            k += 1;
                        }
                        let ghost vb = infos_view(visits@);
                        let ghost iv = infos_view(infos@);
                        visits.append(&mut infos);
                        assert(infos_view(visits@) =~= vb + iv);
                        in_paragraph = false;
                        paragraph_index += 1;
                        write_event(&mut out, e);
                    } else if is_element(e, XmlKind::Start, "pPr") {
                        let mut p: Vec<XmlEvent> = Vec::new();
                        p.push(e.duplicate());
                        assert(evs_view(p@) =~= seq![ev_view(*e)]);
                        ppr = Some(p);
                    } else if is_element(e, XmlKind::Start, "r") && in_paragraph {
                        run = Some(RunBuffer::new(e.duplicate()));
                        run_depth = 0;
                    } else {
                        write_event(&mut out, e);
                    }
                },
            },
        }
        i += 1;
    }
    assert(events@.take(events.len() as int) == events@);
    (visits, out)
}

/// The runs of `word/document.xml`'s events that the visitor is handed, in
/// order: after each paragraph's orphan merge, one per run outside a Bijoy
/// group and one per group of adjacent same-font Bijoy runs.
pub fn document_runs(events: &Vec<XmlEvent>, stylesheet: &Stylesheet, theme: Option<&Theme>) -> (r: Vec<RunInfo>)
    ensures
        infos_view(r@) == spec_doc_state(evs_view(events@), sv(stylesheet), opt_theme_view(theme), Seq::empty()).visits,
{
    let none: Vec<RunAction> = Vec::new();
    assert(actions_view(none@) =~= Seq::empty());
    let (runs, _) = walk_document(events, stylesheet, theme, &none);
    runs
}

/// `word/document.xml`'s events written back with the visitor's answers:
/// the `k`-th answer applies to the `k`-th run of [`document_runs`].
pub fn apply_document_actions(
    events: &Vec<XmlEvent>,
    stylesheet: &Stylesheet,
    theme: Option<&Theme>,
    actions: &Vec<RunAction>,
) -> (r: String)
    ensures
        r@ == spec_doc_state(evs_view(events@), sv(stylesheet), opt_theme_view(theme), actions_view(actions@)).out,
{
    let (_, out) = walk_document(events, stylesheet, theme, actions);
    out
}

/// Stream each run of `word/document.xml` past `visitor` and return the
/// rewritten XML.
///
/// The visitor is handed, in order, the runs of [`document_runs`] for the
/// events the reader yields; the output is [`apply_document_actions`] with
/// its answers. When the reader fails, the runs of the paragraphs that ended
/// before the failure have been visited, and the result is an error.
pub fn transform_document_xml<V: RunVisitor>(
    xml: &str,
    stylesheet: &Stylesheet,
    theme: Option<&Theme>,
    visitor: &mut V,
) -> (r: Result<String, String>)
    ensures
        spec_xml_events(xml@).1 <==> r is Err,
        r matches Ok(s) ==> exists|acts: Seq<Option<(Seq<char>, Option<Seq<char>>)>>|
            acts.len() == spec_doc_state(spec_xml_events(xml@).0, sv(stylesheet), opt_theme_view(theme), Seq::empty()).visits.len()
                && s@ == #[trigger] spec_doc_state(spec_xml_events(xml@).0, sv(stylesheet), opt_theme_view(theme), acts).out,
{
    let (events, err) = xml_events(xml);
    let runs = document_runs(&events, stylesheet, theme);
    let mut actions: Vec<RunAction> = Vec::new();
    let mut k: usize = 0;
    while k < runs.len()
        invariant
            k <= runs.len(),
            actions@.len() == k,
        decreases runs.len() - k,
    {
        let a = visitor.visit(runs[k].as_run_ref());
        actions.push(a);
        k += 1;
    }
    match err {
        Some(e) => Err(crate::theme::parse_error("XML parse error: ", e.as_str())),
        None => {
            let out = apply_document_actions(&events, stylesheet, theme, &actions);
            proof {
                assert(runs@.len() == infos_view(runs@).len());
                assert(actions_view(actions@).len() == actions@.len());
            }
            Ok(out)
        },
    }
}


// ---------------------------------------------------------------------------
// Laws of the walk

/// The text a captured run was read from: its start tag, its events and its
/// end tag.
pub open spec fn spec_run_as_read(rb: RunBufV) -> Seq<char> {
    spec_serialize(rb.start) + spec_serialize_all(rb.events) + match rb.end {
        Some(e) => spec_serialize(e),
        None => Seq::empty(),
    }
}

/// A run the visitor keeps is written back exactly as it was read.
pub proof fn lemma_kept_run_written_verbatim(rb: RunBufV)
    ensures
        spec_write_converted(rb, spec_keep_conv()) == spec_run_as_read(rb),
{
    crate::ooxml::lemma_emit_unchanged(rb.events, "rFonts"@, spec_rfonts_slots(), spec_rfonts_keys());
}

/// The runs a paragraph hands to the visitor do not depend on the
/// visitor's answers.
pub proof fn lemma_paragraph_visits_independent(
    texts: Seq<Seq<char>>,
    fonts: Seq<Option<Seq<char>>>,
    p: nat,
    a1: Seq<Option<(Seq<char>, Option<Seq<char>>)>>,
    a2: Seq<Option<(Seq<char>, Option<Seq<char>>)>>,
    base: nat,
    i: nat,
)
    ensures
        spec_convert_from(texts, fonts, p, a1, base, i).0 == spec_convert_from(texts, fonts, p, a2, base, i).0,
    decreases fonts.len() - i,
{
    if i < fonts.len() {
        lemma_group_end_bounds(fonts, (i + 1) as int, fonts[i as int]);
        let ge = spec_group_from(fonts, i as int);
        if ge == i + 1 {
            lemma_paragraph_visits_independent(texts, fonts, p, a1, a2, base + 1, i + 1);
        } else {
            lemma_paragraph_visits_independent(texts, fonts, p, a1, a2, base + 1, ge as nat);
        }
    }
}

/// Two walk states that agree on everything but the text written.
pub open spec fn same_but_output(a: DocStateV, b: DocStateV) -> bool {
    &&& a.run == b.run
    &&& a.run_depth == b.run_depth
    &&& a.ppr == b.ppr
    &&& a.paragraph_index == b.paragraph_index
    &&& a.in_paragraph == b.in_paragraph
    &&& a.ctx == b.ctx
    &&& a.runs == b.runs
    &&& a.visits == b.visits
}

/// The runs the document hands to the visitor do not depend on the
/// visitor's answers: collecting them first and applying the answers after
/// visits the same runs, in the same order, as answering each in turn.
pub proof fn lemma_document_visits_independent(
    evs: Seq<(XmlKind, Seq<char>)>,
    sheet: (Option<Seq<char>>, Seq<(Seq<char>, (Option<Seq<char>>, Option<Seq<char>>))>, Option<Seq<char>>),
    theme: Option<(Option<Seq<char>>, Option<Seq<char>>)>,
    a1: Seq<Option<(Seq<char>, Option<Seq<char>>)>>,
    a2: Seq<Option<(Seq<char>, Option<Seq<char>>)>>,
)
    ensures
        same_but_output(spec_doc_state(evs, sheet, theme, a1), spec_doc_state(evs, sheet, theme, a2)),
        spec_doc_state(evs, sheet, theme, a1).visits == spec_doc_state(evs, sheet, theme, a2).visits,
    decreases evs.len(),
{
    if evs.len() > 0 {
        lemma_document_visits_independent(evs.drop_last(), sheet, theme, a1, a2);
        let s1 = spec_doc_state(evs.drop_last(), sheet, theme, a1);
        let s2 = spec_doc_state(evs.drop_last(), sheet, theme, a2);
        let merged = spec_merge(s1.runs, spec_fonts_of(s1.runs, sheet, s1.ctx, theme));
        lemma_paragraph_visits_independent(
            spec_texts_of(merged),
            spec_fonts_of(merged, sheet, s1.ctx, theme),
            s1.paragraph_index,
            a1,
            a2,
            s1.visits.len(),
            0,
        );
    }
}


/// Merge states of the same length as `fonts`.
pub open spec fn merge_sized(m: MergeV, n: int) -> bool {
    m.texts.len() == n && m.removed.len() == n && m.evs.len() == n
}

/// A merge state leaves run `i` as it was in `m0`.
pub open spec fn merge_keeps(m: MergeV, m0: MergeV, i: int) -> bool {
    m.removed[i] == m0.removed[i] && m.texts[i] == m0.texts[i] && m.evs[i] == m0.evs[i]
}

proof fn lemma_forward_keeps_non_bijoy(m0: MergeV, fonts: Seq<Option<Seq<char>>>, k: nat, i: int)
    requires
        merge_sized(m0, fonts.len() as int),
        k <= fonts.len(),
        0 <= i < fonts.len(),
        !spec_is_bijoy(fonts[i]),
    ensures
        merge_sized(spec_forward(m0, fonts, k), fonts.len() as int),
        merge_keeps(spec_forward(m0, fonts, k), m0, i),
    decreases k,
{
    if k > 0 {
        lemma_forward_keeps_non_bijoy(m0, fonts, (k - 1) as nat, i);
        let m = spec_forward(m0, fonts, (k - 1) as nat);
        lemma_next_kept_bounds(m.removed, k as int);
    }
}

proof fn lemma_backward_keeps_non_bijoy(m0: MergeV, fonts: Seq<Option<Seq<char>>>, k: nat, i: int)
    requires
        merge_sized(m0, fonts.len() as int),
        k < fonts.len(),
        0 <= i < fonts.len(),
        !spec_is_bijoy(fonts[i]),
    ensures
        merge_sized(spec_backward(m0, fonts, k), fonts.len() as int),
        merge_keeps(spec_backward(m0, fonts, k), m0, i),
    decreases k,
{
    if k > 0 {
        lemma_backward_keeps_non_bijoy(m0, fonts, (k - 1) as nat, i);
        let m = spec_backward(m0, fonts, (k - 1) as nat);
        lemma_prev_kept_bounds(m.removed, fonts.len() - k - 1);
    }
}

proof fn lemma_kept_runs_contain(runs: Seq<RunBufV>, m: MergeV, k: nat, i: int)
    requires
        0 <= i < k <= runs.len(),
        !m.removed[i],
        m.evs[i] == runs[i].events,
    ensures
        spec_kept_runs(runs, m, k).contains(runs[i]),
    decreases k,
{
    let prev = spec_kept_runs(runs, m, (k - 1) as nat);
    if i == k - 1 {
        assert(RunBufV { events: m.evs[i], ..runs[i] } == runs[i]);
        assert(spec_kept_runs(runs, m, k).last() == runs[i]);
    } else {
        lemma_kept_runs_contain(runs, m, (k - 1) as nat, i);
        let j = choose|j: int| 0 <= j < prev.len() && prev[j] == runs[i];
        if !m.removed[k - 1] {
            assert(spec_kept_runs(runs, m, k)[j] == prev[j]);
        }
    }
}

/// Merging orphaned combining marks never touches a run whose font is not
/// Bijoy: it stays in the paragraph, exactly as it was read.
pub proof fn lemma_merge_keeps_non_bijoy_runs(runs: Seq<RunBufV>, fonts: Seq<Option<Seq<char>>>, i: int)
    requires
        fonts.len() == runs.len(),
        0 <= i < runs.len(),
        !spec_is_bijoy(fonts[i]),
    ensures
        spec_merge(runs, fonts).contains(runs[i]),
{
    let n = runs.len();
    if n < 2 {
        assert(runs[i] == spec_merge(runs, fonts)[i]);
    } else {
        let m0 = spec_merge_start(runs);
        lemma_forward_keeps_non_bijoy(m0, fonts, (n - 1) as nat, i);
        let f = spec_forward(m0, fonts, (n - 1) as nat);
        lemma_backward_keeps_non_bijoy(f, fonts, (n - 1) as nat, i);
        let b = spec_backward(f, fonts, (n - 1) as nat);
        lemma_kept_runs_contain(runs, b, n, i);
    }
}


/// The texts of the runs `0..k` not merged away, joined in order.
pub open spec fn spec_kept_text(m: MergeV, k: int) -> Seq<char>
    decreases k,
{
    if k <= 0 {
        Seq::empty()
    } else {
        spec_kept_text(m, k - 1) + if m.removed[k - 1] {
            Seq::<char>::empty()
        } else {
            m.texts[k - 1]
        }
    }
}

proof fn lemma_next_kept_skips(removed: Seq<bool>, j: int, l: int)
    requires
        0 <= j <= l < spec_next_kept(removed, j),
    ensures
        removed[l],
    decreases removed.len() - j,
{
    if j < removed.len() && removed[j] && j < l {
        lemma_next_kept_skips(removed, j + 1, l);
    }
}

proof fn lemma_next_kept_found(removed: Seq<bool>, j: int)
    requires
        0 <= j,
        spec_next_kept(removed, j) < removed.len(),
    ensures
        !removed[spec_next_kept(removed, j)],
    decreases removed.len() - j,
{
    if j < removed.len() && removed[j] {
        lemma_next_kept_found(removed, j + 1);
    }
}

proof fn lemma_prev_kept_skips(removed: Seq<bool>, j: int, l: int)
    requires
        spec_prev_kept(removed, j) < l <= j < removed.len(),
    ensures
        removed[l],
    decreases j,
{
    if j > 0 && removed[j] && l < j {
        lemma_prev_kept_skips(removed, j - 1, l);
    }
}

/// Moving the text of kept run `i` to the front of the next kept run `j`
/// and dropping run `i` keeps the joined text.
proof fn lemma_move_forward_text(m: MergeV, m2: MergeV, i: int, j: int, k: int)
    requires
        m.removed.len() == m.texts.len(),
        0 <= i < j < m.removed.len(),
        0 <= k <= m.removed.len(),
        !m.removed[i],
        !m.removed[j],
        forall|l: int| i < l < j ==> #[trigger] m.removed[l],
        m2.removed == m.removed.update(i, true),
        m2.texts == m.texts.update(j, m.texts[i] + m.texts[j]),
    ensures
        k <= i ==> spec_kept_text(m2, k) == spec_kept_text(m, k),
        i < k <= j ==> spec_kept_text(m2, k) == spec_kept_text(m, i) && spec_kept_text(m, k) == spec_kept_text(m, i)
            + m.texts[i],
        j < k ==> spec_kept_text(m2, k) == spec_kept_text(m, k),
    decreases k,
{
    if k > 0 {
        lemma_move_forward_text(m, m2, i, j, k - 1);
        if k - 1 == i {
            assert(spec_kept_text(m2, k) =~= spec_kept_text(m, i));
        } else if i < k - 1 < j {
            assert(spec_kept_text(m2, k) =~= spec_kept_text(m2, k - 1));
            assert(spec_kept_text(m, k) =~= spec_kept_text(m, k - 1));
        } else if k - 1 == j {
            assert(spec_kept_text(m, j) == spec_kept_text(m, i) + m.texts[i]);
            assert(spec_kept_text(m2, k) =~= spec_kept_text(m, k));
        }
    }
}

/// Moving the text of kept run `i` to the end of the previous kept run `j`
/// and dropping run `i` keeps the joined text.
proof fn lemma_move_backward_text(m: MergeV, m2: MergeV, i: int, j: int, k: int)
    requires
        m.removed.len() == m.texts.len(),
        0 <= j < i < m.removed.len(),
        0 <= k <= m.removed.len(),
        !m.removed[i],
        !m.removed[j],
        forall|l: int| j < l < i ==> #[trigger] m.removed[l],
        m2.removed == m.removed.update(i, true),
        m2.texts == m.texts.update(j, m.texts[j] + m.texts[i]),
    ensures
        k <= j ==> spec_kept_text(m2, k) == spec_kept_text(m, k),
        j < k <= i ==> spec_kept_text(m2, k) == spec_kept_text(m, k) + m.texts[i],
        i < k ==> spec_kept_text(m2, k) == spec_kept_text(m, k),
    decreases k,
{
    if k > 0 {
        lemma_move_backward_text(m, m2, i, j, k - 1);
        if k - 1 == j {
            assert(spec_kept_text(m2, k) =~= spec_kept_text(m, k) + m.texts[i]);
        } else if j < k - 1 < i {
            assert(spec_kept_text(m2, k) =~= spec_kept_text(m2, k - 1));
            assert(spec_kept_text(m, k) =~= spec_kept_text(m, k - 1));
        } else if k - 1 == i {
            assert(spec_kept_text(m2, k) =~= spec_kept_text(m, k));
        }
    }
}

proof fn lemma_forward_keeps_text(m0: MergeV, fonts: Seq<Option<Seq<char>>>, k: nat)
    requires
        merge_sized(m0, fonts.len() as int),
        k <= fonts.len(),
    ensures
        merge_sized(spec_forward(m0, fonts, k), fonts.len() as int),
        spec_kept_text(spec_forward(m0, fonts, k), fonts.len() as int) == spec_kept_text(m0, fonts.len() as int),
    decreases k,
{
    if k > 0 {
        lemma_forward_keeps_text(m0, fonts, (k - 1) as nat);
        let m = spec_forward(m0, fonts, (k - 1) as nat);
        let i = k - 1;
        let n = fonts.len() as int;
        lemma_next_kept_bounds(m.removed, i + 1);
        let j = spec_next_kept(m.removed, i + 1);
        let m2 = spec_forward_step(m, fonts, i);
        if m2 != m {
            assert forall|l: int| i < l < j implies #[trigger] m.removed[l] by {
                lemma_next_kept_skips(m.removed, i + 1, l);
            }
            lemma_next_kept_found(m.removed, i + 1);
            lemma_move_forward_text(m, m2, i, j, n);
        }
    }
}

proof fn lemma_backward_keeps_text(m0: MergeV, fonts: Seq<Option<Seq<char>>>, k: nat)
    requires
        merge_sized(m0, fonts.len() as int),
        k < fonts.len(),
    ensures
        merge_sized(spec_backward(m0, fonts, k), fonts.len() as int),
        spec_kept_text(spec_backward(m0, fonts, k), fonts.len() as int) == spec_kept_text(m0, fonts.len() as int),
    decreases k,
{
    if k > 0 {
        lemma_backward_keeps_text(m0, fonts, (k - 1) as nat);
        let m = spec_backward(m0, fonts, (k - 1) as nat);
        let n = fonts.len() as int;
        let i = n - k;
        lemma_prev_kept_bounds(m.removed, i - 1);
        let j = spec_prev_kept(m.removed, i - 1);
        let m2 = spec_backward_step(m, fonts, i);
        if m2 != m {
            assert forall|l: int| j < l < i implies #[trigger] m.removed[l] by {
                lemma_prev_kept_skips(m.removed, i - 1, l);
            }
            lemma_move_backward_text(m, m2, i, j, n);
        }
    }
}

/// Merging orphaned combining marks moves text between runs but never
/// loses or reorders it: the texts of the runs left, joined in order, are
/// the texts of all the paragraph's runs joined.
pub proof fn lemma_merge_keeps_text(runs: Seq<RunBufV>, fonts: Seq<Option<Seq<char>>>)
    requires
        fonts.len() == runs.len(),
        runs.len() >= 2,
    ensures
        spec_kept_text(
            spec_backward(
                spec_forward(spec_merge_start(runs), fonts, (runs.len() - 1) as nat),
                fonts,
                (runs.len() - 1) as nat,
            ),
            runs.len() as int,
        ) == spec_concat_texts(spec_texts_of(runs), 0, runs.len() as int),
{
    let n = runs.len();
    let m0 = spec_merge_start(runs);
    lemma_forward_keeps_text(m0, fonts, (n - 1) as nat);
    let f = spec_forward(m0, fonts, (n - 1) as nat);
    lemma_backward_keeps_text(f, fonts, (n - 1) as nat);
    lemma_start_text(runs, n as int);
}

proof fn lemma_start_text(runs: Seq<RunBufV>, k: int)
    requires
        0 <= k <= runs.len(),
    ensures
        spec_kept_text(spec_merge_start(runs), k) == spec_concat_texts(spec_texts_of(runs), 0, k),
    decreases k,
{
    if k > 0 {
        lemma_start_text(runs, k - 1);
    }
}


/// A converted run without `<w:rFonts>` comes out with exactly one added
/// event, the new `<w:rFonts>` naming `font`: just before the run's
/// `</w:rPr>`, or, when the run has no `<w:rPr>`, inside a fresh one at its
/// start. (A run whose `<w:rPr>` is never closed is left as it is.)
pub proof fn lemma_inject_adds_the_new_font(evs: Seq<(XmlKind, Seq<char>)>, font: Seq<char>)
    requires
        !spec_has_tag(evs, "rFonts"@),
        !spec_has_tag(evs, "rPr"@) || spec_last_of(evs, XmlKind::End, "rPr"@) >= 0,
    ensures
        ({
            let r = spec_inject_rfonts(evs, font);
            let tag = (XmlKind::Empty, spec_make_rfonts(font));
            &&& spec_has_tag(evs, "rPr"@) ==> exists|k: int|
                0 <= k < evs.len() && #[trigger] r[k] == tag && r.remove(k) == evs && spec_is(
                    r[k + 1],
                    XmlKind::End,
                    "rPr"@,
                )
            &&& !spec_has_tag(evs, "rPr"@) ==> r == seq![(XmlKind::Start, "w:rPr"@), tag, (XmlKind::End, "w:rPr"@)]
                + evs
        }),
{
    let r = spec_inject_rfonts(evs, font);
    let tag = (XmlKind::Empty, spec_make_rfonts(font));
    if spec_has_tag(evs, "rPr"@) {
        let k = spec_last_of(evs, XmlKind::End, "rPr"@);
        crate::ooxml::lemma_last_of_bounds(evs, XmlKind::End, "rPr"@);
        lemma_last_of_is(evs, XmlKind::End, "rPr"@);
        assert(r == evs.insert(k, tag));
        assert(r[k] == tag);
        assert(r.remove(k) =~= evs);
        assert(r[k + 1] == evs[k]);
    }
}

proof fn lemma_last_of_is(evs: Seq<(XmlKind, Seq<char>)>, kind: XmlKind, name: Seq<char>)
    ensures
        spec_last_of(evs, kind, name) >= 0 ==> spec_is(evs[spec_last_of(evs, kind, name)], kind, name),
    decreases evs.len(),
{
    if evs.len() > 0 && !spec_is(evs.last(), kind, name) {
        lemma_last_of_is(evs.drop_last(), kind, name);
        crate::ooxml::lemma_last_of_bounds(evs.drop_last(), kind, name);
        if spec_last_of(evs, kind, name) >= 0 {
            assert(evs[spec_last_of(evs, kind, name)] == evs.drop_last()[spec_last_of(evs, kind, name)]);
        }
    }
}

} // verus!
