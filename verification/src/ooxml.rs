//! Run-level pieces shared by the DOCX and PPTX walkers: the text of a run,
//! replacing it, and the tags written for a new font.

use vstd::prelude::*;
use crate::text::{append, chars_of};
use crate::xml::{
    attributes, ev_view, evs_view, is_element, key_local_is, opt_string_view, pairs_view,
    push_attribute, spec_attributes, spec_is, spec_local, spec_name_end, spec_serialize, spec_serialize_all,
    spec_tag_text, spec_xml_escape, spec_xml_unescape, write_event, xml_escape, xml_unescape,
    XmlEvent, XmlKind,
};

verus! {

/// The text of a run's events and whether the last `<t>` is still open.
pub open spec fn spec_text_state(evs: Seq<(XmlKind, Seq<char>)>) -> (Seq<char>, bool)
    decreases evs.len(),
{
    if evs.len() == 0 {
        (Seq::empty(), false)
    } else {
        let (t, in_text) = spec_text_state(evs.drop_last());
        let e = evs.last();
        if spec_is(e, XmlKind::Start, "t"@) {
            (t, true)
        } else if spec_is(e, XmlKind::End, "t"@) {
            (t, false)
        } else if e.0 == XmlKind::Text && in_text {
            match spec_xml_unescape(e.1) {
                Some(u) => (t + u, in_text),
                None => (t, in_text),
            }
        } else {
            (t, in_text)
        }
    }
}

/// The text of a run: the unescaped character data inside its `<t>`
/// elements (data that does not unescape is skipped).
pub open spec fn spec_run_text(evs: Seq<(XmlKind, Seq<char>)>) -> Seq<char> {
    spec_text_state(evs).0
}

/// The text of a run's events.
pub fn run_text(events: &Vec<XmlEvent>) -> (r: String)
    ensures
        r@ == spec_run_text(evs_view(events@)),
{
    let mut text = String::new();
    let mut in_text = false;
    let mut i: usize = 0;
    while i < events.len()
        invariant
            i <= events.len(),
            spec_text_state(evs_view(events@.take(i as int))) == (text@, in_text),
        decreases events.len() - i,
    {
        proof {
            assert(evs_view(events@.take(i + 1)).drop_last() == evs_view(events@.take(i as int)));
            assert(evs_view(events@.take(i + 1)).last() == ev_view(events@[i as int]));
        }
        let e = &events[i];
        if is_element(e, XmlKind::Start, "t") {
            in_text = true;
        } else if is_element(e, XmlKind::End, "t") {
            in_text = false;
        } else if e.kind == XmlKind::Text && in_text {
            match xml_unescape(e.raw.as_str()) {
                Some(u) => append(&mut text, u.as_str()),
                None => {},
            }
        }
        i += 1;
    }
    assert(events@.take(events.len() as int) == events@);
    text
}

/// The events of a run with its text replaced: the first `<t>` element
/// receives `new_text` (and `xml:space="preserve"`), later ones are
/// emptied. The state is (events so far, inside `<t>`, text written).
pub open spec fn spec_set_text_state(evs: Seq<(XmlKind, Seq<char>)>, new_text: Seq<char>) -> (
    Seq<(XmlKind, Seq<char>)>,
    bool,
    bool,
)
    decreases evs.len(),
{
    if evs.len() == 0 {
        (Seq::empty(), false, false)
    } else {
        let (out, in_text, replaced) = spec_set_text_state(evs.drop_last(), new_text);
        let e = evs.last();
        if spec_is(e, XmlKind::Start, "t"@) {
            (out.push((XmlKind::Start, "w:t xml:space=\"preserve\""@)), true, replaced)
        } else if spec_is(e, XmlKind::End, "t"@) {
            if in_text && !replaced {
                (out.push((XmlKind::Text, spec_xml_escape(new_text))).push(e), false, true)
            } else {
                (out.push(e), false, replaced)
            }
        } else if e.0 == XmlKind::Text && in_text {
            (out, in_text, replaced)
        } else {
            (out.push(e), in_text, replaced)
        }
    }
}

pub open spec fn spec_set_run_text(evs: Seq<(XmlKind, Seq<char>)>, new_text: Seq<char>) -> Seq<
    (XmlKind, Seq<char>),
> {
    spec_set_text_state(evs, new_text).0
}

/// Replace the `<w:t>` text of a run's events.
pub fn set_run_text(events: &Vec<XmlEvent>, new_text: &str) -> (r: Vec<XmlEvent>)
    ensures
        evs_view(r@) == spec_set_run_text(evs_view(events@), new_text@),
{
    let mut out: Vec<XmlEvent> = Vec::new();
    let mut in_text = false;
    let mut replaced = false;
    let mut i: usize = 0;
    while i < events.len()
        invariant
            i <= events.len(),
            spec_set_text_state(evs_view(events@.take(i as int)), new_text@) == (
                evs_view(out@),
                in_text,
                replaced,
            ),
        decreases events.len() - i,
    {
        proof {
            assert(evs_view(events@.take(i + 1)).drop_last() == evs_view(events@.take(i as int)));
            assert(evs_view(events@.take(i + 1)).last() == ev_view(events@[i as int]));
        }
        let e = &events[i];
        let ghost before = evs_view(out@);
        if is_element(e, XmlKind::Start, "t") {
            in_text = true;
            let mut tag = String::new();
            append(&mut tag, "w:t");
            push_attribute(&mut tag, "xml:space", "preserve");
            proof {
                reveal_strlit("w:t");
                reveal_strlit(" ");
                reveal_strlit("xml:space");
                reveal_strlit("=\"");
                reveal_strlit("preserve");
                reveal_strlit("\"");
                reveal_strlit("w:t xml:space=\"preserve\"");
                assert(tag@ =~= "w:t xml:space=\"preserve\""@);
            }
            out.push(XmlEvent::new(XmlKind::Start, tag));
            assert(evs_view(out@) =~= before.push((XmlKind::Start, "w:t xml:space=\"preserve\""@)));
        } else if is_element(e, XmlKind::End, "t") {
            if in_text && !replaced {
                out.push(XmlEvent::new(XmlKind::Text, xml_escape(new_text)));
                replaced = true;
            }
            in_text = false;
            let ghost mid = evs_view(out@);
            out.push(e.duplicate());
            assert(evs_view(out@) =~= mid.push(ev_view(*e)));
            assert(evs_view(out@) =~= (if spec_set_text_state(evs_view(events@.take(i as int)), new_text@).1
                && !spec_set_text_state(evs_view(events@.take(i as int)), new_text@).2 {
                before.push((XmlKind::Text, spec_xml_escape(new_text@))).push(ev_view(*e))
            } else {
                before.push(ev_view(*e))
            }));
        } else if e.kind == XmlKind::Text && in_text {
        } else {
            out.push(e.duplicate());
            assert(evs_view(out@) =~= before.push(ev_view(*e)));
        }
        i += 1;
    }
    assert(events@.take(events.len() as int) == events@);
    out
}

// ---------------------------------------------------------------------------
// Font tags

/// The text of a new font tag `name` with the attributes `keys`, each set
/// to the escaped font name.
pub open spec fn spec_font_tag(name: Seq<char>, keys: Seq<Seq<char>>, font: Seq<char>) -> Seq<char>
    decreases keys.len(),
{
    if keys.len() == 0 {
        name
    } else {
        spec_font_tag(name, keys.drop_last(), font) + " "@ + keys.last() + "=\""@ + spec_xml_escape(
            font,
        ) + "\""@
    }
}

/// `<w:rFonts w:ascii="font" w:hAnsi="font"/>`'s text.
pub open spec fn spec_make_rfonts(font: Seq<char>) -> Seq<char> {
    spec_font_tag("w:rFonts"@, seq!["w:ascii"@, "w:hAnsi"@], font)
}

/// `<a:latin typeface="font"/>`'s text.
pub open spec fn spec_make_latin(font: Seq<char>) -> Seq<char> {
    spec_font_tag("a:latin"@, seq!["typeface"@], font)
}

pub fn make_rfonts(font: &str) -> (r: String)
    ensures
        r@ == spec_make_rfonts(font@),
{
    let esc = xml_escape(font);
    let mut tag = String::new();
    append(&mut tag, "w:rFonts");
    push_attribute(&mut tag, "w:ascii", esc.as_str());
    push_attribute(&mut tag, "w:hAnsi", esc.as_str());
    proof {
        let keys = seq!["w:ascii"@, "w:hAnsi"@];
        let n = "w:rFonts"@;
        let f = font@;
        assert(keys.drop_last() == seq!["w:ascii"@]);
        assert(keys.drop_last().drop_last() == Seq::<Seq<char>>::empty());
        assert(spec_font_tag(n, keys.drop_last().drop_last(), f) == n);
        assert(spec_font_tag(n, keys.drop_last(), f) == n + " "@ + "w:ascii"@ + "=\""@ + spec_xml_escape(f) + "\""@);
        assert(Seq::<char>::empty() + "w:rFonts"@ == "w:rFonts"@);
        assert(tag@ =~= spec_font_tag(n, keys, f));
    }
    tag
}

pub fn make_latin(font: &str) -> (r: String)
    ensures
        r@ == spec_make_latin(font@),
{
    let esc = xml_escape(font);
    let mut tag = String::new();
    append(&mut tag, "a:latin");
    push_attribute(&mut tag, "typeface", esc.as_str());
    proof {
        let keys = seq!["typeface"@];
        let n = "a:latin"@;
        assert(keys.drop_last() == Seq::<Seq<char>>::empty());
        assert(spec_font_tag(n, keys.drop_last(), font@) == n);
        assert(Seq::<char>::empty() + "a:latin"@ == "a:latin"@);
        assert(tag@ =~= spec_font_tag(n, keys, font@));
    }
    tag
}

/// A tag's attributes with the ones whose local key is in `slots` set to
/// `font` (raw, as given).
pub open spec fn spec_retarget(attrs: Seq<(Seq<char>, Seq<char>)>, slots: Seq<Seq<char>>, font: Seq<char>) -> Seq<
    (Seq<char>, Seq<char>),
> {
    attrs.map_values(
        |a: (Seq<char>, Seq<char>)|
            if slots.contains(spec_local(a.0)) {
                (a.0, font)
            } else {
                a
            },
    )
}

/// Whether some attribute's key has local name `want`.
pub open spec fn spec_has_key(attrs: Seq<(Seq<char>, Seq<char>)>, want: Seq<char>) -> bool {
    exists|k: int| 0 <= k < attrs.len() && spec_local(#[trigger] attrs[k].0) == want
}

/// The text of a font tag rewritten to `font`: its name, its attributes with
/// the font slots replaced by `font`, then each missing slot appended as
/// `qualified="escaped font"`.
pub open spec fn spec_rewrite_font_tag(
    e: (XmlKind, Seq<char>),
    slots: Seq<Seq<char>>,
    qualified: Seq<Seq<char>>,
    font: Seq<char>,
) -> Seq<char> {
    let attrs = spec_attributes(e);
    let base = spec_tag_text(e.1.take(spec_name_end(e.1)), spec_retarget(attrs, slots, font));
    spec_append_missing(base, attrs, slots, qualified, font)
}

pub open spec fn spec_append_missing(
    base: Seq<char>,
    attrs: Seq<(Seq<char>, Seq<char>)>,
    slots: Seq<Seq<char>>,
    qualified: Seq<Seq<char>>,
    font: Seq<char>,
) -> Seq<char>
    decreases slots.len(),
{
    if slots.len() == 0 || qualified.len() != slots.len() {
        base
    } else {
        let prev = spec_append_missing(base, attrs, slots.drop_last(), qualified.drop_last(), font);
        if spec_has_key(attrs, slots.last()) {
            prev
        } else {
            prev + " "@ + qualified.last() + "=\""@ + spec_xml_escape(font) + "\""@
        }
    }
}

/// The name part of a tag's raw text.
fn tag_name(e: &XmlEvent) -> (r: String)
    ensures
        r@ == e.raw@.take(spec_name_end(e.raw@)),
{
    let cs = chars_of(e.raw.as_str());
    let n = crate::xml::name_end(&cs);
    proof {
        crate::xml::lemma_name_end_bounds(cs@);
    }
    let mut out = String::new();
    let mut i: usize = 0;
    while i < n
        invariant
            i <= n <= cs.len(),
            cs@ == e.raw@,
            n == spec_name_end(cs@),
            out@ == cs@.take(i as int),
        decreases n - i,
    {
        out.push(cs[i]);
        assert(cs@.take(i + 1) == cs@.take(i as int).push(cs@[i as int]));
        i += 1;
    }
    out
}

/// Rewrite a font tag (`rFonts` with slots `ascii`/`hAnsi`, or `latin` with
/// slot `typeface`) to name `font`.
pub fn rewrite_font_tag(e: &XmlEvent, slots: &Vec<&str>, qualified: &Vec<&str>, font: &str) -> (r: XmlEvent)
    requires
        slots.len() == qualified.len(),
    ensures
        r.kind == e.kind,
        r.raw@ == spec_rewrite_font_tag(ev_view(*e), str_seq_view(slots@), str_seq_view(qualified@), font@),
{
    let attrs = attributes(e);
    let ghost av = pairs_view(attrs@);
    let ghost sv = str_seq_view(slots@);
    let mut tag = tag_name(e);
    let mut have: Vec<bool> = Vec::new();
    let mut k: usize = 0;
    while k < slots.len()
        invariant
            k <= slots.len(),
            have@.len() == k,
            forall|m: int| 0 <= m < k ==> !have@[m],
        decreases slots.len() - k,
    {
        have.push(false);
        k += 1;
    }
    let ghost name = e.raw@.take(spec_name_end(e.raw@));
    let mut i: usize = 0;
    while i < attrs.len()
        invariant
            i <= attrs.len(),
            av == pairs_view(attrs@),
            av == spec_attributes(ev_view(*e)),
            sv == str_seq_view(slots@),
            have@.len() == slots.len(),
            tag@ == spec_tag_text(name, spec_retarget(av, sv, font@).take(i as int)),
            forall|m: int| 0 <= m < slots.len() ==> (have@[m] <==> spec_has_key(av.take(i as int), sv[m])),
        decreases attrs.len() - i,
    {
        let key = attrs[i].0.as_str();
        let value = attrs[i].1.as_str();
        let mut is_slot = false;
        let mut m: usize = 0;
        let ghost have0 = have@;
        while m < slots.len()
            invariant
                m <= slots.len(),
                have@.len() == slots.len(),
                have0.len() == slots.len(),
                sv == str_seq_view(slots@),
                is_slot == exists|q: int| 0 <= q < m && sv[q] == spec_local(key@),
                forall|q: int| 0 <= q < m ==> (have@[q] <==> (have0[q] || sv[q] == spec_local(key@))),
                forall|q: int| m <= q < slots.len() ==> have@[q] == have0[q],
            decreases slots.len() - m,
        {
            assert(sv[m as int] == slots@[m as int]@);
            if key_local_is(key, slots[m]) {
                is_slot = true;
                have.set(m, true);
            }
            m += 1;
        }
        proof {
            assert(av[i as int] == (key@, value@));
            assert(av.take(i + 1) == av.take(i as int).push((key@, value@)));
            assert(spec_retarget(av, sv, font@).take(i + 1) == spec_retarget(av, sv, font@).take(
                i as int,
            ).push(spec_retarget(av, sv, font@)[i as int]));
            if is_slot {
                let q = choose|q: int| 0 <= q < slots.len() && sv[q] == spec_local(key@);
                assert(sv.contains(spec_local(key@)));
            }
            if sv.contains(spec_local(key@)) {
                let q = choose|q: int| 0 <= q < sv.len() && sv[q] == spec_local(key@);
                assert(is_slot);
            }
            assert forall|q: int| 0 <= q < slots.len() implies (have@[q] <==> spec_has_key(
                av.take(i + 1),
                sv[q],
            )) by {
                if spec_has_key(av.take(i + 1), sv[q]) {
                    let w = choose|w: int| 0 <= w < i + 1 && spec_local(#[trigger] av.take(i + 1)[w].0) == sv[q];
                    if w < i {
                        assert(av.take(i as int)[w] == av.take(i + 1)[w]);
                    }
                }
                if spec_has_key(av.take(i as int), sv[q]) {
                    let w = choose|w: int| 0 <= w < i && spec_local(#[trigger] av.take(i as int)[w].0) == sv[q];
                    assert(av.take(i + 1)[w] == av.take(i as int)[w]);
                }
                if sv[q] == spec_local(key@) {
                    assert(av.take(i + 1)[i as int] == (key@, value@));
                }
            }
        }
        let ghost r = spec_retarget(av, sv, font@);
        let ghost prev_tag = tag@;
        proof {
            assert(r[i as int] == (if sv.contains(spec_local(key@)) {
                (key@, font@)
            } else {
                (key@, value@)
            }));
            assert(r.take(i + 1).drop_last() == r.take(i as int));
            assert(r.take(i + 1).last() == r[i as int]);
        }
        if is_slot {
            push_attribute(&mut tag, key, font);
        } else {
            push_attribute(&mut tag, key, value);
        }
        assert(tag@ == spec_tag_text(name, r.take(i + 1)));
        i += 1;
    }
    assert(av.take(attrs.len() as int) == av);
    assert(spec_retarget(av, sv, font@).take(attrs.len() as int) == spec_retarget(av, sv, font@));
    let ghost base = tag@;
    let esc = xml_escape(font);
    let mut m: usize = 0;
    while m < slots.len()
        invariant
            m <= slots.len() == qualified.len(),
            have@.len() == slots.len(),
            sv == str_seq_view(slots@),
            forall|q: int| 0 <= q < slots.len() ==> (have@[q] <==> spec_has_key(av, sv[q])),
            esc@ == spec_xml_escape(font@),
            tag@ == spec_append_missing(base, av, sv.take(m as int), str_seq_view(qualified@).take(m as int), font@),
        decreases slots.len() - m,
    {
        proof {
            assert(sv.take(m + 1).drop_last() == sv.take(m as int));
            assert(str_seq_view(qualified@).take(m + 1).drop_last() == str_seq_view(qualified@).take(m as int));
        }
        if !have[m] {
            push_attribute(&mut tag, qualified[m], esc.as_str());
        }
        m += 1;
    }
    assert(sv.take(slots.len() as int) == sv);
    assert(str_seq_view(qualified@).take(slots.len() as int) == str_seq_view(qualified@));
    XmlEvent::new(e.kind, tag)
}

pub open spec fn str_seq_view(v: Seq<&str>) -> Seq<Seq<char>> {
    v.map_values(|s: &str| s@)
}

// ---------------------------------------------------------------------------
// Emitting a run

/// Whether `e` is a start or empty tag with local name `name`.
pub open spec fn spec_is_tag(e: (XmlKind, Seq<char>), name: Seq<char>) -> bool {
    spec_is(e, XmlKind::Empty, name) || spec_is(e, XmlKind::Start, name)
}

/// Writing a run's events with an optional new text and font: font tags
/// (local name `tag`) are rewritten to the new font; the first `<t>`
/// receives the new text, every other text inside `<t>` is dropped. The
/// state is (text written, inside `<t>`, new text written).
pub open spec fn spec_emit_state(
    evs: Seq<(XmlKind, Seq<char>)>,
    new_text: Option<Seq<char>>,
    new_font: Option<Seq<char>>,
    tag: Seq<char>,
    slots: Seq<Seq<char>>,
    qualified: Seq<Seq<char>>,
) -> (Seq<char>, bool, bool)
    decreases evs.len(),
{
    if evs.len() == 0 {
        (Seq::empty(), false, false)
    } else {
        let (out, in_text, emitted) = spec_emit_state(evs.drop_last(), new_text, new_font, tag, slots, qualified);
        let e = evs.last();
        if spec_is_tag(e, tag) {
            let e2 = match new_font {
                Some(f) => (e.0, spec_rewrite_font_tag(e, slots, qualified, f)),
                None => e,
            };
            (out + spec_serialize(e2), in_text, emitted)
        } else if spec_is(e, XmlKind::Start, "t"@) {
            (out + spec_serialize(e), true, emitted)
        } else if spec_is(e, XmlKind::End, "t"@) {
            if in_text && !emitted && new_text is Some {
                (out + spec_serialize((XmlKind::Text, spec_xml_escape(new_text->0))) + spec_serialize(e), false, true)
            } else {
                (out + spec_serialize(e), false, emitted)
            }
        } else if e.0 == XmlKind::Text && in_text && new_text is Some {
            (out, in_text, emitted)
        } else {
            (out + spec_serialize(e), in_text, emitted)
        }
    }
}

/// Writing a run's events with neither a new text nor a new font writes
/// every event back as it was read.
pub proof fn lemma_emit_unchanged(
    evs: Seq<(XmlKind, Seq<char>)>,
    tag: Seq<char>,
    slots: Seq<Seq<char>>,
    qualified: Seq<Seq<char>>,
)
    ensures
        spec_emit_state(evs, None, None, tag, slots, qualified).0 == spec_serialize_all(evs),
    decreases evs.len(),
{
    if evs.len() > 0 {
        lemma_emit_unchanged(evs.drop_last(), tag, slots, qualified);
    }
}

pub open spec fn opt_str_view(o: Option<&str>) -> Option<Seq<char>> {
    match o {
        Some(s) => Some(s@),
        None => None,
    }
}

/// Write a run's events with an optional new text and font.
pub fn emit_run_events(
    out: &mut String,
    events: &Vec<XmlEvent>,
    new_text: Option<&str>,
    new_font: Option<&str>,
    tag: &str,
    slots: &Vec<&str>,
    qualified: &Vec<&str>,
)
    requires
        slots.len() == qualified.len(),
    ensures
        final(out)@ == old(out)@ + spec_emit_state(
            evs_view(events@),
            opt_str_view(new_text),
            opt_str_view(new_font),
            tag@,
            str_seq_view(slots@),
            str_seq_view(qualified@),
        ).0,
{
    let ghost nt = opt_str_view(new_text);
    let ghost nf = opt_str_view(new_font);
    let ghost sv = str_seq_view(slots@);
    let ghost qv = str_seq_view(qualified@);
    let ghost start = out@;
    let mut in_text = false;
    let mut emitted = false;
    let mut i: usize = 0;
    while i < events.len()
        invariant
            i <= events.len(),
            slots.len() == qualified.len(),
            nt == opt_str_view(new_text),
            nf == opt_str_view(new_font),
            sv == str_seq_view(slots@),
            qv == str_seq_view(qualified@),
            ({
                let st = spec_emit_state(evs_view(events@.take(i as int)), nt, nf, tag@, sv, qv);
                out@ == start + st.0 && in_text == st.1 && emitted == st.2
            }),
        decreases events.len() - i,
    {
        proof {
            assert(evs_view(events@.take(i + 1)).drop_last() == evs_view(events@.take(i as int)));
            assert(evs_view(events@.take(i + 1)).last() == ev_view(events@[i as int]));
        }
        let ghost before = out@;
        let e = &events[i];
        if is_element(e, XmlKind::Empty, tag) || is_element(e, XmlKind::Start, tag) {
            match new_font {
                Some(f) => {
                    let e2 = rewrite_font_tag(e, slots, qualified, f);
                    write_event(out, &e2);
                },
                None => write_event(out, e),
            }
        } else if is_element(e, XmlKind::Start, "t") {
            in_text = true;
            write_event(out, e);
        } else if is_element(e, XmlKind::End, "t") {
            if in_text && !emitted {
                match new_text {
                    Some(t) => {
                        let txt = XmlEvent::new(XmlKind::Text, xml_escape(t));
                        write_event(out, &txt);
                        emitted = true;
                    },
                    None => {},
                }
            }
            in_text = false;
            write_event(out, e);
        } else if e.kind == XmlKind::Text && in_text && new_text.is_some() {
        } else {
            write_event(out, e);
        }
        proof {
            let prev = spec_emit_state(evs_view(events@.take(i as int)), nt, nf, tag@, sv, qv);
            assert(before == start + prev.0);
        }
        assert(out@ =~= start + spec_emit_state(evs_view(events@.take(i + 1)), nt, nf, tag@, sv, qv).0);
        i += 1;
    }
    assert(events@.take(events.len() as int) == events@);
}

// ---------------------------------------------------------------------------
// Adding a font to a run that has none

pub open spec fn spec_has_tag(evs: Seq<(XmlKind, Seq<char>)>, name: Seq<char>) -> bool {
    exists|k: int| 0 <= k < evs.len() && spec_is_tag(#[trigger] evs[k], name)
}

/// Index of the last event of kind `kind` with local name `name`, or -1.
pub open spec fn spec_last_of(evs: Seq<(XmlKind, Seq<char>)>, kind: XmlKind, name: Seq<char>) -> int
    decreases evs.len(),
{
    if evs.len() == 0 {
        -1
    } else if spec_is(evs.last(), kind, name) {
        evs.len() - 1
    } else {
        spec_last_of(evs.drop_last(), kind, name)
    }
}

pub proof fn lemma_last_of_bounds(evs: Seq<(XmlKind, Seq<char>)>, kind: XmlKind, name: Seq<char>)
    ensures
        -1 <= spec_last_of(evs, kind, name) < evs.len(),
    decreases evs.len(),
{
    if evs.len() > 0 {
        lemma_last_of_bounds(evs.drop_last(), kind, name);
    }
}

/// Scan for a start or empty tag named `name` and the last event of kind
/// `kind` named `last_name`.
pub fn scan_tags(events: &Vec<XmlEvent>, name: &str, kind: XmlKind, last_name: &str) -> (r: (bool, Option<usize>))
    ensures
        r.0 == spec_has_tag(evs_view(events@), name@),
        match r.1 {
            Some(k) => k == spec_last_of(evs_view(events@), kind, last_name@),
            None => spec_last_of(evs_view(events@), kind, last_name@) == -1,
        },
{
    let ghost v = evs_view(events@);
    let mut has = false;
    let mut last: Option<usize> = None;
    let mut i: usize = 0;
    while i < events.len()
        invariant
            i <= events.len(),
            v == evs_view(events@),
            has == exists|k: int| 0 <= k < i && spec_is_tag(#[trigger] v[k], name@),
            match last {
                Some(k) => k == spec_last_of(v.take(i as int), kind, last_name@),
                None => spec_last_of(v.take(i as int), kind, last_name@) == -1,
            },
        decreases events.len() - i,
    {
        proof {
            assert(v.take(i + 1).drop_last() == v.take(i as int));
            assert(v.take(i + 1).last() == v[i as int]);
            assert(v[i as int] == ev_view(events@[i as int]));
        }
        let e = &events[i];
        if is_element(e, XmlKind::Empty, name) || is_element(e, XmlKind::Start, name) {
            has = true;
        }
        if is_element(e, kind, last_name) {
            last = Some(i);
        }
        i += 1;
    }
    assert(v.take(events.len() as int) == v);
    (has, last)
}

/// A copy of `events` with `extra` inserted before index `at`.
pub fn insert_before(events: &Vec<XmlEvent>, at: usize, extra: XmlEvent) -> (r: Vec<XmlEvent>)
    requires
        at <= events.len(),
    ensures
        evs_view(r@) == evs_view(events@).insert(at as int, ev_view(extra)),
{
    let ghost x = ev_view(extra);
    let mut out: Vec<XmlEvent> = Vec::new();
    let mut i: usize = 0;
    while i < at
        invariant
            i <= at <= events.len(),
            evs_view(out@) == evs_view(events@.take(i as int)),
        decreases at - i,
    {
        out.push(events[i].duplicate());
        assert(evs_view(events@.take(i + 1)) == evs_view(events@.take(i as int)).push(ev_view(events@[i as int])));
        i += 1;
    }
    out.push(extra);
    while i < events.len()
        invariant
            at <= i <= events.len(),
            evs_view(out@) == evs_view(events@.take(at as int)).push(x) + evs_view(events@.subrange(at as int, i as int)),
        decreases events.len() - i,
    {
        let ghost before = evs_view(out@);
        out.push(events[i].duplicate());
        assert(evs_view(events@.subrange(at as int, i + 1)) == evs_view(events@.subrange(at as int, i as int)).push(ev_view(events@[i as int])));
        assert(evs_view(out@) == before.push(ev_view(events@[i as int])));
        assert(evs_view(out@) =~= evs_view(events@.take(at as int)).push(x) + evs_view(events@.subrange(at as int, i + 1)));
        i += 1;
    }
    assert(evs_view(out@) =~= evs_view(events@).insert(at as int, x));
    out
}

} // verus!
