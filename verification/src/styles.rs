//! `word/styles.xml` and the OOXML font cascade for a run:
//! 1. the run's own `<w:rPr>/<w:rFonts>`;
//! 2. the paragraph's run defaults, `<w:pPr>/<w:rPr>/<w:rFonts>`;
//! 3. the paragraph style `<w:pStyle w:val="X"/>`, walking its `basedOn`
//!    chain;
//! 4. the default paragraph style (`w:default="1"`, `w:type="paragraph"`);
//! 5. `<w:docDefaults>/<w:rPrDefault>/<w:rPr>/<w:rFonts>`.

use vstd::prelude::*;
use crate::text::{chars_of, str_equal};
use crate::theme::{is_blank, opt_str_view, or_else, parse_error, spec_is_blank};
use crate::xml::{
    attr, ev_view, evs_view, is_element, opt_string_view, spec_attr, spec_is, spec_xml_events,
    xml_events, XmlEvent, XmlKind,
};

verus! {

/// One named style: its `basedOn` parent and its font.
#[derive(Debug)]
pub struct Style {
    pub based_on: Option<String>,
    pub font: Option<String>,
}

/// A style as values: (parent id, font).
pub open spec fn style_view(s: Style) -> (Option<Seq<char>>, Option<Seq<char>>) {
    (opt_string_view(s.based_on), opt_string_view(s.font))
}

impl Default for Style {
    fn default() -> (r: Style)
        ensures
            r.based_on is None,
            r.font is None,
    {
        Style { based_on: None, font: None }
    }
}

/// Parsed `word/styles.xml`.
#[derive(Debug)]
pub struct Stylesheet {
    /// `<w:docDefaults>/<w:rPrDefault>/<w:rPr>/<w:rFonts>` font.
    pub default_font: Option<String>,
    /// The declared styles, keyed by `w:styleId`; a lookup finds the first
    /// entry with the key.
    pub styles: Vec<(String, Style)>,
    /// The `w:styleId` of the paragraph style flagged `w:default="1"` and
    /// `w:type="paragraph"` (typically `"Normal"`).
    pub default_paragraph_style: Option<String>,
}

pub open spec fn styles_view(v: Seq<(String, Style)>) -> Seq<(Seq<char>, (Option<Seq<char>>, Option<Seq<char>>))> {
    v.map_values(|p: (String, Style)| (p.0@, style_view(p.1)))
}

/// A stylesheet as values: (default font, styles, default paragraph style).
pub open spec fn sheet_view(s: Stylesheet) -> (
    Option<Seq<char>>,
    Seq<(Seq<char>, (Option<Seq<char>>, Option<Seq<char>>))>,
    Option<Seq<char>>,
) {
    (opt_string_view(s.default_font), styles_view(s.styles@), opt_string_view(s.default_paragraph_style))
}

impl Default for Stylesheet {
    fn default() -> (r: Stylesheet)
        ensures
            r.default_font is None,
            r.styles@.len() == 0,
            r.default_paragraph_style is None,
    {
        Stylesheet { default_font: None, styles: Vec::new(), default_paragraph_style: None }
    }
}

/// Index of the first entry keyed `id`, or -1.
pub open spec fn spec_find_key(styles: Seq<(Seq<char>, (Option<Seq<char>>, Option<Seq<char>>))>, id: Seq<char>) -> int
    decreases styles.len(),
{
    if styles.len() == 0 {
        -1
    } else if spec_find_key(styles.drop_last(), id) >= 0 {
        spec_find_key(styles.drop_last(), id)
    } else if styles.last().0 == id {
        styles.len() - 1
    } else {
        -1
    }
}

pub proof fn lemma_find_key(styles: Seq<(Seq<char>, (Option<Seq<char>>, Option<Seq<char>>))>, id: Seq<char>)
    ensures
        -1 <= spec_find_key(styles, id) < styles.len(),
        spec_find_key(styles, id) >= 0 ==> styles[spec_find_key(styles, id)].0 == id,
        spec_find_key(styles, id) >= 0 ==> forall|k: int|
            0 <= k < spec_find_key(styles, id) ==> styles[k].0 != id,
        spec_find_key(styles, id) == -1 ==> forall|k: int| 0 <= k < styles.len() ==> styles[k].0 != id,
    decreases styles.len(),
{
    if styles.len() > 0 {
        let d = styles.drop_last();
        lemma_find_key(d, id);
        assert forall|k: int| 0 <= k < d.len() implies d[k] == styles[k] by {}
    }
}

/// The first index keyed `id` is the one that holds `id` after no other.
pub proof fn lemma_find_key_unique(
    styles: Seq<(Seq<char>, (Option<Seq<char>>, Option<Seq<char>>))>,
    id: Seq<char>,
    k: int,
)
    requires
        (k == -1 && forall|m: int| 0 <= m < styles.len() ==> styles[m].0 != id) || (0 <= k
            < styles.len() && styles[k].0 == id && forall|m: int| 0 <= m < k ==> styles[m].0 != id),
    ensures
        spec_find_key(styles, id) == k,
{
    lemma_find_key(styles, id);
    let f = spec_find_key(styles, id);
    if f >= 0 && k >= 0 {
        if f < k {
            assert(styles[f].0 == id);
        } else if k < f {
            assert(styles[k].0 == id);
        }
    } else if f >= 0 {
        assert(styles[f].0 == id);
    } else if k >= 0 {
        assert(styles[k].0 == id);
    }
}

/// The style keyed `id`.
pub open spec fn spec_lookup(styles: Seq<(Seq<char>, (Option<Seq<char>>, Option<Seq<char>>))>, id: Seq<char>) -> Option<
    (Option<Seq<char>>, Option<Seq<char>>),
> {
    if spec_find_key(styles, id) >= 0 {
        Some(styles[spec_find_key(styles, id)].1)
    } else {
        None
    }
}

/// Walk the `basedOn` chain from `current` for at most `fuel` styles and
/// return the first font found.
pub open spec fn spec_chain_font(
    styles: Seq<(Seq<char>, (Option<Seq<char>>, Option<Seq<char>>))>,
    current: Option<Seq<char>>,
    fuel: nat,
) -> Option<Seq<char>>
    decreases fuel,
{
    if fuel == 0 {
        None
    } else {
        match current {
            None => None,
            Some(id) => match spec_lookup(styles, id) {
                None => None,
                Some(st) => if st.1 is Some {
                    st.1
                } else {
                    spec_chain_font(styles, st.0, (fuel - 1) as nat)
                },
            },
        }
    }
}

/// The font of a style through its `basedOn` chain, following at most 64
/// styles so that a cycle ends the walk.
pub open spec fn spec_style_font(
    styles: Seq<(Seq<char>, (Option<Seq<char>>, Option<Seq<char>>))>,
    id: Seq<char>,
) -> Option<Seq<char>> {
    spec_chain_font(styles, Some(id), 64)
}

/// The font cascade for a run.
pub open spec fn spec_run_font(
    sheet: (Option<Seq<char>>, Seq<(Seq<char>, (Option<Seq<char>>, Option<Seq<char>>))>, Option<Seq<char>>),
    run_font: Option<Seq<char>>,
    paragraph_font: Option<Seq<char>>,
    style_id: Option<Seq<char>>,
) -> Option<Seq<char>> {
    if run_font is Some {
        run_font
    } else if paragraph_font is Some {
        paragraph_font
    } else {
        let by_style = match style_id {
            Some(id) => spec_style_font(sheet.1, id),
            None => None,
        };
        let by_default_style = match sheet.2 {
            Some(id) => spec_style_font(sheet.1, id),
            None => None,
        };
        if by_style is Some {
            by_style
        } else if by_default_style is Some {
            by_default_style
        } else {
            sheet.0
        }
    }
}

/// A style chain resolves only to a font that a style of the sheet
/// declares: there is a style whose own font it is.
pub proof fn lemma_chain_font_is_declared(
    styles: Seq<(Seq<char>, (Option<Seq<char>>, Option<Seq<char>>))>,
    current: Option<Seq<char>>,
    fuel: nat,
)
    ensures
        spec_chain_font(styles, current, fuel) matches Some(f) ==> exists|k: int|
            0 <= k < styles.len() && #[trigger] styles[k].1.1 == Some(f),
    decreases fuel,
{
    if fuel > 0 {
        if let Some(id) = current {
            lemma_find_key(styles, id);
            match spec_lookup(styles, id) {
                None => {},
                Some(st) => {
                    if st.1 is Some {
                        let k = spec_find_key(styles, id);
                        assert(styles[k].1.1 == st.1);
                    } else {
                        lemma_chain_font_is_declared(styles, st.0, (fuel - 1) as nat);
                    }
                },
            }
        }
    }
}

/// The style keyed `id`, found by scanning the list.
fn find_style(styles: &Vec<(String, Style)>, id: &str) -> (r: Option<usize>)
    ensures
        match r {
            Some(k) => k == spec_find_key(styles_view(styles@), id@),
            None => spec_find_key(styles_view(styles@), id@) == -1,
        },
{
    let ghost v = styles_view(styles@);
    proof {
        lemma_find_key(v, id@);
    }
    let mut k: usize = 0;
    while k < styles.len()
        invariant
            k <= styles.len(),
            v == styles_view(styles@),
            -1 <= spec_find_key(v, id@) < v.len(),
            spec_find_key(v, id@) >= 0 ==> v[spec_find_key(v, id@)].0 == id@,
            spec_find_key(v, id@) >= 0 ==> forall|m: int| 0 <= m < spec_find_key(v, id@) ==> v[m].0 != id@,
            spec_find_key(v, id@) == -1 ==> forall|m: int| 0 <= m < v.len() ==> v[m].0 != id@,
            forall|m: int| 0 <= m < k ==> v[m].0 != id@,
        decreases styles.len() - k,
    {
        assert(v[k as int].0 == styles@[k as int].0@);
        if str_equal(styles[k].0.as_str(), id) {
            return Some(k);
        }
        k += 1;
    }
    None
}

impl Stylesheet {
    /// The style keyed `id`.
    pub fn get_style(&self, id: &str) -> (r: Option<&Style>)
        ensures
            match r {
                Some(s) => spec_lookup(styles_view(self.styles@), id@) == Some(style_view(*s)),
                None => spec_lookup(styles_view(self.styles@), id@) is None,
            },
    {
        proof {
            lemma_find_key(styles_view(self.styles@), id@);
        }
        match find_style(&self.styles, id) {
            Some(k) => {
                assert(styles_view(self.styles@)[k as int] == (self.styles@[k as int].0@, style_view(
                    self.styles@[k as int].1,
                )));
                Some(&self.styles[k].1)
            },
            None => None,
        }
    }

    /// Declare a style: it replaces the style keyed `id`, if there is one.
    pub fn insert_style(&mut self, id: String, style: Style)
        ensures
            forall|k: Seq<char>|
                spec_lookup(styles_view(final(self).styles@), k) == if k == id@ {
                    Some(style_view(style))
                } else {
                    spec_lookup(styles_view(old(self).styles@), k)
                },
            final(self).default_font == old(self).default_font,
            final(self).default_paragraph_style == old(self).default_paragraph_style,
            styles_view(final(self).styles@) == spec_insert(styles_view(old(self).styles@), id@, style_view(style)),
            spec_keys_unique(styles_view(old(self).styles@)) ==> spec_keys_unique(styles_view(final(self).styles@)),
    {
        let ghost before = styles_view(self.styles@);
        let ghost sv = style_view(style);
        let ghost idv = id@;
        proof {
            lemma_find_key(before, idv);
        }
        match find_style(&self.styles, id.as_str()) {
            Some(k) => {
                self.styles.set(k, (id, style));
                let ghost after = styles_view(self.styles@);
                assert(after =~= before.update(k as int, (idv, sv)));
                assert forall|key: Seq<char>|
                    spec_lookup(after, key) == if key == idv {
                        Some(sv)
                    } else {
                        spec_lookup(before, key)
                    } by {
                    lemma_find_key(before, key);
                    if key == idv {
                        lemma_find_key_unique(after, key, k as int);
                    } else {
                        lemma_find_key_unique(after, key, spec_find_key(before, key));
                    }
                }
            },
            None => {
                self.styles.push((id, style));
                let ghost after = styles_view(self.styles@);
                assert(after =~= before.push((idv, sv)));
                assert forall|key: Seq<char>|
                    spec_lookup(after, key) == if key == idv {
                        Some(sv)
                    } else {
                        spec_lookup(before, key)
                    } by {
                    lemma_find_key(before, key);
                    if key == idv {
                        lemma_find_key_unique(after, key, before.len() as int);
                    } else {
                        lemma_find_key_unique(after, key, spec_find_key(before, key));
                    }
                }
            },
        }
        proof {
            if spec_keys_unique(before) {
                lemma_insert_keeps_keys_unique(before, idv, sv);
            }
        }
    }

    /// Walk the `basedOn` chain from `style_id` and return the first font
    /// found, following at most 64 styles (a cycle ends the walk).
    pub fn resolve_style_font(&self, style_id: &str) -> (r: Option<&str>)
        ensures
            opt_str_view(r) == spec_style_font(styles_view(self.styles@), style_id@),
    {
        let ghost v = styles_view(self.styles@);
        let mut current: Option<&str> = Some(style_id);
        let mut n: usize = 0;
        while n < 64
            invariant
                n <= 64,
                v == styles_view(self.styles@),
                spec_chain_font(v, Some(style_id@), 64) == spec_chain_font(
                    v,
                    opt_str_view(current),
                    (64 - n) as nat,
                ),
            decreases 64 - n,
        {
            let id = match current {
                Some(id) => id,
                None => {
                    return None;
                },
            };
            let style = match self.get_style(id) {
                Some(s) => s,
                None => {
                    return None;
                },
            };
            if let Some(f) = &style.font {
                return Some(f.as_str());
            }
            current = match &style.based_on {
                Some(b) => Some(b.as_str()),
                None => None,
            };
            n += 1;
        }
        None
    }

    /// Resolve a run's font through the cascade: the first of the run's
    /// font, the paragraph's run default, the paragraph style's chain, the
    /// default paragraph style's chain and the document default.
    pub fn resolve_run_font<'a>(
        &'a self,
        run_font: Option<&'a str>,
        paragraph_run_default_font: Option<&'a str>,
        paragraph_style_id: Option<&str>,
    ) -> (r: Option<&'a str>)
        ensures
            opt_str_view(r) == spec_run_font(
                sheet_view(*self),
                opt_str_view(run_font),
                opt_str_view(paragraph_run_default_font),
                opt_str_view(paragraph_style_id),
            ),
    {
        if let Some(f) = run_font {
            return Some(f);
        }
        if let Some(f) = paragraph_run_default_font {
            return Some(f);
        }
        if let Some(id) = paragraph_style_id {
            if let Some(f) = self.resolve_style_font(id) {
                return Some(f);
            }
        }
        if let Some(id) = &self.default_paragraph_style {
            if let Some(f) = self.resolve_style_font(id.as_str()) {
                return Some(f);
            }
        }
        match &self.default_font {
            Some(f) => Some(f.as_str()),
            None => None,
        }
    }
}

// ---------------------------------------------------------------------------
// Parsing styles.xml

/// `styles` with the entry keyed `id` replaced, or `(id, st)` appended.
pub open spec fn spec_insert(
    styles: Seq<(Seq<char>, (Option<Seq<char>>, Option<Seq<char>>))>,
    id: Seq<char>,
    st: (Option<Seq<char>>, Option<Seq<char>>),
) -> Seq<(Seq<char>, (Option<Seq<char>>, Option<Seq<char>>))> {
    if spec_find_key(styles, id) >= 0 {
        styles.update(spec_find_key(styles, id), (id, st))
    } else {
        styles.push((id, st))
    }
}

/// No two styles share a key.
pub open spec fn spec_keys_unique(styles: Seq<(Seq<char>, (Option<Seq<char>>, Option<Seq<char>>))>) -> bool {
    forall|i: int, j: int| 0 <= i < j < styles.len() ==> #[trigger] styles[i].0 != #[trigger] styles[j].0
}

/// Declaring a style keeps the keys unique.
pub proof fn lemma_insert_keeps_keys_unique(
    styles: Seq<(Seq<char>, (Option<Seq<char>>, Option<Seq<char>>))>,
    id: Seq<char>,
    st: (Option<Seq<char>>, Option<Seq<char>>),
)
    requires
        spec_keys_unique(styles),
    ensures
        spec_keys_unique(spec_insert(styles, id, st)),
{
    lemma_find_key(styles, id);
    let r = spec_insert(styles, id, st);
    let f = spec_find_key(styles, id);
    assert forall|i: int, j: int| 0 <= i < j < r.len() implies #[trigger] r[i].0 != #[trigger] r[j].0 by {
        if f >= 0 {
            assert(r[i].0 == styles[i].0 && r[j].0 == styles[j].0);
        } else if j == styles.len() {
            assert(r[i].0 == styles[i].0);
        } else {
            assert(r[i] == styles[i] && r[j] == styles[j]);
        }
    }
}

/// The font of an `<w:rFonts>` element in styles.xml: its `ascii` value,
/// else its `hAnsi` value.
pub open spec fn spec_styles_rfonts(e: (XmlKind, Seq<char>)) -> Option<Seq<char>> {
    or_else(spec_attr(e, "ascii"@), spec_attr(e, "hAnsi"@))
}

/// The parser's state: the sheet so far, the style being read (id, style,
/// whether it is the default paragraph style), the `rPr` depth, whether
/// inside `docDefaults/rPrDefault`, and the `docDefaults` depth.
pub struct StylesStateV {
    pub default_font: Option<Seq<char>>,
    pub styles: Seq<(Seq<char>, (Option<Seq<char>>, Option<Seq<char>>))>,
    pub default_paragraph_style: Option<Seq<char>>,
    pub current: Option<(Seq<char>, (Option<Seq<char>>, Option<Seq<char>>), bool)>,
    pub in_rpr: nat,
    pub in_rpr_default: bool,
    pub doc_defaults_depth: nat,
}

pub open spec fn spec_styles_step(s: StylesStateV, e: (XmlKind, Seq<char>)) -> StylesStateV {
    if spec_is(e, XmlKind::Start, "docDefaults"@) {
        StylesStateV { doc_defaults_depth: s.doc_defaults_depth + 1, ..s }
    } else if spec_is(e, XmlKind::End, "docDefaults"@) {
        StylesStateV {
            doc_defaults_depth: if s.doc_defaults_depth > 0 {
                (s.doc_defaults_depth - 1) as nat
            } else {
                0
            },
            ..s
        }
    } else if spec_is(e, XmlKind::Start, "rPrDefault"@) && s.doc_defaults_depth > 0 {
        StylesStateV { in_rpr_default: true, ..s }
    } else if spec_is(e, XmlKind::End, "rPrDefault"@) {
        StylesStateV { in_rpr_default: false, ..s }
    } else if spec_is(e, XmlKind::Start, "style"@) {
        let id = match spec_attr(e, "styleId"@) {
            Some(v) => v,
            None => Seq::empty(),
        };
        let ty = match spec_attr(e, "type"@) {
            Some(v) => v,
            None => Seq::empty(),
        };
        let is_default = spec_attr(e, "default"@) == Some("1"@);
        StylesStateV { current: Some((id, (None, None), is_default && ty == "paragraph"@)), ..s }
    } else if spec_is(e, XmlKind::End, "style"@) {
        match s.current {
            Some((id, st, is_default_para)) => if id.len() > 0 {
                StylesStateV {
                    default_paragraph_style: if is_default_para && s.default_paragraph_style is None {
                        Some(id)
                    } else {
                        s.default_paragraph_style
                    },
                    styles: spec_insert(s.styles, id, st),
                    current: None,
                    ..s
                }
            } else {
                StylesStateV { current: None, ..s }
            },
            None => s,
        }
    } else if spec_is(e, XmlKind::Empty, "basedOn"@) || spec_is(e, XmlKind::Start, "basedOn"@) {
        match s.current {
            Some((id, st, d)) => StylesStateV {
                current: Some((id, (spec_attr(e, "val"@), st.1), d)),
                ..s
            },
            None => s,
        }
    } else if spec_is(e, XmlKind::Start, "rPr"@) {
        StylesStateV { in_rpr: s.in_rpr + 1, ..s }
    } else if spec_is(e, XmlKind::End, "rPr"@) {
        StylesStateV {
            in_rpr: if s.in_rpr > 0 {
                (s.in_rpr - 1) as nat
            } else {
                0
            },
            ..s
        }
    } else if (spec_is(e, XmlKind::Empty, "rFonts"@) || spec_is(e, XmlKind::Start, "rFonts"@))
        && s.in_rpr > 0 {
        let font = spec_styles_rfonts(e);
        if s.in_rpr_default && s.default_font is None {
            StylesStateV { default_font: font, ..s }
        } else {
            match s.current {
                Some((id, st, d)) => if st.1 is None {
                    StylesStateV { current: Some((id, (st.0, font), d)), ..s }
                } else {
                    s
                },
                None => s,
            }
        }
    } else {
        s
    }
}

pub open spec fn spec_styles_state(evs: Seq<(XmlKind, Seq<char>)>) -> StylesStateV
    decreases evs.len(),
{
    if evs.len() == 0 {
        StylesStateV {
            default_font: None,
            styles: Seq::empty(),
            default_paragraph_style: None,
            current: None,
            in_rpr: 0,
            in_rpr_default: false,
            doc_defaults_depth: 0,
        }
    } else {
        spec_styles_step(spec_styles_state(evs.drop_last()), evs.last())
    }
}

/// The stylesheet read from styles.xml's events.
/// The styles read from any events have unique keys.
pub proof fn lemma_styles_state_keys_unique(evs: Seq<(XmlKind, Seq<char>)>)
    ensures
        spec_keys_unique(spec_styles_state(evs).styles),
    decreases evs.len(),
{
    if evs.len() > 0 {
        lemma_styles_state_keys_unique(evs.drop_last());
        let s = spec_styles_state(evs.drop_last());
        match s.current {
            Some((id, st, d)) => {
                lemma_insert_keeps_keys_unique(s.styles, id, st);
            },
            None => {},
        }
    }
}

pub open spec fn spec_sheet_from_events(evs: Seq<(XmlKind, Seq<char>)>) -> (
    Option<Seq<char>>,
    Seq<(Seq<char>, (Option<Seq<char>>, Option<Seq<char>>))>,
    Option<Seq<char>>,
) {
    let s = spec_styles_state(evs);
    (s.default_font, s.styles, s.default_paragraph_style)
}

fn styles_rfonts(e: &XmlEvent) -> (r: Option<String>)
    ensures
        opt_string_view(r) == spec_styles_rfonts(ev_view(*e)),
{
    match attr(e, "ascii") {
        Some(v) => Some(v),
        None => attr(e, "hAnsi"),
    }
}

pub open spec fn current_view(c: Option<(String, Style, bool)>) -> Option<
    (Seq<char>, (Option<Seq<char>>, Option<Seq<char>>), bool),
> {
    match c {
        Some((id, st, d)) => Some((id@, style_view(st), d)),
        None => None,
    }
}

/// Read the stylesheet from styles.xml's events.
pub fn sheet_from_events(events: &Vec<XmlEvent>) -> (r: Stylesheet)
    ensures
        sheet_view(r) == spec_sheet_from_events(evs_view(events@)),
        spec_keys_unique(styles_view(r.styles@)),
{
    let mut sheet = Stylesheet { default_font: None, styles: Vec::new(), default_paragraph_style: None };
    let mut current: Option<(String, Style, bool)> = None;
    let mut in_rpr: usize = 0;
    let mut in_rpr_default = false;
    let mut doc_defaults_depth: usize = 0;
    let mut i: usize = 0;
    while i < events.len()
        invariant
            i <= events.len(),
            in_rpr <= i,
            doc_defaults_depth <= i,
            ({
                let s = spec_styles_state(evs_view(events@.take(i as int)));
                &&& s.default_font == opt_string_view(sheet.default_font)
                &&& s.styles == styles_view(sheet.styles@)
                &&& s.default_paragraph_style == opt_string_view(sheet.default_paragraph_style)
                &&& s.current == current_view(current)
                &&& s.in_rpr == in_rpr
                &&& s.in_rpr_default == in_rpr_default
                &&& s.doc_defaults_depth == doc_defaults_depth
            }),
        decreases events.len() - i,
    {
        proof {
            assert(evs_view(events@.take(i + 1)).drop_last() == evs_view(events@.take(i as int)));
            assert(evs_view(events@.take(i + 1)).last() == ev_view(events@[i as int]));
        }
        let e = &events[i];
        if is_element(e, XmlKind::Start, "docDefaults") {
            doc_defaults_depth += 1;
        } else if is_element(e, XmlKind::End, "docDefaults") {
            if doc_defaults_depth > 0 {
                doc_defaults_depth -= 1;
            }
        } else if is_element(e, XmlKind::Start, "rPrDefault") && doc_defaults_depth > 0 {
            in_rpr_default = true;
        } else if is_element(e, XmlKind::End, "rPrDefault") {
            in_rpr_default = false;
        } else if is_element(e, XmlKind::Start, "style") {
            let id = match attr(e, "styleId") {
                Some(v) => v,
                None => String::new(),
            };
            let ty = match attr(e, "type") {
                Some(v) => v,
                None => String::new(),
            };
            let is_default = match attr(e, "default") {
                Some(v) => str_equal(v.as_str(), "1"),
                None => false,
            };
            let is_paragraph = str_equal(ty.as_str(), "paragraph");
            current = Some((id, Style { based_on: None, font: None }, is_default && is_paragraph));
        } else if is_element(e, XmlKind::End, "style") {
            let taken = current;
            current = None;
            match taken {
                Some((id, style, is_default_para)) => {
                    if id.as_str().unicode_len() > 0 {
                        if is_default_para && sheet.default_paragraph_style.is_none() {
                            sheet.default_paragraph_style = Some(id.clone());
                        }
                        let ghost before = styles_view(sheet.styles@);
                        let ghost idv = id@;
                        let ghost stv = style_view(style);
                        proof {
                            lemma_find_key(before, idv);
                        }
                        match find_style(&sheet.styles, id.as_str()) {
                            Some(k) => {
                                sheet.styles.set(k, (id, style));
                                assert(styles_view(sheet.styles@) =~= before.update(k as int, (idv, stv)));
                            },
                            None => {
                                sheet.styles.push((id, style));
                                assert(styles_view(sheet.styles@) =~= before.push((idv, stv)));
                            },
                        }
                    }
                },
                None => {},
            }
        } else if is_element(e, XmlKind::Empty, "basedOn") || is_element(e, XmlKind::Start, "basedOn") {
            match current {
                Some((id, style, d)) => {
                    current = Some((id, Style { based_on: attr(e, "val"), font: style.font }, d));
                },
                None => {},
            }
        } else if is_element(e, XmlKind::Start, "rPr") {
            in_rpr += 1;
        } else if is_element(e, XmlKind::End, "rPr") {
            if in_rpr > 0 {
                in_rpr -= 1;
            }
        } else if (is_element(e, XmlKind::Empty, "rFonts") || is_element(e, XmlKind::Start, "rFonts"))
            && in_rpr > 0 {
            let font = styles_rfonts(e);
            if in_rpr_default && sheet.default_font.is_none() {
                sheet.default_font = font;
            } else {
                match current {
                    Some((id, style, d)) => {
                        if style.font.is_none() {
                            current = Some((id, Style { based_on: style.based_on, font }, d));
                        } else {
                            current = Some((id, style, d));
                        }
                    },
                    None => {},
                }
            }
        }
        i += 1;
    }
    assert(events@.take(events.len() as int) == events@);
    proof {
        lemma_styles_state_keys_unique(evs_view(events@));
    }
    sheet
}

/// Parse a `word/styles.xml` source. A blank input gives the empty sheet; a
/// document the reader cannot read to its end is an error.
pub fn parse_styles(xml: &str) -> (r: Result<Stylesheet, String>)
    ensures
        spec_is_blank(xml@) ==> (r matches Ok(s) && sheet_view(s) == (
            None::<Seq<char>>,
            Seq::<(Seq<char>, (Option<Seq<char>>, Option<Seq<char>>))>::empty(),
            None::<Seq<char>>,
        )),
        !spec_is_blank(xml@) ==> (r is Err <==> spec_xml_events(xml@).1),
        !spec_is_blank(xml@) ==> (r matches Ok(s) ==> sheet_view(s) == spec_sheet_from_events(
            spec_xml_events(xml@).0,
        )),
        r matches Ok(s) ==> spec_keys_unique(styles_view(s.styles@)),
{
    if is_blank(xml) {
        let s = Stylesheet { default_font: None, styles: Vec::new(), default_paragraph_style: None };
        assert(styles_view(s.styles@) =~= Seq::empty());
        return Ok(s);
    }
    let (events, err) = xml_events(xml);
    match err {
        Some(e) => Err(parse_error("styles.xml parse error: ", e.as_str())),
        None => Ok(sheet_from_events(&events)),
    }
}

} // verus!
