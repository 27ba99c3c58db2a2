//! `word/theme/theme1.xml`: the Latin fonts of the theme's font scheme, and
//! the resolution of a `<w:rFonts>` element to a font name, honouring theme
//! references.
//!
//! Modern Word output writes `<w:rFonts w:asciiTheme="minorHAnsi"/>` and
//! keeps the actual font in the theme; without theme resolution the font
//! cascade would miss a font hint that is there.
//!
//! Only the Latin slots (`minorFont/latin`, `majorFont/latin`) are modelled:
//! East-Asian and complex-script slots do not matter for telling Bengali
//! from Latin.

use vstd::prelude::*;
use crate::english::{is_unicode_whitespace, spec_is_unicode_whitespace};
use crate::text::{append, chars_of, str_equal};
use crate::xml::{
    attr, attributes, ev_view, evs_view, is_element, is_tag, key_local_is, opt_string_view,
    pairs_view, spec_attr, spec_attributes, spec_is, spec_local, spec_xml_events,
    spec_xml_unescape, xml_events, XmlEvent, XmlKind,
};

verus! {

/// The Latin fonts of a theme's font scheme.
#[derive(Debug)]
pub struct Theme {
    /// `<a:minorFont>/<a:latin typeface="…">`, the font of the tokens
    /// `minorHAnsi` and `minorAscii`.
    pub minor_latin: Option<String>,
    /// `<a:majorFont>/<a:latin typeface="…">`, the font of the tokens
    /// `majorHAnsi` and `majorAscii`.
    pub major_latin: Option<String>,
}

/// A theme as values: (minor Latin font, major Latin font).
pub open spec fn theme_view(t: Theme) -> (Option<Seq<char>>, Option<Seq<char>>) {
    (opt_string_view(t.minor_latin), opt_string_view(t.major_latin))
}

pub open spec fn opt_theme_view(t: Option<&Theme>) -> Option<(Option<Seq<char>>, Option<Seq<char>>)> {
    match t {
        Some(th) => Some(theme_view(*th)),
        None => None,
    }
}

impl Default for Theme {
    fn default() -> (r: Theme)
        ensures
            r.minor_latin is None,
            r.major_latin is None,
    {
        Theme { minor_latin: None, major_latin: None }
    }
}

/// The font of a theme token: the minor Latin font for `minorHAnsi` and
/// `minorAscii`, the major one for `majorHAnsi` and `majorAscii`, none for
/// any other token.
pub open spec fn spec_resolve_token(t: (Option<Seq<char>>, Option<Seq<char>>), token: Seq<char>) -> Option<
    Seq<char>,
> {
    if token == "minorHAnsi"@ || token == "minorAscii"@ {
        t.0
    } else if token == "majorHAnsi"@ || token == "majorAscii"@ {
        t.1
    } else {
        None
    }
}

pub open spec fn opt_str_view(o: Option<&str>) -> Option<Seq<char>> {
    match o {
        Some(s) => Some(s@),
        None => None,
    }
}

impl Theme {
    /// Resolve a `w:asciiTheme` / `w:hAnsiTheme` token to a font name.
    pub fn resolve_token(&self, token: &str) -> (r: Option<&str>)
        ensures
            opt_str_view(r) == spec_resolve_token(theme_view(*self), token@),
    {
        if str_equal(token, "minorHAnsi") || str_equal(token, "minorAscii") {
            match &self.minor_latin {
                Some(s) => Some(s.as_str()),
                None => None,
            }
        } else if str_equal(token, "majorHAnsi") || str_equal(token, "majorAscii") {
            match &self.major_latin {
                Some(s) => Some(s.as_str()),
                None => None,
            }
        } else {
            None
        }
    }
}

/// The `ascii`, `hAnsi`, `asciiTheme` and `hAnsiTheme` values of an
/// `<w:rFonts>` element's attributes: the last one of each that unescapes.
pub open spec fn spec_rfonts_slots(attrs: Seq<(Seq<char>, Seq<char>)>) -> (
    Option<Seq<char>>,
    Option<Seq<char>>,
    Option<Seq<char>>,
    Option<Seq<char>>,
)
    decreases attrs.len(),
{
    if attrs.len() == 0 {
        (None, None, None, None)
    } else {
        let prev = spec_rfonts_slots(attrs.drop_last());
        let local = spec_local(attrs.last().0);
        match spec_xml_unescape(attrs.last().1) {
            None => prev,
            Some(v) => if local == "ascii"@ {
                (Some(v), prev.1, prev.2, prev.3)
            } else if local == "hAnsi"@ {
                (prev.0, Some(v), prev.2, prev.3)
            } else if local == "asciiTheme"@ {
                (prev.0, prev.1, Some(v), prev.3)
            } else if local == "hAnsiTheme"@ {
                (prev.0, prev.1, prev.2, Some(v))
            } else {
                prev
            },
        }
    }
}

pub open spec fn or_else(a: Option<Seq<char>>, b: Option<Seq<char>>) -> Option<Seq<char>> {
    if a is Some {
        a
    } else {
        b
    }
}

/// The font named by an `<w:rFonts>` element: its `ascii` font, else its
/// `hAnsi` font, else the theme font of its `asciiTheme` (else `hAnsiTheme`)
/// token when a theme is given.
pub open spec fn spec_font_from_rfonts(
    e: (XmlKind, Seq<char>),
    theme: Option<(Option<Seq<char>>, Option<Seq<char>>)>,
) -> Option<Seq<char>> {
    let s = spec_rfonts_slots(spec_attributes(e));
    if s.0 is Some || s.1 is Some {
        or_else(s.0, s.1)
    } else {
        match theme {
            None => None,
            Some(t) => match or_else(s.2, s.3) {
                Some(tok) => spec_resolve_token(t, tok),
                None => None,
            },
        }
    }
}

fn take_first(a: Option<String>, b: Option<String>) -> (r: Option<String>)
    ensures
        opt_string_view(r) == or_else(opt_string_view(a), opt_string_view(b)),
{
    match a {
        Some(x) => Some(x),
        None => b,
    }
}

/// Read the font of a `<w:rFonts>` element, preferring direct `w:ascii` /
/// `w:hAnsi`, then theme-resolved `w:asciiTheme` / `w:hAnsiTheme`. Without
/// a theme, theme tokens resolve to nothing.
pub fn font_from_rfonts(e: &XmlEvent, theme: Option<&Theme>) -> (r: Option<String>)
    ensures
        opt_string_view(r) == spec_font_from_rfonts(ev_view(*e), opt_theme_view(theme)),
{
    let attrs = attributes(e);
    let ghost all = pairs_view(attrs@);
    let mut ascii: Option<String> = None;
    let mut hansi: Option<String> = None;
    let mut ascii_theme: Option<String> = None;
    let mut hansi_theme: Option<String> = None;
    let mut i: usize = 0;
    while i < attrs.len()
        invariant
            i <= attrs.len(),
            all == pairs_view(attrs@),
            spec_rfonts_slots(all.take(i as int)) == (
                opt_string_view(ascii),
                opt_string_view(hansi),
                opt_string_view(ascii_theme),
                opt_string_view(hansi_theme),
            ),
        decreases attrs.len() - i,
    {
        proof {
            assert(all.take(i + 1).drop_last() == all.take(i as int));
            assert(all.take(i + 1).last() == all[i as int]);
        }
        let key = attrs[i].0.as_str();
        match crate::xml::xml_unescape(attrs[i].1.as_str()) {
            Some(val) => {
                if key_local_is(key, "ascii") {
                    ascii = Some(val);
                } else if key_local_is(key, "hAnsi") {
                    hansi = Some(val);
                } else if key_local_is(key, "asciiTheme") {
                    ascii_theme = Some(val);
                } else if key_local_is(key, "hAnsiTheme") {
                    hansi_theme = Some(val);
                }
            },
            None => {},
        }
        i += 1;
    }
    assert(all.take(attrs.len() as int) == all);
    if ascii.is_some() || hansi.is_some() {
        return take_first(ascii, hansi);
    }
    match theme {
        None => None,
        Some(t) => match take_first(ascii_theme, hansi_theme) {
            Some(tok) => match t.resolve_token(tok.as_str()) {
                Some(resolved) => Some(resolved.to_owned()),
                None => None,
            },
            None => None,
        },
    }
}

// ---------------------------------------------------------------------------
// Parsing theme1.xml

/// The font scheme slot being read.
#[derive(Debug, Clone, Copy, PartialEq, Eq, Structural)]
pub enum Slot {
    Major,
    Minor,
}

/// The state after reading events: the current slot, the minor and the
/// major Latin font.
pub open spec fn spec_theme_state(evs: Seq<(XmlKind, Seq<char>)>) -> (
    Option<Slot>,
    Option<Seq<char>>,
    Option<Seq<char>>,
)
    decreases evs.len(),
{
    if evs.len() == 0 {
        (None, None, None)
    } else {
        let (slot, minor, major) = spec_theme_state(evs.drop_last());
        let e = evs.last();
        if spec_is(e, XmlKind::Start, "majorFont"@) {
            (Some(Slot::Major), minor, major)
        } else if spec_is(e, XmlKind::Start, "minorFont"@) {
            (Some(Slot::Minor), minor, major)
        } else if spec_is(e, XmlKind::End, "majorFont"@) || spec_is(e, XmlKind::End, "minorFont"@) {
            (None, minor, major)
        } else if spec_is(e, XmlKind::Empty, "latin"@) || spec_is(e, XmlKind::Start, "latin"@) {
            match slot {
                Some(Slot::Major) => (slot, minor, if major is None {
                    spec_attr(e, "typeface"@)
                } else {
                    major
                }),
                Some(Slot::Minor) => (slot, if minor is None {
                    spec_attr(e, "typeface"@)
                } else {
                    minor
                }, major),
                None => (slot, minor, major),
            }
        } else {
            (slot, minor, major)
        }
    }
}

/// The theme read from a document's events: the first `latin` typeface
/// inside `majorFont` and inside `minorFont`.
pub open spec fn spec_theme_from_events(evs: Seq<(XmlKind, Seq<char>)>) -> (Option<Seq<char>>, Option<Seq<char>>) {
    (spec_theme_state(evs).1, spec_theme_state(evs).2)
}

/// Read the Latin fonts of the font scheme from theme1.xml's events.
pub fn theme_from_events(events: &Vec<XmlEvent>) -> (r: Theme)
    ensures
        theme_view(r) == spec_theme_from_events(evs_view(events@)),
{
    let mut theme = Theme { minor_latin: None, major_latin: None };
    let mut slot: Option<Slot> = None;
    let mut i: usize = 0;
    while i < events.len()
        invariant
            i <= events.len(),
            spec_theme_state(evs_view(events@.take(i as int))) == (
                slot,
                opt_string_view(theme.minor_latin),
                opt_string_view(theme.major_latin),
            ),
        decreases events.len() - i,
    {
        proof {
            assert(evs_view(events@.take(i + 1)).drop_last() == evs_view(events@.take(i as int)));
            assert(evs_view(events@.take(i + 1)).last() == ev_view(events@[i as int]));
        }
        let e = &events[i];
        if is_element(e, XmlKind::Start, "majorFont") {
            slot = Some(Slot::Major);
        } else if is_element(e, XmlKind::Start, "minorFont") {
            slot = Some(Slot::Minor);
        } else if is_element(e, XmlKind::End, "majorFont") || is_element(e, XmlKind::End, "minorFont") {
            slot = None;
        } else if is_element(e, XmlKind::Empty, "latin") || is_element(e, XmlKind::Start, "latin") {
            match slot {
                Some(Slot::Major) => {
                    if theme.major_latin.is_none() {
                        theme.major_latin = attr(e, "typeface");
                    }
                },
                Some(Slot::Minor) => {
                    if theme.minor_latin.is_none() {
                        theme.minor_latin = attr(e, "typeface");
                    }
                },
                None => {},
            }
        }
        i += 1;
    }
    assert(events@.take(events.len() as int) == events@);
    theme
}

/// Whether a text is empty once white space is trimmed.
pub open spec fn spec_is_blank(s: Seq<char>) -> bool {
    forall|i: int| 0 <= i < s.len() ==> spec_is_unicode_whitespace(#[trigger] s[i])
}

pub fn is_blank(s: &str) -> (r: bool)
    ensures
        r == spec_is_blank(s@),
{
    let cs = chars_of(s);
    let mut i: usize = 0;
    while i < cs.len()
        invariant
            i <= cs.len(),
            cs@ == s@,
            forall|k: int| 0 <= k < i ==> spec_is_unicode_whitespace(#[trigger] cs@[k]),
        decreases cs.len() - i,
    {
        if !is_unicode_whitespace(cs[i]) {
            return false;
        }
        i += 1;
    }
    true
}

/// The message of a parse failure: a fixed prefix and the reader's message.
pub fn parse_error(prefix: &str, detail: &str) -> (r: String)
    ensures
        r@ == prefix@ + detail@,
{
    let mut msg = String::new();
    append(&mut msg, prefix);
    append(&mut msg, detail);
    assert(Seq::<char>::empty() + prefix@ + detail@ == prefix@ + detail@);
    msg
}

/// Parse theme1.xml. A blank input gives the empty theme; a document the
/// reader cannot read to its end is an error.
pub fn parse_theme(xml: &str) -> (r: Result<Theme, String>)
    ensures
        spec_is_blank(xml@) ==> (r matches Ok(t) && t.minor_latin is None && t.major_latin is None),
        !spec_is_blank(xml@) ==> (r is Err <==> spec_xml_events(xml@).1),
        !spec_is_blank(xml@) ==> (r matches Ok(t) ==> theme_view(t) == spec_theme_from_events(
            spec_xml_events(xml@).0,
        )),
{
    if is_blank(xml) {
        return Ok(Theme { minor_latin: None, major_latin: None });
    }
    let (events, err) = xml_events(xml);
    match err {
        Some(e) => Err(parse_error("theme1.xml parse error: ", e.as_str())),
        None => Ok(theme_from_events(&events)),
    }
}

} // verus!
