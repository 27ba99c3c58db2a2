//! Font-name allowlist matching. Case-insensitive (ASCII) substring match
//! against curated lists per encoding family; an `*MJ` suffix rule catches
//! the long tail of Bijoy-family font names.

use vstd::prelude::*;
use crate::data::UNICODE_FONTS_TOML;
use crate::encoding::{registry, spec_fonts_toml, Encoding};
use crate::text::{
    ascii_lower, chars_of, spec_ascii_lower, spec_ascii_lower_seq, str_equal, string_of,
};
use vstd::string::StrSliceExecFns;

verus! {

// ---------------------------------------------------------------------------
// Substring search on characters

/// `needle` occurs in `hay` at position `k`.
pub open spec fn occurs_at(hay: Seq<char>, needle: Seq<char>, k: int) -> bool {
    0 <= k && k + needle.len() <= hay.len() && hay.subrange(k, k + needle.len()) == needle
}

/// `needle` occurs somewhere in `hay` (the empty needle always occurs).
pub open spec fn spec_contains(hay: Seq<char>, needle: Seq<char>) -> bool {
    exists|k: int| occurs_at(hay, needle, k)
}

/// Whether `needle` occurs in `hay` at `k`.
pub fn occurs_at_exec(hay: &Vec<char>, needle: &Vec<char>, k: usize) -> (r: bool)
    ensures
        r == occurs_at(hay@, needle@, k as int),
{
    if k > hay.len() || needle.len() > hay.len() - k {
        return false;
    }
    let mut i: usize = 0;
    while i < needle.len()
        invariant
            i <= needle.len(),
            k + needle.len() <= hay.len(),
            forall|j: int| 0 <= j < i ==> hay@[k + j] == needle@[j],
        decreases needle.len() - i,
    {
        if hay[k + i] != needle[i] {
            assert(hay@.subrange(k as int, k + needle.len())[i as int] != needle@[i as int]);
            return false;
        }
        i += 1;
    }
    assert(hay@.subrange(k as int, k + needle.len()) =~= needle@);
    true
}

/// Whether `needle` occurs in `hay`.
pub fn contains_chars(hay: &Vec<char>, needle: &Vec<char>) -> (r: bool)
    ensures
        r == spec_contains(hay@, needle@),
{
    let mut k: usize = 0;
    loop
        invariant
            k <= hay.len(),
            forall|j: int| 0 <= j < k ==> !occurs_at(hay@, needle@, j),
        decreases hay.len() - k,
    {
        if occurs_at_exec(hay, needle, k) {
            return true;
        }
        if k == hay.len() {
            assert forall|j: int| !occurs_at(hay@, needle@, j) by {
                if 0 <= j && j + needle.len() <= hay.len() {
                    assert(j <= k);
                }
            }
            return false;
        }
        k += 1;
    }
}

/// `s` ends with `suffix`.
pub open spec fn spec_ends_with(s: Seq<char>, suffix: Seq<char>) -> bool {
    suffix.len() <= s.len() && s.skip(s.len() - suffix.len()) == suffix
}

fn ends_with_chars(s: &Vec<char>, suffix: &Vec<char>) -> (r: bool)
    ensures
        r == spec_ends_with(s@, suffix@),
{
    if suffix.len() > s.len() {
        return false;
    }
    let k = s.len() - suffix.len();
    let r = occurs_at_exec(s, suffix, k);
    assert(s@.subrange(k as int, k + suffix.len()) == s@.skip(k as int));
    r
}

/// ASCII lower-case of a character vector.
pub fn lower_chars(s: &Vec<char>) -> (r: Vec<char>)
    ensures
        r@ == spec_ascii_lower_seq(s@),
{
    let mut out: Vec<char> = Vec::new();
    let mut i: usize = 0;
    while i < s.len()
        invariant
            i <= s.len(),
            out@ == spec_ascii_lower_seq(s@.take(i as int)),
        decreases s.len() - i,
    {
        out.push(ascii_lower(s[i]));
        assert(spec_ascii_lower_seq(s@.take(i + 1)) =~= spec_ascii_lower_seq(s@.take(i as int)).push(
            spec_ascii_lower(s@[i as int]),
        ));
        i += 1;
    }
    assert(s@.take(s.len() as int) == s@);
    out
}

// ---------------------------------------------------------------------------
// Subset prefix

/// Index of the first `+` in `s`, or `s.len()`.
pub open spec fn spec_first_plus(s: Seq<char>, from: int) -> int
    decreases s.len() - from,
{
    if from < 0 || from >= s.len() {
        s.len() as int
    } else if s[from] == '+' {
        from
    } else {
        spec_first_plus(s, from + 1)
    }
}

/// `s` starts with a six-letter upper-case ASCII subset tag followed by `+`
/// (as embedded PDF fonts carry, e.g. `ABCDEF+SutonnyMJ`).
pub open spec fn has_subset_prefix(s: Seq<char>) -> bool {
    &&& spec_first_plus(s, 0) == 6
    &&& 6 < s.len()
    &&& forall|k: int| 0 <= k < 6 ==> 'A' <= #[trigger] s[k] && s[k] <= 'Z'
}

/// The font name without its subset prefix.
pub open spec fn spec_strip_subset_prefix(s: Seq<char>) -> Seq<char> {
    if has_subset_prefix(s) {
        s.skip(7)
    } else {
        s
    }
}

/// Strip the six-letter subset prefix that embedded fonts carry
/// (`ABCDEF+SutonnyMJ` becomes `SutonnyMJ`). A name without such a prefix is
/// returned as it is.
pub fn strip_subset_prefix(name: &str) -> (r: &str)
    ensures
        r@ == spec_strip_subset_prefix(name@),
        !has_subset_prefix(name@) ==> r@ == name@,
{
    let cs = chars_of(name);
    let mut p: usize = 0;
    while p < cs.len() && cs[p] != '+'
        invariant
            p <= cs.len(),
            cs@ == name@,
            spec_first_plus(cs@, 0) == spec_first_plus(cs@, p as int),
        decreases cs.len() - p,
    {
        p += 1;
    }
    if p != 6 || p >= cs.len() {
        return name;
    }
    let mut k: usize = 0;
    while k < 6
        invariant
            k <= 6,
            6 < cs.len(),
            cs@ == name@,
            forall|j: int| 0 <= j < k ==> 'A' <= #[trigger] cs@[j] && cs@[j] <= 'Z',
        decreases 6 - k,
    {
        if !('A' <= cs[k] && cs[k] <= 'Z') {
            assert(!('A' <= cs@[k as int] && cs@[k as int] <= 'Z'));
            assert(name@[k as int] == cs@[k as int]);
            assert(!has_subset_prefix(name@));
            return name;
        }
        k += 1;
    }
    name.substring_char(7, cs.len())
}

// ---------------------------------------------------------------------------
// Allowlists

/// What `toml::from_str` yields for `src` read as a document of string
/// arrays: `None` when it is not one, else each key with its array, in
/// `BTreeMap` key order.
pub uninterp spec fn spec_toml_string_lists(src: Seq<char>) -> Option<Seq<(Seq<char>, Seq<Seq<char>>)>>;

pub open spec fn lists_view(v: Seq<(String, Vec<String>)>) -> Seq<(Seq<char>, Seq<Seq<char>>)> {
    v.map_values(|t: (String, Vec<String>)| (t.0@, t.1@.map_values(|s: String| s@)))
}

/// `toml::from_str::<BTreeMap<String, Vec<String>>>`, turned into a vector of
/// (key, array) pairs. Claimed: the result is the named parse of `src`.
#[verifier::external_body]
fn toml_string_lists(src: &str) -> (r: Option<Vec<(String, Vec<String>)>>)
    ensures
        r is Some == spec_toml_string_lists(src@) is Some,
        r matches Some(v) ==> lists_view(v@) == spec_toml_string_lists(src@)->0,
{
    toml::from_str::<std::collections::BTreeMap<String, Vec<String>>>(src).ok().map(
        |t| t.into_iter().collect(),
    )
}

/// The array under the first key `key`, if present.
pub open spec fn spec_list_named(lists: Seq<(Seq<char>, Seq<Seq<char>>)>, key: Seq<char>) -> Option<
    Seq<Seq<char>>,
>
    decreases lists.len(),
{
    if lists.len() == 0 {
        None
    } else if lists[0].0 == key {
        Some(lists[0].1)
    } else {
        spec_list_named(lists.drop_first(), key)
    }
}

/// The lower-cased allowlist stored under `key` in the TOML source `src`;
/// empty when the source does not parse or has no such key.
pub open spec fn spec_font_list(src: Seq<char>, key: Seq<char>) -> Seq<Seq<char>> {
    match spec_toml_string_lists(src) {
        Some(lists) => match spec_list_named(lists, key) {
            Some(l) => lower_all(l),
            None => seq![],
        },
        None => seq![],
    }
}

/// The character sequences of a vector of character vectors.
pub open spec fn vecs_view(v: Seq<Vec<char>>) -> Seq<Seq<char>> {
    v.map_values(|f: Vec<char>| f@)
}

/// Every entry lower-cased.
pub open spec fn lower_all(l: Seq<Seq<char>>) -> Seq<Seq<char>> {
    l.map_values(|f: Seq<char>| spec_ascii_lower_seq(f))
}

/// Load the allowlist under `key` from `src`, lower-cased.
fn load_font_list(src: &str, key: &str) -> (r: Vec<Vec<char>>)
    ensures
        vecs_view(r@) == spec_font_list(src@, key@),
{
    let parsed = toml_string_lists(src);
    let lists = match parsed {
        Some(l) => l,
        None => return Vec::new(),
    };
    assert(spec_toml_string_lists(src@) == Some(lists_view(lists@)));
    let ghost lv = lists_view(lists@);
    let mut i: usize = 0;
    assert(lv.skip(0) == lv);
    while i < lists.len()
        invariant
            i <= lists.len(),
            lv == lists_view(lists@),
            spec_toml_string_lists(src@) == Some(lv),
            spec_list_named(lv, key@) == spec_list_named(lv.skip(i as int), key@),
        decreases lists.len() - i,
    {
        assert(lv.skip(i as int)[0] == lv[i as int]);
        assert(lv.skip(i as int).drop_first() == lv.skip(i + 1));
        if str_equal(lists[i].0.as_str(), key) {
            let names = &lists[i].1;
            let ghost nv = names@.map_values(|s: String| s@);
            let mut out: Vec<Vec<char>> = Vec::new();
            let mut j: usize = 0;
            while j < names.len()
                invariant
                    j <= names.len(),
                    nv == names@.map_values(|s: String| s@),
                    vecs_view(out@) == lower_all(nv.take(j as int)),
                decreases names.len() - j,
            {
                let cs = chars_of(names[j].as_str());
                let lower = lower_chars(&cs);
                let ghost before = out@;
                assert(nv[j as int] == cs@);
                out.push(lower);
                proof {
                    assert(vecs_view(out@) =~= vecs_view(before).push(spec_ascii_lower_seq(cs@)));
                    assert(nv.take(j + 1) =~= nv.take(j as int).push(nv[j as int]));
                    assert(vecs_view(out@) =~= lower_all(nv.take(j + 1)));
                }
                j += 1;
            }
            assert(nv.take(names.len() as int) == nv);
            assert(lv[i as int].1 == nv);
            assert(spec_list_named(lv.skip(i as int), key@) == Some(nv));
            assert(vecs_view(out@) == lower_all(nv));
            assert(spec_list_named(lv, key@) == Some(nv));
            assert(spec_toml_string_lists(src@) == Some(lv));
            return out;
        }
        i += 1;
    }
    assert(lv.skip(i as int).len() == 0);
    Vec::new()
}

/// Some allowlist entry occurs in `name`.
pub open spec fn matches_list(name: Seq<char>, list: Seq<Seq<char>>) -> bool {
    exists|i: int| 0 <= i < list.len() && spec_contains(name, #[trigger] list[i])
}

fn any_occurs(name: &Vec<char>, list: &Vec<Vec<char>>) -> (r: bool)
    ensures
        r == matches_list(name@, vecs_view(list@)),
{
    let ghost lv = vecs_view(list@);
    let mut i: usize = 0;
    while i < list.len()
        invariant
            i <= list.len(),
            lv == vecs_view(list@),
            forall|j: int| 0 <= j < i ==> !spec_contains(name@, #[trigger] lv[j]),
        decreases list.len() - i,
    {
        if contains_chars(name, &list[i]) {
            assert(spec_contains(name@, lv[i as int]));
            return true;
        }
        i += 1;
    }
    false
}

/// The lower-cased font name without its subset prefix.
pub open spec fn spec_normalized_font_name(font_name: Seq<char>) -> Seq<char> {
    spec_ascii_lower_seq(spec_strip_subset_prefix(font_name))
}

/// Whether `font_name` is an ANSI Bengali font of the family: an allowlist
/// entry occurs in it, or (Bijoy) it ends in `mj`.
pub open spec fn spec_is_ansi_font(font_name: Seq<char>, encoding: Encoding) -> bool {
    let name = spec_normalized_font_name(font_name);
    matches_list(name, spec_font_list(spec_fonts_toml(encoding), "ansi_fonts"@)) || (
    encoding == Encoding::Bijoy && spec_ends_with(name, seq!['m', 'j']))
}

/// Whether `font_name` is a known Unicode Bengali font.
pub open spec fn spec_is_unicode_bengali_font(font_name: Seq<char>) -> bool {
    matches_list(
        spec_normalized_font_name(font_name),
        spec_font_list(UNICODE_FONTS_TOML@, "unicode_fonts"@),
    )
}

fn normalized_font_name(font_name: &str) -> (r: Vec<char>)
    ensures
        r@ == spec_normalized_font_name(font_name@),
{
    let stripped = strip_subset_prefix(font_name);
    let cs = chars_of(stripped);
    lower_chars(&cs)
}

/// Return true if `font_name` is on the ANSI Bengali allowlist for the given
/// encoding family (case-insensitive substring match), or, for Bijoy, ends in
/// `MJ`.
pub fn is_ansi_font(font_name: &str, encoding: Encoding) -> (r: bool)
    ensures
        r == spec_is_ansi_font(font_name@, encoding),
{
    let name = normalized_font_name(font_name);
    let reg = registry(encoding);
    let list = load_font_list(reg.fonts_toml, "ansi_fonts");
    if any_occurs(&name, &list) {
        return true;
    }
    let mj = vec!['m', 'j'];
    let bijoy = match encoding {
        Encoding::Bijoy => true,
    };
    if bijoy && ends_with_chars(&name, &mj) {
        return true;
    }
    false
}

/// Return true if `font_name` is a known Unicode Bengali font. Such runs
/// already render Unicode correctly and must not be re-converted.
pub fn is_unicode_bengali_font(font_name: &str) -> (r: bool)
    ensures
        r == spec_is_unicode_bengali_font(font_name@),
{
    let name = normalized_font_name(font_name);
    let list = load_font_list(UNICODE_FONTS_TOML, "unicode_fonts");
    any_occurs(&name, &list)
}

/// The Unicode counterpart of a Bijoy font, if one is known: a name whose
/// normalized form is `sutonnymj` maps to `SutonnyOMJ`.
pub open spec fn spec_matched_font(font_name: Seq<char>, encoding: Encoding) -> Option<Seq<char>> {
    if encoding == Encoding::Bijoy && spec_normalized_font_name(font_name) == seq![
        's',
        'u',
        't',
        'o',
        'n',
        'n',
        'y',
        'm',
        'j',
    ] {
        Some(seq!['S', 'u', 't', 'o', 'n', 'n', 'y', 'O', 'M', 'J'])
    } else {
        None
    }
}

/// Map a Bijoy font to its OMJ Unicode counterpart (e.g. SutonnyMJ to
/// SutonnyOMJ); `None` when no counterpart is known.
pub fn resolve_matched_font(font_name: &str, encoding: Encoding) -> (r: Option<&'static str>)
    ensures
        r is Some == spec_matched_font(font_name@, encoding) is Some,
        r matches Some(f) ==> f@ == spec_matched_font(font_name@, encoding)->0,
{
    let name = normalized_font_name(font_name);
    let target = vec!['s', 'u', 't', 'o', 'n', 'n', 'y', 'm', 'j'];
    let bijoy = match encoding {
        Encoding::Bijoy => true,
    };
    proof {
        reveal_strlit("SutonnyOMJ");
    }
    if bijoy && crate::text::chars_equal(&name, &target) {
        Some("SutonnyOMJ")
    } else {
        None
    }
}


// ---------------------------------------------------------------------------
// Laws of font matching

/// Font matching ignores ASCII case: two names with the same lower-case
/// form (both with a subset prefix, or both without) match alike.
pub proof fn lemma_font_match_ignores_case(a: Seq<char>, b: Seq<char>, encoding: Encoding)
    requires
        spec_ascii_lower_seq(a) == spec_ascii_lower_seq(b),
        has_subset_prefix(a) == has_subset_prefix(b),
    ensures
        spec_is_ansi_font(a, encoding) == spec_is_ansi_font(b, encoding),
        spec_is_unicode_bengali_font(a) == spec_is_unicode_bengali_font(b),
        spec_matched_font(a, encoding) == spec_matched_font(b, encoding),
{
    if has_subset_prefix(a) {
        assert(a.len() == b.len()) by {
            assert(spec_ascii_lower_seq(a).len() == a.len());
            assert(spec_ascii_lower_seq(b).len() == b.len());
        }
        assert(spec_ascii_lower_seq(a.skip(7)) =~= spec_ascii_lower_seq(a).skip(7));
        assert(spec_ascii_lower_seq(b.skip(7)) =~= spec_ascii_lower_seq(b).skip(7));
    }
    assert(spec_normalized_font_name(a) == spec_normalized_font_name(b));
}

/// A font name behind a six-letter upper-case subset tag and `+` (as PDF
/// embedding writes, e.g. `ABCDEF+SutonnyMJ`) matches as the name itself.
pub proof fn lemma_subset_prefix_ignored(tag: Seq<char>, name: Seq<char>, encoding: Encoding)
    requires
        tag.len() == 6,
        forall|k: int| 0 <= k < 6 ==> 'A' <= #[trigger] tag[k] && tag[k] <= 'Z',
        !has_subset_prefix(name),
    ensures
        spec_is_ansi_font(tag + seq!['+'] + name, encoding) == spec_is_ansi_font(name, encoding),
        spec_is_unicode_bengali_font(tag + seq!['+'] + name) == spec_is_unicode_bengali_font(name),
        spec_matched_font(tag + seq!['+'] + name, encoding) == spec_matched_font(name, encoding),
{
    let s = tag + seq!['+'] + name;
    assert(s[6] == '+');
    assert forall|k: int| 0 <= k < 6 implies s[k] == tag[k] && s[k] != '+' by {}
    assert(spec_first_plus(s, 6) == 6);
    assert(spec_first_plus(s, 5) == 6);
    assert(spec_first_plus(s, 4) == 6);
    assert(spec_first_plus(s, 3) == 6);
    assert(spec_first_plus(s, 2) == 6);
    assert(spec_first_plus(s, 1) == 6);
    assert(spec_first_plus(s, 0) == 6);
    assert(has_subset_prefix(s));
    assert(s.skip(7) =~= name);
    assert(spec_strip_subset_prefix(s) == spec_strip_subset_prefix(name));
}

/// Any name ending in `MJ`, in any case, is a Bijoy font.
pub proof fn lemma_mj_suffix_is_bijoy(name: Seq<char>)
    requires
        !has_subset_prefix(name),
        name.len() >= 2,
        spec_ascii_lower(name[name.len() - 2]) == 'm',
        spec_ascii_lower(name[name.len() - 1]) == 'j',
    ensures
        spec_is_ansi_font(name, Encoding::Bijoy),
{
    let n = spec_normalized_font_name(name);
    assert(n == spec_ascii_lower_seq(name));
    assert(n.skip(n.len() - 2) =~= seq!['m', 'j']);
    assert(spec_ends_with(n, seq!['m', 'j']));
}


/// Every entry of the family's ANSI allowlist marks an ANSI font: a name
/// whose lower-cased form (subset prefix removed) contains an entry is an
/// ANSI font of the family. Likewise for the Unicode Bengali allowlist.
pub proof fn lemma_allowlist_entries_match(name: Seq<char>, encoding: Encoding, i: int)
    ensures
        0 <= i < spec_font_list(spec_fonts_toml(encoding), "ansi_fonts"@).len() && spec_contains(
            spec_ascii_lower_seq(spec_strip_subset_prefix(name)),
            spec_font_list(spec_fonts_toml(encoding), "ansi_fonts"@)[i],
        ) ==> spec_is_ansi_font(name, encoding),
        0 <= i < spec_font_list(UNICODE_FONTS_TOML@, "unicode_fonts"@).len() && spec_contains(
            spec_ascii_lower_seq(spec_strip_subset_prefix(name)),
            spec_font_list(UNICODE_FONTS_TOML@, "unicode_fonts"@)[i],
        ) ==> spec_is_unicode_bengali_font(name),
{
    let n = spec_normalized_font_name(name);
    let l = spec_font_list(spec_fonts_toml(encoding), "ansi_fonts"@);
    if 0 <= i < l.len() && spec_contains(n, l[i]) {
        assert(matches_list(n, l));
    }
    let u = spec_font_list(UNICODE_FONTS_TOML@, "unicode_fonts"@);
    if 0 <= i < u.len() && spec_contains(n, u[i]) {
        assert(matches_list(n, u));
    }
}

} // verus!
