//! The classifier's stages, short-circuiting in order:
//! 1. Unicode range pre-check: any code point in U+0980..=U+09FF means the
//!    run is already Unicode Bengali.
//! 2. ANSI font allowlist: the font is a Bijoy-family font.
//! 3. Unicode font allowlist: the font is a Unicode Bengali font.
//! 4. Heuristic features: integer counts of high-byte characters,
//!    distinctive characters, Bijoy bigram hits, words and English tokens.
//! 5. Threshold policy: the mode's threshold splits the heuristic
//!    probability into ANSI Bengali, ambiguous and Latin.

use vstd::prelude::*;
use std::str::FromStr;
use crate::encoding::{registry, spec_bigram_patterns, spec_distinctive_chars, Encoding};
use crate::english::{contains, spec_english_contains, spec_tokenize, str_views, tokenize};
use crate::fonts::{
    is_ansi_font, is_unicode_bengali_font, spec_is_ansi_font, spec_is_unicode_bengali_font,
};
use crate::text::{append, ascii_lower, ascii_lowercase, chars_of, debug_str, spec_ascii_lower_seq, spec_debug_str, str_equal, string_of};

verus! {

/// Operator-selected confidence policy.
#[derive(Debug, Clone, Copy, PartialEq, Eq, Structural)]
pub enum Mode {
    Safe,
    Aggressive,
}

/// The mode named by an ASCII-lower-cased name.
pub open spec fn spec_mode_named(lower: Seq<char>) -> Option<Mode> {
    if lower == "safe"@ {
        Some(Mode::Safe)
    } else if lower == "aggressive"@ {
        Some(Mode::Aggressive)
    } else {
        None
    }
}

/// The message for an unknown mode name.
pub open spec fn spec_unknown_mode_message(lower: Seq<char>) -> Seq<char> {
    "unknown mode: "@ + spec_debug_str(lower) + "; expected \"safe\" or \"aggressive\""@
}

impl Mode {
    /// Parse a mode name case-insensitively: `safe` or `aggressive`.
    pub fn from_name(s: &str) -> (r: Result<Mode, String>)
        ensures
            match spec_mode_named(spec_ascii_lower_seq(s@)) {
                Some(m) => r == Ok::<Mode, String>(m),
                None => r matches Err(e) && e@ == spec_unknown_mode_message(
                    spec_ascii_lower_seq(s@),
                ),
            },
    {
        let name = ascii_lowercase(s);
        if str_equal(name.as_str(), "safe") {
            Ok(Mode::Safe)
        } else if str_equal(name.as_str(), "aggressive") {
            Ok(Mode::Aggressive)
        } else {
            let mut msg = String::new();
            append(&mut msg, "unknown mode: ");
            append(&mut msg, debug_str(name.as_str()).as_str());
            append(&mut msg, "; expected \"safe\" or \"aggressive\"");
            assert(Seq::<char>::empty() + "unknown mode: "@ == "unknown mode: "@);
            Err(msg)
        }
    }
}

impl FromStr for Mode {
    type Err = String;

    /// Parse a mode name case-insensitively, as [`Mode::from_name`].
    fn from_str(s: &str) -> (r: Result<Self, Self::Err>)
        ensures
            match spec_mode_named(spec_ascii_lower_seq(s@)) {
                Some(m) => r == Ok::<Mode, String>(m),
                None => r matches Err(e) && e@ == spec_unknown_mode_message(
                    spec_ascii_lower_seq(s@),
                ),
            },
    {
        Mode::from_name(s)
    }
}

/// Final classification decision.
#[derive(Debug, Clone, Copy, PartialEq, Eq, Structural)]
pub enum Decision {
    AnsiBengali(Encoding),
    UnicodeBengali,
    Latin,
    Ambiguous,
}

pub open spec fn spec_decision_name(d: Decision) -> Seq<char> {
    match d {
        Decision::AnsiBengali(_) => "ansi_bengali"@,
        Decision::UnicodeBengali => "unicode_bengali"@,
        Decision::Latin => "latin"@,
        Decision::Ambiguous => "ambiguous"@,
    }
}

impl Decision {
    /// The decision's name in the audit log.
    pub fn as_str(self) -> (r: &'static str)
        ensures
            r@ == spec_decision_name(self),
    {
        match self {
            Decision::AnsiBengali(_) => "ansi_bengali",
            Decision::UnicodeBengali => "unicode_bengali",
            Decision::Latin => "latin",
            Decision::Ambiguous => "ambiguous",
        }
    }

    /// The detected encoding family when this decision is `AnsiBengali`.
    pub fn encoding(self) -> (r: Option<Encoding>)
        ensures
            r == (match self {
                Decision::AnsiBengali(e) => Some(e),
                _ => None,
            }),
    {
        match self {
            Decision::AnsiBengali(e) => Some(e),
            _ => None,
        }
    }
}

/// Which classifier stage produced the decision.
#[derive(Debug, Clone, Copy, PartialEq, Eq, Structural)]
pub enum Stage {
    UnicodeRange,
    AnsiFont,
    UnicodeFont,
    Heuristic,
}

pub open spec fn spec_stage_name(s: Stage) -> Seq<char> {
    match s {
        Stage::UnicodeRange => "unicode_range"@,
        Stage::AnsiFont => "ansi_font"@,
        Stage::UnicodeFont => "unicode_font"@,
        Stage::Heuristic => "heuristic"@,
    }
}

impl Stage {
    /// The stage's name in the audit log.
    pub fn as_str(self) -> (r: &'static str)
        ensures
            r@ == spec_stage_name(self),
    {
        match self {
            Stage::UnicodeRange => "unicode_range",
            Stage::AnsiFont => "ansi_font",
            Stage::UnicodeFont => "unicode_font",
            Stage::Heuristic => "heuristic",
        }
    }
}

// ---------------------------------------------------------------------------
// Stage 1

pub open spec fn spec_is_bengali_block(c: char) -> bool {
    '\u{0980}' <= c && c <= '\u{09FF}'
}

pub open spec fn spec_has_bengali(s: Seq<char>) -> bool {
    exists|i: int| 0 <= i < s.len() && spec_is_bengali_block(#[trigger] s[i])
}

/// Whether `text` holds a code point of the Bengali block U+0980..=U+09FF.
pub fn has_bengali_unicode(text: &str) -> (r: bool)
    ensures
        r == spec_has_bengali(text@),
{
    let cs = chars_of(text);
    let mut i: usize = 0;
    while i < cs.len()
        invariant
            i <= cs.len(),
            cs@ == text@,
            forall|k: int| 0 <= k < i ==> !spec_is_bengali_block(#[trigger] cs@[k]),
        decreases cs.len() - i,
    {
        if '\u{0980}' <= cs[i] && cs[i] <= '\u{09FF}' {
            assert(spec_is_bengali_block(text@[i as int]));
            return true;
        }
        i += 1;
    }
    false
}

// ---------------------------------------------------------------------------
// Stage 4: heuristic features as integer counts

/// The integer features of the heuristic stage. The classifier turns them
/// into densities: high-byte and distinctive counts over the character
/// count, bigram hits over the word count (capped at 1), English hits over
/// the token count.
#[derive(Debug, Clone, Copy, PartialEq, Eq, Structural)]
pub struct HeuristicCounts {
    /// Number of characters of the text.
    pub total_chars: usize,
    /// Characters in U+0080..=U+00FF.
    pub high_byte_chars: usize,
    /// Characters among the encoding's distinctive characters.
    pub distinctive_chars: usize,
    /// Non-overlapping occurrences of the encoding's bigram patterns, plus
    /// the `[†‡][A-Za-z]` pairs (saturating at `usize::MAX`).
    pub bigram_hits: usize,
    /// Number of words separated by ASCII white space.
    pub word_count: usize,
    /// Number of tokens of the English tokenizer.
    pub english_tokens: usize,
    /// Tokens found in the English word list.
    pub english_hits: usize,
}

pub open spec fn spec_is_high_byte(c: char) -> bool {
    0x80 <= (c as u32) && (c as u32) <= 0xFF
}

pub open spec fn spec_count_high_byte(s: Seq<char>) -> nat
    decreases s.len(),
{
    if s.len() == 0 {
        0
    } else {
        spec_count_high_byte(s.drop_last()) + if spec_is_high_byte(s.last()) {
            1nat
        } else {
            0nat
        }
    }
}

pub open spec fn spec_count_in(s: Seq<char>, set: Seq<char>) -> nat
    decreases s.len(),
{
    if s.len() == 0 {
        0
    } else {
        spec_count_in(s.drop_last(), set) + if set.contains(s.last()) {
            1nat
        } else {
            0nat
        }
    }
}

/// Position of the first occurrence of `p` in `s` at or after `i`, or -1.
pub open spec fn spec_find_from(s: Seq<char>, p: Seq<char>, i: int) -> int
    decreases s.len() + 1 - i,
{
    if i < 0 || i + p.len() > s.len() {
        -1
    } else if s.subrange(i, i + p.len()) == p {
        i
    } else {
        spec_find_from(s, p, i + 1)
    }
}

pub proof fn lemma_find_from_bounds(s: Seq<char>, p: Seq<char>, i: int)
    requires
        0 <= i,
    ensures
        spec_find_from(s, p, i) == -1 || (i <= spec_find_from(s, p, i) && spec_find_from(s, p, i)
            + p.len() <= s.len()),
    decreases s.len() + 1 - i,
{
    if !(i + p.len() > s.len()) && s.subrange(i, i + p.len()) != p {
        lemma_find_from_bounds(s, p, i + 1);
    }
}

/// Number of non-overlapping occurrences of a non-empty `p` in `s` from
/// position `i` on, found left to right (zero for an empty pattern).
pub open spec fn spec_occurrences_from(s: Seq<char>, p: Seq<char>, i: int) -> nat
    decreases s.len() - i,
{
    if p.len() == 0 || i < 0 {
        0
    } else {
        proof {
            lemma_find_from_bounds(s, p, i);
        }
        let k = spec_find_from(s, p, i);
        if k < 0 {
            0
        } else {
            1 + spec_occurrences_from(s, p, k + p.len())
        }
    }
}

pub open spec fn spec_pattern_hits(s: Seq<char>, pats: Seq<Seq<char>>) -> nat
    decreases pats.len(),
{
    if pats.len() == 0 {
        0
    } else {
        spec_pattern_hits(s, pats.drop_last()) + spec_occurrences_from(s, pats.last(), 0)
    }
}

pub open spec fn spec_is_dagger(c: char) -> bool {
    c == '\u{2020}' || c == '\u{2021}'
}

pub open spec fn spec_is_ascii_letter(c: char) -> bool {
    ('A' <= c && c <= 'Z') || ('a' <= c && c <= 'z')
}

/// Number of dagger characters followed by an ASCII letter.
pub open spec fn spec_dagger_hits(s: Seq<char>) -> nat
    decreases s.len(),
{
    if s.len() < 2 {
        0
    } else {
        spec_dagger_hits(s.drop_last()) + if spec_is_dagger(s[s.len() - 2]) && spec_is_ascii_letter(
            s.last(),
        ) {
            1nat
        } else {
            0nat
        }
    }
}

pub open spec fn spec_is_ascii_whitespace(c: char) -> bool {
    c == ' ' || c == '\t' || c == '\n' || c == '\u{000C}' || c == '\r'
}

/// Number of maximal runs of non-ASCII-white-space characters.
pub open spec fn spec_word_count(s: Seq<char>) -> nat
    decreases s.len(),
{
    if s.len() == 0 {
        0
    } else {
        spec_word_count(s.drop_last()) + if !spec_is_ascii_whitespace(s.last()) && (s.len() == 1
            || spec_is_ascii_whitespace(s[s.len() - 2])) {
            1nat
        } else {
            0nat
        }
    }
}

pub open spec fn spec_count_english(toks: Seq<Seq<char>>) -> nat
    decreases toks.len(),
{
    if toks.len() == 0 {
        0
    } else {
        spec_count_english(toks.drop_last()) + if spec_english_contains(toks.last()) {
            1nat
        } else {
            0nat
        }
    }
}

pub open spec fn cap(n: nat) -> usize {
    if n > usize::MAX {
        usize::MAX
    } else {
        n as usize
    }
}

/// The heuristic features of `t` for `encoding`.
pub open spec fn spec_heuristic_counts(t: Seq<char>, encoding: Encoding) -> HeuristicCounts {
    HeuristicCounts {
        total_chars: t.len() as usize,
        high_byte_chars: spec_count_high_byte(t) as usize,
        distinctive_chars: spec_count_in(t, spec_distinctive_chars(encoding)) as usize,
        bigram_hits: cap(spec_pattern_hits(t, spec_bigram_patterns(encoding)) + spec_dagger_hits(t)),
        word_count: spec_word_count(t) as usize,
        english_tokens: spec_tokenize(t).len() as usize,
        english_hits: spec_count_english(spec_tokenize(t)) as usize,
    }
}

proof fn lemma_count_high_byte_le(s: Seq<char>)
    ensures
        spec_count_high_byte(s) <= s.len(),
    decreases s.len(),
{
    if s.len() > 0 {
        lemma_count_high_byte_le(s.drop_last());
    }
}

fn count_high_byte(cs: &Vec<char>) -> (r: usize)
    ensures
        r == spec_count_high_byte(cs@),
{
    let mut n: usize = 0;
    let mut i: usize = 0;
    while i < cs.len()
        invariant
            i <= cs.len(),
            n == spec_count_high_byte(cs@.take(i as int)),
        decreases cs.len() - i,
    {
        proof {
            assert(cs@.take(i + 1).drop_last() == cs@.take(i as int));
            lemma_count_high_byte_le(cs@.take(i as int));
        }
        let c = cs[i];
        if 0x80 <= (c as u32) && (c as u32) <= 0xFF {
            n += 1;
        }
        i += 1;
    }
    assert(cs@.take(cs.len() as int) == cs@);
    n
}

proof fn lemma_count_in_le(s: Seq<char>, set: Seq<char>)
    ensures
        spec_count_in(s, set) <= s.len(),
    decreases s.len(),
{
    if s.len() > 0 {
        lemma_count_in_le(s.drop_last(), set);
    }
}

fn count_in(cs: &Vec<char>, set: &[char]) -> (r: usize)
    ensures
        r == spec_count_in(cs@, set@),
{
    let mut n: usize = 0;
    let mut i: usize = 0;
    while i < cs.len()
        invariant
            i <= cs.len(),
            n == spec_count_in(cs@.take(i as int), set@),
        decreases cs.len() - i,
    {
        proof {
            assert(cs@.take(i + 1).drop_last() == cs@.take(i as int));
            lemma_count_in_le(cs@.take(i as int), set@);
        }
        let c = cs[i];
        let mut found = false;
        let mut j: usize = 0;
        while j < set.len()
            invariant
                j <= set.len(),
                found == exists|m: int| 0 <= m < j && set@[m] == c,
            decreases set.len() - j,
        {
            if set[j] == c {
                found = true;
            }
            j += 1;
        }
        if found {
            n += 1;
        }
        i += 1;
    }
    assert(cs@.take(cs.len() as int) == cs@);
    n
}

fn matches_at(cs: &Vec<char>, p: &Vec<char>, i: usize) -> (r: bool)
    requires
        i + p.len() <= cs.len(),
    ensures
        r == (cs@.subrange(i as int, i + p.len()) == p@),
{
    let mut k: usize = 0;
    while k < p.len()
        invariant
            i + p.len() <= cs.len(),
            k <= p.len(),
            forall|m: int| 0 <= m < k ==> cs@[i + m] == p@[m],
        decreases p.len() - k,
    {
        if cs[i + k] != p[k] {
            assert(cs@.subrange(i as int, i + p.len())[k as int] != p@[k as int]);
            return false;
        }
        k += 1;
    }
    assert(cs@.subrange(i as int, i + p.len()) =~= p@);
    true
}

/// First occurrence of `p` in `cs` at or after `i`.
fn find_from(cs: &Vec<char>, p: &Vec<char>, i: usize) -> (r: Option<usize>)
    ensures
        match r {
            Some(k) => k as int == spec_find_from(cs@, p@, i as int),
            None => spec_find_from(cs@, p@, i as int) == -1,
        },
{
    if i > cs.len() {
        return None;
    }
    if p.len() == 0 {
        assert(cs@.subrange(i as int, i as int) =~= p@);
        return Some(i);
    }
    let mut k: usize = i;
    while p.len() <= cs.len() - k
        invariant
            i <= k <= cs.len(),
            p.len() > 0,
            spec_find_from(cs@, p@, i as int) == spec_find_from(cs@, p@, k as int),
        decreases cs.len() + 1 - k,
    {
        if matches_at(cs, p, k) {
            return Some(k);
        }
        k += 1;
    }
    None
}

proof fn lemma_occurrences_le(s: Seq<char>, p: Seq<char>, i: int)
    requires
        0 <= i <= s.len(),
    ensures
        spec_occurrences_from(s, p, i) <= s.len() - i,
    decreases s.len() - i,
{
    if p.len() > 0 {
        lemma_find_from_bounds(s, p, i);
        let k = spec_find_from(s, p, i);
        if k >= 0 {
            lemma_occurrences_le(s, p, k + p.len());
        }
    }
}

/// Non-overlapping occurrences of `p` in `cs`, left to right.
fn count_occurrences(cs: &Vec<char>, p: &Vec<char>) -> (r: usize)
    ensures
        r == spec_occurrences_from(cs@, p@, 0),
{
    if p.len() == 0 {
        return 0;
    }
    let mut n: usize = 0;
    let mut start: usize = 0;
    loop
        invariant
            p.len() > 0,
            start <= cs.len(),
            spec_occurrences_from(cs@, p@, 0) == n + spec_occurrences_from(cs@, p@, start as int),
            n + (cs.len() - start) <= cs.len(),
        decreases cs.len() - start,
    {
        proof {
            lemma_find_from_bounds(cs@, p@, start as int);
            lemma_occurrences_le(cs@, p@, start as int);
        }
        match find_from(cs, p, start) {
            Some(k) => {
                proof {
                    lemma_occurrences_le(cs@, p@, k + p.len());
                }
                n += 1;
                start = k + p.len();
            },
            None => {
                return n;
            },
        }
    }
}

fn count_dagger_hits(cs: &Vec<char>) -> (r: usize)
    ensures
        r == spec_dagger_hits(cs@),
{
    let mut n: usize = 0;
    let mut i: usize = 1;
    if cs.len() < 2 {
        return 0;
    }
    while i < cs.len()
        invariant
            1 <= i <= cs.len(),
            n == spec_dagger_hits(cs@.take(i as int)),
            n < i,
        decreases cs.len() - i,
    {
        proof {
            assert(cs@.take(i + 1).drop_last() == cs@.take(i as int));
        }
        let a = cs[i - 1];
        let b = cs[i];
        if (a == '\u{2020}' || a == '\u{2021}') && (('A' <= b && b <= 'Z') || ('a' <= b && b <= 'z')) {
            n += 1;
        }
        i += 1;
    }
    assert(cs@.take(cs.len() as int) == cs@);
    n
}

proof fn lemma_word_count_le(s: Seq<char>)
    ensures
        spec_word_count(s) <= s.len(),
    decreases s.len(),
{
    if s.len() > 0 {
        lemma_word_count_le(s.drop_last());
    }
}

fn is_ascii_whitespace(c: char) -> (r: bool)
    ensures
        r == spec_is_ascii_whitespace(c),
{
    c == ' ' || c == '\t' || c == '\n' || c == '\u{000C}' || c == '\r'
}

fn count_words(cs: &Vec<char>) -> (r: usize)
    ensures
        r == spec_word_count(cs@),
{
    let mut n: usize = 0;
    let mut i: usize = 0;
    while i < cs.len()
        invariant
            i <= cs.len(),
            n == spec_word_count(cs@.take(i as int)),
        decreases cs.len() - i,
    {
        proof {
            assert(cs@.take(i + 1).drop_last() == cs@.take(i as int));
            lemma_word_count_le(cs@.take(i as int));
        }
        if !is_ascii_whitespace(cs[i]) && (i == 0 || is_ascii_whitespace(cs[i - 1])) {
            n += 1;
        }
        i += 1;
    }
    assert(cs@.take(cs.len() as int) == cs@);
    n
}

proof fn lemma_count_english_le(toks: Seq<Seq<char>>)
    ensures
        spec_count_english(toks) <= toks.len(),
    decreases toks.len(),
{
    if toks.len() > 0 {
        lemma_count_english_le(toks.drop_last());
    }
}

fn count_english(toks: &Vec<&str>) -> (r: usize)
    ensures
        r == spec_count_english(str_views(toks@)),
{
    let mut n: usize = 0;
    let mut i: usize = 0;
    while i < toks.len()
        invariant
            i <= toks.len(),
            n == spec_count_english(str_views(toks@.take(i as int))),
        decreases toks.len() - i,
    {
        proof {
            assert(str_views(toks@.take(i + 1)).drop_last() == str_views(toks@.take(i as int)));
            lemma_count_english_le(str_views(toks@.take(i as int)));
        }
        if contains(toks[i]) {
            n += 1;
        }
        i += 1;
    }
    assert(toks@.take(toks.len() as int) == toks@);
    n
}

/// The heuristic features of `text` for `encoding`.
pub fn heuristic_counts(text: &str, encoding: Encoding) -> (r: HeuristicCounts)
    ensures
        r == spec_heuristic_counts(text@, encoding),
        r.total_chars == text@.len(),
        r.high_byte_chars <= r.total_chars,
        r.distinctive_chars <= r.total_chars,
        r.word_count <= r.total_chars,
        r.english_hits <= r.english_tokens,
{
    let cs = chars_of(text);
    let reg = registry(encoding);
    let high = count_high_byte(&cs);
    let distinctive = count_in(&cs, reg.distinctive_chars);
    let mut hits: usize = 0;
    let mut j: usize = 0;
    let pats = reg.bigram_patterns;
    while j < pats.len()
        invariant
            j <= pats.len(),
            pats@ == reg.bigram_patterns@,
            pats@.map_values(|p: &str| p@) == spec_bigram_patterns(encoding),
            hits == cap(spec_pattern_hits(cs@, spec_bigram_patterns(encoding).take(j as int))),
        decreases pats.len() - j,
    {
        let p = chars_of(pats[j]);
        let c = count_occurrences(&cs, &p);
        proof {
            let ps = spec_bigram_patterns(encoding);
            assert(ps.take(j + 1).drop_last() == ps.take(j as int));
            assert(ps[j as int] == p@);
        }
        hits = hits.saturating_add(c);
        j += 1;
    }
    assert(spec_bigram_patterns(encoding).take(pats.len() as int) == spec_bigram_patterns(encoding));
    hits = hits.saturating_add(count_dagger_hits(&cs));
    let words = count_words(&cs);
    let toks = tokenize(text);
    let english = count_english(&toks);
    proof {
        lemma_count_high_byte_le(cs@);
        lemma_count_in_le(cs@, reg.distinctive_chars@);
        lemma_word_count_le(cs@);
        lemma_count_english_le(str_views(toks@));
    }
    HeuristicCounts {
        total_chars: cs.len(),
        high_byte_chars: high,
        distinctive_chars: distinctive,
        bigram_hits: hits,
        word_count: words,
        english_tokens: toks.len(),
        english_hits: english,
    }
}

// ---------------------------------------------------------------------------
// The stage pipeline

/// Where the stage pipeline stopped for a run.
#[derive(Debug, Clone, Copy, PartialEq, Eq, Structural)]
pub enum StageOutcome {
    /// The text is empty.
    Empty,
    /// The text holds Unicode Bengali.
    UnicodeRange,
    /// The font hint is an ANSI Bengali font of the family.
    AnsiFont,
    /// The font hint is a Unicode Bengali font.
    UnicodeFont,
    /// No early stage decided; the heuristic features of the text.
    Heuristic(HeuristicCounts),
}

pub open spec fn opt_str_view(o: Option<&str>) -> Option<Seq<char>> {
    match o {
        Some(s) => Some(s@),
        None => None,
    }
}

/// The outcome of the stage pipeline for a text and an optional font hint.
pub open spec fn spec_classify_stage(t: Seq<char>, font: Option<Seq<char>>, encoding: Encoding) -> StageOutcome {
    if t.len() == 0 {
        StageOutcome::Empty
    } else if spec_has_bengali(t) {
        StageOutcome::UnicodeRange
    } else {
        match font {
            Some(f) => if spec_is_ansi_font(f, encoding) {
                StageOutcome::AnsiFont
            } else if spec_is_unicode_bengali_font(f) {
                StageOutcome::UnicodeFont
            } else {
                StageOutcome::Heuristic(spec_heuristic_counts(t, encoding))
            },
            None => StageOutcome::Heuristic(spec_heuristic_counts(t, encoding)),
        }
    }
}

/// Run the short-circuiting stages on `text` with an optional font hint;
/// when none decides, compute the heuristic features.
pub fn classify_stage(text: &str, font_hint: Option<&str>, encoding: Encoding) -> (r: StageOutcome)
    ensures
        r == spec_classify_stage(text@, opt_str_view(font_hint), encoding),
{
    if text.is_empty() {
        return StageOutcome::Empty;
    }
    if has_bengali_unicode(text) {
        return StageOutcome::UnicodeRange;
    }
    if let Some(name) = font_hint {
        if is_ansi_font(name, encoding) {
            return StageOutcome::AnsiFont;
        }
        if is_unicode_bengali_font(name) {
            return StageOutcome::UnicodeFont;
        }
    }
    StageOutcome::Heuristic(heuristic_counts(text, encoding))
}

pub open spec fn spec_outcome_stage(o: StageOutcome) -> Stage {
    match o {
        StageOutcome::UnicodeRange => Stage::UnicodeRange,
        StageOutcome::AnsiFont => Stage::AnsiFont,
        StageOutcome::UnicodeFont => Stage::UnicodeFont,
        _ => Stage::Heuristic,
    }
}

pub open spec fn spec_early_decision(o: StageOutcome, encoding: Encoding) -> Option<Decision> {
    match o {
        StageOutcome::Empty => Some(Decision::Latin),
        StageOutcome::UnicodeRange => Some(Decision::UnicodeBengali),
        StageOutcome::AnsiFont => Some(Decision::AnsiBengali(encoding)),
        StageOutcome::UnicodeFont => Some(Decision::UnicodeBengali),
        StageOutcome::Heuristic(_) => None,
    }
}

impl StageOutcome {
    /// The stage reported for this outcome (an empty text is reported as
    /// the heuristic stage).
    pub fn stage(&self) -> (r: Stage)
        ensures
            r == spec_outcome_stage(*self),
    {
        match self {
            StageOutcome::UnicodeRange => Stage::UnicodeRange,
            StageOutcome::AnsiFont => Stage::AnsiFont,
            StageOutcome::UnicodeFont => Stage::UnicodeFont,
            _ => Stage::Heuristic,
        }
    }

    /// The decision of an early stage: an empty text is Latin, Unicode
    /// Bengali text or a Unicode font is Unicode Bengali, an ANSI font is
    /// ANSI Bengali; `None` when the heuristic stage has to decide.
    pub fn early_decision(&self, encoding: Encoding) -> (r: Option<Decision>)
        ensures
            r == spec_early_decision(*self, encoding),
    {
        match self {
            StageOutcome::Empty => Some(Decision::Latin),
            StageOutcome::UnicodeRange => Some(Decision::UnicodeBengali),
            StageOutcome::AnsiFont => Some(Decision::AnsiBengali(encoding)),
            StageOutcome::UnicodeFont => Some(Decision::UnicodeBengali),
            StageOutcome::Heuristic(_) => None,
        }
    }
}

pub open spec fn spec_threshold_decision(meets_threshold: bool, below_half: bool, encoding: Encoding) -> Decision {
    if meets_threshold {
        Decision::AnsiBengali(encoding)
    } else if below_half {
        Decision::Latin
    } else {
        Decision::Ambiguous
    }
}

/// The threshold policy of the heuristic stage: a probability at or above
/// the mode's threshold is ANSI Bengali, one below one half is Latin, one in
/// between is ambiguous.
pub fn threshold_decision(meets_threshold: bool, below_half: bool, encoding: Encoding) -> (r: Decision)
    ensures
        r == spec_threshold_decision(meets_threshold, below_half, encoding),
{
    if meets_threshold {
        Decision::AnsiBengali(encoding)
    } else if below_half {
        Decision::Latin
    } else {
        Decision::Ambiguous
    }
}

} // verus!
