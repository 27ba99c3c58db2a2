//! Post-substitution Unicode passes of the transliterator: pre-normalization,
//! pre-base vowel-sign reordering, split vowel recombination, reph
//! reordering, ya-phala joiner insertion and NFC.
//!
//! Every pass is a pure function on text; each one's result is given by a
//! spec function over the input's characters, scanning left to right from an
//! absolute position.

use vstd::prelude::*;
use crate::text::{chars_of, string_of};

verus! {

/// র
pub const RA: char = '\u{09B0}';
/// ্ (hasanta)
pub const HASANTA: char = '\u{09CD}';
/// য
pub const YA: char = '\u{09AF}';
/// Zero-width joiner.
pub const ZWJ: char = '\u{200D}';
/// Zero-width non-joiner.
pub const ZWNJ: char = '\u{200C}';
/// ি
pub const I_KAR: char = '\u{09BF}';
/// ী
pub const II_KAR: char = '\u{09C0}';
/// ে
pub const E_KAR: char = '\u{09C7}';
/// ৈ
pub const AI_KAR: char = '\u{09C8}';
/// া
pub const AA_KAR: char = '\u{09BE}';
/// ৗ (au length mark)
pub const TAIL_AU_KAR: char = '\u{09D7}';
/// ো
pub const O_KAR: char = '\u{09CB}';
/// ৌ
pub const AU_KAR: char = '\u{09CC}';

/// Soft hyphen.
pub const SOFT_HYPHEN: char = '\u{00AD}';
/// No-break space.
pub const NBSP: char = '\u{00A0}';

// ---------------------------------------------------------------------------
// Character classes

/// Bengali consonant letters (including the nukta forms and khanda ta).
pub open spec fn spec_is_consonant(c: char) -> bool {
    ('\u{0995}' <= c && c <= '\u{09B9}') || c == '\u{09DC}' || c == '\u{09DD}' || c == '\u{09DF}'
        || c == '\u{09CE}'
}

/// Vowel signs written before the consonant in Bijoy byte order.
pub open spec fn spec_is_prekar(c: char) -> bool {
    c == I_KAR || c == II_KAR || c == E_KAR || c == AI_KAR
}

/// Dependent vowel signs.
pub open spec fn spec_is_kar(c: char) -> bool {
    c == AA_KAR || c == I_KAR || c == II_KAR || c == '\u{09C1}' || c == '\u{09C2}' || c
        == '\u{09C3}' || c == E_KAR || c == AI_KAR || c == O_KAR || c == AU_KAR || c == TAIL_AU_KAR
}

pub fn is_bengali_consonant(c: char) -> (r: bool)
    ensures
        r == spec_is_consonant(c),
{
    ('\u{0995}' <= c && c <= '\u{09B9}') || c == '\u{09DC}' || c == '\u{09DD}' || c == '\u{09DF}'
        || c == '\u{09CE}'
}

pub fn is_prekar(c: char) -> (r: bool)
    ensures
        r == spec_is_prekar(c),
{
    c == I_KAR || c == II_KAR || c == E_KAR || c == AI_KAR
}

pub fn is_kar(c: char) -> (r: bool)
    ensures
        r == spec_is_kar(c),
{
    c == AA_KAR || c == I_KAR || c == II_KAR || c == '\u{09C1}' || c == '\u{09C2}' || c
        == '\u{09C3}' || c == E_KAR || c == AI_KAR || c == O_KAR || c == AU_KAR || c == TAIL_AU_KAR
}

// ---------------------------------------------------------------------------
// pre_normalize

/// A no-break space as a space; any other character as it is.
pub open spec fn spec_fold_nbsp(c: char) -> char {
    if c == NBSP {
        ' '
    } else {
        c
    }
}

/// Result of pre-normalizing `s` from position `i`, where `pending_cr` says
/// that a carriage return was seen and not yet written out.
pub open spec fn spec_pre_normalize_from(s: Seq<char>, i: int, pending_cr: bool) -> Seq<char>
    decreases s.len() - i,
{
    if i >= s.len() || i < 0 {
        if pending_cr { seq!['\n'] } else { seq![] }
    } else {
        let c = s[i];
        if c == SOFT_HYPHEN {
            spec_pre_normalize_from(s, i + 1, pending_cr)
        } else if c == '\r' {
            spec_pre_normalize_from(s, i + 1, true)
        } else if c == '\n' {
            seq!['\n'] + spec_pre_normalize_from(s, i + 1, false)
        } else {
            let d = spec_fold_nbsp(c);
            (if pending_cr { seq!['\n', d] } else { seq![d] }) + spec_pre_normalize_from(
                s,
                i + 1,
                false,
            )
        }
    }
}

/// Soft hyphens removed, no-break spaces turned into spaces, and every
/// carriage return (alone or before a line feed) turned into one line feed.
pub open spec fn spec_pre_normalize(s: Seq<char>) -> Seq<char> {
    spec_pre_normalize_from(s, 0, false)
}

/// Text that holds none of the characters that pre-normalization rewrites.
pub open spec fn is_pre_normalized(s: Seq<char>) -> bool {
    forall|k: int| 0 <= k < s.len() ==> s[k] != '\r' && s[k] != SOFT_HYPHEN && s[k] != NBSP
}

proof fn lemma_pre_normalize_from_clean(s: Seq<char>, i: int, pending_cr: bool)
    requires
        0 <= i,
    ensures
        is_pre_normalized(spec_pre_normalize_from(s, i, pending_cr)),
    decreases s.len() - i,
{
    let r = spec_pre_normalize_from(s, i, pending_cr);
    if i < s.len() {
        let c = s[i];
        if c == '\r' {
            lemma_pre_normalize_from_clean(s, i + 1, true);
        } else if c == SOFT_HYPHEN {
            lemma_pre_normalize_from_clean(s, i + 1, pending_cr);
        } else if c == '\n' {
            lemma_pre_normalize_from_clean(s, i + 1, false);
            let rest = spec_pre_normalize_from(s, i + 1, false);
            let head = seq!['\n'];
            assert(r == head + rest);
            assert forall|k: int| 0 <= k < r.len() implies r[k] != '\r' && r[k] != SOFT_HYPHEN
                && r[k] != NBSP by {
                if k >= 1 {
                    assert(r[k] == rest[k - 1]);
                }
            }
        } else {
            lemma_pre_normalize_from_clean(s, i + 1, false);
            let rest = spec_pre_normalize_from(s, i + 1, false);
            let d = spec_fold_nbsp(c);
            let head = if pending_cr { seq!['\n', d] } else { seq![d] };
            assert(r == head + rest);
            assert forall|k: int| 0 <= k < r.len() implies r[k] != '\r' && r[k] != SOFT_HYPHEN
                && r[k] != NBSP by {
                if k >= head.len() {
                    assert(r[k] == rest[k - head.len()]);
                }
            }
        }
    }
}

proof fn lemma_pre_normalize_from_identity(s: Seq<char>, i: int)
    requires
        0 <= i <= s.len(),
        is_pre_normalized(s),
    ensures
        spec_pre_normalize_from(s, i, false) == s.skip(i),
    decreases s.len() - i,
{
    if i < s.len() {
        lemma_pre_normalize_from_identity(s, i + 1);
        assert(s.skip(i) == seq![s[i]] + s.skip(i + 1));
    } else {
        assert(s.skip(i) == Seq::<char>::empty());
    }
}

/// Pre-normalized text holds no carriage return, soft hyphen or no-break
/// space, so pre-normalizing twice is the same as pre-normalizing once.
pub proof fn lemma_pre_normalize_idempotent(s: Seq<char>)
    ensures
        is_pre_normalized(spec_pre_normalize(s)),
        spec_pre_normalize(spec_pre_normalize(s)) == spec_pre_normalize(s),
{
    lemma_pre_normalize_from_clean(s, 0, false);
    let t = spec_pre_normalize(s);
    lemma_pre_normalize_from_identity(t, 0);
    assert(t.skip(0) == t);
}

/// Strip soft hyphens, fold no-break space to space, and fold CRLF and lone
/// CR to LF, each in place: a line feed for a carriage return comes before
/// whatever character follows it.
pub fn pre_normalize(input: &str) -> (r: String)
    ensures
        r@ == spec_pre_normalize(input@),
        is_pre_normalized(r@),
{
    let chars = chars_of(input);
    let out = pre_normalize_chars(&chars);
    proof {
        lemma_pre_normalize_from_clean(input@, 0, false);
    }
    string_of(&out)
}

pub fn pre_normalize_chars(chars: &Vec<char>) -> (out: Vec<char>)
    ensures
        out@ == spec_pre_normalize(chars@),
{
    let mut out: Vec<char> = Vec::new();
    let mut prev_cr = false;
    let mut i: usize = 0;
    while i < chars.len()
        invariant
            i <= chars.len(),
            spec_pre_normalize(chars@) == out@ + spec_pre_normalize_from(chars@, i as int, prev_cr),
        decreases chars.len() - i,
    {
        let c = chars[i];
        let ghost before = out@;
        if c == SOFT_HYPHEN {
        } else if c == '\r' {
            prev_cr = true;
        } else if c == '\n' {
            out.push('\n');
            prev_cr = false;
            assert(before + (seq!['\n'] + spec_pre_normalize_from(chars@, i + 1, false))
                == out@ + spec_pre_normalize_from(chars@, i + 1, false));
        } else {
            if prev_cr {
                out.push('\n');
            }
            prev_cr = false;
            let d = if c == NBSP { ' ' } else { c };
            out.push(d);
            let ghost head = if before.len() < out@.len() - 1 { seq!['\n', d] } else { seq![d] };
            assert(out@ == before + head);
            assert(before + (head + spec_pre_normalize_from(chars@, i + 1, false)) == out@
                + spec_pre_normalize_from(chars@, i + 1, false));
        }
        i += 1;
    }
    if prev_cr {
        out.push('\n');
    }
    assert(spec_pre_normalize(chars@) == out@);
    out
}


// ---------------------------------------------------------------------------
// Copy helper

/// Append `src[from..to]` to `out`.
fn push_range(out: &mut Vec<char>, src: &Vec<char>, from: usize, to: usize)
    requires
        from <= to <= src.len(),
    ensures
        final(out)@ == old(out)@ + src@.subrange(from as int, to as int),
{
    let mut k = from;
    while k < to
        invariant
            from <= k <= to <= src.len(),
            out@ == old(out)@ + src@.subrange(from as int, k as int),
        decreases to - k,
    {
        out.push(src[k]);
        assert(src@.subrange(from as int, k + 1) == src@.subrange(from as int, k as int).push(
            src@[k as int],
        ));
        k += 1;
    }
}

// ---------------------------------------------------------------------------
// ikar_swap

/// End (exclusive) of the run of `hasanta + consonant` pairs that starts at `j`.
pub open spec fn spec_cluster_end(s: Seq<char>, j: int) -> int
    decreases s.len() - j,
{
    if 0 <= j && j + 1 < s.len() && s[j] == HASANTA && spec_is_consonant(s[j + 1]) {
        spec_cluster_end(s, j + 2)
    } else {
        j
    }
}

pub proof fn lemma_cluster_end_bounds(s: Seq<char>, j: int)
    requires
        0 <= j <= s.len(),
    ensures
        j <= spec_cluster_end(s, j) <= s.len(),
    decreases s.len() - j,
{
    if j + 1 < s.len() && s[j] == HASANTA && spec_is_consonant(s[j + 1]) {
        lemma_cluster_end_bounds(s, j + 2);
    }
}

/// Pre-base vowel signs moved after the consonant cluster that follows
/// them, scanning from position `i`.
pub open spec fn spec_ikar_swap_from(s: Seq<char>, i: int) -> Seq<char>
    decreases s.len() - i,
{
    if i < 0 || i >= s.len() {
        seq![]
    } else if spec_is_prekar(s[i]) && i + 1 < s.len() && spec_is_consonant(s[i + 1]) {
        let j = spec_cluster_end(s, i + 2);
        proof {
            lemma_cluster_end_bounds(s, i + 2);
        }
        s.subrange(i + 1, j) + seq![s[i]] + spec_ikar_swap_from(s, j)
    } else {
        seq![s[i]] + spec_ikar_swap_from(s, i + 1)
    }
}

pub open spec fn spec_ikar_swap(s: Seq<char>) -> Seq<char> {
    spec_ikar_swap_from(s, 0)
}

proof fn lemma_ikar_swap_from_len(s: Seq<char>, i: int)
    requires
        0 <= i <= s.len(),
    ensures
        spec_ikar_swap_from(s, i).len() == s.len() - i,
    decreases s.len() - i,
{
    if i < s.len() {
        if spec_is_prekar(s[i]) && i + 1 < s.len() && spec_is_consonant(s[i + 1]) {
            lemma_cluster_end_bounds(s, i + 2);
            lemma_ikar_swap_from_len(s, spec_cluster_end(s, i + 2));
        } else {
            lemma_ikar_swap_from_len(s, i + 1);
        }
    }
}

/// Swap pre-base vowel signs (ি ী ে ৈ) from their Bijoy position before the
/// consonant cluster to the Unicode position after it.
pub fn ikar_swap(input: &str) -> (r: String)
    ensures
        r@ == spec_ikar_swap(input@),
        r@.len() == input@.len(),
{
    let chars = chars_of(input);
    let out = ikar_swap_chars(&chars);
    proof {
        lemma_ikar_swap_from_len(input@, 0);
    }
    string_of(&out)
}

pub fn ikar_swap_chars(chars: &Vec<char>) -> (out: Vec<char>)
    ensures
        out@ == spec_ikar_swap(chars@),
{
    let ghost s = chars@;
    let n = chars.len();
    let mut out: Vec<char> = Vec::new();
    let mut i: usize = 0;
    while i < n
        invariant
            n == chars.len(),
            s == chars@,
            i <= n,
            spec_ikar_swap(s) == out@ + spec_ikar_swap_from(s, i as int),
        decreases n - i,
    {
        let c = chars[i];
        if is_prekar(c) && i + 1 < n {
            let cluster_start = i + 1;
            if is_bengali_consonant(chars[cluster_start]) {
                let mut j = cluster_start + 1;
                proof {
                    lemma_cluster_end_bounds(s, j as int);
                }
                while j < n && j + 1 < n && chars[j] == HASANTA && is_bengali_consonant(chars[j + 1])
                    invariant
                        n == chars.len(),
                        s == chars@,
                        cluster_start + 1 <= j <= n,
                        spec_cluster_end(s, j as int) == spec_cluster_end(
                            s,
                            cluster_start + 1,
                        ),
                    decreases n - j,
                {
                    j += 2;
                }
                let ghost before = out@;
                push_range(&mut out, chars, cluster_start, j);
                out.push(c);
                assert(out@ == before + (s.subrange(cluster_start as int, j as int) + seq![c]));
                assert(spec_ikar_swap_from(s, i as int) == s.subrange(
                    cluster_start as int,
                    j as int,
                ) + seq![c] + spec_ikar_swap_from(s, j as int));
                i = j;
                continue;
            }
        }
        out.push(c);
        i += 1;
    }
    out
}

// ---------------------------------------------------------------------------
// ekar_recombine

/// `ে + া` folded to `ো` and `ে + ৗ` folded to `ৌ`, scanning from `i`.
pub open spec fn spec_ekar_recombine_from(s: Seq<char>, i: int) -> Seq<char>
    decreases s.len() - i,
{
    if i < 0 || i >= s.len() {
        seq![]
    } else if s[i] == E_KAR && i + 1 < s.len() && s[i + 1] == AA_KAR {
        seq![O_KAR] + spec_ekar_recombine_from(s, i + 2)
    } else if s[i] == E_KAR && i + 1 < s.len() && s[i + 1] == TAIL_AU_KAR {
        seq![AU_KAR] + spec_ekar_recombine_from(s, i + 2)
    } else {
        seq![s[i]] + spec_ekar_recombine_from(s, i + 1)
    }
}

pub open spec fn spec_ekar_recombine(s: Seq<char>) -> Seq<char> {
    spec_ekar_recombine_from(s, 0)
}

/// Fold split e-kar/o-kar glyphs into the composed vowel signs:
/// `ে + া` → `ো`; `ে + ৗ` → `ৌ`.
pub fn ekar_recombine(input: &str) -> (r: String)
    ensures
        r@ == spec_ekar_recombine(input@),
{
    let chars = chars_of(input);
    let out = ekar_recombine_chars(&chars);
    string_of(&out)
}

pub fn ekar_recombine_chars(chars: &Vec<char>) -> (out: Vec<char>)
    ensures
        out@ == spec_ekar_recombine(chars@),
{
    let ghost s = chars@;
    let n = chars.len();
    let mut out: Vec<char> = Vec::new();
    let mut i: usize = 0;
    while i < n
        invariant
            n == chars.len(),
            s == chars@,
            i <= n,
            spec_ekar_recombine(s) == out@ + spec_ekar_recombine_from(s, i as int),
        decreases n - i,
    {
        if chars[i] == E_KAR && i + 1 < n {
            if chars[i + 1] == AA_KAR {
                out.push(O_KAR);
                i += 2;
                continue;
            } else if chars[i + 1] == TAIL_AU_KAR {
                out.push(AU_KAR);
                i += 2;
                continue;
            }
        }
        out.push(chars[i]);
        i += 1;
    }
    out
}

// ---------------------------------------------------------------------------
// ya_phala_zwj

/// `র + ্ + য` not already preceded by a joiner, starting at `i`.
pub open spec fn spec_ya_phala_at(s: Seq<char>, i: int) -> bool {
    &&& 0 <= i
    &&& i + 2 < s.len()
    &&& s[i] == RA
    &&& s[i + 1] == HASANTA
    &&& s[i + 2] == YA
    &&& !(i > 0 && (s[i - 1] == ZWJ || s[i - 1] == ZWNJ))
}

/// ZWJ inserted after `র` in every `র + ্ + য` not preceded by a joiner,
/// scanning from `i`.
pub open spec fn spec_ya_phala_zwj_from(s: Seq<char>, i: int) -> Seq<char>
    decreases s.len() - i,
{
    if i < 0 || i >= s.len() {
        seq![]
    } else if spec_ya_phala_at(s, i) {
        seq![RA, ZWJ, HASANTA, YA] + spec_ya_phala_zwj_from(s, i + 3)
    } else {
        seq![s[i]] + spec_ya_phala_zwj_from(s, i + 1)
    }
}

pub open spec fn spec_ya_phala_zwj(s: Seq<char>) -> Seq<char> {
    spec_ya_phala_zwj_from(s, 0)
}

/// Insert ZWJ in `র + ্ + য` to force ya-phala rendering. A sequence already
/// preceded by ZWJ or ZWNJ is left alone.
pub fn ya_phala_zwj(input: &str) -> (r: String)
    ensures
        r@ == spec_ya_phala_zwj(input@),
{
    let chars = chars_of(input);
    let out = ya_phala_zwj_chars(&chars);
    string_of(&out)
}

pub fn ya_phala_zwj_chars(chars: &Vec<char>) -> (out: Vec<char>)
    ensures
        out@ == spec_ya_phala_zwj(chars@),
{
    let ghost s = chars@;
    let n = chars.len();
    let mut out: Vec<char> = Vec::new();
    let mut i: usize = 0;
    while i < n
        invariant
            n == chars.len(),
            s == chars@,
            i <= n,
            i == 0 <==> out@.len() == 0,
            i > 0 ==> out@.last() == s[i - 1],
            spec_ya_phala_zwj(s) == out@ + spec_ya_phala_zwj_from(s, i as int),
        decreases n - i,
    {
        if i + 1 < n && i + 2 < n && chars[i] == RA && chars[i + 1] == HASANTA && chars[i + 2] == YA {
            let len = out.len();
            let preceded_by_joiner = len > 0 && (out[len - 1] == ZWJ || out[len - 1] == ZWNJ);
            if !preceded_by_joiner {
                let ghost before = out@;
                out.push(RA);
                out.push(ZWJ);
                out.push(HASANTA);
                out.push(YA);
                assert(out@ == before + seq![RA, ZWJ, HASANTA, YA]);
                i += 3;
                continue;
            }
        }
        out.push(chars[i]);
        i += 1;
    }
    out
}

// ---------------------------------------------------------------------------
// reph_reorder

/// The start of the consonant cluster whose last consonant is at `p`:
/// walking back over `(hasanta consonant)*` pairs.
pub open spec fn spec_cluster_back(t: Seq<char>, p: int) -> int
    decreases p,
{
    if p >= 2 && t[p - 1] == HASANTA && spec_is_consonant(t[p - 2]) {
        spec_cluster_back(t, p - 2)
    } else {
        p
    }
}

pub proof fn lemma_cluster_back_bounds(t: Seq<char>, p: int)
    requires
        0 <= p,
    ensures
        0 <= spec_cluster_back(t, p) <= p,
    decreases p,
{
    if p >= 2 && t[p - 1] == HASANTA && spec_is_consonant(t[p - 2]) {
        lemma_cluster_back_bounds(t, p - 2);
    }
}

/// Where the cluster before position `i` ends in a consonant: `i - 1`, or
/// `i - 2` when a vowel sign closes the cluster.
pub open spec fn spec_cluster_last(t: Seq<char>, i: int) -> int {
    if spec_is_kar(t[i - 1]) {
        i - 2
    } else {
        i - 1
    }
}

/// A reph (`র + ্`) at `i` right after a consonant cluster (consonant,
/// `(hasanta consonant)*`, optionally a vowel sign): Bijoy's post-cluster
/// reph position.
pub open spec fn spec_reph_at(t: Seq<char>, i: int) -> bool {
    &&& 0 < i
    &&& i + 1 < t.len()
    &&& t[i] == RA
    &&& t[i + 1] == HASANTA
    &&& spec_cluster_last(t, i) >= 0
    &&& spec_is_consonant(t[spec_cluster_last(t, i)])
}

/// Where the cluster before the reph at `i` starts.
pub open spec fn spec_reph_cluster_start(t: Seq<char>, i: int) -> int {
    spec_cluster_back(t, spec_cluster_last(t, i))
}

/// `t` with the reph at `i` moved before its whole cluster.
pub open spec fn spec_move_reph(t: Seq<char>, i: int) -> Seq<char> {
    let c = spec_reph_cluster_start(t, i);
    t.take(c) + seq![RA, HASANTA] + t.subrange(c, i) + t.skip(i + 2)
}

/// Every post-cluster reph moved before its cluster, scanning from `i`.
pub open spec fn spec_reph_reorder_from(t: Seq<char>, i: int) -> Seq<char>
    decreases t.len() - i,
{
    if i < 0 || i >= t.len() {
        t
    } else if spec_reph_at(t, i) {
        proof {
            lemma_cluster_back_bounds(t, spec_cluster_last(t, i));
        }
        spec_reph_reorder_from(spec_move_reph(t, i), i + 2)
    } else {
        spec_reph_reorder_from(t, i + 1)
    }
}

pub open spec fn spec_reph_reorder(t: Seq<char>) -> Seq<char> {
    spec_reph_reorder_from(t, 0)
}

proof fn lemma_reph_reorder_from_len(t: Seq<char>, i: int)
    ensures
        spec_reph_reorder_from(t, i).len() == t.len(),
    decreases t.len() - i,
{
    if 0 <= i < t.len() {
        if spec_reph_at(t, i) {
            lemma_cluster_back_bounds(t, spec_cluster_last(t, i));
            lemma_reph_reorder_from_len(spec_move_reph(t, i), i + 2);
        } else {
            lemma_reph_reorder_from_len(t, i + 1);
        }
    }
}

/// Move reph (`র + ্`) from its post-cluster Bijoy position to the Unicode
/// position before the cluster: the whole cluster, a consonant followed by
/// `(hasanta consonant)*` and an optional closing vowel sign. A reph already
/// at the front of its cluster is left in place.
pub fn reph_reorder(input: &str) -> (r: String)
    ensures
        r@ == spec_reph_reorder(input@),
        r@.len() == input@.len(),
{
    let chars = chars_of(input);
    let out = reph_reorder_chars(chars);
    proof {
        lemma_reph_reorder_from_len(input@, 0);
    }
    string_of(&out)
}

pub fn reph_reorder_chars(input: Vec<char>) -> (out: Vec<char>)
    ensures
        out@ == spec_reph_reorder(input@),
{
    let mut text = input;
    let ghost s = text@;
    let mut i: usize = 0;
    while i < text.len()
        invariant
            spec_reph_reorder(s) == spec_reph_reorder_from(text@, i as int),
        decreases text.len() - i,
    {
        let has_reph_here = i + 1 < text.len() && text[i] == RA && text[i + 1] == HASANTA;
        // The cluster's last consonant: right before the reph, or before a
        // closing vowel sign.
        let last: usize = if i >= 1 && is_kar(text[i - 1]) {
            if i >= 2 { i - 2 } else { text.len() }
        } else if i >= 1 {
            i - 1
        } else {
            text.len()
        };
        if has_reph_here && last < text.len() && is_bengali_consonant(text[last]) {
            proof {
                assert(spec_reph_at(text@, i as int));
            }
            // Walk back over (hasanta consonant)* pairs.
            let mut start = last;
            while start >= 2 && text[start - 1] == HASANTA && is_bengali_consonant(text[start - 2])
                invariant
                    start <= last < i,
                    i + 1 < text.len(),
                    spec_cluster_back(text@, start as int) == spec_reph_cluster_start(text@, i as int),
                decreases start,
            {
                start -= 2;
            }
            let cluster_start = start;
            proof {
                lemma_cluster_back_bounds(text@, start as int);
            }
            let mut new_text: Vec<char> = Vec::new();
            push_range(&mut new_text, &text, 0, cluster_start);
            new_text.push(RA);
            new_text.push(HASANTA);
            push_range(&mut new_text, &text, cluster_start, i);
            push_range(&mut new_text, &text, i + 2, text.len());
            let advance = 2 + (i - cluster_start);
            proof {
                let t = text@;
                assert(new_text@ == spec_move_reph(t, i as int));
            }
            text = new_text;
            i = cluster_start + advance;
            continue;
        }
        i += 1;
    }
    text
}

// ---------------------------------------------------------------------------
// NFC

/// The Unicode Normalization Form C of `s`.
pub uninterp spec fn spec_nfc(s: Seq<char>) -> Seq<char>;

/// `UnicodeNormalization::nfc` collected into a `String`. Claimed: the result
/// is the named NFC of the input's characters, and it is already in NFC
/// (normalization forms are stable: normalizing a normalized text changes
/// nothing, UAX #15).
#[verifier::external_body]
fn nfc_of(input: &str) -> (r: String)
    ensures
        r@ == spec_nfc(input@),
        spec_nfc(r@) == r@,
{
    unicode_normalization::UnicodeNormalization::nfc(input).collect()
}

/// Apply Unicode NFC normalization. For Bengali this decomposes the
/// composition-excluded letters U+09DC, U+09DD and U+09DF into base + nukta.
pub fn nfc(input: &str) -> (r: String)
    ensures
        r@ == spec_nfc(input@),
        spec_nfc(r@) == r@,
{
    nfc_of(input)
}


// ---------------------------------------------------------------------------
// Laws of the reordering passes

proof fn lemma_ikar_swap_from_permutes(s: Seq<char>, i: int)
    requires
        0 <= i <= s.len(),
    ensures
        spec_ikar_swap_from(s, i).to_multiset() =~= s.subrange(i, s.len() as int).to_multiset(),
    decreases s.len() - i,
{
    broadcast use vstd::seq_lib::lemma_multiset_commutative, vstd::multiset::group_multiset_axioms;

    let n = s.len() as int;
    if i < n {
        if spec_is_prekar(s[i]) && i + 1 < n && spec_is_consonant(s[i + 1]) {
            let j = spec_cluster_end(s, i + 2);
            lemma_cluster_end_bounds(s, i + 2);
            lemma_ikar_swap_from_permutes(s, j);
            assert(s.subrange(i, n) =~= seq![s[i]] + s.subrange(i + 1, j) + s.subrange(j, n));
            assert(spec_ikar_swap_from(s, i) == s.subrange(i + 1, j) + seq![s[i]] + spec_ikar_swap_from(s, j));
        } else {
            lemma_ikar_swap_from_permutes(s, i + 1);
            assert(s.subrange(i, n) =~= seq![s[i]] + s.subrange(i + 1, n));
        }
    } else {
        assert(s.subrange(i, n) =~= Seq::<char>::empty());
    }
}

/// Swapping pre-base vowel signs only moves characters: the result holds
/// the same characters as the input, each as many times.
pub proof fn lemma_ikar_swap_permutes(s: Seq<char>)
    ensures
        spec_ikar_swap(s).to_multiset() =~= s.to_multiset(),
{
    lemma_ikar_swap_from_permutes(s, 0);
    assert(s.subrange(0, s.len() as int) =~= s);
}

proof fn lemma_reph_reorder_from_permutes(t: Seq<char>, i: int)
    ensures
        spec_reph_reorder_from(t, i).to_multiset() =~= t.to_multiset(),
    decreases t.len() - i,
{
    broadcast use vstd::seq_lib::lemma_multiset_commutative, vstd::multiset::group_multiset_axioms;

    if 0 <= i < t.len() {
        if spec_reph_at(t, i) {
            let m = spec_move_reph(t, i);
            let a = seq![RA, HASANTA];
            let cs = spec_reph_cluster_start(t, i);
            lemma_cluster_back_bounds(t, spec_cluster_last(t, i));
            let c = t.subrange(cs, i);
            assert(t =~= t.take(cs) + (c + a) + t.skip(i + 2));
            assert(m =~= t.take(cs) + (a + c) + t.skip(i + 2));
            vstd::seq_lib::lemma_seq_union_to_multiset_commutative(a, c);
            assert(m.to_multiset() =~= t.to_multiset());
            lemma_reph_reorder_from_permutes(m, i + 2);
        } else {
            lemma_reph_reorder_from_permutes(t, i + 1);
        }
    }
}

/// Moving rephs before their consonant only moves characters: the result
/// holds the same characters as the input, each as many times.
pub proof fn lemma_reph_reorder_permutes(t: Seq<char>)
    ensures
        spec_reph_reorder(t).to_multiset() =~= t.to_multiset(),
{
    lemma_reph_reorder_from_permutes(t, 0);
}


/// No e-kar directly followed by an aa-kar or an au length mark: nothing
/// left for e-kar recombination to fold.
pub open spec fn spec_ekar_folded(t: Seq<char>) -> bool {
    forall|k: int|
        0 <= k && k + 1 < t.len() && #[trigger] t[k] == E_KAR ==> t[k + 1] != AA_KAR && t[k + 1] != TAIL_AU_KAR
}

proof fn lemma_ekar_from_folded(s: Seq<char>, i: int)
    requires
        0 <= i <= s.len(),
    ensures
        spec_ekar_folded(spec_ekar_recombine_from(s, i)),
        i < s.len() ==> spec_ekar_recombine_from(s, i).len() > 0,
        i < s.len() && s[i] != AA_KAR && s[i] != TAIL_AU_KAR ==> spec_ekar_recombine_from(s, i)[0]
            != AA_KAR && spec_ekar_recombine_from(s, i)[0] != TAIL_AU_KAR,
    decreases s.len() - i,
{
    if i < s.len() {
        let r = spec_ekar_recombine_from(s, i);
        if s[i] == E_KAR && i + 1 < s.len() && (s[i + 1] == AA_KAR || s[i + 1] == TAIL_AU_KAR) {
            lemma_ekar_from_folded(s, i + 2);
            let rest = spec_ekar_recombine_from(s, i + 2);
            let head = if s[i + 1] == AA_KAR { O_KAR } else { AU_KAR };
            assert(r == seq![head] + rest);
            assert forall|k: int| 0 <= k && k + 1 < r.len() && #[trigger] r[k] == E_KAR implies r[k + 1]
                != AA_KAR && r[k + 1] != TAIL_AU_KAR by {
                assert(k >= 1);
                assert(r[k] == rest[k - 1] && r[k + 1] == rest[k]);
            }
        } else {
            lemma_ekar_from_folded(s, i + 1);
            let rest = spec_ekar_recombine_from(s, i + 1);
            assert(r == seq![s[i]] + rest);
            assert forall|k: int| 0 <= k && k + 1 < r.len() && #[trigger] r[k] == E_KAR implies r[k + 1]
                != AA_KAR && r[k + 1] != TAIL_AU_KAR by {
                assert(r[k + 1] == rest[k]);
                if k >= 1 {
                    assert(r[k] == rest[k - 1]);
                } else {
                    assert(s[i] == E_KAR);
                    if i + 1 < s.len() {
                        assert(s[i + 1] != AA_KAR && s[i + 1] != TAIL_AU_KAR);
                    }
                }
            }
        }
    } else {
        assert(spec_ekar_recombine_from(s, i) =~= Seq::<char>::empty());
    }
}

proof fn lemma_ekar_from_identity(t: Seq<char>, i: int)
    requires
        0 <= i <= t.len(),
        spec_ekar_folded(t),
    ensures
        spec_ekar_recombine_from(t, i) == t.skip(i),
    decreases t.len() - i,
{
    if i < t.len() {
        if t[i] == E_KAR && i + 1 < t.len() {
            assert(t[i + 1] != AA_KAR && t[i + 1] != TAIL_AU_KAR);
        }
        lemma_ekar_from_identity(t, i + 1);
        assert(t.skip(i) =~= seq![t[i]] + t.skip(i + 1));
    } else {
        assert(t.skip(i) =~= Seq::<char>::empty());
    }
}

/// After e-kar recombination no e-kar is directly followed by an aa-kar or
/// an au length mark, so recombining twice is the same as recombining once.
pub proof fn lemma_ekar_recombine_idempotent(s: Seq<char>)
    ensures
        spec_ekar_folded(spec_ekar_recombine(s)),
        spec_ekar_recombine(spec_ekar_recombine(s)) == spec_ekar_recombine(s),
{
    lemma_ekar_from_folded(s, 0);
    let t = spec_ekar_recombine(s);
    lemma_ekar_from_identity(t, 0);
    assert(t.skip(0) =~= t);
}


/// `s` without its zero-width joiners.
pub open spec fn spec_drop_zwj(s: Seq<char>) -> Seq<char>
    decreases s.len(),
{
    if s.len() == 0 {
        Seq::empty()
    } else {
        spec_drop_zwj(s.drop_last()) + if s.last() == ZWJ {
            Seq::<char>::empty()
        } else {
            seq![s.last()]
        }
    }
}

proof fn lemma_drop_zwj_concat(a: Seq<char>, b: Seq<char>)
    ensures
        spec_drop_zwj(a + b) == spec_drop_zwj(a) + spec_drop_zwj(b),
    decreases b.len(),
{
    if b.len() == 0 {
        assert(a + b =~= a);
        assert(spec_drop_zwj(a) + spec_drop_zwj(b) =~= spec_drop_zwj(a));
    } else {
        lemma_drop_zwj_concat(a, b.drop_last());
        assert((a + b).drop_last() =~= a + b.drop_last());
        assert((a + b).last() == b.last());
        let tail = if b.last() == ZWJ { Seq::<char>::empty() } else { seq![b.last()] };
        assert(spec_drop_zwj(a) + spec_drop_zwj(b.drop_last()) + tail =~= spec_drop_zwj(a) + (
        spec_drop_zwj(b.drop_last()) + tail));
    }
}

proof fn lemma_drop_zwj_one(c: char)
    ensures
        spec_drop_zwj(seq![c]) == (if c == ZWJ { Seq::<char>::empty() } else { seq![c] }),
{
    assert(seq![c].drop_last() =~= Seq::<char>::empty());
    assert(seq![c].last() == c);
    assert(spec_drop_zwj(Seq::<char>::empty()) =~= Seq::<char>::empty());
    let tail = if c == ZWJ { Seq::<char>::empty() } else { seq![c] };
    assert(Seq::<char>::empty() + tail =~= tail);
}

proof fn lemma_ya_phala_from_drop_zwj(s: Seq<char>, i: int)
    requires
        0 <= i <= s.len(),
    ensures
        spec_drop_zwj(spec_ya_phala_zwj_from(s, i)) == spec_drop_zwj(s.skip(i)),
    decreases s.len() - i,
{
    if i < s.len() {
        if spec_ya_phala_at(s, i) {
            lemma_ya_phala_from_drop_zwj(s, i + 3);
            let rest = spec_ya_phala_zwj_from(s, i + 3);
            lemma_drop_zwj_concat(seq![RA, ZWJ, HASANTA, YA], rest);
            lemma_drop_zwj_concat(seq![RA, ZWJ], seq![HASANTA, YA]);
            lemma_drop_zwj_concat(seq![RA], seq![ZWJ]);
            lemma_drop_zwj_concat(seq![HASANTA], seq![YA]);
            lemma_drop_zwj_one(RA);
            lemma_drop_zwj_one(ZWJ);
            lemma_drop_zwj_one(HASANTA);
            lemma_drop_zwj_one(YA);
            assert(seq![RA, ZWJ, HASANTA, YA] =~= seq![RA, ZWJ] + seq![HASANTA, YA]);
            assert(seq![RA, ZWJ] =~= seq![RA] + seq![ZWJ]);
            assert(seq![HASANTA, YA] =~= seq![HASANTA] + seq![YA]);
            assert(s.skip(i) =~= seq![RA] + seq![HASANTA, YA] + s.skip(i + 3));
            lemma_drop_zwj_concat(seq![RA] + seq![HASANTA, YA], s.skip(i + 3));
            lemma_drop_zwj_concat(seq![RA], seq![HASANTA, YA]);
            assert(seq![RA] + seq![ZWJ] + seq![HASANTA, YA] =~= seq![RA, ZWJ, HASANTA, YA]);
            assert(spec_drop_zwj(seq![RA, ZWJ, HASANTA, YA]) =~= spec_drop_zwj(seq![RA] + seq![HASANTA, YA]));
        } else {
            lemma_ya_phala_from_drop_zwj(s, i + 1);
            lemma_drop_zwj_concat(seq![s[i]], spec_ya_phala_zwj_from(s, i + 1));
            lemma_drop_zwj_concat(seq![s[i]], s.skip(i + 1));
            assert(s.skip(i) =~= seq![s[i]] + s.skip(i + 1));
        }
    } else {
        assert(s.skip(i) =~= Seq::<char>::empty());
    }
}

/// No `র + ্ + য` left that the ya-phala pass would mark.
pub open spec fn spec_ya_phala_marked(t: Seq<char>) -> bool {
    forall|k: int| !#[trigger] spec_ya_phala_at(t, k)
}

proof fn lemma_ya_phala_from_marked(s: Seq<char>, i: int)
    requires
        0 <= i <= s.len(),
    ensures
        ({
            let r = spec_ya_phala_zwj_from(s, i);
            &&& r.len() >= s.len() - i
            &&& forall|k: int| 1 <= k ==> !#[trigger] spec_ya_phala_at(r, k)
            &&& (r.len() >= 3 && r[0] == RA && r[1] == HASANTA && r[2] == YA) ==> (i > 0 && (s[i - 1]
                == ZWJ || s[i - 1] == ZWNJ))
            &&& r.len() > 0 ==> r[0] == s[i]
            &&& r.len() >= 2 ==> (i + 1 < s.len() && (r[1] == ZWJ || r[1] == s[i + 1]))
        }),
    decreases s.len() - i,
{
    let r = spec_ya_phala_zwj_from(s, i);
    if i < s.len() {
        if spec_ya_phala_at(s, i) {
            lemma_ya_phala_from_marked(s, i + 3);
            let rest = spec_ya_phala_zwj_from(s, i + 3);
            assert(r == seq![RA, ZWJ, HASANTA, YA] + rest);
            assert(r[0] == RA && r[1] == ZWJ && r[0] == s[i]);
            assert(r.len() == 4 + rest.len());
            assert forall|k: int| 1 <= k implies !#[trigger] spec_ya_phala_at(r, k) by {
                if spec_ya_phala_at(r, k) {
                    if k >= 5 {
                        assert(r[k] == rest[k - 4] && r[k + 1] == rest[k - 3] && r[k + 2] == rest[k - 2]);
                        assert(r[k - 1] == rest[k - 5]);
                        assert(spec_ya_phala_at(rest, k - 4));
                    } else if k == 4 {
                        assert(r[4] == rest[0] && r[5] == rest[1] && r[6] == rest[2]);
                        assert(s[i + 2] == YA);
                    } else {
                        assert(r[k] != RA || r[k + 1] != HASANTA);
                    }
                }
            }
        } else {
            lemma_ya_phala_from_marked(s, i + 1);
            let rest = spec_ya_phala_zwj_from(s, i + 1);
            assert(r == seq![s[i]] + rest);
            assert(r.len() == 1 + rest.len());
            assert(r[0] == s[i]);
            if r.len() >= 2 {
                assert(r[1] == rest[0]);
                assert(rest[0] == s[i + 1]);
            }
            assert forall|k: int| 1 <= k implies !#[trigger] spec_ya_phala_at(r, k) by {
                if spec_ya_phala_at(r, k) {
                    assert(r[k] == rest[k - 1] && r[k + 1] == rest[k] && r[k + 2] == rest[k + 1]);
                    if k >= 2 {
                        assert(r[k - 1] == rest[k - 2]);
                        assert(spec_ya_phala_at(rest, k - 1));
                    } else {
                        assert(r[0] == s[i]);
                    }
                }
            }
            if r.len() >= 3 && r[0] == RA && r[1] == HASANTA && r[2] == YA {
                assert(r[1] == rest[0] && r[2] == rest[1]);
                assert(s[i + 1] == HASANTA);
                assert(i + 2 < s.len());
                assert(s[i + 2] == YA);
                assert(s[i] == RA);
                assert(!spec_ya_phala_at(s, i));
            }
        }
    }
}

proof fn lemma_ya_phala_from_identity(t: Seq<char>, i: int)
    requires
        0 <= i <= t.len(),
        spec_ya_phala_marked(t),
    ensures
        spec_ya_phala_zwj_from(t, i) == t.skip(i),
    decreases t.len() - i,
{
    if i < t.len() {
        assert(!spec_ya_phala_at(t, i));
        lemma_ya_phala_from_identity(t, i + 1);
        assert(t.skip(i) =~= seq![t[i]] + t.skip(i + 1));
    } else {
        assert(t.skip(i) =~= Seq::<char>::empty());
    }
}

/// The ya-phala pass only inserts zero-width joiners: without them, its
/// result is its input without them. It leaves nothing to mark, so applying
/// it twice is the same as applying it once.
pub proof fn lemma_ya_phala_zwj_inserts_only_joiners(s: Seq<char>)
    ensures
        spec_drop_zwj(spec_ya_phala_zwj(s)) == spec_drop_zwj(s),
        spec_ya_phala_marked(spec_ya_phala_zwj(s)),
        spec_ya_phala_zwj(spec_ya_phala_zwj(s)) == spec_ya_phala_zwj(s),
{
    lemma_ya_phala_from_drop_zwj(s, 0);
    assert(s.skip(0) =~= s);
    lemma_ya_phala_from_marked(s, 0);
    let t = spec_ya_phala_zwj(s);
    assert forall|k: int| !#[trigger] spec_ya_phala_at(t, k) by {
        if k == 0 && spec_ya_phala_at(t, 0) {
            assert(t[0] == RA && t[1] == HASANTA && t[2] == YA);
        }
    }
    lemma_ya_phala_from_identity(t, 0);
    assert(t.skip(0) =~= t);
}


/// `str::replace` of the two-character pattern `a b` by `c`: the
/// occurrences found left to right, without overlap, each replaced.
pub open spec fn spec_replace_pair(t: Seq<char>, a: char, b: char, c: char) -> Seq<char>
    decreases t.len(),
{
    if t.len() == 0 {
        Seq::empty()
    } else if t[0] == a && t.len() > 1 && t[1] == b {
        seq![c] + spec_replace_pair(t.skip(2), a, b, c)
    } else {
        seq![t[0]] + spec_replace_pair(t.skip(1), a, b, c)
    }
}

proof fn lemma_replace_pair_prepend(x: char, y: Seq<char>, a: char, b: char, c: char)
    ensures
        (x == a && y.len() > 0 && y[0] == b) ==> spec_replace_pair(seq![x] + y, a, b, c) == seq![c]
            + spec_replace_pair(y.skip(1), a, b, c),
        !(x == a && y.len() > 0 && y[0] == b) ==> spec_replace_pair(seq![x] + y, a, b, c) == seq![x]
            + spec_replace_pair(y, a, b, c),
{
    let t = seq![x] + y;
    assert(t[0] == x);
    assert(t.skip(1) =~= y);
    if y.len() > 0 {
        assert(t[1] == y[0]);
        assert(t.skip(2) =~= y.skip(1));
    }
}

proof fn lemma_replace_pair_first(t: Seq<char>, a: char, b: char, c: char)
    requires
        t.len() > 0,
    ensures
        spec_replace_pair(t, a, b, c).len() > 0,
        spec_replace_pair(t, a, b, c)[0] == (if t[0] == a && t.len() > 1 && t[1] == b {
            c
        } else {
            t[0]
        }),
{
}

proof fn lemma_ekar_from_replace_chain(s: Seq<char>, i: int)
    requires
        0 <= i <= s.len(),
    ensures
        spec_ekar_recombine_from(s, i) == spec_replace_pair(
            spec_replace_pair(s.skip(i), E_KAR, AA_KAR, O_KAR),
            E_KAR,
            TAIL_AU_KAR,
            AU_KAR,
        ),
    decreases s.len() - i,
{
    let t = s.skip(i);
    if i < s.len() {
        assert(t[0] == s[i]);
        assert(t.skip(1) =~= s.skip(i + 1));
        if i + 1 < s.len() {
            assert(t[1] == s[i + 1]);
            assert(t.skip(2) =~= s.skip(i + 2));
        }
        if s[i] == E_KAR && i + 1 < s.len() && s[i + 1] == AA_KAR {
            lemma_ekar_from_replace_chain(s, i + 2);
            let u = spec_replace_pair(s.skip(i + 2), E_KAR, AA_KAR, O_KAR);
            assert(spec_replace_pair(t, E_KAR, AA_KAR, O_KAR) == seq![O_KAR] + u);
            lemma_replace_pair_prepend(O_KAR, u, E_KAR, TAIL_AU_KAR, AU_KAR);
        } else if s[i] == E_KAR && i + 1 < s.len() && s[i + 1] == TAIL_AU_KAR {
            lemma_ekar_from_replace_chain(s, i + 2);
            let u = spec_replace_pair(s.skip(i + 2), E_KAR, AA_KAR, O_KAR);
            let t1 = s.skip(i + 1);
            assert(t1[0] == TAIL_AU_KAR);
            assert(t1.skip(1) =~= s.skip(i + 2));
            assert(spec_replace_pair(t1, E_KAR, AA_KAR, O_KAR) == seq![TAIL_AU_KAR] + u);
            let v = seq![TAIL_AU_KAR] + u;
            assert(spec_replace_pair(t, E_KAR, AA_KAR, O_KAR) == seq![E_KAR] + v);
            lemma_replace_pair_prepend(E_KAR, v, E_KAR, TAIL_AU_KAR, AU_KAR);
            assert(v[0] == TAIL_AU_KAR);
            assert(v.skip(1) =~= u);
        } else {
            lemma_ekar_from_replace_chain(s, i + 1);
            let v = spec_replace_pair(s.skip(i + 1), E_KAR, AA_KAR, O_KAR);
            assert(spec_replace_pair(t, E_KAR, AA_KAR, O_KAR) == seq![s[i]] + v);
            if v.len() > 0 {
                lemma_replace_pair_first(s.skip(i + 1), E_KAR, AA_KAR, O_KAR);
                assert(s.skip(i + 1)[0] == s[i + 1]);
            }
            lemma_replace_pair_prepend(s[i], v, E_KAR, TAIL_AU_KAR, AU_KAR);
        }
    } else {
        assert(t =~= Seq::<char>::empty());
    }
}

/// E-kar recombination is `replace("ে" + "া", "ো")` followed by
/// `replace("ে" + "ৗ", "ৌ")`.
pub proof fn lemma_ekar_recombine_is_replace_chain(s: Seq<char>)
    ensures
        spec_ekar_recombine(s) == spec_replace_pair(
            spec_replace_pair(s, E_KAR, AA_KAR, O_KAR),
            E_KAR,
            TAIL_AU_KAR,
            AU_KAR,
        ),
{
    lemma_ekar_from_replace_chain(s, 0);
    assert(s.skip(0) =~= s);
}


/// Every pre-base vowel sign (ি ী ে ৈ) typed before a consonant is moved
/// after it: the two-character text becomes consonant, vowel sign.
pub proof fn lemma_ikar_swap_moves_prebase_sign(c: char, k: char)
    requires
        c == '\u{09BF}' || c == '\u{09C0}' || c == '\u{09C7}' || c == '\u{09C8}',
        '\u{0995}' <= k <= '\u{09B9}',
    ensures
        spec_ikar_swap(seq![c, k]) == seq![k, c],
{
    let s = seq![c, k];
    assert(spec_cluster_end(s, 2) == 2);
    assert(spec_ikar_swap_from(s, 2) == Seq::<char>::empty());
    assert(s.subrange(1, 2) =~= seq![k]);
    assert(spec_ikar_swap(s) == s.subrange(1, 2) + seq![c] + spec_ikar_swap_from(s, 2));
    assert(spec_ikar_swap(s) =~= seq![k, c]);
}

} // verus!
