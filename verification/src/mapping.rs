//! The encoding's substitution table, parsed from TOML and compiled into
//! leftmost-longest Aho-Corasick automata, one per n-gram length.

use vstd::prelude::*;
use aho_corasick::AhoCorasick;
use crate::encoding::{registry, spec_mapping_toml, Encoding};
use crate::text::{chars_of, str_equal};

verus! {

// ---------------------------------------------------------------------------
// Leftmost-longest replacement

/// `p` is a non-empty prefix of `s`.
pub open spec fn is_nonempty_prefix(p: Seq<char>, s: Seq<char>) -> bool {
    0 < p.len() <= s.len() && s.take(p.len() as int) == p
}

/// Some key of `m` is a non-empty prefix of `s`.
pub open spec fn spec_has_match(m: Map<Seq<char>, Seq<char>>, s: Seq<char>) -> bool {
    exists|p: Seq<char>| m.dom().contains(p) && is_nonempty_prefix(p, s)
}

/// The longest key of `m` that is a non-empty prefix of `s`.
pub open spec fn spec_longest_match(m: Map<Seq<char>, Seq<char>>, s: Seq<char>) -> Seq<char> {
    choose|p: Seq<char>|
        m.dom().contains(p) && is_nonempty_prefix(p, s) && forall|q: Seq<char>|
            m.dom().contains(q) && is_nonempty_prefix(q, s) ==> q.len() <= p.len()
}

/// Non-overlapping leftmost-longest replacement: at each position the
/// longest key that starts there is replaced by its value and the scan
/// resumes after it; where no key starts, the character is kept.
pub open spec fn spec_leftmost_longest_replace(m: Map<Seq<char>, Seq<char>>, s: Seq<char>) -> Seq<
    char,
>
    decreases s.len(),
{
    if s.len() == 0 {
        seq![]
    } else if spec_has_match(m, s) && 0 < spec_longest_match(m, s).len() <= s.len() {
        let p = spec_longest_match(m, s);
        m[p] + spec_leftmost_longest_replace(m, s.skip(p.len() as int))
    } else {
        seq![s[0]] + spec_leftmost_longest_replace(m, s.skip(1))
    }
}

/// Replacing with an empty table leaves the text unchanged.
pub proof fn lemma_replace_empty_table(s: Seq<char>)
    ensures
        spec_leftmost_longest_replace(Map::empty(), s) == s,
    decreases s.len(),
{
    if s.len() > 0 {
        lemma_replace_empty_table(s.skip(1));
        assert(s == seq![s[0]] + s.skip(1));
    }
}

/// The map from `keys[i]` to `vals[i]`; a later key wins over an earlier equal one.
pub open spec fn zip_map(keys: Seq<Seq<char>>, vals: Seq<Seq<char>>) -> Map<Seq<char>, Seq<char>>
    decreases keys.len(),
{
    if keys.len() == 0 {
        Map::empty()
    } else {
        zip_map(keys.drop_last(), vals.drop_last()).insert(
            keys[keys.len() - 1],
            vals[keys.len() - 1],
        )
    }
}

/// Pairwise distinct, non-empty patterns.
pub open spec fn distinct_nonempty(ks: Seq<Seq<char>>) -> bool {
    ks.no_duplicates() && forall|i: int| 0 <= i < ks.len() ==> #[trigger] ks[i].len() > 0
}

pub open spec fn strings_view(v: Seq<String>) -> Seq<Seq<char>> {
    v.map_values(|s: String| s@)
}

pub open spec fn entries_view(v: Seq<(String, String)>) -> Seq<(Seq<char>, Seq<char>)> {
    v.map_values(|e: (String, String)| (e.0@, e.1@))
}

pub open spec fn keys_of(v: Seq<(Seq<char>, Seq<char>)>) -> Seq<Seq<char>> {
    v.map_values(|e: (Seq<char>, Seq<char>)| e.0)
}

pub open spec fn values_of(v: Seq<(Seq<char>, Seq<char>)>) -> Seq<Seq<char>> {
    v.map_values(|e: (Seq<char>, Seq<char>)| e.1)
}

// ---------------------------------------------------------------------------
// aho_corasick

#[verifier::external_type_specification]
#[verifier::external_body]
pub struct ExAhoCorasick(aho_corasick::AhoCorasick);

/// The patterns an automaton was built from, in pattern-id order.
pub uninterp spec fn aho_patterns(ac: AhoCorasick) -> Seq<Seq<char>>;

/// The automaton was built with `MatchKind::LeftmostLongest`.
pub uninterp spec fn aho_is_leftmost_longest(ac: AhoCorasick) -> bool;

/// Whether `AhoCorasickBuilder::build` succeeds on these patterns with the
/// leftmost-longest match kind (it fails only when internal size limits are
/// exceeded).
pub uninterp spec fn aho_builds_leftmost_longest(patterns: Seq<Seq<char>>) -> bool;

/// `AhoCorasickBuilder::new().match_kind(MatchKind::LeftmostLongest).build(..)`.
/// Claimed: the result is `Ok` exactly when the named build predicate holds
/// for these patterns; an `Ok` automaton holds the patterns in the given order
/// and uses leftmost-longest matching.
#[verifier::external_body]
fn aho_build_leftmost_longest(patterns: &Vec<String>) -> (r: Option<AhoCorasick>)
    ensures
        r is Some == aho_builds_leftmost_longest(strings_view(patterns@)),
        r matches Some(ac) ==> aho_patterns(ac) == strings_view(patterns@)
            && aho_is_leftmost_longest(ac),
{
    aho_corasick::AhoCorasickBuilder::new().match_kind(aho_corasick::MatchKind::LeftmostLongest).build(
        patterns,
    ).ok()
}

/// `AhoCorasick::replace_all`. It replaces each match reported by
/// `find_iter` by the replacement with the pattern's index, and panics when
/// the replacement count differs from the pattern count (excluded by
/// `requires`). Claimed: with leftmost-longest matching and distinct
/// non-empty patterns, the result is the leftmost-longest replacement over
/// the pattern-to-replacement map.
#[verifier::external_body]
fn aho_replace_all(ac: &AhoCorasick, haystack: &str, replace_with: &Vec<String>) -> (r: String)
    requires
        replace_with.len() == aho_patterns(*ac).len(),
    ensures
        aho_is_leftmost_longest(*ac) && distinct_nonempty(aho_patterns(*ac)) ==> r@
            == spec_leftmost_longest_replace(
            zip_map(aho_patterns(*ac), strings_view(replace_with@)),
            haystack@,
        ),
{
    ac.replace_all(haystack, replace_with)
}

// ---------------------------------------------------------------------------
// Pattern order: descending UTF-8 length, then lexicographic

pub open spec fn utf8_char_len(c: char) -> nat {
    if (c as u32) < 0x80 {
        1
    } else if (c as u32) < 0x800 {
        2
    } else if (c as u32) < 0x10000 {
        3
    } else {
        4
    }
}

/// Length in bytes of the UTF-8 encoding of `s`.
pub open spec fn utf8_len(s: Seq<char>) -> nat
    decreases s.len(),
{
    if s.len() == 0 {
        0
    } else {
        utf8_char_len(s[0]) + utf8_len(s.drop_first())
    }
}

/// Lexicographic order on code points (the same as byte order on UTF-8).
pub open spec fn seq_lt(a: Seq<char>, b: Seq<char>) -> bool
    decreases a.len(),
{
    if a.len() == 0 {
        b.len() > 0
    } else if b.len() == 0 {
        false
    } else if a[0] < b[0] {
        true
    } else if a[0] > b[0] {
        false
    } else {
        seq_lt(a.drop_first(), b.drop_first())
    }
}

/// `a` sorts before `b`: longer in UTF-8 bytes, or as long and smaller.
pub open spec fn key_before(a: Seq<char>, b: Seq<char>) -> bool {
    utf8_len(a) > utf8_len(b) || (utf8_len(a) == utf8_len(b) && seq_lt(a, b))
}

fn utf8_len_of(s: &Vec<char>) -> (r: usize)
    requires
        s.len() <= 1000,
    ensures
        r == utf8_len(s@),
{
    let mut total: usize = 0;
    let mut i = s.len();
    while i > 0
        invariant
            i <= s.len() <= 1000,
            total <= 4 * (s.len() - i),
            total == utf8_len(s@.skip(i as int)),
        decreases i,
    {
        i -= 1;
        let c = s[i];
        assert(s@.skip(i as int)[0] == c);
        let n: usize = if (c as u32) < 0x80 {
            1
        } else if (c as u32) < 0x800 {
            2
        } else if (c as u32) < 0x10000 {
            3
        } else {
            4
        };
        assert(s@.skip(i as int).drop_first() == s@.skip(i + 1));
        total += n;
    }
    assert(s@.skip(0) == s@);
    total
}

fn seq_less(a: &Vec<char>, b: &Vec<char>) -> (r: bool)
    ensures
        r == seq_lt(a@, b@),
{
    let mut i: usize = 0;
    assert(a@.skip(0) == a@);
    assert(b@.skip(0) == b@);
    while i < a.len() && i < b.len()
        invariant
            i <= a.len(),
            i <= b.len(),
            a@.take(i as int) == b@.take(i as int),
            seq_lt(a@, b@) == seq_lt(a@.skip(i as int), b@.skip(i as int)),
        decreases a.len() - i,
    {
        assert(a@.skip(i as int).drop_first() == a@.skip(i + 1));
        assert(b@.skip(i as int).drop_first() == b@.skip(i + 1));
        assert(a@.skip(i as int)[0] == a@[i as int]);
        assert(b@.skip(i as int)[0] == b@[i as int]);
        if a[i] < b[i] {
            return true;
        }
        if a[i] > b[i] {
            return false;
        }
        assert(a@.take(i + 1) == a@.take(i as int).push(a@[i as int]));
        assert(b@.take(i + 1) == b@.take(i as int).push(b@[i as int]));
        i += 1;
    }
    assert(i == a.len() ==> a@.skip(i as int).len() == 0);
    assert(i == b.len() ==> b@.skip(i as int).len() == 0);
    i == a.len() && i < b.len()
}

/// Whether the key `a` sorts before the key `b`.
fn sorts_before(a: &str, b: &str) -> (r: bool)
    ensures
        (a@.len() <= 1000 && b@.len() <= 1000) ==> r == key_before(a@, b@),
{
    let ac = chars_of(a);
    let bc = chars_of(b);
    if ac.len() > 1000 || bc.len() > 1000 {
        return false;
    }
    let la = utf8_len_of(&ac);
    let lb = utf8_len_of(&bc);
    la > lb || (la == lb && seq_less(&ac, &bc))
}

/// Position at which `k` is inserted into `s`: before the first key it sorts before.
pub open spec fn spec_insert_pos(s: Seq<(Seq<char>, Seq<char>)>, k: Seq<char>, from: int) -> int
    decreases s.len() - from,
{
    if from < 0 || from >= s.len() {
        s.len() as int
    } else if key_before(k, s[from].0) {
        from
    } else {
        spec_insert_pos(s, k, from + 1)
    }
}

pub proof fn lemma_insert_pos_bounds(s: Seq<(Seq<char>, Seq<char>)>, k: Seq<char>, from: int)
    requires
        0 <= from <= s.len(),
    ensures
        from <= spec_insert_pos(s, k, from) <= s.len(),
    decreases s.len() - from,
{
    if from < s.len() && !key_before(k, s[from].0) {
        lemma_insert_pos_bounds(s, k, from + 1);
    }
}

/// The first `n` entries sorted by insertion, in the order of `key_before`.
pub open spec fn spec_sort_prefix(e: Seq<(Seq<char>, Seq<char>)>, n: int) -> Seq<
    (Seq<char>, Seq<char>),
>
    decreases n,
{
    if n <= 0 || n > e.len() {
        seq![]
    } else {
        let s = spec_sort_prefix(e, n - 1);
        s.insert(spec_insert_pos(s, e[n - 1].0, 0), e[n - 1])
    }
}

pub open spec fn spec_sort_entries(e: Seq<(Seq<char>, Seq<char>)>) -> Seq<(Seq<char>, Seq<char>)> {
    spec_sort_prefix(e, e.len() as int)
}

/// Keys are short enough for the sort's length computation.
pub open spec fn keys_short(e: Seq<(Seq<char>, Seq<char>)>) -> bool {
    forall|i: int| 0 <= i < e.len() ==> #[trigger] e[i].0.len() <= 1000
}

proof fn lemma_sort_prefix_props(e: Seq<(Seq<char>, Seq<char>)>, n: int)
    requires
        0 <= n <= e.len(),
        keys_of(e).no_duplicates(),
    ensures
        spec_sort_prefix(e, n).len() == n,
        keys_of(spec_sort_prefix(e, n)).no_duplicates(),
        forall|x: (Seq<char>, Seq<char>)|
            spec_sort_prefix(e, n).contains(x) <==> e.take(n).contains(x),
    decreases n,
{
    if n > 0 {
        lemma_sort_prefix_props(e, n - 1);
        let s = spec_sort_prefix(e, n - 1);
        let x = e[n - 1];
        let p = spec_insert_pos(s, x.0, 0);
        lemma_insert_pos_bounds(s, x.0, 0);
        let t = s.insert(p, x);
        s.insert_ensures(p, x);
        assert(e.take(n) == e.take(n - 1).push(x));
        assert forall|y: (Seq<char>, Seq<char>)| t.contains(y) <==> e.take(n).contains(y) by {
            if t.contains(y) {
                let j = choose|j: int| 0 <= j < t.len() && t[j] == y;
                if j < p {
                    assert(s[j] == y);
                    assert(s.contains(y));
                } else if j > p {
                    assert(s[j - 1] == y);
                    assert(s.contains(y));
                } else {
                    assert(e.take(n)[n - 1] == y);
                }
            }
            if e.take(n).contains(y) {
                let j = choose|j: int| 0 <= j < n && e.take(n)[j] == y;
                if j < n - 1 {
                    assert(e.take(n - 1)[j] == y);
                    assert(e.take(n - 1).contains(y));
                    assert(s.contains(y));
                    let k = choose|k: int| 0 <= k < s.len() && s[k] == y;
                    if k < p {
                        assert(t[k] == y);
                    } else {
                        assert(t[k + 1] == y);
                    }
                } else {
                    assert(t[p] == y);
                }
            }
        }
        // The new key does not occur among the earlier ones.
        assert forall|k: int| 0 <= k < s.len() implies s[k].0 != x.0 by {
            assert(s.contains(s[k]));
            assert(e.take(n - 1).contains(s[k]));
            let j = choose|j: int| 0 <= j < n - 1 && #[trigger] e.take(n - 1)[j] == s[k];
            assert(keys_of(e)[j] == e[j].0);
            assert(keys_of(e)[n - 1] == e[n - 1].0);
        }
        let kt = keys_of(t);
        assert forall|i: int, j: int|
            0 <= i < kt.len() && 0 <= j < kt.len() && i != j implies kt[i] != kt[j] by {
            let ks = keys_of(s);
            let si = if i < p { i } else { i - 1 };
            let sj = if j < p { j } else { j - 1 };
            if i != p && j != p {
                assert(kt[i] == ks[si]);
                assert(kt[j] == ks[sj]);
            } else if i == p {
                assert(kt[j] == s[sj].0);
            } else {
                assert(kt[i] == s[si].0);
            }
        }
    }
}

/// Sorting keeps the entries and their distinct keys.
pub proof fn lemma_sort_entries_props(e: Seq<(Seq<char>, Seq<char>)>)
    requires
        keys_of(e).no_duplicates(),
    ensures
        spec_sort_entries(e).len() == e.len(),
        keys_of(spec_sort_entries(e)).no_duplicates(),
        forall|x: (Seq<char>, Seq<char>)| spec_sort_entries(e).contains(x) <==> e.contains(x),
{
    lemma_sort_prefix_props(e, e.len() as int);
    assert(e.take(e.len() as int) == e);
}

fn clone_entry(e: &(String, String)) -> (r: (String, String))
    ensures
        r.0@ == e.0@,
        r.1@ == e.1@,
{
    (e.0.clone(), e.1.clone())
}

/// Sort entries by descending key length in UTF-8 bytes, then by key.
fn sort_entries(entries: &Vec<(String, String)>) -> (r: Vec<(String, String)>)
    requires
        keys_short(entries_view(entries@)),
    ensures
        entries_view(r@) == spec_sort_entries(entries_view(entries@)),
{
    let ghost ev = entries_view(entries@);
    let mut sorted: Vec<(String, String)> = Vec::new();
    let mut n: usize = 0;
    while n < entries.len()
        invariant
            n <= entries.len(),
            ev == entries_view(entries@),
            keys_short(ev),
            entries_view(sorted@) == spec_sort_prefix(ev, n as int),
        decreases entries.len() - n,
    {
        let e = clone_entry(&entries[n]);
        assert(ev[n as int] == (entries@[n as int].0@, entries@[n as int].1@));
        assert(ev[n as int].0.len() <= 1000);
        let ghost s = spec_sort_prefix(ev, n as int);
        proof {
            lemma_sort_prefix_props_len(ev, n as int);
        }
        let mut k: usize = 0;
        while k < sorted.len() && !sorts_before(e.0.as_str(), sorted[k].0.as_str())
            invariant
                k <= sorted.len(),
                entries_view(sorted@) == s,
                e.0@ == ev[n as int].0,
                e.0@.len() <= 1000,
                forall|i: int| 0 <= i < s.len() ==> #[trigger] s[i].0.len() <= 1000,
                spec_insert_pos(s, e.0@, 0) == spec_insert_pos(s, e.0@, k as int),
            decreases sorted.len() - k,
        {
            k += 1;
        }
        let ghost before = sorted@;
        sorted.insert(k, e);
        proof {
            assert(entries_view(sorted@) =~= s.insert(k as int, ev[n as int]));
        }
        n += 1;
    }
    sorted
}

proof fn lemma_sort_prefix_props_len(e: Seq<(Seq<char>, Seq<char>)>, n: int)
    requires
        0 <= n <= e.len(),
        keys_short(e),
    ensures
        spec_sort_prefix(e, n).len() == n,
        forall|i: int|
            0 <= i < spec_sort_prefix(e, n).len() ==> #[trigger] spec_sort_prefix(e, n)[i].0.len()
                <= 1000,
    decreases n,
{
    if n > 0 {
        lemma_sort_prefix_props_len(e, n - 1);
        let s = spec_sort_prefix(e, n - 1);
        let p = spec_insert_pos(s, e[n - 1].0, 0);
        lemma_insert_pos_bounds(s, e[n - 1].0, 0);
        s.insert_ensures(p, e[n - 1]);
        let t = s.insert(p, e[n - 1]);
        assert forall|i: int| 0 <= i < t.len() implies #[trigger] t[i].0.len() <= 1000 by {
            if i < p {
                assert(t[i] == s[i]);
            } else if i > p {
                assert(t[i] == s[i - 1]);
            }
        }
    }
}

// ---------------------------------------------------------------------------
// Compiled automaton for one n-gram table

/// One leftmost-longest automaton plus its parallel replacement table.
pub struct GramAutomaton {
    automaton: AhoCorasick,
    replacements: Vec<String>,
}

impl GramAutomaton {
    #[verifier::type_invariant]
    spec fn inv(self) -> bool {
        &&& aho_is_leftmost_longest(self.automaton)
        &&& distinct_nonempty(aho_patterns(self.automaton))
        &&& self.replacements.len() == aho_patterns(self.automaton).len()
    }

    /// The substitution table the automaton applies.
    pub closed spec fn table(&self) -> Map<Seq<char>, Seq<char>> {
        zip_map(aho_patterns(self.automaton), strings_view(self.replacements@))
    }

    /// Compile `entries` (pattern, replacement). Patterns are ordered by
    /// descending UTF-8 length, then lexicographically, so that pattern ids
    /// are deterministic. `None` when `entries` is empty or the automaton
    /// cannot be built.
    pub fn build(entries: &Vec<(String, String)>) -> (r: Option<Self>)
        requires
            keys_of(entries_view(entries@)).no_duplicates(),
            keys_short(entries_view(entries@)),
            forall|i: int| 0 <= i < entries@.len() ==> #[trigger] entries@[i].0@.len() > 0,
        ensures
            entries@.len() == 0 ==> r is None,
            entries@.len() > 0 ==> (r is Some <==> aho_builds_leftmost_longest(
                keys_of(spec_sort_entries(entries_view(entries@))),
            )),
            r matches Some(g) ==> g.table() == zip_map(
                keys_of(spec_sort_entries(entries_view(entries@))),
                values_of(spec_sort_entries(entries_view(entries@))),
            ),
    {
        if entries.len() == 0 {
            return None;
        }
        let ghost ev = entries_view(entries@);
        let sorted = sort_entries(entries);
        let ghost sv = spec_sort_entries(ev);
        proof {
            lemma_sort_entries_props(ev);
            assert forall|i: int| 0 <= i < sv.len() implies #[trigger] keys_of(sv)[i].len() > 0 by {
                assert(sv.contains(sv[i]));
                assert(ev.contains(sv[i]));
                let j = choose|j: int| 0 <= j < ev.len() && ev[j] == sv[i];
                assert(ev[j] == (entries@[j].0@, entries@[j].1@));
                assert(entries@[j].0@.len() > 0);
                assert(keys_of(sv)[i] == sv[i].0);
            }
        }
        let mut patterns: Vec<String> = Vec::new();
        let mut replacements: Vec<String> = Vec::new();
        let mut i: usize = 0;
        while i < sorted.len()
            invariant
                i <= sorted.len(),
                entries_view(sorted@) == sv,
                strings_view(patterns@) == keys_of(sv).take(i as int),
                strings_view(replacements@) == values_of(sv).take(i as int),
            decreases sorted.len() - i,
        {
            let ghost pb = patterns@;
            let ghost rb = replacements@;
            let p = sorted[i].0.clone();
            let v = sorted[i].1.clone();
            patterns.push(p);
            replacements.push(v);
            proof {
                assert(sv[i as int] == (sorted@[i as int].0@, sorted@[i as int].1@));
                assert(patterns@ == pb.push(p));
                assert(strings_view(patterns@) =~= strings_view(pb).push(p@));
                assert(strings_view(replacements@) =~= strings_view(rb).push(v@));
                assert(keys_of(sv).take(i + 1) =~= keys_of(sv).take(i as int).push(keys_of(sv)[i as int]));
                assert(values_of(sv).take(i + 1) =~= values_of(sv).take(i as int).push(values_of(sv)[i as int]));
                assert(strings_view(patterns@) =~= keys_of(sv).take(i + 1));
                assert(strings_view(replacements@) =~= values_of(sv).take(i + 1));
            }
            i += 1;
        }
        proof {
            assert(keys_of(sv).take(sv.len() as int) == keys_of(sv));
            assert(values_of(sv).take(sv.len() as int) == values_of(sv));
        }
        match aho_build_leftmost_longest(&patterns) {
            Some(automaton) => Some(GramAutomaton { automaton, replacements }),
            None => None,
        }
    }

    /// Run the automaton over `input`, returning the rewritten string.
    pub fn replace(&self, input: &str) -> (r: String)
        ensures
            r@ == spec_leftmost_longest_replace(self.table(), input@),
    {
        proof {
            use_type_invariant(self);
        }
        aho_replace_all(&self.automaton, input, &self.replacements)
    }
}

/// The table a compiled slot applies; an absent automaton applies nothing.
pub open spec fn slot_table(g: Option<GramAutomaton>) -> Map<Seq<char>, Seq<char>> {
    match g {
        Some(a) => a.table(),
        None => Map::empty(),
    }
}

/// The four substitution tables, longest n-grams first.
pub type MappingTables = (
    Map<Seq<char>, Seq<char>>,
    Map<Seq<char>, Seq<char>>,
    Map<Seq<char>, Seq<char>>,
    Map<Seq<char>, Seq<char>>,
);

/// The full set of compiled automata for one encoding, in the order the
/// transliterator applies them.
pub struct MappingSet {
    pub quadgrams: Option<GramAutomaton>,
    pub trigrams: Option<GramAutomaton>,
    pub bigrams: Option<GramAutomaton>,
    pub single_char: Option<GramAutomaton>,
}

impl MappingSet {
    pub open spec fn tables(&self) -> MappingTables {
        (
            slot_table(self.quadgrams),
            slot_table(self.trigrams),
            slot_table(self.bigrams),
            slot_table(self.single_char),
        )
    }
}

// ---------------------------------------------------------------------------
// Loading from TOML

pub open spec fn tables_view(v: Seq<(String, Vec<(String, String)>)>) -> Seq<
    (Seq<char>, Seq<(Seq<char>, Seq<char>)>),
> {
    v.map_values(|t: (String, Vec<(String, String)>)| (t.0@, entries_view(t.1@)))
}

/// What `toml::from_str` yields for `src` read as a document of string-to-string
/// tables: `None` when it is not one, else the tables with their entries, as
/// `BTreeMap` iteration gives them.
pub uninterp spec fn spec_toml_string_tables(src: Seq<char>) -> Option<
    Seq<(Seq<char>, Seq<(Seq<char>, Seq<char>)>)>,
>;

/// `toml::from_str::<BTreeMap<String, BTreeMap<String, String>>>`, each map
/// turned into a vector of (key, value) pairs. Claimed: the result is the
/// named parse of `src`, and keys inside one table are distinct (map keys are
/// unique).
#[verifier::external_body]
fn toml_string_tables(src: &str) -> (r: Option<Vec<(String, Vec<(String, String)>)>>)
    ensures
        r is Some == spec_toml_string_tables(src@) is Some,
        r matches Some(v) ==> tables_view(v@) == spec_toml_string_tables(src@)->0,
        r matches Some(v) ==> forall|i: int|
            0 <= i < v@.len() ==> keys_of(#[trigger] entries_view(v@[i].1@)).no_duplicates(),
{
    toml::from_str::<std::collections::BTreeMap<String, std::collections::BTreeMap<String, String>>>(
        src,
    ).ok().map(|t| t.into_iter().map(|(k, v)| (k, v.into_iter().collect())).collect())
}

/// The entries of the first table named `name`, or none.
pub open spec fn spec_table_entries(
    tables: Seq<(Seq<char>, Seq<(Seq<char>, Seq<char>)>)>,
    name: Seq<char>,
) -> Seq<(Seq<char>, Seq<char>)>
    decreases tables.len(),
{
    if tables.len() == 0 {
        seq![]
    } else if tables[0].0 == name {
        tables[0].1
    } else {
        spec_table_entries(tables.drop_first(), name)
    }
}

/// Every key is non-empty and at most 1000 characters long.
pub open spec fn keys_usable(e: Seq<(Seq<char>, Seq<char>)>) -> bool {
    forall|i: int| 0 <= i < e.len() ==> 0 < #[trigger] e[i].0.len() <= 1000
}

/// The table an n-gram section compiles to, or `None` when its automaton
/// cannot be built.
pub open spec fn spec_compiled_table(e: Seq<(Seq<char>, Seq<char>)>) -> Option<
    Map<Seq<char>, Seq<char>>,
> {
    if e.len() == 0 {
        Some(Map::empty())
    } else if aho_builds_leftmost_longest(keys_of(spec_sort_entries(e))) {
        Some(zip_map(keys_of(spec_sort_entries(e)), values_of(spec_sort_entries(e))))
    } else {
        None
    }
}

/// The tables loaded from a mapping TOML source: `None` when it does not
/// parse, when a key is empty or over-long, or when an automaton cannot be
/// built. Sections missing from the source are empty.
pub open spec fn spec_load_mapping(src: Seq<char>) -> Option<MappingTables> {
    match spec_toml_string_tables(src) {
        None => None,
        Some(tables) => {
            let q = spec_table_entries(tables, "quadgrams"@);
            let t = spec_table_entries(tables, "trigrams"@);
            let b = spec_table_entries(tables, "bigrams"@);
            let s = spec_table_entries(tables, "single_char"@);
            if !(keys_usable(q) && keys_usable(t) && keys_usable(b) && keys_usable(s)) {
                None
            } else {
                match (
                    spec_compiled_table(q),
                    spec_compiled_table(t),
                    spec_compiled_table(b),
                    spec_compiled_table(s),
                ) {
                    (Some(mq), Some(mt), Some(mb), Some(ms)) => Some((mq, mt, mb, ms)),
                    _ => None,
                }
            }
        },
    }
}

/// Index of the first table named `name`, or the number of tables.
fn find_table(tables: &Vec<(String, Vec<(String, String)>)>, name: &str) -> (r: usize)
    ensures
        r <= tables.len(),
        r < tables.len() ==> spec_table_entries(tables_view(tables@), name@) == entries_view(
            tables@[r as int].1@,
        ),
        r == tables.len() ==> spec_table_entries(tables_view(tables@), name@) == Seq::<
            (Seq<char>, Seq<char>),
        >::empty(),
{
    let ghost tv = tables_view(tables@);
    let mut i: usize = 0;
    assert(tv.skip(0) == tv);
    while i < tables.len()
        invariant
            i <= tables.len(),
            tv == tables_view(tables@),
            spec_table_entries(tv, name@) == spec_table_entries(tv.skip(i as int), name@),
        decreases tables.len() - i,
    {
        assert(tv.skip(i as int)[0] == tv[i as int]);
        assert(tv.skip(i as int).drop_first() == tv.skip(i + 1));
        if str_equal(tables[i].0.as_str(), name) {
            return i;
        }
        i += 1;
    }
    assert(tv.skip(i as int).len() == 0);
    i
}

/// Whether every key of `entries` is non-empty and at most 1000 characters.
fn keys_are_usable(entries: &Vec<(String, String)>) -> (r: bool)
    ensures
        r == keys_usable(entries_view(entries@)),
{
    let mut i: usize = 0;
    while i < entries.len()
        invariant
            i <= entries.len(),
            forall|k: int| 0 <= k < i ==> 0 < #[trigger] entries_view(entries@)[k].0.len() <= 1000,
        decreases entries.len() - i,
    {
        let n = chars_of(entries[i].0.as_str()).len();
        assert(entries_view(entries@)[i as int].0 == entries@[i as int].0@);
        if n == 0 || n > 1000 {
            return false;
        }
        i += 1;
    }
    true
}

/// Compile the section at `idx` (or an empty one when `idx` is out of range).
fn compile_section(tables: &Vec<(String, Vec<(String, String)>)>, idx: usize) -> (r: Option<
    Option<GramAutomaton>,
>)
    requires
        forall|i: int|
            0 <= i < tables@.len() ==> keys_of(#[trigger] entries_view(tables@[i].1@)).no_duplicates(),
        idx < tables.len() ==> keys_usable(entries_view(tables@[idx as int].1@)),
    ensures
        ({
            let e = if idx < tables.len() {
                entries_view(tables@[idx as int].1@)
            } else {
                Seq::empty()
            };
            &&& r is Some <==> spec_compiled_table(e) is Some
            &&& r matches Some(g) ==> slot_table(g) == spec_compiled_table(e)->0
        }),
{
    if idx >= tables.len() {
        return Some(None);
    }
    let entries = &tables[idx].1;
    if entries.len() == 0 {
        return Some(None);
    }
    proof {
        let ev = entries_view(entries@);
        assert forall|i: int| 0 <= i < entries@.len() implies #[trigger] entries@[i].0@.len() > 0 by {
            assert(ev[i].0 == entries@[i].0@);
        }
        assert forall|i: int| 0 <= i < ev.len() implies #[trigger] ev[i].0.len() <= 1000 by {
        }
    }
    match GramAutomaton::build(entries) {
        Some(g) => Some(Some(g)),
        None => None,
    }
}

/// Parse a mapping TOML source and compile its four n-gram sections.
pub fn load(toml_src: &str) -> (r: Option<MappingSet>)
    ensures
        r is Some == spec_load_mapping(toml_src@) is Some,
        r matches Some(m) ==> m.tables() == spec_load_mapping(toml_src@)->0,
{
    let tables = match toml_string_tables(toml_src) {
        Some(t) => t,
        None => return None,
    };
    let iq = find_table(&tables, "quadgrams");
    let it = find_table(&tables, "trigrams");
    let ib = find_table(&tables, "bigrams");
    let is = find_table(&tables, "single_char");
    proof {
        reveal_strlit("quadgrams");
        reveal_strlit("trigrams");
        reveal_strlit("bigrams");
        reveal_strlit("single_char");
    }
    let uq = iq == tables.len() || keys_are_usable(&tables[iq].1);
    let ut = it == tables.len() || keys_are_usable(&tables[it].1);
    let ub = ib == tables.len() || keys_are_usable(&tables[ib].1);
    let us = is == tables.len() || keys_are_usable(&tables[is].1);
    if !(uq && ut && ub && us) {
        return None;
    }
    let q = compile_section(&tables, iq);
    let t = compile_section(&tables, it);
    let b = compile_section(&tables, ib);
    let s = compile_section(&tables, is);
    match (q, t, b, s) {
        (Some(quadgrams), Some(trigrams), Some(bigrams), Some(single_char)) => Some(
            MappingSet { quadgrams, trigrams, bigrams, single_char },
        ),
        _ => None,
    }
}


/// The substitution tables of an encoding family, compiled from its bundled
/// mapping source; `None` when that source does not load.
pub fn mapping_for(encoding: Encoding) -> (r: Option<MappingSet>)
    ensures
        r is Some == spec_load_mapping(spec_mapping_toml(encoding)) is Some,
        r matches Some(m) ==> m.tables() == spec_load_mapping(spec_mapping_toml(encoding))->0,
{
    load(registry(encoding).mapping_toml)
}

} // verus!
