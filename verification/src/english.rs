//! The embedded English word list behind the classifier's dictionary
//! coverage feature, and the tokenizer that feeds it.
//!
//! Bijoy-encoded "words" such as `evsjvq` or `Avwg` have no coverage in
//! English, while ordinary prose is mostly made of listed words.

use vstd::prelude::*;
use vstd::string::StrSliceExecFns;
use crate::data::{
    ENGLISH_WORDS_1, ENGLISH_WORDS_10, ENGLISH_WORDS_11, ENGLISH_WORDS_12, ENGLISH_WORDS_2,
    ENGLISH_WORDS_3, ENGLISH_WORDS_4, ENGLISH_WORDS_5, ENGLISH_WORDS_6, ENGLISH_WORDS_7,
    ENGLISH_WORDS_8, ENGLISH_WORDS_9,
};
use crate::mapping::{utf8_char_len, utf8_len};
use crate::text::{ascii_lower, chars_of, spec_ascii_lower, spec_ascii_lower_seq};

verus! {

/// Index of the first line feed of `s` at or after `from`, or `s.len()`.
pub open spec fn next_line_feed(s: Seq<char>, from: int) -> int
    decreases s.len() - from,
{
    if from < 0 || from >= s.len() {
        s.len() as int
    } else if s[from] == '\n' {
        from
    } else {
        next_line_feed(s, from + 1)
    }
}

pub proof fn lemma_next_line_feed_bounds(s: Seq<char>, from: int)
    requires
        0 <= from <= s.len(),
    ensures
        from <= next_line_feed(s, from) <= s.len(),
        next_line_feed(s, from) < s.len() ==> s[next_line_feed(s, from)] == '\n',
        forall|k: int| from <= k < next_line_feed(s, from) ==> s[k] != '\n',
    decreases s.len() - from,
{
    if from < s.len() && s[from] != '\n' {
        lemma_next_line_feed_bounds(s, from + 1);
    }
}

/// A line as `str::lines` yields it: a line that was ended by a line feed
/// loses one trailing carriage return.
pub open spec fn strip_line_end(line: Seq<char>, terminated: bool) -> Seq<char> {
    if terminated && line.len() > 0 && line.last() == '\r' {
        line.drop_last()
    } else {
        line
    }
}

/// The lines of `s` that start at or after `from` (a line start), as
/// `str::lines` splits them: no empty line after a final line feed.
pub open spec fn spec_lines_from(s: Seq<char>, from: int) -> Seq<Seq<char>>
    decreases s.len() - from,
{
    if from < 0 || from >= s.len() {
        Seq::empty()
    } else {
        proof {
            lemma_next_line_feed_bounds(s, from);
        }
        let e = next_line_feed(s, from);
        if e < s.len() {
            seq![strip_line_end(s.subrange(from, e), true)] + spec_lines_from(s, e + 1)
        } else {
            seq![s.subrange(from, e)]
        }
    }
}

/// The parts of the embedded word list, in order.
pub open spec fn spec_word_parts() -> Seq<Seq<char>> {
    seq![
        ENGLISH_WORDS_1@, ENGLISH_WORDS_2@, ENGLISH_WORDS_3@, ENGLISH_WORDS_4@, ENGLISH_WORDS_5@,
        ENGLISH_WORDS_6@, ENGLISH_WORDS_7@, ENGLISH_WORDS_8@, ENGLISH_WORDS_9@, ENGLISH_WORDS_10@,
        ENGLISH_WORDS_11@, ENGLISH_WORDS_12@,
    ]
}

/// The dictionary: the non-empty lines of the embedded word list.
pub open spec fn spec_is_english_word(w: Seq<char>) -> bool {
    w.len() > 0 && exists|k: int|
        0 <= k < spec_word_parts().len() && #[trigger] spec_lines_from(spec_word_parts()[k], 0).contains(w)
}

fn word_part(k: usize) -> (r: &'static str)
    requires
        k < 12,
    ensures
        r@ == spec_word_parts()[k as int],
{
    match k {
        0 => ENGLISH_WORDS_1,
        1 => ENGLISH_WORDS_2,
        2 => ENGLISH_WORDS_3,
        3 => ENGLISH_WORDS_4,
        4 => ENGLISH_WORDS_5,
        5 => ENGLISH_WORDS_6,
        6 => ENGLISH_WORDS_7,
        7 => ENGLISH_WORDS_8,
        8 => ENGLISH_WORDS_9,
        9 => ENGLISH_WORDS_10,
        10 => ENGLISH_WORDS_11,
        _ => ENGLISH_WORDS_12,
    }
}

/// Whether `w` is a line of one of the parts of the word list.
fn is_listed_word(w: &Vec<char>) -> (r: bool)
    ensures
        r == exists|k: int|
            0 <= k < spec_word_parts().len() && #[trigger] spec_lines_from(spec_word_parts()[k], 0).contains(w@),
{
    let mut k: usize = 0;
    while k < 12
        invariant
            k <= 12,
            spec_word_parts().len() == 12,
            forall|m: int| 0 <= m < k ==> !#[trigger] spec_lines_from(spec_word_parts()[m], 0).contains(w@),
        decreases 12 - k,
    {
        let part = chars_of(word_part(k));
        if is_line_of(&part, w) {
            return true;
        }
        k += 1;
    }
    false
}

pub open spec fn spec_is_ascii_alpha(c: char) -> bool {
    ('A' <= c && c <= 'Z') || ('a' <= c && c <= 'z')
}

/// What `str::to_lowercase` returns for a string (Unicode lower-casing).
pub uninterp spec fn spec_to_lowercase(s: Seq<char>) -> Seq<char>;

/// `str::to_lowercase`: Unicode lower-case mapping of a whole string.
#[verifier::external_body]
fn unicode_lowercase(s: &str) -> (r: String)
    ensures
        r@ == spec_to_lowercase(s@),
{
    s.to_lowercase()
}

/// The key looked up for a token: its ASCII lower-case when the token is
/// made of ASCII letters only, its Unicode lower-case otherwise.
pub open spec fn spec_lookup_key(t: Seq<char>) -> Seq<char> {
    if forall|i: int| 0 <= i < t.len() ==> spec_is_ascii_alpha(#[trigger] t[i]) {
        spec_ascii_lower_seq(t)
    } else {
        spec_to_lowercase(t)
    }
}

/// Whether a token is an English word of the dictionary, case-insensitively.
pub open spec fn spec_english_contains(t: Seq<char>) -> bool {
    t.len() > 0 && spec_is_english_word(spec_lookup_key(t))
}

proof fn lemma_contains_cons(a: Seq<char>, rest: Seq<Seq<char>>, w: Seq<char>)
    ensures
        (seq![a] + rest).contains(w) <==> (a == w || rest.contains(w)),
{
    let s = seq![a] + rest;
    if s.contains(w) {
        let k = choose|k: int| 0 <= k < s.len() && s[k] == w;
        if k > 0 {
            assert(rest[k - 1] == w);
        }
    }
    if a == w {
        assert(s[0] == w);
    }
    if rest.contains(w) {
        let k = choose|k: int| 0 <= k < rest.len() && rest[k] == w;
        assert(s[k + 1] == w);
    }
}

/// Whether `raw[from..to]` equals `w`.
fn slice_equals(raw: &Vec<char>, from: usize, to: usize, w: &Vec<char>) -> (r: bool)
    requires
        from <= to <= raw.len(),
    ensures
        r == (raw@.subrange(from as int, to as int) == w@),
{
    if to - from != w.len() {
        return false;
    }
    let mut k: usize = 0;
    while k < w.len()
        invariant
            from <= to <= raw.len(),
            to - from == w.len(),
            k <= w.len(),
            forall|m: int| 0 <= m < k ==> raw@[from + m] == w@[m],
        decreases w.len() - k,
    {
        if raw[from + k] != w[k] {
            assert(raw@.subrange(from as int, to as int)[k as int] != w@[k as int]);
            return false;
        }
        k += 1;
    }
    assert(raw@.subrange(from as int, to as int) =~= w@);
    true
}

/// Whether `w` is one of the lines of `raw`.
fn is_line_of(raw: &Vec<char>, w: &Vec<char>) -> (r: bool)
    ensures
        r == spec_lines_from(raw@, 0).contains(w@),
{
    let mut st: usize = 0;
    while st < raw.len()
        invariant
            st <= raw.len(),
            spec_lines_from(raw@, 0).contains(w@) == spec_lines_from(raw@, st as int).contains(w@),
        decreases raw.len() - st,
    {
        let mut e: usize = st;
        while e < raw.len() && raw[e] != '\n'
            invariant
                st <= e <= raw.len(),
                st < raw.len(),
                next_line_feed(raw@, st as int) == next_line_feed(raw@, e as int),
            decreases raw.len() - e,
        {
            e += 1;
        }
        let ghost line = strip_line_end(raw@.subrange(st as int, e as int), e < raw.len());
        proof {
            lemma_next_line_feed_bounds(raw@, st as int);
            lemma_contains_cons(line, spec_lines_from(raw@, e + 1), w@);
        }
        let mut end: usize = e;
        if e < raw.len() && e > st && raw[e - 1] == '\r' {
            end = e - 1;
        }
        assert(raw@.subrange(st as int, end as int) == line);
        if slice_equals(raw, st, end, w) {
            return true;
        }
        if e == raw.len() {
            return false;
        }
        st = e + 1;
    }
    false
}

/// Lower-case `token` (ASCII fast path for ASCII-letter tokens, Unicode
/// lower-casing otherwise) and look it up in the embedded English word
/// list.
pub fn contains(token: &str) -> (r: bool)
    ensures
        r == spec_english_contains(token@),
{
    if token.is_empty() {
        return false;
    }
    let cs = chars_of(token);
    let mut all_alpha = true;
    let mut i: usize = 0;
    while i < cs.len()
        invariant
            i <= cs.len(),
            all_alpha == forall|k: int| 0 <= k < i ==> spec_is_ascii_alpha(#[trigger] cs@[k]),
        decreases cs.len() - i,
    {
        let c = cs[i];
        if !(('A' <= c && c <= 'Z') || ('a' <= c && c <= 'z')) {
            all_alpha = false;
        }
        i += 1;
    }
    let key: Vec<char> = if all_alpha {
        let mut out: Vec<char> = Vec::new();
        let mut j: usize = 0;
        while j < cs.len()
            invariant
                j <= cs.len(),
                out@ == spec_ascii_lower_seq(cs@.take(j as int)),
            decreases cs.len() - j,
        {
            out.push(ascii_lower(cs[j]));
            assert(cs@.take(j + 1) == cs@.take(j as int).push(cs@[j as int]));
            j += 1;
        }
        assert(cs@.take(cs.len() as int) == cs@);
        out
    } else {
        chars_of(unicode_lowercase(token).as_str())
    };
    if key.len() == 0 {
        return false;
    }
    let found = is_listed_word(&key);
    proof {
        assert(key@ == spec_lookup_key(token@));
    }
    found
}

/// Whether `c` separates tokens: Unicode white space (the `White_Space`
/// property) or one of `. , ; : ! ? ( ) [ ] { } < > " ' / \ | \``.
pub open spec fn spec_is_token_separator(c: char) -> bool {
    spec_is_unicode_whitespace(c) || c == '.' || c == ',' || c == ';' || c == ':' || c == '!'
        || c == '?' || c == '(' || c == ')' || c == '[' || c == ']' || c == '{' || c == '}'
        || c == '<' || c == '>' || c == '"' || c == '\'' || c == '/' || c == '\\' || c == '|'
        || c == '`'
}

/// The characters with the Unicode `White_Space` property.
pub open spec fn spec_is_unicode_whitespace(c: char) -> bool {
    ('\u{0009}' <= c && c <= '\u{000D}') || c == ' ' || c == '\u{0085}' || c == '\u{00A0}'
        || c == '\u{1680}' || ('\u{2000}' <= c && c <= '\u{200A}') || c == '\u{2028}'
        || c == '\u{2029}' || c == '\u{202F}' || c == '\u{205F}' || c == '\u{3000}'
}

/// `char::is_whitespace`.
pub fn is_unicode_whitespace(c: char) -> (r: bool)
    ensures
        r == spec_is_unicode_whitespace(c),
{
    ('\u{0009}' <= c && c <= '\u{000D}') || c == ' ' || c == '\u{0085}' || c == '\u{00A0}'
        || c == '\u{1680}' || ('\u{2000}' <= c && c <= '\u{200A}') || c == '\u{2028}'
        || c == '\u{2029}' || c == '\u{202F}' || c == '\u{205F}' || c == '\u{3000}'
}

fn is_token_separator(c: char) -> (r: bool)
    ensures
        r == spec_is_token_separator(c),
{
    is_unicode_whitespace(c) || c == '.' || c == ',' || c == ';' || c == ':' || c == '!'
        || c == '?' || c == '(' || c == ')' || c == '[' || c == ']' || c == '{' || c == '}'
        || c == '<' || c == '>' || c == '"' || c == '\'' || c == '/' || c == '\\' || c == '|'
        || c == '`'
}

/// Index of the first separator of `s` at or after `from`, or `s.len()`.
pub open spec fn next_separator(s: Seq<char>, from: int) -> int
    decreases s.len() - from,
{
    if from < 0 || from >= s.len() {
        s.len() as int
    } else if spec_is_token_separator(s[from]) {
        from
    } else {
        next_separator(s, from + 1)
    }
}

pub proof fn lemma_next_separator_bounds(s: Seq<char>, from: int)
    requires
        0 <= from <= s.len(),
    ensures
        from <= next_separator(s, from) <= s.len(),
    decreases s.len() - from,
{
    if from < s.len() && !spec_is_token_separator(s[from]) {
        lemma_next_separator_bounds(s, from + 1);
    }
}

/// The tokens of `s` from the piece that starts at `from` on: the pieces
/// between separators whose UTF-8 length is at least 3 bytes, in order.
pub open spec fn spec_tokens_from(s: Seq<char>, from: int) -> Seq<Seq<char>>
    decreases s.len() - from,
{
    if from < 0 || from > s.len() {
        Seq::empty()
    } else {
        let k = next_separator(s, from);
        proof {
            lemma_next_separator_bounds(s, from);
        }
        let piece = s.subrange(from, k);
        let head = if utf8_len(piece) >= 3 {
            seq![piece]
        } else {
            Seq::empty()
        };
        if k < s.len() {
            head + spec_tokens_from(s, k + 1)
        } else {
            head
        }
    }
}

pub open spec fn spec_tokenize(s: Seq<char>) -> Seq<Seq<char>> {
    spec_tokens_from(s, 0)
}

pub open spec fn str_views(v: Seq<&str>) -> Seq<Seq<char>> {
    v.map_values(|t: &str| t@)
}

proof fn lemma_utf8_len_concat(a: Seq<char>, b: Seq<char>)
    ensures
        utf8_len(a + b) == utf8_len(a) + utf8_len(b),
    decreases a.len(),
{
    if a.len() > 0 {
        assert((a + b).drop_first() =~= a.drop_first() + b);
        lemma_utf8_len_concat(a.drop_first(), b);
    } else {
        assert(a + b =~= b);
    }
}

/// Whether `cs[from..to]` takes at least 3 bytes in UTF-8.
fn long_enough(cs: &Vec<char>, from: usize, to: usize) -> (r: bool)
    requires
        from <= to <= cs.len(),
    ensures
        r == (utf8_len(cs@.subrange(from as int, to as int)) >= 3),
{
    let mut total: usize = 0;
    let mut j: usize = from;
    while j < to
        invariant
            from <= j <= to <= cs.len(),
            total < 3,
            total == utf8_len(cs@.subrange(from as int, j as int)),
        decreases to - j,
    {
        let c = cs[j];
        let n: usize = if (c as u32) < 0x80 {
            1
        } else if (c as u32) < 0x800 {
            2
        } else if (c as u32) < 0x10000 {
            3
        } else {
            4
        };
        proof {
            assert(cs@.subrange(from as int, j + 1) =~= cs@.subrange(from as int, j as int) + seq![c]);
            lemma_utf8_len_concat(cs@.subrange(from as int, j as int), seq![c]);
            assert(utf8_len(seq![c]) == utf8_char_len(c)) by {
                reveal_with_fuel(utf8_len, 2);
            }
        }
        total = total + n;
        j += 1;
        if total >= 3 {
            proof {
                assert(cs@.subrange(from as int, to as int) =~= cs@.subrange(from as int, j as int)
                    + cs@.subrange(j as int, to as int));
                lemma_utf8_len_concat(cs@.subrange(from as int, j as int), cs@.subrange(j as int, to as int));
            }
            return true;
        }
    }
    false
}

proof fn lemma_next_separator_skip(s: Seq<char>, from: int, to: int)
    requires
        0 <= from <= to <= s.len(),
        forall|k: int| from <= k < to ==> !spec_is_token_separator(#[trigger] s[k]),
    ensures
        next_separator(s, from) == next_separator(s, to),
    decreases to - from,
{
    if from < to {
        lemma_next_separator_skip(s, from + 1, to);
    }
}

/// Split `text` on white space and the punctuation set, keeping the pieces
/// of at least 3 bytes (shorter ones are too small to tell English from
/// random Latin noise).
pub fn tokenize(text: &str) -> (r: Vec<&str>)
    ensures
        str_views(r@) == spec_tokenize(text@),
{
    let cs = chars_of(text);
    let mut out: Vec<&str> = Vec::new();
    let mut start: usize = 0;
    let mut i: usize = 0;
    while i < cs.len()
        invariant
            cs@ == text@,
            start <= i <= cs.len(),
            forall|k: int| start <= k < i ==> !spec_is_token_separator(#[trigger] cs@[k]),
            spec_tokens_from(cs@, 0) == str_views(out@) + spec_tokens_from(cs@, start as int),
        decreases cs.len() - i,
    {
        if is_token_separator(cs[i]) {
            proof {
                lemma_next_separator_skip(cs@, start as int, i as int);
                lemma_next_separator_bounds(cs@, start as int);
            }
            let piece = text.substring_char(start, i);
            let ghost before = out@;
            if long_enough(&cs, start, i) {
                out.push(piece);
                assert(str_views(out@) =~= str_views(before).push(piece@));
            }
            proof {
                let head = if utf8_len(cs@.subrange(start as int, i as int)) >= 3 {
                    seq![cs@.subrange(start as int, i as int)]
                } else {
                    Seq::<Seq<char>>::empty()
                };
                assert(str_views(out@) =~= str_views(before) + head);
                assert(spec_tokens_from(cs@, start as int) == head + spec_tokens_from(cs@, i + 1));
                assert(str_views(before) + (head + spec_tokens_from(cs@, i + 1)) =~= str_views(out@)
                    + spec_tokens_from(cs@, i + 1));
            }
            i = i + 1;
            start = i;
        } else {
            i += 1;
        }
    }
    proof {
        lemma_next_separator_skip(cs@, start as int, i as int);
        lemma_next_separator_bounds(cs@, start as int);
    }
    let piece = text.substring_char(start, i);
    let ghost before = out@;
    if long_enough(&cs, start, i) {
        out.push(piece);
        assert(str_views(out@) =~= str_views(before).push(piece@));
    }
    proof {
        let head = if utf8_len(cs@.subrange(start as int, i as int)) >= 3 {
            seq![cs@.subrange(start as int, i as int)]
        } else {
            Seq::<Seq<char>>::empty()
        };
        assert(str_views(out@) =~= str_views(before) + head);
        assert(spec_tokens_from(cs@, start as int) == head);
        assert(str_views(before) + head =~= str_views(out@));
    }
    out
}


proof fn lemma_before_next_separator(s: Seq<char>, from: int, j: int)
    requires
        0 <= from <= j < next_separator(s, from),
        next_separator(s, from) <= s.len(),
    ensures
        !spec_is_token_separator(s[j]),
    decreases j - from,
{
    if from < j {
        assert(!spec_is_token_separator(s[from]));
        lemma_before_next_separator(s, from + 1, j);
    } else {
        assert(!spec_is_token_separator(s[from]));
    }
}

proof fn lemma_tokens_from_no_separator(s: Seq<char>, from: int)
    requires
        0 <= from <= s.len(),
    ensures
        forall|i: int, j: int|
            0 <= i < spec_tokens_from(s, from).len() && 0 <= j < spec_tokens_from(s, from)[i].len()
                ==> !spec_is_token_separator(#[trigger] spec_tokens_from(s, from)[i][j]),
    decreases s.len() - from,
{
    lemma_next_separator_bounds(s, from);
    let k = next_separator(s, from);
    let piece = s.subrange(from, k);
    let head = if utf8_len(piece) >= 3 { seq![piece] } else { Seq::<Seq<char>>::empty() };
    let toks = spec_tokens_from(s, from);
    if k < s.len() {
        lemma_tokens_from_no_separator(s, k + 1);
    }
    assert forall|i: int, j: int| 0 <= i < toks.len() && 0 <= j < toks[i].len() implies !spec_is_token_separator(
        #[trigger] toks[i][j],
    ) by {
        if i < head.len() {
            assert(toks[i] == piece);
            lemma_before_next_separator(s, from, from + j);
        } else {
            let rest = spec_tokens_from(s, k + 1);
            assert(toks[i] == rest[i - head.len()]);
        }
    }
}

/// No token holds a separator: Unicode white space, or any of
/// `. , ; : ! ? ( ) [ ] { } < > " ' / \ |` and the backquote.
pub proof fn lemma_tokens_hold_no_separator(s: Seq<char>)
    ensures
        forall|i: int, j: int|
            0 <= i < spec_tokenize(s).len() && 0 <= j < spec_tokenize(s)[i].len() ==> {
                let c = #[trigger] spec_tokenize(s)[i][j];
                &&& !('\u{0009}' <= c && c <= '\u{000D}')
                &&& c != ' ' && c != '\u{0085}' && c != '\u{00A0}' && c != '\u{1680}'
                &&& !('\u{2000}' <= c && c <= '\u{200A}')
                &&& c != '\u{2028}' && c != '\u{2029}' && c != '\u{202F}' && c != '\u{205F}' && c != '\u{3000}'
                &&& c != '.' && c != ',' && c != ';' && c != ':' && c != '!' && c != '?'
                &&& c != '(' && c != ')' && c != '[' && c != ']' && c != '{' && c != '}'
                &&& c != '<' && c != '>' && c != '"' && c != '\'' && c != '/' && c != '\\'
                &&& c != '|' && c != '`'
            },
{
    lemma_tokens_from_no_separator(s, 0);
}

} // verus!
