//! The multi-pass transliterator:
//! 1. pre-normalization (soft hyphens, NBSP, CRLF);
//! 2. leftmost-longest substitution at quadgram, trigram, bigram and single
//!    character level, each level over the previous level's output;
//! 3. pre-base vowel-sign swap, split vowel recombination, reph reorder,
//!    ya-phala ZWJ insertion;
//! 4. NFC.

use vstd::prelude::*;
use vstd::string::StringSliceAdditionalSpecFns;
use crate::encoding::{spec_mapping_toml, Encoding};
use crate::mapping::{
    mapping_for, slot_table, spec_leftmost_longest_replace, spec_load_mapping, GramAutomaton, MappingSet,
    MappingTables,
};
use crate::normalize::{
    ekar_recombine, ikar_swap, nfc, pre_normalize, reph_reorder, spec_ekar_recombine,
    spec_ikar_swap, spec_nfc, spec_pre_normalize, spec_reph_reorder, spec_ya_phala_zwj,
    ya_phala_zwj,
};

verus! {

/// The text after the four substitution levels.
pub open spec fn spec_substitute(m: MappingTables, s: Seq<char>) -> Seq<char> {
    let t1 = spec_leftmost_longest_replace(m.0, s);
    let t2 = spec_leftmost_longest_replace(m.1, t1);
    let t3 = spec_leftmost_longest_replace(m.2, t2);
    spec_leftmost_longest_replace(m.3, t3)
}

/// The transliteration of `s` with the substitution tables `m`.
pub open spec fn spec_transliterate_with(m: MappingTables, s: Seq<char>) -> Seq<char> {
    spec_nfc(
        spec_ya_phala_zwj(
            spec_reph_reorder(spec_ekar_recombine(spec_ikar_swap(spec_substitute(m, spec_pre_normalize(s))))),
        ),
    )
}

/// The transliteration of `s` in `encoding`; text is returned unchanged when
/// the family's substitution table does not load.
pub open spec fn spec_transliterate(s: Seq<char>, encoding: Encoding) -> Seq<char> {
    match spec_load_mapping(spec_mapping_toml(encoding)) {
        Some(m) => spec_transliterate_with(m, s),
        None => s,
    }
}

/// A single (source byte range → target byte range) mapping.
#[derive(Debug, Clone, PartialEq, Eq, Structural)]
pub struct SpanMapping {
    pub source_start: usize,
    pub source_end: usize,
    pub target_start: usize,
    pub target_end: usize,
}

fn apply_slot(slot: &Option<GramAutomaton>, s: String) -> (r: String)
    ensures
        r@ == spec_leftmost_longest_replace(slot_table(*slot), s@),
{
    match slot {
        Some(a) => a.replace(s.as_str()),
        None => {
            proof {
                crate::mapping::lemma_replace_empty_table(s@);
            }
            s
        },
    }
}

/// Transliterate with an already loaded substitution table.
pub fn transliterate_with_mapping(input: &str, map: &MappingSet) -> (r: String)
    ensures
        r@ == spec_transliterate_with(map.tables(), input@),
        spec_nfc(r@) == r@,
{
    let mut s = pre_normalize(input);
    s = apply_slot(&map.quadgrams, s);
    s = apply_slot(&map.trigrams, s);
    s = apply_slot(&map.bigrams, s);
    s = apply_slot(&map.single_char, s);
    s = ikar_swap(s.as_str());
    s = ekar_recombine(s.as_str());
    s = reph_reorder(s.as_str());
    s = ya_phala_zwj(s.as_str());
    nfc(s.as_str())
}

/// Transliterate an ANSI Bengali string to Unicode Bengali for the given
/// encoding family.
pub fn transliterate(input: &str, encoding: Encoding) -> (r: String)
    ensures
        r@ == spec_transliterate(input@, encoding),
        spec_load_mapping(spec_mapping_toml(encoding)) is Some ==> spec_nfc(r@) == r@,
{
    let (out, _audit) = transliterate_with_audit(input, encoding);
    out
}

/// Transliterate and emit a span map alongside the output: one coarse span
/// from the whole input to the whole output, in bytes.
pub fn transliterate_with_audit(input: &str, encoding: Encoding) -> (r: (String, Vec<SpanMapping>))
    ensures
        r.0@ == spec_transliterate(input@, encoding),
        spec_load_mapping(spec_mapping_toml(encoding)) is Some ==> spec_nfc(r.0@) == r.0@,
        r.1@.len() == 1,
        r.1@[0] == (SpanMapping {
            source_start: 0,
            source_end: input.spec_bytes().len() as usize,
            target_start: 0,
            target_end: vstd::utf8::encode_utf8(r.0@).len() as usize,
        }),
{
    let s = match mapping_for(encoding) {
        Some(map) => transliterate_with_mapping(input, &map),
        None => input.to_string(),
    };
    let span = SpanMapping {
        source_start: 0,
        source_end: input.len(),
        target_start: 0,
        target_end: s.as_str().len(),
    };
    (s, vec![span])
}

} // verus!
