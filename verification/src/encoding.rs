//! Encoding families and the data registry that bundles each family's
//! mapping table, font allowlist and classifier features.

use vstd::prelude::*;
use std::str::FromStr;
use crate::text::{ascii_lowercase, concat, spec_ascii_lower_seq, str_equal};
use crate::data::{BIJOY_BIGRAM_PATTERNS, BIJOY_DISTINCTIVE_CHARS, BIJOY_FONTS_TOML, BIJOY_MAPPING_TOML};

verus! {

/// An ANSI/ASCII Bengali encoding family.
#[derive(Debug, Clone, Copy, PartialEq, Eq, Hash, Structural)]
pub enum Encoding {
    Bijoy,
}

impl Encoding {
    /// The family's lower-case name.
    pub fn as_str(self) -> (r: &'static str)
        ensures
            r@ == spec_encoding_name(self),
    {
        proof {
            reveal_strlit("bijoy");
        }
        match self {
            Encoding::Bijoy => "bijoy",
        }
    }

    /// Parse a family name case-insensitively: `bijoy`, or `sutonnymj` for
    /// the same family.
    pub fn from_name(s: &str) -> (r: Result<Encoding, String>)
        ensures
            ({
                let lower = spec_ascii_lower_seq(s@);
                &&& (lower == "bijoy"@ || lower == "sutonnymj"@) ==> r == Ok::<Encoding, String>(Encoding::Bijoy)
                &&& !(lower == "bijoy"@ || lower == "sutonnymj"@) ==> (r matches Err(e) && e@
                    == "unknown encoding family: "@ + lower)
            }),
    {
        let name = ascii_lowercase(s);
        if str_equal(name.as_str(), "bijoy") || str_equal(name.as_str(), "sutonnymj") {
            Ok(Encoding::Bijoy)
        } else {
            Err(concat("unknown encoding family: ", name.as_str()))
        }
    }
}

impl Default for Encoding {
    /// The default family, Bijoy.
    fn default() -> (r: Encoding)
        ensures
            r == Encoding::Bijoy,
    {
        Encoding::Bijoy
    }
}

impl FromStr for Encoding {
    type Err = String;

    /// Parse a family name case-insensitively, as [`Encoding::from_name`].
    fn from_str(s: &str) -> (r: Result<Self, Self::Err>)
        ensures
            ({
                let lower = spec_ascii_lower_seq(s@);
                &&& (lower == "bijoy"@ || lower == "sutonnymj"@) ==> r == Ok::<Encoding, String>(Encoding::Bijoy)
                &&& !(lower == "bijoy"@ || lower == "sutonnymj"@) ==> (r matches Err(e) && e@
                    == "unknown encoding family: "@ + lower)
            }),
    {
        Encoding::from_name(s)
    }
}

pub open spec fn spec_encoding_name(e: Encoding) -> Seq<char> {
    match e {
        Encoding::Bijoy => seq!['b', 'i', 'j', 'o', 'y'],
    }
}

/// Static data for one encoding family.
pub struct EncodingRegistry {
    pub name: &'static str,
    /// The substitution table, as TOML with `quadgrams`, `trigrams`,
    /// `bigrams` and `single_char` tables.
    pub mapping_toml: &'static str,
    /// The ANSI font allowlist, as TOML with an `ansi_fonts` array.
    pub fonts_toml: &'static str,
    /// Distinctive characters used by the heuristic classifier.
    pub distinctive_chars: &'static [char],
    /// Patterns whose presence is strong evidence for this encoding.
    pub bigram_patterns: &'static [&'static str],
}

/// The mapping TOML source of a family.
pub open spec fn spec_mapping_toml(e: Encoding) -> Seq<char> {
    match e {
        Encoding::Bijoy => BIJOY_MAPPING_TOML@,
    }
}

/// The font allowlist TOML source of a family.
pub open spec fn spec_fonts_toml(e: Encoding) -> Seq<char> {
    match e {
        Encoding::Bijoy => BIJOY_FONTS_TOML@,
    }
}

/// The distinctive characters of a family.
pub open spec fn spec_distinctive_chars(e: Encoding) -> Seq<char> {
    match e {
        Encoding::Bijoy => BIJOY_DISTINCTIVE_CHARS@,
    }
}

/// The bigram patterns of a family.
pub open spec fn spec_bigram_patterns(e: Encoding) -> Seq<Seq<char>> {
    match e {
        Encoding::Bijoy => BIJOY_BIGRAM_PATTERNS@.map_values(|p: &str| p@),
    }
}

/// Look up the static data registry for an encoding family.
pub fn registry(encoding: Encoding) -> (r: EncodingRegistry)
    ensures
        r.name@ == spec_encoding_name(encoding),
        r.mapping_toml@ == spec_mapping_toml(encoding),
        r.fonts_toml@ == spec_fonts_toml(encoding),
        r.distinctive_chars@ == spec_distinctive_chars(encoding),
        r.bigram_patterns@.map_values(|p: &str| p@) == spec_bigram_patterns(encoding),
        spec_registry_data_ok(encoding),
{
    proof {
        lemma_registry_data_ok(encoding);
    }
    match encoding {
        Encoding::Bijoy => EncodingRegistry {
            name: encoding.as_str(),
            mapping_toml: BIJOY_MAPPING_TOML,
            fonts_toml: BIJOY_FONTS_TOML,
            distinctive_chars: &BIJOY_DISTINCTIVE_CHARS,
            bigram_patterns: &BIJOY_BIGRAM_PATTERNS,
        },
    }
}


/// The classifier data of every family: each bigram pattern is non-empty,
/// and each distinctive character lies above ASCII.
pub open spec fn spec_registry_data_ok(e: Encoding) -> bool {
    &&& forall|k: int| 0 <= k < spec_bigram_patterns(e).len() ==> #[trigger] spec_bigram_patterns(e)[k].len() > 0
    &&& forall|k: int|
        0 <= k < spec_distinctive_chars(e).len() ==> #[trigger] spec_distinctive_chars(e)[k] as u32 > 0x7F
}

/// The bundled classifier data meets [`spec_registry_data_ok`].
pub proof fn lemma_registry_data_ok(e: Encoding)
    ensures
        spec_registry_data_ok(e),
{
    match e {
        Encoding::Bijoy => {
        reveal_strlit("Av");
        reveal_strlit("Bv");
        reveal_strlit("Kv");
        reveal_strlit("Mv");
        reveal_strlit("Nv");
        reveal_strlit("Pv");
        reveal_strlit("Rv");
        reveal_strlit("Sv");
        reveal_strlit("Tv");
        reveal_strlit("Yv");
        reveal_strlit("Zv");
        reveal_strlit("av");
        reveal_strlit("bv");
        reveal_strlit("cv");
        reveal_strlit("dv");
        reveal_strlit("ev");
        reveal_strlit("fv");
        reveal_strlit("gv");
        reveal_strlit("hv");
        reveal_strlit("iv");
        reveal_strlit("jv");
        reveal_strlit("kv");
        reveal_strlit("lv");
        reveal_strlit("mv");
        reveal_strlit("nv");
        reveal_strlit("pv");
        reveal_strlit("qv");
        reveal_strlit("wK");
        reveal_strlit("wM");
        reveal_strlit("wP");
        reveal_strlit("wR");
        reveal_strlit("wZ");
        reveal_strlit("wa");
        reveal_strlit("wb");
        reveal_strlit("wc");
        reveal_strlit("wd");
        reveal_strlit("we");
        reveal_strlit("wf");
        reveal_strlit("wg");
        reveal_strlit("wh");
        reveal_strlit("wi");
        reveal_strlit("wj");
        reveal_strlit("wk");
        reveal_strlit("wl");
        reveal_strlit("wm");
        reveal_strlit("wn");
        reveal_strlit("wp");
        reveal_strlit("wq");
        reveal_strlit("wQ");
        reveal_strlit("‡K");
        reveal_strlit("‡L");
        reveal_strlit("‡M");
        reveal_strlit("‡N");
        reveal_strlit("‡P");
        reveal_strlit("‡Q");
        reveal_strlit("‡R");
        reveal_strlit("‡S");
        reveal_strlit("‡T");
        reveal_strlit("‡U");
        reveal_strlit("‡V");
        reveal_strlit("‡W");
        reveal_strlit("‡X");
        reveal_strlit("‡Y");
        reveal_strlit("‡Z");
        reveal_strlit("‡b");
        reveal_strlit("‡c");
        reveal_strlit("‡d");
        reveal_strlit("‡e");
        reveal_strlit("‡f");
        reveal_strlit("‡g");
        reveal_strlit("‡h");
        reveal_strlit("‡i");
        reveal_strlit("‡j");
        reveal_strlit("‡k");
        reveal_strlit("‡l");
        reveal_strlit("‡m");
        reveal_strlit("‡n");
        reveal_strlit("‡p");
        reveal_strlit("‡q");
        reveal_strlit("Ges");
        reveal_strlit("Aviv");
        reveal_strlit("Zviv");
        reveal_strlit("wQj");
        },
    }
}

} // verus!
