//! Option parsing and labels of the browser bindings: the names JavaScript
//! callers pass for the mode, the encoding family and the target font, and
//! the labels returned for a decision and a stage.

use vstd::prelude::*;
use crate::classifier::{spec_decision_name, spec_stage_name, Decision, Mode, Stage};
use crate::encoding::{spec_encoding_name, Encoding};
use crate::text::{append, debug_str, spec_debug_str, str_equal};
use crate::xml::opt_string_view;

verus! {

/// The name looked up for an optional option: the default when absent.
pub open spec fn spec_or_default(o: Option<Seq<char>>, default: Seq<char>) -> Seq<char> {
    match o {
        Some(s) => s,
        None => default,
    }
}

pub open spec fn spec_mode_message(name: Seq<char>) -> Seq<char> {
    "unknown mode: "@ + spec_debug_str(name) + "; expected \"safe\" or \"aggressive\""@
}

/// Parse the mode option: `safe` (the default) or `aggressive`, exactly.
pub fn parse_mode(mode: Option<String>) -> (r: Result<Mode, String>)
    ensures
        ({
            let name = spec_or_default(opt_string_view(mode), "safe"@);
            &&& name == "safe"@ ==> r == Ok::<Mode, String>(Mode::Safe)
            &&& name == "aggressive"@ ==> r == Ok::<Mode, String>(Mode::Aggressive)
            &&& name != "safe"@ && name != "aggressive"@ ==> (r matches Err(e) && e@ == spec_mode_message(name))
        }),
{
    let name: &str = match &mode {
        Some(m) => m.as_str(),
        None => "safe",
    };
    proof {
        reveal_strlit("safe");
        reveal_strlit("aggressive");
    }
    assert(name@ == spec_or_default(opt_string_view(mode), "safe"@));
    assert("safe"@[0] == 's' && "aggressive"@[0] == 'a');
    assert("safe"@ != "aggressive"@);
    if str_equal(name, "safe") {
        Ok(Mode::Safe)
    } else if str_equal(name, "aggressive") {
        Ok(Mode::Aggressive)
    } else {
        let mut msg = String::new();
        append(&mut msg, "unknown mode: ");
        append(&mut msg, debug_str(name).as_str());
        append(&mut msg, "; expected \"safe\" or \"aggressive\"");
        assert(Seq::<char>::empty() + "unknown mode: "@ == "unknown mode: "@);
        Err(msg)
    }
}

pub open spec fn spec_encoding_message(name: Seq<char>) -> Seq<char> {
    "unknown encoding family: "@ + spec_debug_str(name)
}

/// Parse the encoding option: `bijoy` (the default) or `sutonnymj`.
pub fn parse_encoding(encoding: Option<String>) -> (r: Result<Encoding, String>)
    ensures
        ({
            let name = spec_or_default(opt_string_view(encoding), "bijoy"@);
            &&& (name == "bijoy"@ || name == "sutonnymj"@) ==> r == Ok::<Encoding, String>(Encoding::Bijoy)
            &&& !(name == "bijoy"@ || name == "sutonnymj"@) ==> (r matches Err(e) && e@ == spec_encoding_message(name))
        }),
{
    let name: &str = match &encoding {
        Some(m) => m.as_str(),
        None => "bijoy",
    };
    if str_equal(name, "bijoy") || str_equal(name, "sutonnymj") {
        Ok(Encoding::Bijoy)
    } else {
        let mut msg = String::new();
        append(&mut msg, "unknown encoding family: ");
        append(&mut msg, debug_str(name).as_str());
        assert(Seq::<char>::empty() + "unknown encoding family: "@ == "unknown encoding family: "@);
        Err(msg)
    }
}

/// The fonts the bindings accept as a target.
pub open spec fn spec_known_unicode_font(name: Seq<char>) -> bool {
    name == "Kalpurush"@ || name == "Nikosh"@ || name == "SolaimanLipi"@ || name == "Noto Sans Bengali"@
}

pub open spec fn spec_font_message(name: Seq<char>) -> Seq<char> {
    "unicode_font "@ + spec_debug_str(name)
        + " not in known allowlist; pass one of Kalpurush, Nikosh, SolaimanLipi, \"Noto Sans Bengali\""@
}

/// Parse the target font option: one of the known Unicode Bengali fonts,
/// `Kalpurush` by default.
pub fn parse_unicode_font(name: Option<String>) -> (r: Result<&'static str, String>)
    ensures
        ({
            let n = spec_or_default(opt_string_view(name), "Kalpurush"@);
            &&& spec_known_unicode_font(n) ==> (r matches Ok(f) && f@ == n)
            &&& !spec_known_unicode_font(n) ==> (r matches Err(e) && e@ == spec_font_message(n))
        }),
{
    let n: &str = match &name {
        Some(m) => m.as_str(),
        None => "Kalpurush",
    };
    if str_equal(n, "Kalpurush") {
        Ok("Kalpurush")
    } else if str_equal(n, "Nikosh") {
        Ok("Nikosh")
    } else if str_equal(n, "SolaimanLipi") {
        Ok("SolaimanLipi")
    } else if str_equal(n, "Noto Sans Bengali") {
        Ok("Noto Sans Bengali")
    } else {
        let mut msg = String::new();
        append(&mut msg, "unicode_font ");
        append(&mut msg, debug_str(n).as_str());
        append(&mut msg, " not in known allowlist; pass one of Kalpurush, Nikosh, SolaimanLipi, \"Noto Sans Bengali\"");
        assert(Seq::<char>::empty() + "unicode_font "@ == "unicode_font "@);
        Err(msg)
    }
}

/// The decision label and, for ANSI Bengali, the family's name.
pub fn decision_label(d: Decision) -> (r: (&'static str, Option<&'static str>))
    ensures
        r.0@ == spec_decision_name(d),
        match d {
            Decision::AnsiBengali(e) => (r.1 matches Some(n) && n@ == spec_encoding_name(e)),
            _ => r.1 is None,
        },
{
    match d {
        Decision::AnsiBengali(e) => (d.as_str(), Some(e.as_str())),
        _ => (d.as_str(), None),
    }
}

/// The stage label.
pub fn stage_label(s: Stage) -> (r: &'static str)
    ensures
        r@ == spec_stage_name(s),
{
    s.as_str()
}

} // verus!
