//! Document-adapter-facing types shared by the DOCX and PPTX walkers.
//!
//! A "run" is whatever contiguous text-with-formatting unit an adapter
//! emits. A [`RunRef`] carries enough location data to feed an audit log,
//! and a [`RunVisitor`] decides per run whether text and font are rewritten.

use vstd::prelude::*;
use crate::policy::RunOutcome;

verus! {

/// A single text run handed to a [`RunVisitor`].
pub struct RunRef<'a> {
    pub paragraph_index: usize,
    pub run_index: usize,
    pub slide_index: Option<usize>,
    pub font_name: Option<&'a str>,
    pub text: &'a str,
}

/// Decision returned by a [`RunVisitor`].
pub enum RunAction {
    /// Leave the run's text and font unchanged.
    Keep,
    /// Rewrite the run's text and, optionally, its font.
    Replace { new_text: String, new_font: Option<String> },
}

impl RunAction {
    /// The action that commits a policy outcome: a changed run is replaced
    /// by its new text and font, an unchanged one is kept.
    pub fn from_outcome(r: RunOutcome<'_>) -> (a: RunAction)
        ensures
            r.changed ==> (a matches RunAction::Replace { new_text, new_font } && new_text@
                == r.text@ && match r.font {
                Some(f) => (new_font matches Some(nf) && nf@ == f@),
                None => new_font is None,
            }),
            !r.changed ==> a is Keep,
    {
        if r.changed {
            let new_font = match r.font {
                Some(f) => Some(f.to_owned()),
                None => None,
            };
            RunAction::Replace { new_text: r.text, new_font }
        } else {
            RunAction::Keep
        }
    }
}

/// A per-run callback. Adapters call [`RunVisitor::visit`] once for each
/// extracted run and apply the returned [`RunAction`].
pub trait RunVisitor {
    fn visit(&mut self, run: RunRef<'_>) -> RunAction;
}

} // verus!
