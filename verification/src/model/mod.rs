//! The parts of Scribe that need no display: the config, the vocabulary
//! rules, the spelled-number rewriting, and the decisions about the file they
//! live in.

pub mod config;
pub mod numbers;
pub mod store;
pub mod vocabulary;

pub use config::{Config, Delivery, Mode};
pub use store::{Found, LoadOutcome, SavePlan, Store};
pub use vocabulary::{Rule, Vocabulary};

use vstd::prelude::*;

use crate::text::{trim, trim_str};
use numbers::{digits_fit, spec_to_digits, to_digits};
use vocabulary::spec_apply;

verus! {

/// Everything that happens to a transcript between the speech model and the
/// keyboard, in the order it happens.
///
/// Spelled-out numbers are rewritten first, because the model writes "twenty
/// twenty six" and a user's vocabulary rule is far more likely to be written
/// against `2026` than against the words. Vocabulary substitution runs second
/// so it can correct the model's spelling of names and jargon. Trimming is
/// last so neither step has to worry about the whitespace it leaves behind.
pub fn polish(raw: &str, vocabulary: &Vocabulary, spell_numbers: bool) -> (r: String)
    requires
        spell_numbers ==> digits_fit(raw@),
    ensures
        r@ == trim(
            spec_apply(
                vocabulary@,
                if spell_numbers {
                    spec_to_digits(raw@)
                } else {
                    raw@
                },
            ),
        ),
{
    let text = if spell_numbers {
        to_digits(raw)
    } else {
        raw.to_owned()
    };
    let applied = vocabulary.apply(text.as_str());
    trim_str(applied.as_str())
}

} // verus!
