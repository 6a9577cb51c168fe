//! The spelling oracle adapter: wraps the long-lived external checking
//! process, seeds it with the allow set so those words report clean, and
//! exposes one blocking `is_misspelled` round trip per token. A failed round
//! trip is fatal: there is no retry against the stateful session.

use crate::errors::PipelineError;
use vstd::prelude::*;

verus! {

#[verifier::external_type_specification]
#[verifier::external_body]
pub struct ExSpellChecker(ispell::SpellChecker);

#[verifier::external_type_specification]
#[verifier::external_body]
pub struct ExIspellError(ispell::IspellError);

/// Relies on ispell's `SpellLauncher`: starts one aspell process bound to
/// the dictionary `lang`, holding exclusive pipes to it for the run's
/// lifetime.
#[verifier::external_body]
pub fn launch_aspell(lang: &str) -> (r: Result<ispell::SpellChecker, PipelineError>)
    ensures
        r matches Err(e) ==> e == PipelineError::OracleStart,
{
    ispell::SpellLauncher::new().aspell().dictionary(lang).launch().map_err(
        |_| PipelineError::OracleStart,
    )
}

/// Relies on `SpellChecker::add_word`: registers the word with the running
/// session, which accepts it as correctly spelled from then on; a word
/// containing whitespace is rejected.
#[verifier::external_body]
fn oracle_add_word(sp: &mut ispell::SpellChecker, word: &str) -> (r: Result<(), PipelineError>)
    ensures
        r matches Err(e) ==> e == PipelineError::OracleSeed,
{
    sp.add_word(word).map_err(|_| PipelineError::OracleSeed)
}

/// Relies on `SpellChecker::check`: one blocking round trip that returns the
/// session's misspelling reports for the text, an empty list when the
/// session considers it clean.
#[verifier::external_body]
fn oracle_check(sp: &mut ispell::SpellChecker, word: &str) -> (r: Result<
    Vec<ispell::IspellError>,
    PipelineError,
>)
    ensures
        r matches Err(e) ==> e == PipelineError::OracleCheck,
{
    sp.check(word).map_err(|_| PipelineError::OracleCheck)
}

/// One `is_misspelled` round trip: true when the session reported at least
/// one error for the token. Nothing more is promised of the verdict — it
/// depends on the external process — so callers hand it to the exact
/// decision logic as a plain value.
pub fn is_misspelled(sp: &mut ispell::SpellChecker, word: &str) -> (r: Result<
    bool,
    PipelineError,
>)
    ensures
        r matches Err(e) ==> e == PipelineError::OracleCheck,
{
    match oracle_check(sp, word) {
        Ok(errors) => Ok(errors.len() > 0),
        Err(e) => Err(e),
    }
}

/// Register every allowed word with the oracle, in order, stopping at the
/// first failure. After a successful seeding the session itself reports
/// those words clean; the deny override acts later and independently.
pub fn seed_allow_words(sp: &mut ispell::SpellChecker, allow: &Vec<String>) -> (r: Result<
    (),
    PipelineError,
>)
    ensures
        r matches Err(e) ==> e == PipelineError::OracleSeed,
{
    let mut i: usize = 0;
    while i < allow.len()
        invariant
            i <= allow.len(),
        decreases allow.len() - i,
    {
        match oracle_add_word(sp, allow[i].as_str()) {
            Ok(_) => {},
            Err(e) => {
                return Err(e);
            },
        }
        i = i + 1;
    }
    Ok(())
}

} // verus!
