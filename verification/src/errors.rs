//! The pipeline's error taxonomy. Every stage fails fast: a failed run
//! produces no partial document.

use vstd::prelude::*;

verus! {

/// What went wrong, by originating stage.
#[derive(Clone, Copy, Debug, PartialEq, Eq, Structural)]
pub enum PipelineError {
    /// The raw input did not parse as a mail message.
    MailParse,
    /// The parsed message had no extractable body.
    MissingBody,
    /// A table row had no question cell.
    MissingQuestion,
    /// A table row had a question cell but no answer cell.
    MissingAnswer,
    /// The spelling oracle process could not be started.
    OracleStart,
    /// Seeding the oracle with an allowed word failed.
    OracleSeed,
    /// A spell-check round trip failed mid-run.
    OracleCheck,
}

impl PipelineError {
    /// A human-readable diagnostic naming the failing stage.
    pub fn describe(&self) -> &'static str {
        match self {
            PipelineError::MailParse => "email parse failed",
            PipelineError::MissingBody => "email lacks body",
            PipelineError::MissingQuestion => "couldn't find question",
            PipelineError::MissingAnswer => "couldn't find answer",
            PipelineError::OracleStart => "aspell start failed",
            PipelineError::OracleSeed => "aspell add word failed",
            PipelineError::OracleCheck => "spellcheck round trip failed",
        }
    }
}

} // verus!
