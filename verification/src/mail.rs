//! The raw mail decoder, an external collaborator: feed it raw bytes,
//! receive a body string and a header lookup. Only the calls are trusted;
//! everything done with the values is verified downstream.

use crate::errors::PipelineError;
use vstd::prelude::*;

verus! {

#[verifier::external_type_specification]
#[verifier::external_body]
pub struct ExParsedMail<'a>(mailparse::ParsedMail<'a>);

/// Relies on `mailparse::parse_mail`: decodes the raw message bytes into a
/// parsed mail structure.
#[verifier::external_body]
pub fn parse_mail_bytes(input: &[u8]) -> (r: Result<mailparse::ParsedMail<'_>, PipelineError>)
    ensures
        r matches Err(e) ==> e == PipelineError::MailParse,
{
    mailparse::parse_mail(input).map_err(|_| PipelineError::MailParse)
}

/// Relies on `ParsedMail::get_body`: the transfer-decoded body of the
/// message as a string.
#[verifier::external_body]
pub fn mail_body(mail: &mailparse::ParsedMail<'_>) -> (r: Result<String, PipelineError>)
    ensures
        r matches Err(e) ==> e == PipelineError::MissingBody,
{
    mail.get_body().map_err(|_| PipelineError::MissingBody)
}

/// Relies on `MailHeaderMap::get_first_value` on the message's headers: the
/// value of the first header matching `name`, case-insensitively, if any.
#[verifier::external_body]
pub fn mail_header_first(mail: &mailparse::ParsedMail<'_>, name: &str) -> (r: Option<String>) {
    mailparse::MailHeaderMap::get_first_value(mail.headers.as_slice(), name)
}

} // verus!
