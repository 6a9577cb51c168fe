//! The terminal stage: assemble the message plan — subject, addresses,
//! displayed body, base64 attachment — and decide between local review
//! delivery and the live transport. Performing the delivery is I/O and
//! stays outside the library; everything decided here is verified.

use crate::config::Config;
use vstd::prelude::*;

verus! {

/// What base64 encoding yields of a text's UTF-8 bytes; it depends on the
/// text alone. Stated only through this name, which the one trusted wrapper
/// below applies.
pub uninterp spec fn base64_of(text: Seq<char>) -> Seq<char>;

/// Relies on `base64::encode` (the standard alphabet, with padding): four
/// output characters for every three input bytes, rounded up; empty input
/// gives empty output.
#[verifier::external_body]
pub fn base64_encode_str(text: &str) -> (r: String)
    ensures
        r@ == base64_of(text@),
        text@.len() == 0 ==> r@.len() == 0,
{
    base64::encode(text)
}

/// Where the finished message goes.
#[derive(Clone, Copy, Debug, PartialEq, Eq, Structural)]
pub enum DispatchMode {
    /// Review mode: persist the message locally and emit the rendered
    /// document on standard output; nothing is transmitted.
    WriteLocal,
    /// Live mode: hand the message to the mail transport; nothing is
    /// written locally.
    SendLive,
}

/// The delivery decision that `dry_run` makes.
pub open spec fn mode_of(dry_run: bool) -> DispatchMode {
    if dry_run {
        DispatchMode::WriteLocal
    } else {
        DispatchMode::SendLive
    }
}

/// Decide the delivery path. Law: dry-run and live delivery are mutually
/// exclusive — dry-run writes locally and never sends, live sends and never
/// writes locally.
pub fn dispatch_mode(dry_run: bool) -> (m: DispatchMode)
    ensures
        m == mode_of(dry_run),
        m is WriteLocal <==> dry_run,
        m is SendLive <==> !dry_run,
{
    if dry_run {
        DispatchMode::WriteLocal
    } else {
        DispatchMode::SendLive
    }
}

/// The fixed subject prefix of the forwarded message.
pub open spec fn subject_prefix() -> Seq<char> {
    "[SPELL]: "@
}

/// The placeholder used when the original message has no subject.
pub open spec fn no_subject_placeholder() -> Seq<char> {
    "<no subject>"@
}

/// The forwarded message's subject: the prefix, then the original subject
/// or the placeholder.
pub open spec fn subject_line_spec(orig: Option<Seq<char>>) -> Seq<char> {
    subject_prefix() + match orig {
        Some(s) => s,
        None => no_subject_placeholder(),
    }
}

/// Build the subject line, as [`subject_line_spec`] describes.
pub fn subject_line(orig: &Option<String>) -> (r: String)
    ensures
        r@ == subject_line_spec(orig.deep_view()),
{
    let mut out = "[SPELL]: ".to_owned();
    match orig {
        Some(s) => {
            out.append(s.as_str());
        },
        None => {
            out.append("<no subject>");
        },
    }
    out
}

/// The attachment's name in the outgoing message.
pub fn attachment_filename() -> (r: &'static str)
    ensures
        r@ == "spellchecked.html"@,
{
    "spellchecked.html"
}

/// Everything the delivery step needs, as plain values: the verified
/// library decides them all; the unverified edge only carries them out.
pub struct MessagePlan {
    /// Subject of the forwarded message.
    pub subject: String,
    /// Envelope return path header value.
    pub return_path: String,
    /// Recipient display name, if any.
    pub to_name: Option<String>,
    /// Recipient address.
    pub to_address: String,
    /// Sender display name, if any.
    pub from_name: Option<String>,
    /// Sender address.
    pub from_address: String,
    /// The displayed message body: the original mail body.
    pub body_html: String,
    /// The rendered, annotated document.
    pub rendered: String,
    /// The rendered document, base64-encoded, attached as `text/html`.
    pub attachment_b64: String,
    /// Review mode or live mode.
    pub mode: DispatchMode,
}

/// Assemble the message plan from the configuration, the original subject,
/// the original body and the rendered document.
pub fn build_plan(config: &Config, orig_subject: &Option<String>, body: String, rendered: String)
    -> (plan: MessagePlan)
    ensures
        plan.subject@ == subject_line_spec(orig_subject.deep_view()),
        plan.return_path@ == config.email.return_path@,
        plan.to_name.deep_view() == config.email.to.name.deep_view(),
        plan.to_address@ == config.email.to.address@,
        plan.from_name.deep_view() == config.email.from.name.deep_view(),
        plan.from_address@ == config.email.from.address@,
        plan.body_html@ == body@,
        plan.rendered@ == rendered@,
        plan.attachment_b64@ == base64_of(rendered@),
        plan.mode == mode_of(config.email.dry_run),
        plan.mode is WriteLocal <==> config.email.dry_run,
{
    let subject = subject_line(orig_subject);
    let attachment_b64 = base64_encode_str(rendered.as_str());
    let to_name = match &config.email.to.name {
        Some(n) => Some(n.clone()),
        None => None,
    };
    let from_name = match &config.email.from.name {
        Some(n) => Some(n.clone()),
        None => None,
    };
    MessagePlan {
        subject,
        return_path: config.email.return_path.clone(),
        to_name,
        to_address: config.email.to.address.clone(),
        from_name,
        from_address: config.email.from.address.clone(),
        body_html: body,
        rendered,
        attachment_b64,
        mode: dispatch_mode(config.email.dry_run),
    }
}

} // verus!
