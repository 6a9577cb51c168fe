//! Turns a captured web-form submission (an email whose body is an HTML table
//! of question/answer rows) into a reader-facing HTML document in which
//! suspect words are highlighted, and prepares the message that forwards it.
//!
//! The pipeline: extract (question, answer) rows from the HTML table, squish
//! blank lines out of each answer, ask a spelling oracle about each
//! punctuation-trimmed token, combine that verdict with the deny list, escape
//! and re-render everything as HTML, and assemble the outgoing message plan.

pub mod annotate;
pub mod config;
pub mod dispatch;
pub mod errors;
pub mod extract;
pub mod mail;
pub mod oracle;
pub mod pipeline;
pub mod render;
pub mod text;
