use spellcheck::config::{input_cap_bytes, Config, EmailAddr, EmailConfig};
use spellcheck::dispatch::{
    base64_encode_str, build_plan, dispatch_mode, subject_line, DispatchMode,
};
use spellcheck::errors::PipelineError;
use spellcheck::extract::{extract_rows, rows_from_cells};
use spellcheck::mail::{mail_body, mail_header_first, parse_mail_bytes};

#[test]
fn extract_two_rows() {
    let body = "<table><tr><td>Q1</td><td>A1</td></tr><tr><td>Q2</td><td>A2</td></tr></table>";
    let rows = extract_rows(body).unwrap();
    assert_eq!(rows.len(), 2);
    assert_eq!(rows[0].question, "Q1");
    assert_eq!(rows[0].answer, "A1");
    assert_eq!(rows[1].question, "Q2");
    assert_eq!(rows[1].answer, "A2");
}

#[test]
fn extract_concatenates_cell_text() {
    let body = "<table><tr><td>a<b>b</b>c</td><td>d</td></tr></table>";
    let rows = extract_rows(body).unwrap();
    assert_eq!(rows[0].question, "abc");
}

#[test]
fn extract_extra_cells_ignored() {
    let body = "<table><tr><td>q</td><td>a</td><td>extra</td></tr></table>";
    let rows = extract_rows(body).unwrap();
    assert_eq!(rows.len(), 1);
    assert_eq!(rows[0].answer, "a");
}

#[test]
fn row_with_single_cell_fails_extraction() {
    // A <tr> with only one <td> fails with an extraction error, before any
    // output is produced.
    let body = "<table><tr><td>only</td></tr></table>";
    assert_eq!(extract_rows(body).unwrap_err(), PipelineError::MissingAnswer);
}

#[test]
fn single_bad_row_poisons_whole_extraction() {
    let body = "<table><tr><td>q</td><td>a</td></tr><tr><td>only</td></tr></table>";
    assert_eq!(extract_rows(body).unwrap_err(), PipelineError::MissingAnswer);
}

#[test]
fn empty_row_missing_question() {
    let cells: Vec<Vec<String>> = vec![vec![]];
    assert_eq!(rows_from_cells(&cells).unwrap_err(), PipelineError::MissingQuestion);
}

#[test]
fn one_cell_row_missing_answer() {
    let cells = vec![vec!["q".to_string()]];
    assert_eq!(rows_from_cells(&cells).unwrap_err(), PipelineError::MissingAnswer);
}

#[test]
fn first_bad_row_decides_error() {
    let cells = vec![vec![], vec!["q".to_string()]];
    assert_eq!(rows_from_cells(&cells).unwrap_err(), PipelineError::MissingQuestion);
}

#[test]
fn no_rows_is_fine() {
    let rows = extract_rows("<p>no table here</p>").unwrap();
    assert!(rows.is_empty());
}

#[test]
fn dry_run_writes_locally_never_sends() {
    assert_eq!(dispatch_mode(true), DispatchMode::WriteLocal);
    assert_eq!(dispatch_mode(false), DispatchMode::SendLive);
}

#[test]
fn subject_gets_prefix() {
    assert_eq!(subject_line(&Some("Hi there".to_string())), "[SPELL]: Hi there");
}

#[test]
fn missing_subject_uses_placeholder() {
    assert_eq!(subject_line(&None), "[SPELL]: <no subject>");
}

#[test]
fn base64_of_known_values() {
    assert_eq!(base64_encode_str("abc"), "YWJj");
    assert_eq!(base64_encode_str("a"), "YQ==");
    assert_eq!(base64_encode_str(""), "");
}

fn test_config(dry_run: bool) -> Config {
    Config {
        lang: "en_GB".to_string(),
        allow: vec!["rustc".to_string()],
        deny: vec!["teh".to_string()],
        email: EmailConfig {
            max_size_kb: Some(64),
            to: EmailAddr { name: Some("Rev".to_string()), address: "rev@example.org".to_string() },
            from: EmailAddr { name: None, address: "form@example.org".to_string() },
            return_path: "bounce@example.org".to_string(),
            dry_run,
        },
    }
}

#[test]
fn plan_carries_delivery_settings() {
    let config = test_config(true);
    let plan = build_plan(
        &config,
        &Some("S".to_string()),
        "<p>orig</p>".to_string(),
        "<html>doc</html>".to_string(),
    );
    assert_eq!(plan.subject, "[SPELL]: S");
    assert_eq!(plan.return_path, "bounce@example.org");
    assert_eq!(plan.to_name.as_deref(), Some("Rev"));
    assert_eq!(plan.to_address, "rev@example.org");
    assert_eq!(plan.from_name, None);
    assert_eq!(plan.from_address, "form@example.org");
    assert_eq!(plan.body_html, "<p>orig</p>");
    assert_eq!(plan.rendered, "<html>doc</html>");
    assert_eq!(plan.attachment_b64, base64_encode_str("<html>doc</html>"));
    assert_eq!(plan.mode, DispatchMode::WriteLocal);
}

#[test]
fn plan_live_mode() {
    let config = test_config(false);
    let plan = build_plan(&config, &None, String::new(), String::new());
    assert_eq!(plan.mode, DispatchMode::SendLive);
}

#[test]
fn input_cap_defaults_to_128_kib() {
    assert_eq!(input_cap_bytes(&None), 128 * 1024);
    assert_eq!(input_cap_bytes(&Some(1)), 1024);
    assert_eq!(input_cap_bytes(&Some(u64::MAX)), u64::MAX);
}

#[test]
fn parse_mail_gives_body_and_subject() {
    let raw = b"Subject: Test form\r\nContent-Type: text/html\r\n\r\n<table></table>";
    let mail = parse_mail_bytes(raw).unwrap();
    assert_eq!(mail_body(&mail).unwrap(), "<table></table>");
    assert_eq!(mail_header_first(&mail, "Subject"), Some("Test form".to_string()));
}

#[test]
fn missing_header_is_none() {
    let raw = b"From: a@example.org\r\n\r\nbody";
    let mail = parse_mail_bytes(raw).unwrap();
    assert_eq!(mail_header_first(&mail, "Subject"), None);
}

#[test]
fn error_descriptions_name_the_stage() {
    assert_eq!(PipelineError::MissingAnswer.describe(), "couldn't find answer");
    assert_eq!(PipelineError::OracleStart.describe(), "aspell start failed");
}
