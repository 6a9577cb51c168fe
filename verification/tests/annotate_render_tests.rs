use spellcheck::annotate::annotate_tokens;
use spellcheck::render::{
    is_bypass_question, join_rendered_lines, render_document, render_line, render_section,
    render_word,
};

fn words(ws: &[&str]) -> Vec<String> {
    ws.iter().map(|w| w.to_string()).collect()
}

#[test]
fn deny_overrides_clean_oracle() {
    // "teh" on the deny list is flagged even when the oracle reports it clean.
    let deny = words(&["teh"]);
    let anns = annotate_tokens(&words(&["teh"]), &vec![false], &deny);
    assert_eq!(anns.len(), 1);
    assert_eq!(anns[0].surface, "teh");
    assert!(anns[0].flagged);
}

#[test]
fn deny_overrides_misspelled_oracle() {
    let deny = words(&["teh"]);
    let anns = annotate_tokens(&words(&["teh"]), &vec![true], &deny);
    assert!(anns[0].flagged);
}

#[test]
fn oracle_decides_off_deny_list() {
    let deny = words(&["other"]);
    let anns = annotate_tokens(&words(&["teh", "cat"]), &vec![true, false], &deny);
    assert!(anns[0].flagged);
    assert!(!anns[1].flagged);
}

#[test]
fn deny_matches_trimmed_form_but_surface_kept() {
    let deny = words(&["teh"]);
    let anns = annotate_tokens(&words(&["'teh,'"]), &vec![false], &deny);
    assert_eq!(anns[0].surface, "'teh,'");
    assert!(anns[0].flagged);
}

#[test]
fn render_word_escapes_and_marks() {
    assert_eq!(render_word("x<y", false), "x&lt;y");
    assert_eq!(render_word("x<y", true), "<mark>x&lt;y</mark>");
}

#[test]
fn render_line_joins_with_single_spaces() {
    let deny = words(&["b"]);
    let anns = annotate_tokens(&words(&["a", "b", "c"]), &vec![false, false, false], &deny);
    assert_eq!(render_line(&anns), "a <mark>b</mark> c");
}

#[test]
fn join_rendered_lines_uses_break_marker() {
    let lines = words(&["one", "two"]);
    assert_eq!(join_rendered_lines(&lines), "one<br>\ntwo");
}

#[test]
fn bypass_questions_are_name_and_date() {
    assert!(is_bypass_question("Name"));
    assert!(is_bypass_question("Date"));
    assert!(!is_bypass_question("Comments"));
    assert!(!is_bypass_question("name"));
}

#[test]
fn first_section_heading_more_prominent() {
    // Three rows: the first section's heading level differs from the second
    // and third, and the second and third agree.
    let s1 = render_section("Q1", "B1", true);
    let s2 = render_section("Q2", "B2", false);
    let s3 = render_section("Q3", "B3", false);
    assert!(s1.contains("<h1>Q1</h1>"));
    assert!(!s1.contains("<h2>"));
    assert!(s2.contains("<h2>Q2</h2>"));
    assert!(!s2.contains("<h1>"));
    assert!(s3.contains("<h2>Q3</h2>"));
}

#[test]
fn render_section_exact_shape() {
    assert_eq!(
        render_section("Q", "B", true),
        "<section>\n<h1>Q</h1>\n<p>B</p>\n</section>\n"
    );
    assert_eq!(
        render_section("Q", "B", false),
        "<section>\n<h2>Q</h2>\n<p>B</p>\n</section>\n"
    );
}

#[test]
fn render_section_escapes_question() {
    let s = render_section("A & B", "body", false);
    assert!(s.contains("<h2>A &amp; B</h2>"));
}

#[test]
fn date_bypass_escapes_but_never_marks() {
    // Row {question: "Date", answer: "3 0th Jan"}: the answer text is
    // escaped but never wrapped in a highlight span.
    let answer_body = spellcheck::text::escape_html("3 0th Jan");
    let s = render_section("Date", &answer_body, false);
    assert!(s.contains("<p>3 0th Jan</p>"));
    assert!(!s.contains("<mark>"));
}

#[test]
fn render_document_wraps_sections() {
    let sections = words(&["<section>a</section>", "<section>b</section>"]);
    let doc = render_document(&sections);
    assert!(doc.starts_with("<html>"));
    assert!(doc.ends_with("</body></html>"));
    assert!(doc.contains("<section>a</section><section>b</section>"));
    assert!(doc.contains("Times New Roman"));
    assert!(doc.contains("mark {"));
}
