use spellcheck::text::{
    escape_html, join_strings, normalize, split_lines_str, split_tokens, str_eq, trim_punct_str,
};

#[test]
fn escape_reserved_sample() {
    assert_eq!(escape_html("<a&b>"), "&lt;a&amp;b&gt;");
}

#[test]
fn escape_all_five_reserved() {
    assert_eq!(escape_html("<>&'\""), "&lt;&gt;&amp;&#39;&quot;");
}

#[test]
fn escape_plain_text_unchanged() {
    assert_eq!(escape_html("hello world"), "hello world");
}

#[test]
fn escape_empty() {
    assert_eq!(escape_html(""), "");
}

#[test]
fn escape_twice_re_escapes_ampersands() {
    // Escaping is injective, not idempotent: a second pass re-escapes the
    // ampersands the first pass produced, so callers escape exactly once.
    assert_eq!(escape_html(&escape_html("&")), "&amp;amp;");
}

#[test]
fn escape_entities_distinct() {
    let reserved = ["<", ">", "&", "'", "\""];
    for a in reserved.iter() {
        for b in reserved.iter() {
            if a != b {
                assert_ne!(escape_html(a), escape_html(b));
            }
        }
    }
}

#[test]
fn normalize_squishes_blank_runs() {
    let lines = normalize("a\n\n\nb\n\nc");
    assert_eq!(lines, vec!["a".to_string(), "b".to_string(), "c".to_string()]);
}

#[test]
fn normalize_then_join_paragraphs() {
    let lines = normalize("a\n\n\nb\n\nc");
    assert_eq!(join_strings(&lines, "\n\n"), "a\n\nb\n\nc");
}

#[test]
fn normalize_keeps_nonblank_order() {
    let lines = normalize("one\ntwo\nthree");
    assert_eq!(lines, vec!["one".to_string(), "two".to_string(), "three".to_string()]);
}

#[test]
fn normalize_all_blank() {
    let lines = normalize("\n\n\n");
    assert!(lines.is_empty());
}

#[test]
fn split_lines_handles_crlf() {
    let lines = split_lines_str("a\r\nb\r\n");
    assert_eq!(lines, vec!["a".to_string(), "b".to_string()]);
}

#[test]
fn split_lines_no_trailing_empty() {
    let lines = split_lines_str("a\nb");
    assert_eq!(lines, vec!["a".to_string(), "b".to_string()]);
    let lines = split_lines_str("a\nb\n");
    assert_eq!(lines, vec!["a".to_string(), "b".to_string()]);
}

#[test]
fn split_lines_lone_cr_kept() {
    let lines = split_lines_str("a\rb");
    assert_eq!(lines, vec!["a\rb".to_string()]);
}

#[test]
fn split_tokens_collapses_spaces() {
    let words = split_tokens("  foo   bar \t baz ");
    assert_eq!(words, vec!["foo".to_string(), "bar".to_string(), "baz".to_string()]);
}

#[test]
fn split_tokens_empty_line() {
    assert!(split_tokens("").is_empty());
    assert!(split_tokens("   ").is_empty());
}

#[test]
fn trim_punct_strips_both_ends() {
    assert_eq!(trim_punct_str("'teh,'"), "teh");
    assert_eq!(trim_punct_str("(hello)!"), "hello");
}

#[test]
fn trim_punct_keeps_inner_punctuation() {
    assert_eq!(trim_punct_str("don't"), "don't");
}

#[test]
fn trim_punct_all_punctuation() {
    assert_eq!(trim_punct_str("!!!"), "");
}

#[test]
fn trim_punct_non_ascii_kept() {
    // Non-ASCII punctuation is deliberately not trimmed.
    assert_eq!(trim_punct_str("\u{2014}word\u{2014}"), "\u{2014}word\u{2014}");
}

#[test]
fn str_eq_basic() {
    assert!(str_eq("abc", "abc"));
    assert!(!str_eq("abc", "abd"));
    assert!(!str_eq("abc", "ab"));
    assert!(str_eq("", ""));
}
