//! HTML re-rendering: escape text, wrap flagged words in a highlight
//! element, join words and lines, head each section with its question, and
//! wrap the whole document in a print-friendly frame.

use crate::annotate::AnnotatedWord;
use crate::text::{escape_text, join_with};
use crate::text;
use vstd::prelude::*;

verus! {

/// Heading prominence: the first row's section is headed one level more
/// prominently than every later row's.
pub open spec fn heading_level(first: bool) -> int {
    if first {
        1
    } else {
        2
    }
}

/// Law: the first section's heading level differs from the level shared by
/// all later sections.
pub proof fn lemma_heading_hierarchy()
    ensures
        heading_level(true) == 1,
        heading_level(false) == 2,
        heading_level(true) != heading_level(false),
{
}

/// The digit written into the `<h_>` tags for a section.
pub open spec fn heading_digit(first: bool) -> Seq<char> {
    if first {
        "1"@
    } else {
        "2"@
    }
}

/// One rendered word: escaped, and wrapped in a highlight element when
/// flagged.
pub open spec fn render_word_spec(w: Seq<char>, flagged: bool) -> Seq<char> {
    if flagged {
        "<mark>"@ + escape_text(w) + "</mark>"@
    } else {
        escape_text(w)
    }
}

/// Render one word, as [`render_word_spec`] describes.
pub fn render_word(w: &str, flagged: bool) -> (r: String)
    ensures
        r@ == render_word_spec(w@, flagged),
{
    if flagged {
        let mut out = "<mark>".to_owned();
        let escaped = text::escape_html(w);
        out.append(escaped.as_str());
        out.append("</mark>");
        out
    } else {
        text::escape_html(w)
    }
}

/// One rendered line: its words rendered and joined with single spaces —
/// original inter-word spacing is not preserved.
pub open spec fn render_line_spec(ws: Seq<AnnotatedWord>) -> Seq<char> {
    join_with(ws.map_values(|w: AnnotatedWord| render_word_spec(w.surface@, w.flagged)), " "@)
}

/// Render one annotated line, as [`render_line_spec`] describes.
pub fn render_line(ws: &Vec<AnnotatedWord>) -> (r: String)
    ensures
        r@ == render_line_spec(ws@),
{
    let mut rendered: Vec<String> = Vec::new();
    let mut i: usize = 0;
    while i < ws.len()
        invariant
            i <= ws.len(),
            rendered.deep_view() == ws@.take(i as int).map_values(
                |w: AnnotatedWord| render_word_spec(w.surface@, w.flagged),
            ),
        decreases ws.len() - i,
    {
        let ghost old_r = rendered.deep_view();
        let piece = render_word(ws[i].surface.as_str(), ws[i].flagged);
        rendered.push(piece);
        proof {
            assert(rendered.deep_view() =~= old_r.push(
                render_word_spec(ws@[i as int].surface@, ws@[i as int].flagged),
            ));
            assert(rendered.deep_view() =~= ws@.take(i + 1 as int).map_values(
                |w: AnnotatedWord| render_word_spec(w.surface@, w.flagged),
            ));
        }
        i = i + 1;
    }
    proof {
        assert(ws@.take(ws@.len() as int) =~= ws@);
    }
    text::join_strings(&rendered, " ")
}

/// The separator between rendered lines: an explicit line-break marker.
pub open spec fn line_break() -> Seq<char> {
    "<br>\n"@
}

/// Join rendered lines with the line-break marker.
pub fn join_rendered_lines(lines: &Vec<String>) -> (r: String)
    ensures
        r@ == join_with(lines.deep_view(), line_break()),
{
    text::join_strings(lines, "<br>\n")
}

/// The questions whose answers bypass annotation: copied (escaped) verbatim,
/// never spell-checked.
pub open spec fn bypass_question(q: Seq<char>) -> bool {
    q == "Name"@ || q == "Date"@
}

/// Executable test for [`bypass_question`].
pub fn is_bypass_question(q: &str) -> (r: bool)
    ensures
        r == bypass_question(q@),
{
    text::str_eq(q, "Name") || text::str_eq(q, "Date")
}

/// One rendered section: the escaped question as a heading at the level the
/// section's position gives it, then the body paragraph.
pub open spec fn render_section_spec(q: Seq<char>, body: Seq<char>, first: bool) -> Seq<char> {
    "<section>\n<h"@ + heading_digit(first) + ">"@ + escape_text(q) + "</h"@ + heading_digit(
        first,
    ) + ">\n<p>"@ + body + "</p>\n</section>\n"@
}

/// Render one section, as [`render_section_spec`] describes.
pub fn render_section(q: &str, body: &str, first: bool) -> (r: String)
    ensures
        r@ == render_section_spec(q@, body@, first),
{
    let mut out = "<section>\n<h".to_owned();
    if first {
        out.append("1");
    } else {
        out.append("2");
    }
    out.append(">");
    let escaped = text::escape_html(q);
    out.append(escaped.as_str());
    out.append("</h");
    if first {
        out.append("1");
    } else {
        out.append("2");
    }
    out.append(">\n<p>");
    out.append(body);
    out.append("</p>\n</section>\n");
    proof {
        assert(out@ =~= render_section_spec(q@, body@, first));
    }
    out
}

/// The fixed document head: charset declaration and the print-friendly
/// stylesheet (serif reading font, highlight background on screen, exact
/// color adjustment for print, fixed page margins).
pub open spec fn page_header() -> Seq<char> {
    "<html>\n  <head>\n    <meta charset='UTF-8'>\n    <style>\n      body {\n        line-height: 1.3;\n        font-family: \"Times New Roman\", Times, serif;\n      }\n\n      h1, h2 {\n        font-family: sans-serif;\n        font-weight: normal;\n        border-bottom: 2px solid black;\n      }\n\n      p {\n        margin-left: 0.5em;\n        margin-right: 0.5em;\n      }\n\n      mark {\n        background-color: rgba(128,0,128, 0.3);\n        color: black;\n        color-adjust: exact;\n        -webkit-print-color-adjust: exact;\n      }\n\n      @media screen {\n        section {\n          max-width: 48em;\n          margin: auto;\n        }\n      }\n\n      @page {\n        margin: 2cm;\n      }\n    </style>\n  </head>\n  <body>\n"@
}

/// The fixed document tail.
pub open spec fn page_footer() -> Seq<char> {
    "</body></html>"@
}

/// The whole document: header, the sections in order, footer.
pub open spec fn render_document_spec(sections: Seq<Seq<char>>) -> Seq<char> {
    page_header() + join_with(sections, Seq::empty()) + page_footer()
}

/// Assemble the document, as [`render_document_spec`] describes.
pub fn render_document(sections: &Vec<String>) -> (r: String)
    ensures
        r@ == render_document_spec(sections.deep_view()),
{
    let mut out =
        "<html>\n  <head>\n    <meta charset='UTF-8'>\n    <style>\n      body {\n        line-height: 1.3;\n        font-family: \"Times New Roman\", Times, serif;\n      }\n\n      h1, h2 {\n        font-family: sans-serif;\n        font-weight: normal;\n        border-bottom: 2px solid black;\n      }\n\n      p {\n        margin-left: 0.5em;\n        margin-right: 0.5em;\n      }\n\n      mark {\n        background-color: rgba(128,0,128, 0.3);\n        color: black;\n        color-adjust: exact;\n        -webkit-print-color-adjust: exact;\n      }\n\n      @media screen {\n        section {\n          max-width: 48em;\n          margin: auto;\n        }\n      }\n\n      @page {\n        margin: 2cm;\n      }\n    </style>\n  </head>\n  <body>\n".to_owned();
    let middle = text::join_strings(sections, "");
    out.append(middle.as_str());
    out.append("</body></html>");
    proof {
        reveal_strlit("");
        assert(""@ =~= Seq::<char>::empty());
        assert(out@ =~= render_document_spec(sections.deep_view()));
    }
    out
}

} // verus!
