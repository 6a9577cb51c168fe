//! The whole annotation pipeline, run to completion or failed fatally:
//! parse the mail, start and seed the oracle, extract the rows, annotate
//! and render each answer, and assemble the outgoing message plan.

use crate::annotate;
use crate::config::Config;
use crate::dispatch::{self, MessagePlan};
use crate::errors::PipelineError;
use crate::extract;
use crate::mail;
use crate::oracle;
use crate::render;
use crate::text;
use vstd::prelude::*;

verus! {

/// The paragraph separator that re-joins the squished lines.
pub open spec fn paragraph_sep() -> Seq<char> {
    "\n\n"@
}

/// An answer after blank-line squishing: its non-empty lines, re-joined
/// with the paragraph separator.
pub open spec fn squished_answer(a: Seq<char>) -> Seq<char> {
    text::join_with(text::squish(text::split_lines(a)), paragraph_sep())
}

/// One line's rendered HTML, given the oracle's verdict for each token:
/// each token escaped, flagged exactly when the deny list holds its trimmed
/// form or the oracle reported it, and the words joined with single spaces.
pub open spec fn line_html_of(line: Seq<char>, deny: Seq<Seq<char>>, bits: Seq<bool>) -> Seq<
    char,
> {
    text::join_with(
        Seq::new(
            text::ws_tokens(line).len(),
            |i: int|
                render::render_word_spec(
                    text::ws_tokens(line)[i],
                    annotate::flag_of(
                        annotate::word_in(deny, text::trim_punct(text::ws_tokens(line)[i])),
                        bits[i],
                    ),
                ),
        ),
        " "@,
    )
}

/// An annotated answer's rendered HTML: the squished answer's lines each
/// rendered by [`line_html_of`] and joined with the line-break marker.
pub open spec fn answer_html_of(a: Seq<char>, deny: Seq<Seq<char>>, flags: Seq<Seq<bool>>) -> Seq<
    char,
> {
    let lines = text::split_lines(squished_answer(a));
    text::join_with(
        Seq::new(lines.len(), |i: int| line_html_of(lines[i], deny, flags[i])),
        render::line_break(),
    )
}

/// One row's rendered section: a bypassed question's answer is escaped
/// verbatim and never annotated; any other answer is annotated word by
/// word.
pub open spec fn section_html_of(
    q: Seq<char>,
    a: Seq<char>,
    deny: Seq<Seq<char>>,
    flags: Seq<Seq<bool>>,
    first: bool,
) -> Seq<char> {
    if render::bypass_question(q) {
        render::render_section_spec(q, text::escape_text(squished_answer(a)), first)
    } else {
        render::render_section_spec(q, answer_html_of(a, deny, flags), first)
    }
}

/// The whole rendered document that the pipeline produces from the
/// extracted cells, given the oracle's verdicts: one section per row, the
/// first at the more prominent heading level, inside the fixed page frame.
pub open spec fn document_of(
    cells: Seq<Seq<Seq<char>>>,
    deny: Seq<Seq<char>>,
    flags: Seq<Seq<Seq<bool>>>,
) -> Seq<char> {
    render::render_document_spec(
        Seq::new(
            cells.len(),
            |i: int| section_html_of(cells[i][0], cells[i][1], deny, flags[i], i == 0),
        ),
    )
}

/// Law: a bypassed row's answer is only escaped, never annotated — whatever
/// the answer and whatever the oracle would have said, no highlight marker
/// occurs in the rendered answer text.
pub proof fn lemma_bypass_never_marked(
    q: Seq<char>,
    a: Seq<char>,
    deny: Seq<Seq<char>>,
    flags: Seq<Seq<bool>>,
    first: bool,
)
    requires
        render::bypass_question(q),
    ensures
        section_html_of(q, a, deny, flags, first) == render::render_section_spec(
            q,
            text::escape_text(squished_answer(a)),
            first,
        ),
        !text::contains_sub(text::escape_text(squished_answer(a)), "<mark>"@),
{
    text::lemma_escape_never_marked(squished_answer(a));
}

/// Annotate and render one line: ask the oracle about each token's trimmed
/// form, decide each flag, and render the line. The oracle's verdicts are
/// the only free part, and they are existentially pinned.
fn render_checked_line(
    sp: &mut ispell::SpellChecker,
    line: &str,
    deny: &Vec<String>,
) -> (r: Result<String, PipelineError>)
    ensures
        r matches Ok(html) ==> exists|bits: Seq<bool>|
            html@ == line_html_of(line@, deny.deep_view(), bits),
        r matches Err(e) ==> e == PipelineError::OracleCheck,
{
    let words = text::split_tokens(line);
    let mut bits: Vec<bool> = Vec::new();
    let mut k: usize = 0;
    while k < words.len()
        invariant
            k <= words.len(),
            bits@.len() == k,
        decreases words.len() - k,
    {
        let trimmed = text::trim_punct_str(words[k].as_str());
        match oracle::is_misspelled(sp, trimmed.as_str()) {
            Ok(b) => {
                bits.push(b);
            },
            Err(e) => {
                return Err(e);
            },
        }
        k = k + 1;
    }
    let anns = annotate::annotate_tokens(&words, &bits, deny);
    let html = render::render_line(&anns);
    proof {
        let tokens = text::ws_tokens(line@);
        let dv = deny.deep_view();
        let bv = bits@;
        assert(anns@.map_values(
            |w: annotate::AnnotatedWord| render::render_word_spec(w.surface@, w.flagged),
        ) =~= Seq::new(
            tokens.len(),
            |i: int|
                render::render_word_spec(
                    tokens[i],
                    annotate::flag_of(
                        annotate::word_in(dv, text::trim_punct(tokens[i])),
                        bv[i],
                    ),
                ),
        ));
        assert(html@ == line_html_of(line@, dv, bv));
    }
    Ok(html)
}

/// Annotate and render one answer that is not bypassed: squish its blank
/// lines, annotate each remaining line, and join them with line breaks.
fn render_checked_answer(
    sp: &mut ispell::SpellChecker,
    answer: &str,
    deny: &Vec<String>,
) -> (r: Result<String, PipelineError>)
    ensures
        r matches Ok(html) ==> exists|flags: Seq<Seq<bool>>|
            html@ == answer_html_of(answer@, deny.deep_view(), flags),
        r matches Err(e) ==> e == PipelineError::OracleCheck,
{
    let lines = text::split_lines_str(answer);
    let squished = text::squish_lines(lines);
    let para = text::join_strings(&squished, "\n\n");
    proof {
        assert("\n\n"@ == paragraph_sep());
        assert(para@ == squished_answer(answer@));
    }
    let relines = text::split_lines_str(para.as_str());
    let ghost line_views = text::split_lines(squished_answer(answer@));
    let mut rendered_lines: Vec<String> = Vec::new();
    let ghost mut flags: Seq<Seq<bool>> = Seq::empty();
    let mut j: usize = 0;
    while j < relines.len()
        invariant
            j <= relines.len(),
            relines.deep_view() == line_views,
            line_views.len() == relines.len(),
            flags.len() == j,
            rendered_lines.deep_view().len() == j,
            forall|k: int|
                0 <= k < j ==> rendered_lines.deep_view()[k] == line_html_of(
                    line_views[k],
                    deny.deep_view(),
                    flags[k],
                ),
        decreases relines.len() - j,
    {
        match render_checked_line(sp, relines[j].as_str(), deny) {
            Ok(html) => {
                proof {
                    assert(relines.deep_view()[j as int] == line_views[j as int]);
                }
                let ghost bits = choose|bits: Seq<bool>|
                    html@ == line_html_of(line_views[j as int], deny.deep_view(), bits);
                let ghost old_lines = rendered_lines.deep_view();
                let ghost html_v = html@;
                proof {
                    flags = flags.push(bits);
                }
                rendered_lines.push(html);
                proof {
                    assert(rendered_lines.deep_view() =~= old_lines.push(html_v));
                }
            },
            Err(e) => {
                return Err(e);
            },
        }
        j = j + 1;
    }
    let html = render::join_rendered_lines(&rendered_lines);
    proof {
        assert(rendered_lines.deep_view() =~= Seq::new(
            line_views.len(),
            |i: int| line_html_of(line_views[i], deny.deep_view(), flags[i]),
        ));
        assert(html@ == answer_html_of(answer@, deny.deep_view(), flags));
    }
    Ok(html)
}

/// Run the annotation pipeline on a raw mail message: every decision the
/// run makes — delivery mode, subject shape, attachment encoding, row
/// well-formedness, and the full rendered document up to the oracle's
/// verdicts — is pinned to the configuration and the message body.
pub fn run_pipeline(config: &Config, input: &[u8]) -> (r: Result<MessagePlan, PipelineError>)
    ensures
        r matches Ok(plan) ==> {
            &&& plan.mode == dispatch::mode_of(config.email.dry_run)
            &&& (plan.mode is WriteLocal <==> config.email.dry_run)
            &&& plan.attachment_b64@ == dispatch::base64_of(plan.rendered@)
            &&& plan.return_path@ == config.email.return_path@
            &&& plan.to_address@ == config.email.to.address@
            &&& plan.to_name.deep_view() == config.email.to.name.deep_view()
            &&& plan.from_address@ == config.email.from.address@
            &&& plan.from_name.deep_view() == config.email.from.name.deep_view()
            &&& exists|orig: Option<Seq<char>>| plan.subject@ == dispatch::subject_line_spec(orig)
            &&& extract::cells_wf(extract::table_cells_of(plan.body_html@))
            &&& exists|flags: Seq<Seq<Seq<bool>>>|
                plan.rendered@ == document_of(
                    extract::table_cells_of(plan.body_html@),
                    config.deny.deep_view(),
                    flags,
                )
        },
{
    let parsed = match mail::parse_mail_bytes(input) {
        Ok(m) => m,
        Err(e) => {
            return Err(e);
        },
    };
    let mut sp = match oracle::launch_aspell(config.lang.as_str()) {
        Ok(s) => s,
        Err(e) => {
            return Err(e);
        },
    };
    match oracle::seed_allow_words(&mut sp, &config.allow) {
        Ok(_) => {},
        Err(e) => {
            return Err(e);
        },
    }
    let body = match mail::mail_body(&parsed) {
        Ok(b) => b,
        Err(e) => {
            return Err(e);
        },
    };
    let orig_subject = mail::mail_header_first(&parsed, "Subject");
    let rows = match extract::extract_rows(body.as_str()) {
        Ok(r) => r,
        Err(e) => {
            return Err(e);
        },
    };
    let ghost cells = extract::table_cells_of(body@);
    let ghost deny_v = config.deny.deep_view();
    let mut sections: Vec<String> = Vec::new();
    let ghost mut flags: Seq<Seq<Seq<bool>>> = Seq::empty();
    let mut i: usize = 0;
    while i < rows.len()
        invariant
            i <= rows.len(),
            rows@.len() == cells.len(),
            forall|k: int|
                0 <= k < rows@.len() ==> (#[trigger] rows@[k].question)@ == cells[k][0],
            forall|k: int| 0 <= k < rows@.len() ==> (#[trigger] rows@[k].answer)@ == cells[k][1],
            deny_v == config.deny.deep_view(),
            flags.len() == i,
            sections.deep_view().len() == i,
            forall|k: int|
                0 <= k < i ==> sections.deep_view()[k] == section_html_of(
                    cells[k][0],
                    cells[k][1],
                    deny_v,
                    flags[k],
                    k == 0,
                ),
        decreases rows.len() - i,
    {
        let row = &rows[i];
        let first = i == 0;
        let body_html: String;
        let ghost row_flags: Seq<Seq<bool>>;
        if render::is_bypass_question(row.question.as_str()) {
            let lines = text::split_lines_str(row.answer.as_str());
            let squished = text::squish_lines(lines);
            let para = text::join_strings(&squished, "\n\n");
            proof {
                assert("\n\n"@ == paragraph_sep());
                assert(para@ == squished_answer(row.answer@));
            }
            body_html = text::escape_html(para.as_str());
            proof {
                row_flags = Seq::empty();
            }
        } else {
            body_html =
            match render_checked_answer(&mut sp, row.answer.as_str(), &config.deny) {
                Ok(h) => h,
                Err(e) => {
                    return Err(e);
                },
            };
            proof {
                row_flags = choose|fs: Seq<Seq<bool>>|
                    body_html@ == answer_html_of(row.answer@, deny_v, fs);
            }
        }
        let section = render::render_section(row.question.as_str(), body_html.as_str(), first);
        proof {
            assert(section@ == section_html_of(
                cells[i as int][0],
                cells[i as int][1],
                deny_v,
                row_flags,
                i == 0,
            ));
            flags = flags.push(row_flags);
        }
        let ghost old_sections = sections.deep_view();
        sections.push(section);
        proof {
            assert(sections.deep_view() =~= old_sections.push(
                section_html_of(cells[i as int][0], cells[i as int][1], deny_v, row_flags, i == 0),
            ));
        }
        i = i + 1;
    }
    let rendered = render::render_document(&sections);
    proof {
        assert(sections.deep_view() =~= Seq::new(
            cells.len(),
            |k: int| section_html_of(cells[k][0], cells[k][1], deny_v, flags[k], k == 0),
        ));
        assert(rendered@ == document_of(cells, deny_v, flags));
    }
    let plan = dispatch::build_plan(config, &orig_subject, body, rendered);
    proof {
        assert(plan.subject@ == dispatch::subject_line_spec(orig_subject.deep_view()));
        assert(plan.rendered@ == document_of(
            extract::table_cells_of(plan.body_html@),
            config.deny.deep_view(),
            flags,
        ));
    }
    Ok(plan)
}

} // verus!
