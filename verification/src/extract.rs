//! Table extraction: the parsed HTML body yields, per `<tr>`, the text of
//! its `<td>` cells; a row needs a question cell and an answer cell, and a
//! row with fewer is a fatal extraction failure.

use crate::errors::PipelineError;
use vstd::prelude::*;

verus! {

/// What the HTML parser yields from a body: for each `<tr>` element in
/// document order, the visible text of each of its `<td>` descendants, in
/// document order. The result depends on the body alone; it is stated only
/// through this name, which the one trusted wrapper below applies.
pub uninterp spec fn table_cells_of(body: Seq<char>) -> Seq<Seq<Seq<char>>>;

/// Relies on select's `Document::from` (parse the HTML), `find` (matching
/// elements in document order) and `Node::text` (concatenated descendant
/// text, no added separators).
#[verifier::external_body]
fn html_table_cells(body: &str) -> (r: Vec<Vec<String>>)
    ensures
        r.deep_view() == table_cells_of(body@),
{
    let doc = select::document::Document::from(body);
    doc.find(select::predicate::Name("tr"))
        .map(|row| row.find(select::predicate::Name("td")).map(|cell| cell.text()).collect())
        .collect()
}

/// One question/answer record of the form table.
#[derive(Debug)]
pub struct Row {
    pub question: String,
    pub answer: String,
}

/// Every row has both its cells: the first two `<td>` texts.
pub open spec fn cells_wf(cells: Seq<Seq<Seq<char>>>) -> bool {
    forall|i: int| 0 <= i < cells.len() ==> (#[trigger] cells[i]).len() >= 2
}

/// The extraction failure that a malformed row at index `k` causes.
pub open spec fn cell_error(cells: Seq<Seq<Seq<char>>>, k: int) -> PipelineError {
    if cells[k].len() == 0 {
        PipelineError::MissingQuestion
    } else {
        PipelineError::MissingAnswer
    }
}

/// Build the ordered row records from the extracted cell texts. Succeeds
/// exactly when every row has at least two cells; the first malformed row
/// decides the error, and no partial output survives a failure.
pub fn rows_from_cells(cells: &Vec<Vec<String>>) -> (r: Result<Vec<Row>, PipelineError>)
    ensures
        r is Ok <==> cells_wf(cells.deep_view()),
        r matches Ok(rows) ==> {
            &&& rows@.len() == cells.deep_view().len()
            &&& forall|i: int|
                0 <= i < rows@.len() ==> (#[trigger] rows@[i].question)@ == cells.deep_view()[i][0]
            &&& forall|i: int|
                0 <= i < rows@.len() ==> (#[trigger] rows@[i].answer)@ == cells.deep_view()[i][1]
        },
        r matches Err(e) ==> exists|k: int|
            0 <= k < cells.deep_view().len() && (#[trigger] cells.deep_view()[k]).len() < 2 && (
            forall|j: int| 0 <= j < k ==> (#[trigger] cells.deep_view()[j]).len() >= 2) && e
                == cell_error(cells.deep_view(), k),
{
    let ghost cv = cells.deep_view();
    let mut rows: Vec<Row> = Vec::new();
    let mut i: usize = 0;
    while i < cells.len()
        invariant
            cv == cells.deep_view(),
            cv.len() == cells.len(),
            i <= cells.len(),
            rows@.len() == i,
            forall|j: int| 0 <= j < i ==> (#[trigger] cv[j]).len() >= 2,
            forall|j: int| 0 <= j < i ==> (#[trigger] rows@[j].question)@ == cv[j][0],
            forall|j: int| 0 <= j < i ==> (#[trigger] rows@[j].answer)@ == cv[j][1],
        decreases cells.len() - i,
    {
        let cell = &cells[i];
        proof {
            assert(cv[i as int].len() == cell@.len());
        }
        if cell.len() < 1 {
            proof {
                assert(cell_error(cv, i as int) == PipelineError::MissingQuestion);
            }
            return Err(PipelineError::MissingQuestion);
        }
        if cell.len() < 2 {
            proof {
                assert(cell_error(cv, i as int) == PipelineError::MissingAnswer);
            }
            return Err(PipelineError::MissingAnswer);
        }
        let q = cell[0].clone();
        let a = cell[1].clone();
        proof {
            assert(cv[i as int][0] == cell@[0]@);
            assert(cv[i as int][1] == cell@[1]@);
        }
        rows.push(Row { question: q, answer: a });
        i = i + 1;
    }
    Ok(rows)
}

/// Extract the ordered question/answer rows from an HTML body: what the
/// parser yields of it, held to the two-cells-per-row invariant.
pub fn extract_rows(body: &str) -> (r: Result<Vec<Row>, PipelineError>)
    ensures
        r is Ok <==> cells_wf(table_cells_of(body@)),
        r matches Ok(rows) ==> {
            &&& rows@.len() == table_cells_of(body@).len()
            &&& forall|i: int|
                0 <= i < rows@.len() ==> (#[trigger] rows@[i].question)@ == table_cells_of(
                    body@,
                )[i][0]
            &&& forall|i: int|
                0 <= i < rows@.len() ==> (#[trigger] rows@[i].answer)@ == table_cells_of(
                    body@,
                )[i][1]
        },
        r matches Err(e) ==> (e == PipelineError::MissingQuestion || e
            == PipelineError::MissingAnswer),
{
    let cells = html_table_cells(body);
    rows_from_cells(&cells)
}

} // verus!
