//! The per-word highlight decision: combine the oracle's verdict on the
//! punctuation-trimmed token with the deny list, while keeping the original
//! surface form for rendering.

use crate::text;
use vstd::prelude::*;

verus! {

/// One token of a line: the surface form exactly as it appeared in the
/// answer, and the highlight decision made for it.
pub struct AnnotatedWord {
    pub surface: String,
    pub flagged: bool,
}

/// `w` is one of the words of `list`.
pub open spec fn word_in(list: Seq<Seq<char>>, w: Seq<char>) -> bool {
    exists|i: int| 0 <= i < list.len() && list[i] == w
}

/// Linear membership test against a word list.
pub fn list_contains(list: &Vec<String>, w: &str) -> (r: bool)
    ensures
        r == word_in(list.deep_view(), w@),
{
    let mut i: usize = 0;
    while i < list.len()
        invariant
            i <= list.len(),
            list.deep_view().len() == list.len(),
            forall|j: int| 0 <= j < i ==> list.deep_view()[j] != w@,
        decreases list.len() - i,
    {
        if text::str_eq(list[i].as_str(), w) {
            proof {
                assert(list.deep_view()[i as int] == w@);
            }
            return true;
        }
        i = i + 1;
    }
    false
}

/// The adopted precedence policy: a deny hit forces the flag, whatever the
/// oracle said; otherwise the oracle's verdict stands. The allow list never
/// appears here — it acts earlier, by seeding the oracle.
pub open spec fn flag_of(deny_hit: bool, misspelled: bool) -> bool {
    deny_hit || misspelled
}

/// Law: a word on the deny list is flagged regardless of the oracle's
/// verdict.
pub proof fn lemma_deny_wins(misspelled: bool)
    ensures
        flag_of(true, misspelled),
{
}

/// Law: off the deny list, the flag is exactly the oracle's verdict — in
/// particular, a word the seeded oracle reports clean is not flagged.
pub proof fn lemma_oracle_decides(misspelled: bool)
    ensures
        flag_of(false, misspelled) == misspelled,
{
}

/// Annotate the tokens of one line, given the oracle's verdict for each
/// token's trimmed form. Surface forms are kept verbatim; the flag follows
/// [`flag_of`] applied to deny-list membership of the trimmed token.
pub fn annotate_tokens(words: &Vec<String>, oracle_bits: &Vec<bool>, deny: &Vec<String>) -> (r:
    Vec<AnnotatedWord>)
    requires
        words.len() == oracle_bits.len(),
    ensures
        r@.len() == words@.len(),
        forall|i: int| 0 <= i < r@.len() ==> (#[trigger] r@[i].surface)@ == words.deep_view()[i],
        forall|i: int|
            0 <= i < r@.len() ==> (#[trigger] r@[i].flagged) == flag_of(
                word_in(deny.deep_view(), text::trim_punct(words.deep_view()[i])),
                oracle_bits@[i],
            ),
{
    let mut out: Vec<AnnotatedWord> = Vec::new();
    let mut i: usize = 0;
    while i < words.len()
        invariant
            i <= words.len(),
            words@.len() == oracle_bits@.len(),
            out@.len() == i,
            forall|j: int|
                0 <= j < i ==> (#[trigger] out@[j].surface)@ == words.deep_view()[j],
            forall|j: int|
                0 <= j < i ==> (#[trigger] out@[j].flagged) == flag_of(
                    word_in(deny.deep_view(), text::trim_punct(words.deep_view()[j])),
                    oracle_bits@[j],
                ),
        decreases words.len() - i,
    {
        let trimmed = text::trim_punct_str(words[i].as_str());
        let deny_hit = list_contains(deny, trimmed.as_str());
        out.push(AnnotatedWord { surface: words[i].clone(), flagged: deny_hit || oracle_bits[i] });
        i = i + 1;
    }
    out
}

} // verus!
