//! Plain-text groundwork: character classes, HTML entity escaping, line
//! splitting, blank-line squishing, whitespace tokenization and punctuation
//! trimming, each specified over `Seq<char>`.

use vstd::prelude::*;

verus! {

/// ASCII whitespace, the separator class used when a line is split into
/// tokens. Non-ASCII space characters are not separators; that mirrors the
/// ASCII-only trimming limitation noted for punctuation.
pub open spec fn is_space_char(c: char) -> bool {
    c == ' ' || c == '\t' || c == '\n' || c == '\r' || c == '\u{b}' || c == '\u{c}'
}

/// Executable test for [`is_space_char`].
pub fn space_char(c: char) -> (r: bool)
    ensures
        r == is_space_char(c),
{
    c == ' ' || c == '\t' || c == '\n' || c == '\r' || c == '\u{b}' || c == '\u{c}'
}

/// ASCII punctuation: the four ASCII ranges `!`..=`/`, `:`..=`@`, `[`..=`` ` ``
/// and `{`..=`~`. Trimming is deliberately ASCII-only; smart quotes and
/// em-dashes stay on the token.
pub open spec fn is_punct_char(c: char) -> bool {
    (0x21 <= c as u32 && c as u32 <= 0x2f) || (0x3a <= c as u32 && c as u32 <= 0x40)
        || (0x5b <= c as u32 && c as u32 <= 0x60) || (0x7b <= c as u32 && c as u32 <= 0x7e)
}

/// Executable test for [`is_punct_char`].
pub fn punct_char(c: char) -> (r: bool)
    ensures
        r == is_punct_char(c),
{
    let v = c as u32;
    (0x21 <= v && v <= 0x2f) || (0x3a <= v && v <= 0x40) || (0x5b <= v && v <= 0x60)
        || (0x7b <= v && v <= 0x7e)
}

/// The five HTML-reserved characters that escaping replaces.
pub open spec fn is_reserved_char(c: char) -> bool {
    c == '>' || c == '<' || c == '&' || c == '\'' || c == '"'
}

/// The entity (or the character itself) that escaping emits for one character.
pub open spec fn escape_char(c: char) -> Seq<char> {
    if c == '>' {
        seq!['&', 'g', 't', ';']
    } else if c == '<' {
        seq!['&', 'l', 't', ';']
    } else if c == '&' {
        seq!['&', 'a', 'm', 'p', ';']
    } else if c == '\'' {
        seq!['&', '#', '3', '9', ';']
    } else if c == '"' {
        seq!['&', 'q', 'u', 'o', 't', ';']
    } else {
        seq![c]
    }
}

/// HTML entity escaping of a whole text, character by character.
pub open spec fn escape_text(s: Seq<char>) -> Seq<char>
    decreases s.len(),
{
    if s.len() == 0 {
        Seq::empty()
    } else {
        escape_char(s[0]) + escape_text(s.skip(1))
    }
}

proof fn lemma_escape_text_push(s: Seq<char>, c: char)
    ensures
        escape_text(s.push(c)) == escape_text(s) + escape_char(c),
    decreases s.len(),
{
    assert(s.push(c).len() == s.len() + 1);
    assert(s.push(c)[0] == if s.len() == 0 { c } else { s[0] });
    if s.len() == 0 {
        assert(s.push(c).skip(1) =~= Seq::<char>::empty());
        assert(escape_text(s.push(c)) == escape_char(c) + escape_text(Seq::<char>::empty()));
        assert(escape_char(c) + Seq::<char>::empty() =~= escape_char(c));
        assert(escape_text(s) + escape_char(c) =~= escape_char(c));
    } else {
        assert(s.push(c).skip(1) =~= s.skip(1).push(c));
        lemma_escape_text_push(s.skip(1), c);
        assert(escape_text(s.push(c)) == escape_char(s[0]) + escape_text(s.skip(1).push(c)));
        assert(escape_char(s[0]) + (escape_text(s.skip(1)) + escape_char(c)) =~= (escape_char(
            s[0],
        ) + escape_text(s.skip(1))) + escape_char(c));
    }
}

/// Escape a string for inclusion in HTML: `< > & ' "` become entities,
/// everything else is copied through.
pub fn escape_html(s: &str) -> (r: String)
    ensures
        r@ == escape_text(s@),
{
    let n = s.unicode_len();
    let mut out = String::new();
    let mut i: usize = 0;
    proof {
        assert(s@.take(0) =~= Seq::<char>::empty());
    }
    while i < n
        invariant
            n == s@.len(),
            i <= n,
            out@ == escape_text(s@.take(i as int)),
        decreases n - i,
    {
        let c = s.get_char(i);
        if c == '>' {
            out.append("&gt;");
            proof {
                reveal_strlit("&gt;");
                assert("&gt;"@ =~= escape_char(c));
            }
        } else if c == '<' {
            out.append("&lt;");
            proof {
                reveal_strlit("&lt;");
                assert("&lt;"@ =~= escape_char(c));
            }
        } else if c == '&' {
            out.append("&amp;");
            proof {
                reveal_strlit("&amp;");
                assert("&amp;"@ =~= escape_char(c));
            }
        } else if c == '\'' {
            out.append("&#39;");
            proof {
                reveal_strlit("&#39;");
                assert("&#39;"@ =~= escape_char(c));
            }
        } else if c == '"' {
            out.append("&quot;");
            proof {
                reveal_strlit("&quot;");
                assert("&quot;"@ =~= escape_char(c));
            }
        } else {
            let piece = s.substring_char(i, i + 1);
            out.append(piece);
            proof {
                assert(piece@ =~= seq![s@[i as int]]);
                assert(piece@ =~= escape_char(c));
            }
        }
        proof {
            lemma_escape_text_push(s@.take(i as int), s@[i as int]);
            assert(s@.take(i as int).push(s@[i as int]) =~= s@.take(i + 1 as int));
        }
        i = i + 1;
    }
    proof {
        assert(s@.take(n as int) =~= s@);
    }
    out
}

proof fn lemma_escape_char_no_lt(c: char)
    ensures
        forall|j: int| 0 <= j < escape_char(c).len() ==> escape_char(c)[j] != '<',
{
}

/// Law: escaped text never contains a literal `<`, so no tag can hide in it.
pub proof fn lemma_escape_no_lt(s: Seq<char>)
    ensures
        forall|i: int| 0 <= i < escape_text(s).len() ==> escape_text(s)[i] != '<',
    decreases s.len(),
{
    if s.len() > 0 {
        lemma_escape_no_lt(s.skip(1));
        lemma_escape_char_no_lt(s[0]);
        let e = escape_char(s[0]);
        let t = escape_text(s.skip(1));
        assert(escape_text(s) == e + t);
        assert forall|i: int| 0 <= i < escape_text(s).len() implies escape_text(s)[i] != '<' by {
            if i < e.len() {
                assert(escape_text(s)[i] == e[i]);
            } else {
                assert(escape_text(s)[i] == t[i - e.len()]);
            }
        }
    }
}

proof fn lemma_escape_text_nonempty(s: Seq<char>)
    requires
        s.len() > 0,
    ensures
        escape_text(s).len() > 0,
{
    assert(escape_char(s[0]).len() > 0);
}

/// Law: entity escaping is injective — two different texts never escape to
/// the same HTML, so the escaped form determines the original.
pub proof fn lemma_escape_injective(s1: Seq<char>, s2: Seq<char>)
    requires
        escape_text(s1) == escape_text(s2),
    ensures
        s1 == s2,
    decreases s1.len(),
{
    if s1.len() == 0 || s2.len() == 0 {
        if s1.len() == 0 && s2.len() > 0 {
            lemma_escape_text_nonempty(s2);
            assert(false);
        }
        if s2.len() == 0 && s1.len() > 0 {
            lemma_escape_text_nonempty(s1);
            assert(false);
        }
        assert(s1 =~= s2);
    } else {
        let c1 = s1[0];
        let c2 = s2[0];
        let e1 = escape_char(c1);
        let e2 = escape_char(c2);
        let t1 = escape_text(s1.skip(1));
        let t2 = escape_text(s2.skip(1));
        assert(escape_text(s1) == e1 + t1);
        assert(escape_text(s2) == e2 + t2);
        assert((e1 + t1)[0] == e1[0]);
        assert((e2 + t2)[0] == e2[0]);
        if is_reserved_char(c1) && is_reserved_char(c2) {
            assert(e1.len() >= 4 && e2.len() >= 4);
            assert((e1 + t1)[1] == e1[1]);
            assert((e2 + t2)[1] == e2[1]);
            assert(e1[1] == e2[1]);
            assert(c1 == c2);
        } else if is_reserved_char(c1) && !is_reserved_char(c2) {
            assert(e1[0] == '&');
            assert(e2 == seq![c2]);
            assert(c2 == '&');
            assert(false);
        } else if !is_reserved_char(c1) && is_reserved_char(c2) {
            assert(e2[0] == '&');
            assert(e1 == seq![c1]);
            assert(c1 == '&');
            assert(false);
        } else {
            assert(e1 == seq![c1]);
            assert(e2 == seq![c2]);
            assert(c1 == c2);
        }
        assert(e1 == e2);
        assert(t1 =~= (e1 + t1).skip(e1.len() as int));
        assert(t2 =~= (e2 + t2).skip(e2.len() as int));
        lemma_escape_injective(s1.skip(1), s2.skip(1));
        assert(s1 =~= seq![c1] + s1.skip(1));
        assert(s2 =~= seq![c2] + s2.skip(1));
    }
}

/// `needle` occurs somewhere inside `hay`.
pub open spec fn contains_sub(hay: Seq<char>, needle: Seq<char>) -> bool {
    exists|k: int|
        0 <= k && k + needle.len() <= hay.len() && #[trigger] hay.subrange(k, k + needle.len())
            == needle
}

/// Law: escaped text never contains a highlight marker, whatever the input:
/// a field that is only escaped is never rendered highlighted.
pub proof fn lemma_escape_never_marked(s: Seq<char>)
    ensures
        !contains_sub(escape_text(s), "<mark>"@),
{
    reveal_strlit("<mark>");
    lemma_escape_no_lt(s);
    let hay = escape_text(s);
    let needle = "<mark>"@;
    if contains_sub(hay, needle) {
        let k = choose|k: int|
            0 <= k && k + needle.len() <= hay.len() && #[trigger] hay.subrange(
                k,
                k + needle.len(),
            ) == needle;
        assert(hay.subrange(k, k + needle.len())[0] == needle[0]);
        assert(hay[k] == '<');
        assert(false);
    }
}

/// Split a text into lines. A line ends at `\n` or `\r\n`; the terminator is
/// not part of the line, a final terminator produces no trailing empty line,
/// and a lone `\r` stays on its line.
pub open spec fn split_lines(s: Seq<char>) -> Seq<Seq<char>>
    decreases s.len(),
{
    if s.len() == 0 {
        Seq::empty()
    } else if s.len() >= 2 && s[0] == '\r' && s[1] == '\n' {
        seq![Seq::<char>::empty()] + split_lines(s.skip(2))
    } else if s[0] == '\n' {
        seq![Seq::<char>::empty()] + split_lines(s.skip(1))
    } else {
        let rest = split_lines(s.skip(1));
        if rest.len() == 0 {
            seq![seq![s[0]]]
        } else {
            seq![seq![s[0]] + rest[0]] + rest.skip(1)
        }
    }
}

/// Prepend an unfinished current line onto the lines of the remaining text:
/// the shape of a partially consumed [`split_lines`].
pub open spec fn close_lines(cur: Seq<char>, rest: Seq<Seq<char>>) -> Seq<Seq<char>> {
    if rest.len() == 0 {
        if cur.len() == 0 {
            Seq::empty()
        } else {
            seq![cur]
        }
    } else {
        seq![cur + rest[0]] + rest.skip(1)
    }
}

proof fn lemma_close_lines_empty(rest: Seq<Seq<char>>)
    ensures
        close_lines(Seq::empty(), rest) == rest,
{
    if rest.len() == 0 {
    } else {
        assert(Seq::<char>::empty() + rest[0] =~= rest[0]);
        assert(seq![rest[0]] + rest.skip(1) =~= rest);
    }
}

proof fn lemma_close_lines_char(cur: Seq<char>, c: char, rest: Seq<Seq<char>>)
    ensures
        close_lines(cur, close_lines(seq![c], rest)) == close_lines(cur.push(c), rest),
{
    if rest.len() == 0 {
        assert(close_lines(seq![c], rest) == seq![seq![c]]);
        assert(cur + seq![c] =~= cur.push(c));
        assert(seq![cur + seq![c]] + seq![seq![c]].skip(1) =~= seq![cur.push(c)]);
    } else {
        let mid = close_lines(seq![c], rest);
        assert(mid == seq![seq![c] + rest[0]] + rest.skip(1));
        assert(mid.len() == 1 + rest.skip(1).len());
        assert(mid[0] == seq![c] + rest[0]);
        assert(cur + (seq![c] + rest[0]) =~= cur.push(c) + rest[0]);
        assert(mid.skip(1) =~= rest.skip(1));
        assert(seq![cur + mid[0]] + mid.skip(1) =~= seq![cur.push(c) + rest[0]] + rest.skip(1));
    }
}

proof fn lemma_close_lines_newline(cur: Seq<char>, rest: Seq<Seq<char>>)
    ensures
        close_lines(cur, seq![Seq::<char>::empty()] + rest) == seq![cur] + rest,
{
    let whole = seq![Seq::<char>::empty()] + rest;
    assert(whole.len() == 1 + rest.len());
    assert(whole[0] == Seq::<char>::empty());
    assert(cur + Seq::<char>::empty() =~= cur);
    assert(whole.skip(1) =~= rest);
    assert(seq![cur + whole[0]] + whole.skip(1) =~= seq![cur] + rest);
}

/// Split a string into its lines, as [`split_lines`] describes.
pub fn split_lines_str(s: &str) -> (r: Vec<String>)
    ensures
        r.deep_view() == split_lines(s@),
{
    let n = s.unicode_len();
    let mut out: Vec<String> = Vec::new();
    let mut cur = String::new();
    let mut i: usize = 0;
    proof {
        assert(s@.skip(0) =~= s@);
        lemma_close_lines_empty(split_lines(s@));
        assert(out.deep_view() + close_lines(cur@, split_lines(s@.skip(0))) =~= split_lines(s@));
    }
    while i < n
        invariant
            n == s@.len(),
            i <= n,
            out.deep_view() + close_lines(cur@, split_lines(s@.skip(i as int))) == split_lines(
                s@,
            ),
        decreases n - i,
    {
        let ghost tail = s@.skip(i as int);
        proof {
            assert(tail.len() == n - i);
            assert(tail[0] == s@[i as int]);
        }
        let c = s.get_char(i);
        if c == '\r' && i + 1 < n && s.get_char(i + 1) == '\n' {
            proof {
                assert(tail[1] == s@[i + 1 as int]);
                assert(tail.skip(2) =~= s@.skip(i + 2 as int));
                assert(split_lines(tail) == seq![Seq::<char>::empty()] + split_lines(
                    tail.skip(2),
                ));
                lemma_close_lines_newline(cur@, split_lines(tail.skip(2)));
            }
            let ghost old_out = out.deep_view();
            let ghost cur0 = cur@;
            out.push(cur);
            cur = String::new();
            proof {
                assert(out.deep_view() =~= old_out.push(cur0));
                lemma_close_lines_empty(split_lines(s@.skip(i + 2 as int)));
                assert(out.deep_view() + close_lines(cur@, split_lines(s@.skip(i + 2 as int)))
                    =~= split_lines(s@));
            }
            i = i + 2;
        } else if c == '\n' {
            proof {
                assert(!(tail.len() >= 2 && tail[0] == '\r' && tail[1] == '\n'));
                assert(tail.skip(1) =~= s@.skip(i + 1 as int));
                assert(split_lines(tail) == seq![Seq::<char>::empty()] + split_lines(
                    tail.skip(1),
                ));
                lemma_close_lines_newline(cur@, split_lines(tail.skip(1)));
            }
            let ghost old_out = out.deep_view();
            let ghost cur0 = cur@;
            out.push(cur);
            cur = String::new();
            proof {
                assert(out.deep_view() =~= old_out.push(cur0));
                lemma_close_lines_empty(split_lines(s@.skip(i + 1 as int)));
                assert(out.deep_view() + close_lines(cur@, split_lines(s@.skip(i + 1 as int)))
                    =~= split_lines(s@));
            }
            i = i + 1;
        } else {
            let piece = s.substring_char(i, i + 1);
            let ghost cur0 = cur@;
            proof {
                assert(piece@ =~= seq![s@[i as int]]);
                assert(tail.skip(1) =~= s@.skip(i + 1 as int));
                assert(split_lines(tail) == close_lines(
                    seq![tail[0]],
                    split_lines(tail.skip(1)),
                ));
                lemma_close_lines_char(cur@, tail[0], split_lines(tail.skip(1)));
            }
            cur.append(piece);
            proof {
                assert(cur@ =~= cur0.push(tail[0]));
            }
            i = i + 1;
        }
    }
    proof {
        assert(s@.skip(n as int) =~= Seq::<char>::empty());
        assert(split_lines(s@.skip(n as int)) == Seq::<Seq<char>>::empty());
    }
    if cur.as_str().unicode_len() > 0 {
        let ghost old_out = out.deep_view();
        let ghost cur0 = cur@;
        out.push(cur);
        proof {
            assert(close_lines(cur0, Seq::<Seq<char>>::empty()) == seq![cur0]);
            assert(out.deep_view() =~= old_out.push(cur0));
            assert(out.deep_view() =~= old_out + seq![cur0]);
        }
    } else {
        proof {
            assert(close_lines(cur@, Seq::<Seq<char>>::empty()) == Seq::<Seq<char>>::empty());
            assert(out.deep_view() + Seq::<Seq<char>>::empty() =~= out.deep_view());
        }
    }
    out
}

/// A line survives the blank-line squish when it is non-empty.
pub open spec fn nonempty_line(l: Seq<char>) -> bool {
    l.len() > 0
}

/// Blank-line squish: keep exactly the non-empty lines, in their order.
pub open spec fn squish(lines: Seq<Seq<char>>) -> Seq<Seq<char>> {
    lines.filter(|l: Seq<char>| nonempty_line(l))
}

/// Drop the empty lines from a list of lines, keeping the rest in order.
pub fn squish_lines(lines: Vec<String>) -> (r: Vec<String>)
    ensures
        r.deep_view() == squish(lines.deep_view()),
{
    proof {
        reveal(Seq::filter);
    }
    let mut out: Vec<String> = Vec::new();
    let mut i: usize = 0;
    proof {
        assert(lines.deep_view().take(0) =~= Seq::<Seq<char>>::empty());
        assert(out.deep_view() =~= squish(lines.deep_view().take(0)));
    }
    while i < lines.len()
        invariant
            i <= lines.len(),
            lines.deep_view().len() == lines.len(),
            out.deep_view() == squish(lines.deep_view().take(i as int)),
        decreases lines.len() - i,
    {
        let ghost prefix = lines.deep_view().take(i as int);
        let ghost next = lines.deep_view()[i as int];
        proof {
            reveal(Seq::filter);
            assert(prefix.push(next).drop_last() =~= prefix);
            assert(prefix.push(next).last() == next);
            assert(lines.deep_view().take(i + 1 as int) =~= prefix.push(next));
        }
        let line = &lines[i];
        if line.as_str().unicode_len() > 0 {
            let ghost old_out = out.deep_view();
            out.push(line.clone());
            proof {
                reveal(Seq::filter);
                assert(out.deep_view() =~= old_out.push(next));
                assert(squish(prefix.push(next)) =~= squish(prefix).push(next));
            }
        } else {
            proof {
                reveal(Seq::filter);
                assert(squish(prefix.push(next)) =~= squish(prefix));
            }
        }
        i = i + 1;
    }
    proof {
        assert(lines.deep_view().take(lines.len() as int) =~= lines.deep_view());
    }
    out
}

/// Normalize an answer: split it into lines and drop the blank ones,
/// keeping the rest in order.
pub fn normalize(answer: &str) -> (r: Vec<String>)
    ensures
        r.deep_view() == squish(split_lines(answer@)),
{
    let lines = split_lines_str(answer);
    squish_lines(lines)
}

/// Law: no blank line survives the squish.
pub proof fn lemma_squish_no_blanks(lines: Seq<Seq<char>>)
    ensures
        forall|i: int| 0 <= i < squish(lines).len() ==> squish(lines)[i].len() > 0,
{
    assert forall|i: int| 0 <= i < squish(lines).len() implies squish(lines)[i].len() > 0 by {
        lines.lemma_filter_pred(|l: Seq<char>| nonempty_line(l), i);
    }
}

/// Law: the squish removes exactly the empty lines — where none is empty,
/// every line is kept, unchanged and in order.
pub proof fn lemma_squish_keeps_nonempty(lines: Seq<Seq<char>>)
    requires
        forall|i: int| 0 <= i < lines.len() ==> (#[trigger] lines[i]).len() > 0,
    ensures
        squish(lines) == lines,
    decreases lines.len(),
{
    reveal(Seq::filter);
    if lines.len() == 0 {
        assert(squish(lines) =~= lines);
    } else {
        assert(forall|i: int|
            0 <= i < lines.drop_last().len() ==> (#[trigger] lines.drop_last()[i]).len() > 0);
        lemma_squish_keeps_nonempty(lines.drop_last());
        assert(lines[lines.len() - 1].len() > 0);
        assert(nonempty_line(lines.last()));
        assert(squish(lines) == squish(lines.drop_last()).push(lines.last()));
        assert(lines.drop_last().push(lines.last()) =~= lines);
    }
}

/// The parts joined with the separator between each neighbouring pair.
pub open spec fn join_with(parts: Seq<Seq<char>>, sep: Seq<char>) -> Seq<char>
    decreases parts.len(),
{
    if parts.len() == 0 {
        Seq::empty()
    } else if parts.len() == 1 {
        parts[0]
    } else {
        parts[0] + sep + join_with(parts.skip(1), sep)
    }
}

proof fn lemma_join_with_push(parts: Seq<Seq<char>>, sep: Seq<char>, x: Seq<char>)
    ensures
        join_with(parts.push(x), sep) == if parts.len() == 0 {
            x
        } else {
            join_with(parts, sep) + sep + x
        },
    decreases parts.len(),
{
    let whole = parts.push(x);
    assert(whole[0] == if parts.len() == 0 {
        x
    } else {
        parts[0]
    });
    if parts.len() == 0 {
        assert(whole.len() == 1);
    } else {
        assert(whole.skip(1) =~= parts.skip(1).push(x));
        lemma_join_with_push(parts.skip(1), sep, x);
        if parts.len() == 1 {
            assert(parts.skip(1).len() == 0);
            assert(join_with(whole, sep) == parts[0] + sep + x);
            assert(join_with(parts, sep) + sep + x == parts[0] + sep + x);
        } else {
            assert(join_with(whole, sep) == parts[0] + sep + (join_with(parts.skip(1), sep)
                + sep + x));
            assert(parts[0] + sep + (join_with(parts.skip(1), sep) + sep + x) =~= (parts[0] + sep
                + join_with(parts.skip(1), sep)) + sep + x);
        }
    }
}

/// Join strings with a separator, as [`join_with`] describes.
pub fn join_strings(parts: &Vec<String>, sep: &str) -> (r: String)
    ensures
        r@ == join_with(parts.deep_view(), sep@),
{
    let mut out = String::new();
    let mut i: usize = 0;
    proof {
        assert(parts.deep_view().take(0) =~= Seq::<Seq<char>>::empty());
    }
    while i < parts.len()
        invariant
            i <= parts.len(),
            parts.deep_view().len() == parts.len(),
            out@ == join_with(parts.deep_view().take(i as int), sep@),
        decreases parts.len() - i,
    {
        let ghost prefix = parts.deep_view().take(i as int);
        let ghost next = parts.deep_view()[i as int];
        if i > 0 {
            out.append(sep);
        }
        out.append(parts[i].as_str());
        proof {
            assert(prefix.push(next) =~= parts.deep_view().take(i + 1 as int));
            lemma_join_with_push(prefix, sep@, next);
        }
        i = i + 1;
    }
    proof {
        assert(parts.deep_view().take(parts.len() as int) =~= parts.deep_view());
    }
    out
}

/// The whitespace-delimited tokens of a line, in order. Runs of separators
/// collapse: tokens carry no spacing.
pub open spec fn ws_tokens(s: Seq<char>) -> Seq<Seq<char>>
    decreases s.len(),
{
    if s.len() == 0 {
        Seq::empty()
    } else if is_space_char(s[0]) {
        ws_tokens(s.skip(1))
    } else {
        let rest = ws_tokens(s.skip(1));
        if s.len() >= 2 && !is_space_char(s[1]) {
            seq![seq![s[0]] + rest[0]] + rest.skip(1)
        } else {
            seq![seq![s[0]]] + rest
        }
    }
}

/// No character of `s` is a separator.
pub open spec fn no_space(s: Seq<char>) -> bool {
    forall|j: int| 0 <= j < s.len() ==> !is_space_char(s[j])
}

proof fn lemma_ws_tokens_closed_token(cur: Seq<char>, t: Seq<char>)
    requires
        cur.len() > 0,
        no_space(cur),
        t.len() == 0 || is_space_char(t[0]),
    ensures
        ws_tokens(cur + t) == seq![cur] + ws_tokens(t),
    decreases cur.len(),
{
    let s = cur + t;
    assert(s[0] == cur[0]);
    assert(!is_space_char(s[0]));
    assert(s.skip(1) =~= cur.skip(1) + t);
    if cur.len() == 1 {
        assert(cur.skip(1) + t =~= t);
        if t.len() == 0 {
            assert(s.len() == 1);
            assert(ws_tokens(s) == seq![seq![s[0]]] + ws_tokens(s.skip(1)));
            assert(seq![s[0]] =~= cur);
            assert(ws_tokens(t) == Seq::<Seq<char>>::empty());
            assert(seq![cur] + ws_tokens(t) =~= seq![cur]);
            assert(seq![seq![s[0]]] + ws_tokens(s.skip(1)) =~= seq![cur]);
        } else {
            assert(s.len() >= 2 && is_space_char(s[1]));
            assert(ws_tokens(s) == seq![seq![s[0]]] + ws_tokens(t));
            assert(seq![s[0]] =~= cur);
            assert(seq![seq![s[0]]] + ws_tokens(t) =~= seq![cur] + ws_tokens(t));
        }
    } else {
        assert(s.len() >= 2);
        assert(s[1] == cur[1]);
        assert(!is_space_char(s[1]));
        assert(cur.skip(1).len() > 0);
        assert(no_space(cur.skip(1)));
        lemma_ws_tokens_closed_token(cur.skip(1), t);
        let rest = ws_tokens(s.skip(1));
        assert(rest == seq![cur.skip(1)] + ws_tokens(t));
        assert(rest[0] == cur.skip(1));
        assert(seq![s[0]] + rest[0] =~= cur);
        assert(rest.skip(1) =~= ws_tokens(t));
        assert(ws_tokens(s) == seq![seq![s[0]] + rest[0]] + rest.skip(1));
        assert(seq![seq![s[0]] + rest[0]] + rest.skip(1) =~= seq![cur] + ws_tokens(t));
    }
}

/// Split a line into its whitespace-delimited tokens, as [`ws_tokens`]
/// describes.
pub fn split_tokens(s: &str) -> (r: Vec<String>)
    ensures
        r.deep_view() == ws_tokens(s@),
{
    let n = s.unicode_len();
    let mut out: Vec<String> = Vec::new();
    let mut cur = String::new();
    let mut i: usize = 0;
    proof {
        assert(cur@ + s@.skip(0) =~= s@);
    }
    while i < n
        invariant
            n == s@.len(),
            i <= n,
            no_space(cur@),
            out.deep_view() + ws_tokens(cur@ + s@.skip(i as int)) == ws_tokens(s@),
        decreases n - i,
    {
        let ghost tail = s@.skip(i as int);
        proof {
            assert(tail.len() == n - i);
            assert(tail[0] == s@[i as int]);
            assert(tail.skip(1) =~= s@.skip(i + 1 as int));
        }
        let c = s.get_char(i);
        if space_char(c) {
            if cur.as_str().unicode_len() > 0 {
                proof {
                    lemma_ws_tokens_closed_token(cur@, tail);
                    assert(ws_tokens(tail) == ws_tokens(tail.skip(1)));
                    assert(Seq::<char>::empty() + tail.skip(1) =~= tail.skip(1));
                }
                let ghost old_out = out.deep_view();
                let ghost cur0 = cur@;
                out.push(cur);
                cur = String::new();
                proof {
                    assert(out.deep_view() =~= old_out.push(cur0));
                    assert(out.deep_view() =~= old_out + seq![cur0]);
                    assert(out.deep_view() + ws_tokens(cur@ + s@.skip(i + 1 as int))
                        =~= ws_tokens(s@));
                }
            } else {
                proof {
                    assert(cur@ + tail =~= tail);
                    assert(ws_tokens(tail) == ws_tokens(tail.skip(1)));
                    assert(cur@ + tail.skip(1) =~= tail.skip(1));
                }
            }
            i = i + 1;
        } else {
            let piece = s.substring_char(i, i + 1);
            let ghost cur0 = cur@;
            cur.append(piece);
            proof {
                assert(piece@ =~= seq![s@[i as int]]);
                assert(cur@ =~= cur0.push(tail[0]));
                assert(cur0 + tail =~= cur@ + tail.skip(1));
            }
            i = i + 1;
        }
    }
    proof {
        assert(s@.skip(n as int) =~= Seq::<char>::empty());
        assert(cur@ + s@.skip(n as int) =~= cur@);
    }
    if cur.as_str().unicode_len() > 0 {
        let ghost old_out = out.deep_view();
        let ghost cur0 = cur@;
        proof {
            lemma_ws_tokens_closed_token(cur0, Seq::empty());
            assert(cur0 + Seq::<char>::empty() =~= cur0);
            assert(ws_tokens(cur0) == seq![cur0] + ws_tokens(Seq::<char>::empty()));
            assert(ws_tokens(cur0) =~= seq![cur0]);
        }
        out.push(cur);
        proof {
            assert(out.deep_view() =~= old_out.push(cur0));
            assert(out.deep_view() =~= old_out + seq![cur0]);
        }
    } else {
        proof {
            assert(ws_tokens(cur@) == Seq::<Seq<char>>::empty());
            assert(out.deep_view() + Seq::<Seq<char>>::empty() =~= out.deep_view());
        }
    }
    out
}

/// Character-for-character string equality.
pub fn str_eq(a: &str, b: &str) -> (r: bool)
    ensures
        r == (a@ == b@),
{
    let na = a.unicode_len();
    let nb = b.unicode_len();
    if na != nb {
        return false;
    }
    let mut i: usize = 0;
    while i < na
        invariant
            na == a@.len(),
            na == b@.len(),
            i <= na,
            forall|j: int| 0 <= j < i ==> a@[j] == b@[j],
        decreases na - i,
    {
        if a.get_char(i) != b.get_char(i) {
            return false;
        }
        i = i + 1;
    }
    proof {
        assert(a@ =~= b@);
    }
    true
}

/// Drop leading ASCII punctuation.
pub open spec fn trim_start_punct(s: Seq<char>) -> Seq<char>
    decreases s.len(),
{
    if s.len() > 0 && is_punct_char(s[0]) {
        trim_start_punct(s.skip(1))
    } else {
        s
    }
}

/// Drop trailing ASCII punctuation.
pub open spec fn trim_end_punct(s: Seq<char>) -> Seq<char>
    decreases s.len(),
{
    if s.len() > 0 && is_punct_char(s.last()) {
        trim_end_punct(s.drop_last())
    } else {
        s
    }
}

/// Strip leading and trailing ASCII punctuation from a token; the inside is
/// untouched.
pub open spec fn trim_punct(s: Seq<char>) -> Seq<char> {
    trim_end_punct(trim_start_punct(s))
}

/// Strip leading and trailing ASCII punctuation, as [`trim_punct`] describes.
pub fn trim_punct_str(w: &str) -> (r: String)
    ensures
        r@ == trim_punct(w@),
{
    let n = w.unicode_len();
    let mut a: usize = 0;
    proof {
        assert(w@.skip(0) =~= w@);
    }
    while a < n && punct_char(w.get_char(a))
        invariant
            n == w@.len(),
            a <= n,
            trim_start_punct(w@.skip(a as int)) == trim_start_punct(w@),
        decreases n - a,
    {
        proof {
            let tail = w@.skip(a as int);
            assert(tail[0] == w@[a as int]);
            assert(tail.skip(1) =~= w@.skip(a + 1 as int));
            assert(trim_start_punct(tail) == trim_start_punct(tail.skip(1)));
        }
        a = a + 1;
    }
    proof {
        let tail = w@.skip(a as int);
        if a < n {
            assert(tail[0] == w@[a as int]);
            assert(!is_punct_char(tail[0]));
        }
        assert(trim_start_punct(tail) == tail);
        assert(w@.skip(a as int) =~= w@.subrange(a as int, n as int));
    }
    let mut b: usize = n;
    while b > a && punct_char(w.get_char(b - 1))
        invariant
            n == w@.len(),
            a <= b <= n,
            trim_start_punct(w@) == w@.subrange(a as int, n as int),
            trim_end_punct(w@.subrange(a as int, b as int)) == trim_end_punct(
                w@.subrange(a as int, n as int),
            ),
        decreases b,
    {
        proof {
            let part = w@.subrange(a as int, b as int);
            assert(part.last() == w@[b - 1 as int]);
            assert(part.drop_last() =~= w@.subrange(a as int, b - 1 as int));
            assert(trim_end_punct(part) == trim_end_punct(part.drop_last()));
        }
        b = b - 1;
    }
    proof {
        let part = w@.subrange(a as int, b as int);
        if b > a {
            assert(part.last() == w@[b - 1 as int]);
            assert(!is_punct_char(part.last()));
        }
        assert(trim_end_punct(part) == part);
    }
    let r = w.substring_char(a, b);
    proof {
        assert(r@ =~= w@.subrange(a as int, b as int));
    }
    r.to_owned()
}

} // verus!
