//! Wrapping logical lines into rows that remember where they came from.

use crate::selection::{copied, is_continuation, law_copy_restores_line, mark, row_text};
use crate::text::{begins_with, chars_of, joined, texts};
use textwrap::word_splitters::split_words;
use textwrap::{WordSeparator, WordSplitter, WrapAlgorithm};
use vstd::prelude::*;
use vstd::string::*;

verus! {

/// The columns that `s` takes up on the screen.
pub uninterp spec fn columns(s: Seq<char>) -> usize;

/// `textwrap::core::display_width` is a function of the text alone.
pub assume_specification[ textwrap::core::display_width ](text: &str) -> (n: usize)
    ensures
        n == columns(text@),
;

/// A row as `textwrap` groups it: each word with the white space behind it.
pub type Words = Seq<(Seq<char>, Seq<char>)>;

/// How `textwrap` groups the words of `line` into rows, the first `first`
/// columns wide and the others `rest`.
pub uninterp spec fn word_rows(line: Seq<char>, first: usize, rest: usize) -> Seq<Words>;

/// The characters of every word and of the white space behind it.
pub open spec fn words_of(v: Seq<(String, String)>) -> Words {
    v.map_values(|w: (String, String)| (w.0@, w.1@))
}

/// The characters of every word of every row.
pub open spec fn rows_of(v: Seq<Vec<(String, String)>>) -> Seq<Words> {
    v.map_values(|g: Vec<(String, String)>| words_of(g@))
}

/// The words with the white space behind each.
pub open spec fn words_text(g: Words) -> Seq<char>
    decreases g.len(),
{
    if g.len() == 0 {
        Seq::empty()
    } else {
        words_text(g.drop_last()) + g.last().0 + g.last().1
    }
}

/// The words without the white space behind the last.
pub open spec fn row_words(g: Words) -> Seq<char> {
    if g.len() == 0 {
        Seq::empty()
    } else {
        words_text(g.drop_last()) + g.last().0
    }
}

/// The text of all rows, one after the other.
pub open spec fn all_text(rows: Seq<Words>) -> Seq<char>
    decreases rows.len(),
{
    if rows.len() == 0 {
        Seq::empty()
    } else {
        all_text(rows.drop_last()) + words_text(rows.last())
    }
}

/// The white space behind the words is made of spaces.
pub open spec fn spaced(rows: Seq<Words>) -> bool {
    forall|i: int, j: int, k: int|
        0 <= i < rows.len() && 0 <= j < rows[i].len() && 0 <= k < rows[i][j].1.len()
            ==> #[trigger] rows[i][j].1[k] == ' '
}

/// A row without words stands alone.
pub open spec fn filled(rows: Seq<Words>) -> bool {
    rows.len() > 1 ==> forall|i: int| 0 <= i < rows.len() ==> (#[trigger] rows[i]).len() > 0
}

/// The pipeline behind `textwrap::wrap`: `WordSeparator::find_words`,
/// `split_words`, `break_words` and `WrapAlgorithm::wrap`. Every one of them
/// hands on slices that follow each other and cover the line, so the words and
/// the white space behind them make up the line again. `Word::from` takes spaces
/// alone for white space, and the other steps leave it as it is or empty. Only a
/// line without words has a row without words. Where the rows are broken is a
/// function of the line and the widths.
#[verifier::external_body]
fn group_words(line: &str, first: usize, rest: usize) -> (rows: Vec<Vec<(String, String)>>)
    ensures
        rows_of(rows@) == word_rows(line@, first, rest),
        all_text(rows_of(rows@)) == line@,
        spaced(rows_of(rows@)),
        filled(rows_of(rows@)),
{
    let splitter = WordSplitter::HyphenSplitter;
    let words = split_words(WordSeparator::new().find_words(line), &splitter);
    let broken = textwrap::core::break_words(words, rest);
    let widths = [first, rest];
    let rows = WrapAlgorithm::new().wrap(&broken, &widths);
    rows.iter()
        .map(|g| g.iter().map(|w| (w.word.to_string(), w.whitespace.to_string())).collect())
        .collect()
}

/// The rows that a line is shown as, each with the position in the line at
/// which it begins: the first row as it is, the others behind `indent`.
pub open spec fn laid_out(rows: Seq<Words>, indent: Seq<char>) -> Seq<(Seq<char>, int)> {
    if rows.len() == 0 {
        seq![(Seq::empty(), 0)]
    } else {
        Seq::new(rows.len(), |i: int| laid_row(rows, indent, i))
    }
}

/// Row `i` of [`laid_out`].
pub open spec fn laid_row(rows: Seq<Words>, indent: Seq<char>, i: int) -> (Seq<char>, int) {
    if rows[i].len() == 0 {
        (Seq::empty(), 0)
    } else if i == 0 {
        (row_words(rows[i]), 0)
    } else {
        (indent + row_words(rows[i]), all_text(rows.take(i)).len() as int)
    }
}

/// The rows of `line` at a width of `width` columns.
pub open spec fn line_rows(line: Seq<char>, width: usize, indent: Seq<char>) -> Seq<
    (Seq<char>, int),
> {
    laid_out(word_rows(line, width, rest_width(width, indent)), indent)
}

/// The columns left in a row behind `indent`.
pub open spec fn rest_width(width: usize, indent: Seq<char>) -> usize {
    if width >= columns(indent) {
        (width - columns(indent)) as usize
    } else {
        0
    }
}

/// Rows as text and position.
pub open spec fn row_pairs(v: Seq<(String, usize)>) -> Seq<(Seq<char>, int)> {
    v.map_values(|r: (String, usize)| (r.0@, r.1 as int))
}

/// The text of a row without what it is shown behind.
pub open spec fn bare_row(rows: Seq<(Seq<char>, int)>, indent: Seq<char>, i: int) -> Seq<char> {
    if i == 0 {
        rows[i].0
    } else {
        rows[i].0.skip(indent.len() as int)
    }
}

/// Every row's text is the part of `line` that begins at the row's position; the
/// rows after the first are behind `indent`.
pub open spec fn slices_of(line: Seq<char>, rows: Seq<(Seq<char>, int)>, indent: Seq<char>) -> bool {
    forall|i: int| 0 <= i < rows.len() ==> #[trigger] slice_of(line, rows, indent, i)
}

/// Row `i` of [`slices_of`].
pub open spec fn slice_of(
    line: Seq<char>,
    rows: Seq<(Seq<char>, int)>,
    indent: Seq<char>,
    i: int,
) -> bool {
    let text = bare_row(rows, indent, i);
    &&& i > 0 ==> begins_with(rows[i].0, indent)
    &&& 0 <= rows[i].1
    &&& rows[i].1 + text.len() <= line.len()
    &&& text == line.subrange(rows[i].1, rows[i].1 + text.len())
}

/// The rows follow each other in the line: no row begins before the one above it
/// ends.
pub open spec fn rows_in_order(rows: Seq<(Seq<char>, int)>, indent: Seq<char>) -> bool {
    forall|i: int, j: int|
        0 <= i < j < rows.len() ==> (#[trigger] rows[i]).1 + bare_row(rows, indent, i).len() <= (
        #[trigger] rows[j]).1
}

/// Whether the character at `p` of the line is in row `i`.
pub open spec fn in_row(rows: Seq<(Seq<char>, int)>, indent: Seq<char>, i: int, p: int) -> bool {
    0 <= i < rows.len() && rows[i].1 <= p < rows[i].1 + bare_row(rows, indent, i).len()
}

/// What the rows leave out of the line is spaces.
pub open spec fn spaces_left_out(
    line: Seq<char>,
    rows: Seq<(Seq<char>, int)>,
    indent: Seq<char>,
) -> bool {
    forall|p: int|
        0 <= p < line.len() && (forall|i: int| !#[trigger] in_row(rows, indent, i, p))
            ==> #[trigger] line[p] == ' '
}

proof fn lemma_all_text_prefix(rows: Seq<Words>, i: int)
    requires
        0 <= i <= rows.len(),
    ensures
        all_text(rows.take(i)).len() <= all_text(rows).len(),
        all_text(rows).take(all_text(rows.take(i)).len() as int) == all_text(rows.take(i)),
    decreases rows.len() - i,
{
    let whole = all_text(rows);
    if i < rows.len() {
        lemma_all_text_prefix(rows, i + 1);
        assert(rows.take(i + 1).drop_last() =~= rows.take(i));
        let longer = all_text(rows.take(i + 1));
        let shorter = all_text(rows.take(i));
        assert(longer.take(shorter.len() as int) =~= shorter);
        assert(whole.take(shorter.len() as int) =~= whole.take(longer.len() as int).take(
            shorter.len() as int,
        ));
    } else {
        assert(rows.take(i) =~= rows);
        assert(whole.take(whole.len() as int) =~= whole);
    }
}

proof fn lemma_laid_out_slices(rows: Seq<Words>, indent: Seq<char>)
    requires
        filled(rows),
    ensures
        slices_of(all_text(rows), laid_out(rows, indent), indent),
{
    let line = all_text(rows);
    let laid = laid_out(rows, indent);
    assert forall|i: int| 0 <= i < laid.len() implies #[trigger] slice_of(
        line,
        laid,
        indent,
        i,
    ) by {
        let text = bare_row(laid, indent, i);
        if rows.len() == 0 || rows[i].len() == 0 {
            assert(text =~= Seq::empty());
            assert(line.subrange(0, 0) =~= Seq::empty());
        } else {
            lemma_all_text_prefix(rows, i);
            lemma_all_text_prefix(rows, i + 1);
            assert(rows.take(i + 1).drop_last() =~= rows.take(i));
            assert(rows.take(0) =~= Seq::empty());
            let from = all_text(rows.take(i)).len() as int;
            let full = all_text(rows.take(i + 1));
            assert(text =~= row_words(rows[i]));
            assert(i > 0 ==> laid[i].0.take(indent.len() as int) =~= indent);
            assert(words_text(rows[i]).take(text.len() as int) =~= text);
            assert(full.subrange(from, from + text.len()) =~= text);
            assert(full =~= line.take(full.len() as int));
            assert(line.subrange(from, from + text.len()) =~= full.subrange(
                from,
                from + text.len(),
            ));
        }
    }
}

/// Row `i` of a line that has words: where it is in the line, and where the next
/// one begins.
proof fn lemma_laid_row(rows: Seq<Words>, indent: Seq<char>, i: int)
    requires
        0 <= i < rows.len(),
        rows[i].len() > 0,
    ensures
        laid_out(rows, indent)[i].1 == all_text(rows.take(i)).len(),
        bare_row(laid_out(rows, indent), indent, i) == row_words(rows[i]),
        all_text(rows.take(i + 1)) == all_text(rows.take(i)) + row_words(rows[i])
            + rows[i].last().1,
{
    assert(rows.take(0) =~= Seq::empty());
    assert(rows.take(i + 1).drop_last() =~= rows.take(i));
    assert(rows.take(i + 1).last() == rows[i]);
    assert((indent + row_words(rows[i])).skip(indent.len() as int) =~= row_words(rows[i]));
    assert(all_text(rows.take(i)) + words_text(rows[i]) =~= all_text(rows.take(i)) + row_words(
        rows[i],
    ) + rows[i].last().1);
}

/// The row in whose text or white space the character at `p` is.
proof fn lemma_row_at(rows: Seq<Words>, p: int) -> (i: int)
    requires
        0 <= p < all_text(rows).len(),
    ensures
        0 <= i < rows.len(),
        all_text(rows.take(i)).len() <= p < all_text(rows.take(i + 1)).len(),
    decreases rows.len(),
{
    let n = rows.len() - 1;
    assert(rows.take(n) =~= rows.drop_last());
    assert(rows.take(n + 1) =~= rows);
    if p >= all_text(rows.drop_last()).len() {
        n
    } else {
        let i = lemma_row_at(rows.drop_last(), p);
        assert(rows.drop_last().take(i) =~= rows.take(i));
        assert(rows.drop_last().take(i + 1) =~= rows.take(i + 1));
        i
    }
}

/// The rows of a line follow each other in it without overlapping, and what is in
/// no row is a space.
proof fn lemma_laid_out_in_order(rows: Seq<Words>, indent: Seq<char>)
    requires
        spaced(rows),
        filled(rows),
    ensures
        rows_in_order(laid_out(rows, indent), indent),
        spaces_left_out(all_text(rows), laid_out(rows, indent), indent),
{
    let line = all_text(rows);
    let laid = laid_out(rows, indent);
    assert forall|i: int, j: int| 0 <= i < j < laid.len() implies (#[trigger] laid[i]).1 + bare_row(
        laid,
        indent,
        i,
    ).len() <= (#[trigger] laid[j]).1 by {
        assert(rows[i].len() > 0 && rows[j].len() > 0);
        lemma_laid_row(rows, indent, i);
        lemma_laid_row(rows, indent, j);
        lemma_all_text_prefix(rows.take(j), i + 1);
        assert(rows.take(j).take(i + 1) =~= rows.take(i + 1));
    }
    assert forall|p: int|
        0 <= p < line.len() && (forall|i: int|
            !#[trigger] in_row(laid, indent, i, p)) implies #[trigger] line[p] == ' ' by {
        let i = lemma_row_at(rows, p);
        assert(rows.take(i + 1).drop_last() =~= rows.take(i));
        assert(rows[i].len() > 0);
        lemma_laid_row(rows, indent, i);
        lemma_all_text_prefix(rows, i + 1);
        let full = all_text(rows.take(i + 1));
        let k = p - all_text(rows.take(i)).len() - row_words(rows[i]).len();
        assert(!in_row(laid, indent, i, p));
        assert(line.take(full.len() as int)[p] == line[p]);
        assert(full[p] == rows[i].last().1[k]);
        assert(rows[i][rows[i].len() - 1].1[k] == ' ');
    }
}

/// Appends the words of a row, with the white space behind each but the last.
fn push_words(row: &Vec<(String, String)>) -> (r: (String, String))
    ensures
        r.0@ == row_words(words_of(row@)),
        r.1@ == words_text(words_of(row@)),
{
    let mut text = String::new();
    let mut content = String::new();
    let ghost views = words_of(row@);
    let mut i: usize = 0;
    assert(views.take(0) =~= Seq::empty());
    while i < row.len()
        invariant
            i <= row@.len(),
            views == words_of(row@),
            text@ == words_text(views.take(i as int)),
            content@ == row_words(views.take(i as int)),
        decreases row@.len() - i,
    {
        let ghost before = text@;
        proof {
            assert(views.take(i + 1).drop_last() =~= views.take(i as int));
            assert(views.take(i + 1).last() == views[i as int]);
            assert(views[i as int] == (row@[i as int].0@, row@[i as int].1@));
        }
        content = joined(text.as_str(), row[i].0.as_str());
        text = joined(content.as_str(), row[i].1.as_str());
        i += 1;
    }
    assert(views.take(i as int) =~= views);
    (content, text)
}

/// Lays out rows of words: each row with the position at which its text begins;
/// the rows after the first are shown behind `indent`.
pub fn lay_rows(groups: &Vec<Vec<(String, String)>>, indent: &str) -> (rows: Vec<(String, usize)>)
    requires
        all_text(rows_of(groups@)).len() <= usize::MAX,
    ensures
        row_pairs(rows@) == laid_out(rows_of(groups@), indent@),
{
    let ghost views = rows_of(groups@);
    let mut rows: Vec<(String, usize)> = Vec::new();
    let mut offset: usize = 0;
    let mut i: usize = 0;
    assert(views.take(0) =~= Seq::empty());
    while i < groups.len()
        invariant
            i <= groups@.len(),
            views == rows_of(groups@),
            all_text(views).len() <= usize::MAX,
            offset == all_text(views.take(i as int)).len(),
            rows@.len() == i,
            forall|j: int|
                0 <= j < i ==> (#[trigger] rows@[j]).0@ == laid_row(views, indent@, j).0
                    && rows@[j].1 == laid_row(views, indent@, j).1,
        decreases groups@.len() - i,
    {
        let group = &groups[i];
        assert(views[i as int] == words_of(group@));
        let (content, text) = push_words(group);
        let row = if group.len() == 0 {
            (String::new(), 0)
        } else if i == 0 {
            (content, 0)
        } else {
            (joined(indent, content.as_str()), offset)
        };
        rows.push(row);
        let count = chars_of(text.as_str()).len();
        proof {
            assert(views.take(i + 1).drop_last() =~= views.take(i as int));
            lemma_all_text_prefix(views, i + 1);
        }
        offset = offset + count;
        i += 1;
    }
    if rows.len() == 0 {
        rows.push((String::new(), 0));
    }
    assert(row_pairs(rows@) =~= laid_out(views, indent@));
    rows
}

/// Wraps `line` to `width` columns. Every row comes with the position in
/// `line` at which its text begins; the rows after the first are shown behind
/// `indent`. The rows follow each other without overlapping, and leave nothing out
/// but spaces.
pub fn wrap_with_offsets(line: &str, width: usize, indent: &str) -> (rows: Vec<(String, usize)>)
    ensures
        row_pairs(rows@) == line_rows(line@, width, indent@),
        all_text(word_rows(line@, width, rest_width(width, indent@))) == line@,
        rows@.len() > 0,
        slices_of(line@, row_pairs(rows@), indent@),
        rows_in_order(row_pairs(rows@), indent@),
        spaces_left_out(line@, row_pairs(rows@), indent@),
{
    let taken = textwrap::core::display_width(indent);
    let rest = if width >= taken {
        width - taken
    } else {
        0
    };
    let groups = group_words(line, width, rest);
    let total = chars_of(line).len();
    assert(all_text(rows_of(groups@)).len() == total);
    let rows = lay_rows(&groups, indent);
    proof {
        lemma_laid_out_slices(rows_of(groups@), indent@);
        lemma_laid_out_in_order(rows_of(groups@), indent@);
        assert(row_pairs(rows@).len() == rows@.len());
    }
    rows
}

/// The part of `s` after its last carriage return.
pub open spec fn after_return(s: Seq<char>) -> Seq<char>
    decreases s.len(),
{
    if s.len() == 0 || s.last() == '\r' {
        Seq::empty()
    } else {
        after_return(s.drop_last()).push(s.last())
    }
}

/// `s` with every tab written as four spaces.
pub open spec fn spread_tabs(s: Seq<char>) -> Seq<char>
    decreases s.len(),
{
    if s.len() == 0 {
        Seq::empty()
    } else if s.last() == '\t' {
        spread_tabs(s.drop_last()) + seq![' ', ' ', ' ', ' ']
    } else {
        spread_tabs(s.drop_last()).push(s.last())
    }
}

/// What a log line shows: the text after its last carriage return, with the
/// tabs written as spaces.
pub open spec fn shown_line(s: Seq<char>) -> Seq<char> {
    spread_tabs(after_return(s))
}

/// Computes [`shown_line`].
pub fn clean_line(line: &str) -> (s: String)
    ensures
        s@ == shown_line(line@),
{
    let chars = chars_of(line);
    let mut from: usize = chars.len();
    assert(chars@.subrange(from as int, from as int) =~= Seq::empty());
    assert(chars@.take(from as int) =~= chars@);
    assert(after_return(chars@.take(from as int)) + chars@.subrange(from as int, from as int)
        =~= after_return(chars@));
    while from > 0 && chars[from - 1] != '\r'
        invariant
            from <= chars@.len(),
            after_return(chars@.take(from as int)) + chars@.skip(from as int) == after_return(
                chars@,
            ),
        decreases from,
    {
        assert(chars@.take(from as int).drop_last() =~= chars@.take(from - 1));
        assert(after_return(chars@.take(from - 1)).push(chars@[from - 1]) + chars@.skip(
            from as int,
        ) =~= after_return(chars@.take(from - 1)) + chars@.skip(from - 1));
        from -= 1;
    }
    let ghost rest = after_return(chars@);
    assert(after_return(chars@.take(from as int)) =~= Seq::empty());
    assert(rest =~= chars@.skip(from as int));
    let mut out = String::new();
    let mut i: usize = from;
    assert(rest.take(0) =~= Seq::empty());
    while i < chars.len()
        invariant
            from <= i <= chars@.len(),
            rest == chars@.skip(from as int),
            out@ == spread_tabs(rest.take(i - from)),
        decreases chars@.len() - i,
    {
        let ghost before = out@;
        assert(rest.take(i - from + 1).drop_last() =~= rest.take(i - from));
        if chars[i] == '\t' {
            out.push(' ');
            out.push(' ');
            out.push(' ');
            out.push(' ');
            assert(out@ =~= before + seq![' ', ' ', ' ', ' ']);
        } else {
            out.push(chars[i]);
        }
        i += 1;
    }
    assert(rest.take(i - from) =~= rest);
    out
}

/// The rows of a whole log, one line after the other.
pub open spec fn log_rows(lines: Seq<Seq<char>>, width: usize) -> Seq<(Seq<char>, int)>
    decreases lines.len(),
{
    if lines.len() == 0 {
        Seq::empty()
    } else {
        log_rows(lines.drop_last(), width) + line_rows(shown_line(lines.last()), width, mark())
    }
}

/// Rows of text beside their positions, as pairs.
pub open spec fn zipped(rows: Seq<String>, offsets: Seq<usize>) -> Seq<(Seq<char>, int)> {
    Seq::new(rows.len(), |i: int| (rows[i]@, offsets[i] as int))
}

/// Wraps every line of a log to `width` columns: the rows, and each row's
/// position in its line.
pub fn wrap_log(lines: &Vec<String>, width: usize) -> (r: (Vec<String>, Vec<usize>))
    ensures
        r.0@.len() == r.1@.len(),
        zipped(r.0@, r.1@) == log_rows(texts(lines@), width),
{
    let ghost views = texts(lines@);
    let mut wrapped: Vec<String> = Vec::new();
    let mut offsets: Vec<usize> = Vec::new();
    let mut i: usize = 0;
    assert(views.take(0) =~= Seq::empty());
    assert(zipped(wrapped@, offsets@) =~= Seq::empty());
    while i < lines.len()
        invariant
            i <= lines@.len(),
            views == texts(lines@),
            wrapped@.len() == offsets@.len(),
            zipped(wrapped@, offsets@) == log_rows(views.take(i as int), width),
        decreases lines@.len() - i,
    {
        let clean = clean_line(lines[i].as_str());
        let indent = "↪ ";
        proof {
            reveal_strlit("↪ ");
            assert(indent@ =~= mark());
        }
        let mut rows = wrap_with_offsets(clean.as_str(), width, indent);
        let ghost before = zipped(wrapped@, offsets@);
        let ghost pairs = row_pairs(rows@);
        let mut j: usize = 0;
        assert(before + pairs.take(0) =~= before);
        while j < rows.len()
            invariant
                j <= rows@.len(),
                wrapped@.len() == offsets@.len(),
                pairs == row_pairs(rows@),
                zipped(wrapped@, offsets@) == before + pairs.take(j as int),
            decreases rows@.len() - j,
        {
            let ghost now = zipped(wrapped@, offsets@);
            wrapped.push(rows[j].0.clone());
            offsets.push(rows[j].1);
            assert(zipped(wrapped@, offsets@) =~= now.push(pairs[j as int]));
            assert(before + pairs.take(j + 1) =~= (before + pairs.take(j as int)).push(
                pairs[j as int],
            ));
            j += 1;
        }
        assert(pairs.take(j as int) =~= pairs);
        assert(views.take(i + 1).drop_last() =~= views.take(i as int));
        assert(views.take(i + 1).last() == lines@[i as int]@);
        i += 1;
    }
    assert(views.take(i as int) =~= views);
    (wrapped, offsets)
}

/// Every row ends in a single space, but the last, which ends in none.
pub open spec fn breaks_at_spaces(rows: Seq<Words>) -> bool {
    &&& rows.len() > 0
    &&& forall|i: int| 0 <= i < rows.len() ==> (#[trigger] rows[i]).len() > 0
    &&& forall|i: int| 0 <= i < rows.len() - 1 ==> (#[trigger] rows[i]).last().1 == seq![' ']
    &&& rows.last().last().1.len() == 0
}

/// Row `i` of a wrapped line: where it begins, and what it holds of the line.
proof fn lemma_wrapped_row(words: Seq<Words>, rows: Seq<String>, offsets: Seq<usize>, i: int)
    requires
        breaks_at_spaces(words),
        rows.len() == offsets.len(),
        zipped(rows, offsets) == laid_out(words, mark()),
        !is_continuation(rows[0]@),
        0 <= i < rows.len(),
    ensures
        rows.len() == words.len(),
        offsets[i] == all_text(words.take(i)).len(),
        i > 0 ==> is_continuation(rows[i]@),
        row_text(rows[i]@) == row_words(words[i]),
        offsets[i] + row_words(words[i]).len() <= all_text(words).len(),
        row_words(words[i]) == all_text(words).subrange(
            offsets[i] as int,
            offsets[i] + row_words(words[i]).len(),
        ),
{
    let laid = laid_out(words, mark());
    let text = row_words(words[i]);
    lemma_laid_out_slices(words, mark());
    assert(zipped(rows, offsets).len() == rows.len() && laid.len() == words.len());
    assert(zipped(rows, offsets)[i] == (rows[i]@, offsets[i] as int));
    assert(zipped(rows, offsets)[0] == (rows[0]@, offsets[0] as int));
    assert(words.take(0) =~= Seq::empty());
    assert(laid[i] == laid_row(words, mark(), i));
    if i > 0 {
        let behind = mark() + text;
        assert(behind.take(mark().len() as int) =~= mark());
        assert(behind.skip(mark().len() as int) =~= text);
        assert(begins_with(laid[i].0, mark()));
    } else {
        assert(rows[i]@.skip(0) =~= rows[i]@);
    }
    assert(slice_of(all_text(words), laid, mark(), i));
    assert(bare_row(laid, mark(), i) == text);
}

/// What comes behind row `i` of a wrapped line.
proof fn lemma_wrapped_break(words: Seq<Words>, i: int)
    requires
        breaks_at_spaces(words),
        0 <= i < words.len(),
    ensures
        ({
            let line = all_text(words);
            let end = all_text(words.take(i)).len() + row_words(words[i]).len();
            if i < words.len() - 1 {
                &&& all_text(words.take(i + 1)).len() == end + 1
                &&& end < line.len()
                &&& line[end as int] == ' '
            } else {
                end == line.len()
            }
        }),
{
    let line = all_text(words);
    let before = all_text(words.take(i));
    let full = all_text(words.take(i + 1));
    let end = (before.len() + row_words(words[i]).len()) as int;
    assert(words.take(i + 1).drop_last() =~= words.take(i));
    assert(full == before + words_text(words[i]));
    if i < words.len() - 1 {
        lemma_all_text_prefix(words, i + 1);
        assert(full[end] == ' ');
        assert(line.take(full.len() as int)[end] == line[end]);
    } else {
        assert(words.take(i + 1) =~= words);
    }
}

/// A line that is wrapped at single spaces is copied back as it was: selecting
/// all of its rows gives the text that was wrapped.
pub proof fn law_wrapped_line_copies_back(
    words: Seq<Words>,
    rows: Seq<String>,
    offsets: Seq<usize>,
)
    requires
        breaks_at_spaces(words),
        rows.len() == offsets.len(),
        zipped(rows, offsets) == laid_out(words, mark()),
        !is_continuation(rows[0]@),
        rows.len() <= usize::MAX,
        rows[rows.len() - 1]@.len() <= usize::MAX,
    ensures
        copied(
            texts(rows),
            offsets,
            (0, 0, (rows.len() - 1) as usize, rows[rows.len() - 1]@.len() as usize),
            false,
        ) == all_text(words),
{
    let line = all_text(words);
    let shown = texts(rows);
    assert(zipped(rows, offsets).len() == rows.len());
    assert forall|i: int| 0 <= i < shown.len() implies #[trigger] shown[i] == rows[i]@ by {}
    lemma_wrapped_row(words, rows, offsets, 0);
    lemma_wrapped_row(words, rows, offsets, rows.len() - 1);
    lemma_wrapped_break(words, rows.len() - 1);
    assert(words.take(0) =~= Seq::empty());
    assert forall|i: int| 0 < i < shown.len() implies is_continuation(#[trigger] shown[i]) by {
        lemma_wrapped_row(words, rows, offsets, i);
    }
    assert forall|i: int| 0 <= i < shown.len() implies {
        let text = row_text(#[trigger] shown[i]);
        &&& offsets[i] + text.len() <= line.len()
        &&& text == line.subrange(offsets[i] as int, offsets[i] + text.len())
    } by {
        lemma_wrapped_row(words, rows, offsets, i);
    }
    assert forall|i: int| 0 <= i < shown.len() - 1 implies {
        let end = offsets[i] + row_text(#[trigger] shown[i]).len();
        &&& offsets[i + 1] == end + 1
        &&& line[end] == ' '
    } by {
        lemma_wrapped_row(words, rows, offsets, i);
        lemma_wrapped_row(words, rows, offsets, i + 1);
        lemma_wrapped_break(words, i);
    }
    law_copy_restores_line(line, shown, offsets);
}

/// Whether `c` occurs in `s`.
pub open spec fn has_char(s: Seq<char>, c: char) -> bool {
    exists|i: int| 0 <= i < s.len() && #[trigger] s[i] == c
}

/// What a log line shows is what follows its last carriage return, with the tabs
/// spread; a line without one shows all of itself. So nothing that was written over
/// is shown, and no carriage return is left.
pub proof fn law_last_return_wins(a: Seq<char>, b: Seq<char>)
    requires
        !has_char(b, '\r'),
    ensures
        shown_line(a.push('\r') + b) == spread_tabs(b),
        shown_line(b) == spread_tabs(b),
        !has_char(shown_line(b), '\r'),
        !has_char(shown_line(a.push('\r') + b), '\r'),
{
    lemma_after_return(a, b);
    lemma_after_none(b);
    lemma_spread_keeps_out(b, '\r');
}

/// Every line has a last carriage return or none, so what any line shows has
/// none in it.
pub proof fn law_shown_line_has_no_return(s: Seq<char>)
    ensures
        !has_char(shown_line(s), '\r'),
        !has_char(shown_line(s), '\t'),
{
    lemma_after_return_clean(s);
    lemma_spread_keeps_out(after_return(s), '\r');
    lemma_spread_tabs_out(after_return(s));
}

proof fn lemma_after_return(a: Seq<char>, b: Seq<char>)
    requires
        !has_char(b, '\r'),
    ensures
        after_return(a.push('\r') + b) == b,
    decreases b.len(),
{
    let s = a.push('\r') + b;
    if b.len() == 0 {
        assert(s.last() == '\r');
        assert(b =~= Seq::empty());
    } else {
        let less = b.drop_last();
        assert forall|i: int| 0 <= i < less.len() implies #[trigger] less[i] != '\r' by {
            assert(b[i] != '\r');
        }
        lemma_after_return(a, less);
        assert(s.drop_last() =~= a.push('\r') + less);
        assert(b[b.len() - 1] != '\r');
        assert(s.last() == b.last());
        assert(less.push(b.last()) =~= b);
    }
}

proof fn lemma_after_none(b: Seq<char>)
    requires
        !has_char(b, '\r'),
    ensures
        after_return(b) == b,
    decreases b.len(),
{
    if b.len() == 0 {
        assert(b =~= Seq::empty());
    } else {
        let less = b.drop_last();
        assert forall|i: int| 0 <= i < less.len() implies #[trigger] less[i] != '\r' by {
            assert(b[i] != '\r');
        }
        lemma_after_none(less);
        assert(b[b.len() - 1] != '\r');
        assert(less.push(b.last()) =~= b);
    }
}

proof fn lemma_after_return_clean(s: Seq<char>)
    ensures
        !has_char(after_return(s), '\r'),
    decreases s.len(),
{
    if s.len() > 0 && s.last() != '\r' {
        let head = after_return(s.drop_last());
        lemma_after_return_clean(s.drop_last());
        assert forall|i: int| 0 <= i < after_return(s).len() implies #[trigger] after_return(s)[i]
            != '\r' by {
            if i < head.len() {
                assert(after_return(s)[i] == head[i]);
            }
        }
    }
}

proof fn lemma_spread_keeps_out(s: Seq<char>, c: char)
    requires
        !has_char(s, c),
        c != ' ',
    ensures
        !has_char(spread_tabs(s), c),
    decreases s.len(),
{
    if s.len() > 0 {
        let less = s.drop_last();
        assert forall|i: int| 0 <= i < less.len() implies #[trigger] less[i] != c by {
            assert(s[i] != c);
        }
        lemma_spread_keeps_out(less, c);
        assert(s[s.len() - 1] != c);
        let (head, all) = (spread_tabs(less), spread_tabs(s));
        assert forall|i: int| 0 <= i < all.len() implies #[trigger] all[i] != c by {
            if i < head.len() {
                assert(all[i] == head[i]);
            }
        }
    }
}

proof fn lemma_spread_tabs_out(s: Seq<char>)
    ensures
        !has_char(spread_tabs(s), '\t'),
    decreases s.len(),
{
    if s.len() > 0 {
        let less = s.drop_last();
        lemma_spread_tabs_out(less);
        let (head, all) = (spread_tabs(less), spread_tabs(s));
        assert forall|i: int| 0 <= i < all.len() implies #[trigger] all[i] != '\t' by {
            if i < head.len() {
                assert(all[i] == head[i]);
            }
        }
    }
}

/// Spreading tabs puts four spaces in the place of each tab and leaves all else:
/// it can be done piece by piece, and does nothing to a text without tabs.
pub proof fn law_tabs_are_four_spaces(a: Seq<char>, b: Seq<char>)
    ensures
        spread_tabs(a + b) == spread_tabs(a) + spread_tabs(b),
        spread_tabs(seq!['\t']) == seq![' ', ' ', ' ', ' '],
        !has_char(a, '\t') ==> spread_tabs(a) == a,
{
    lemma_spread_concat(a, b);
    let tab = seq!['\t'];
    assert(tab.drop_last() =~= Seq::empty());
    assert(spread_tabs(tab.drop_last()) =~= Seq::empty());
    assert(spread_tabs(tab) =~= seq![' ', ' ', ' ', ' ']);
    if !has_char(a, '\t') {
        lemma_spread_none(a);
    }
}

proof fn lemma_spread_concat(a: Seq<char>, b: Seq<char>)
    ensures
        spread_tabs(a + b) == spread_tabs(a) + spread_tabs(b),
    decreases b.len(),
{
    if b.len() == 0 {
        assert(a + b =~= a);
        assert(spread_tabs(a) + spread_tabs(b) =~= spread_tabs(a));
    } else {
        lemma_spread_concat(a, b.drop_last());
        assert((a + b).drop_last() =~= a + b.drop_last());
        assert(spread_tabs(a + b) =~= spread_tabs(a) + spread_tabs(b));
    }
}

proof fn lemma_spread_none(s: Seq<char>)
    requires
        !has_char(s, '\t'),
    ensures
        spread_tabs(s) == s,
    decreases s.len(),
{
    if s.len() == 0 {
        assert(s =~= Seq::empty());
    } else {
        let less = s.drop_last();
        assert forall|i: int| 0 <= i < less.len() implies #[trigger] less[i] != '\t' by {
            assert(s[i] != '\t');
        }
        lemma_spread_none(less);
        assert(s[s.len() - 1] != '\t');
        assert(less.push(s.last()) =~= s);
    }
}

/// The rows of a log are those of its lines, one line after the other: more lines
/// put more rows behind, and leave those before as they are. Every line has a row.
pub proof fn law_log_rows_follow_lines(a: Seq<Seq<char>>, b: Seq<Seq<char>>, width: usize)
    ensures
        log_rows(a + b, width) == log_rows(a, width) + log_rows(b, width),
        forall|line: Seq<char>|
            #![trigger shown_line(line)]
            log_rows(seq![line], width) == line_rows(shown_line(line), width, mark()),
        log_rows(a, width).len() >= a.len(),
{
    lemma_log_rows_concat(a, b, width);
    assert forall|line: Seq<char>|
        #![trigger shown_line(line)]
        log_rows(seq![line], width) == line_rows(shown_line(line), width, mark()) by {
        let one = seq![line];
        assert(one.drop_last() =~= Seq::empty());
        assert(log_rows(one.drop_last(), width) =~= Seq::empty());
        assert(log_rows(one, width) =~= line_rows(shown_line(line), width, mark()));
    }
    lemma_log_rows_many(a, width);
}

proof fn lemma_log_rows_concat(a: Seq<Seq<char>>, b: Seq<Seq<char>>, width: usize)
    ensures
        log_rows(a + b, width) == log_rows(a, width) + log_rows(b, width),
    decreases b.len(),
{
    if b.len() == 0 {
        assert(a + b =~= a);
        assert(log_rows(a, width) + log_rows(b, width) =~= log_rows(a, width));
    } else {
        lemma_log_rows_concat(a, b.drop_last(), width);
        assert((a + b).drop_last() =~= a + b.drop_last());
        assert(log_rows(a + b, width) =~= log_rows(a, width) + log_rows(b, width));
    }
}

proof fn lemma_log_rows_many(lines: Seq<Seq<char>>, width: usize)
    ensures
        log_rows(lines, width).len() >= lines.len(),
    decreases lines.len(),
{
    if lines.len() > 0 {
        lemma_log_rows_many(lines.drop_last(), width);
    }
}

/// The rows after the first are as much narrower as what they are shown behind is
/// wide, so that no row is wider than the first; where there is no room left, they
/// have none.
pub proof fn law_continued_rows_leave_room(
    line: Seq<char>,
    width: usize,
    indent: Seq<char>,
    rest: usize,
)
    requires
        rest + columns(indent) == width || width < columns(indent) && rest == 0,
    ensures
        line_rows(line, width, indent) == laid_out(word_rows(line, width, rest), indent),
{
}

/// A row shows its words with the white space between them, but not what is behind
/// the last; the first row as it is, the others behind `indent`. Each begins in the
/// line where the rows above it end, all their white space counted.
pub proof fn law_rows_show_their_words(rows: Seq<Words>, indent: Seq<char>, i: int)
    requires
        0 <= i < rows.len(),
        rows[i].len() > 0,
    ensures
        laid_out(rows, indent).len() == rows.len(),
        ({
            let (text, at) = laid_out(rows, indent)[i];
            let shown = if i == 0 {
                text
            } else {
                text.skip(indent.len() as int)
            };
            &&& i > 0 ==> text.take(indent.len() as int) == indent
            &&& shown + rows[i].last().1 == words_text(rows[i])
            &&& at == all_text(rows.take(i)).len()
        }),
{
    lemma_laid_row(rows, indent, i);
    let text = laid_out(rows, indent)[i].0;
    if i > 0 {
        assert(text.take(indent.len() as int) =~= indent);
    }
}

} // verus!
