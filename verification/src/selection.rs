//! Text selection over wrapped rows.
//!
//! A logical line that does not fit is shown as several rows; every row but
//! the first begins with the continuation mark. A selection is a pair of
//! (row, column) positions: the start is inside, the end is just outside. For
//! a plain selection the columns are display columns, which count the mark;
//! for a rectangular one they are columns of the original line.

pub mod laws;

use crate::text::{alphanumeric, append_range, begins_with, chars_of, texts};
use vstd::prelude::*;
use vstd::string::*;

verus! {

/// What a continuation row begins with.
pub open spec fn mark() -> Seq<char> {
    seq!['↪', ' ']
}

/// Whether a row continues the row above it.
pub open spec fn is_continuation(row: Seq<char>) -> bool {
    begins_with(row, mark())
}

/// The columns that the mark takes up in a row.
pub open spec fn row_indent(row: Seq<char>) -> int {
    if is_continuation(row) {
        2
    } else {
        0
    }
}

/// A row without its mark.
pub open spec fn row_text(row: Seq<char>) -> Seq<char> {
    row.skip(row_indent(row))
}

/// Decides [`is_continuation`].
pub fn continues(row: &Vec<char>) -> (b: bool)
    ensures
        b == is_continuation(row@),
{
    let b = row.len() >= 2 && row[0] == '↪' && row[1] == ' ';
    proof {
        if row@.len() >= 2 {
            if b {
                assert(row@.take(2) =~= mark());
            } else {
                assert(row@.take(2)[0] == row@[0] && row@.take(2)[1] == row@[1]);
            }
        }
    }
    b
}

/// A row without its mark, and the columns that the mark took up.
pub fn row_content(row: &str) -> (r: (&str, usize))
    ensures
        r.0@ == row_text(row@),
        r.1 == row_indent(row@),
{
    let chars = chars_of(row);
    if continues(&chars) {
        (row.substring_char(2, chars.len()), 2)
    } else {
        assert(row@.skip(0) =~= row@);
        (row, 0)
    }
}

/// The offset of a row into its original line: 0 where none is known.
pub open spec fn offset_of(offsets: Seq<usize>, row: int) -> int {
    if 0 <= row < offsets.len() {
        offsets[row] as int
    } else {
        0
    }
}

/// The mark's columns in row `row`: 0 where there is no such row.
pub open spec fn indent_of(rows: Seq<Seq<char>>, row: int) -> int {
    if 0 <= row < rows.len() {
        row_indent(rows[row])
    } else {
        0
    }
}

/// The column of the original line that is shown at display column `col` of
/// row `row`.
pub open spec fn original_column(
    rows: Seq<Seq<char>>,
    offsets: Seq<usize>,
    row: int,
    col: int,
) -> int {
    let indent = indent_of(rows, row);
    offset_of(offsets, row) + if col >= indent {
        col - indent
    } else {
        0
    }
}

/// The offset of row `row`, 0 where none is known.
pub fn offset_at(offsets: &Vec<usize>, row: usize) -> (o: usize)
    ensures
        o == offset_of(offsets@, row as int),
{
    if row < offsets.len() {
        offsets[row]
    } else {
        0
    }
}

/// The original-line column for a display position.
pub fn orig_col(wrapped: &Vec<String>, offsets: &Vec<usize>, row: usize, display_col: usize) -> (c:
    usize)
    requires
        original_column(texts(wrapped@), offsets@, row as int, display_col as int) <= usize::MAX,
    ensures
        c == original_column(texts(wrapped@), offsets@, row as int, display_col as int),
{
    let indent = if row < wrapped.len() {
        row_content(wrapped[row].as_str()).1
    } else {
        0
    };
    let off = offset_at(offsets, row);
    if display_col >= indent {
        off + (display_col - indent)
    } else {
        off
    }
}

/// Whether position `a` comes before position `b` or is the same.
pub open spec fn at_or_before(ar: int, ac: int, br: int, bc: int) -> bool {
    ar < br || (ar == br && ac <= bc)
}

/// Decides [`at_or_before`].
pub fn precedes(a: (usize, usize), b: (usize, usize)) -> (r: bool)
    ensures
        r == at_or_before(a.0 as int, a.1 as int, b.0 as int, b.1 as int),
{
    a.0 < b.0 || (a.0 == b.0 && a.1 <= b.1)
}

/// A selection's two positions.
pub type Selection = (usize, usize, usize, usize);

/// A selection with its earlier position first.
pub open spec fn ordered(sel: Selection) -> Selection {
    if at_or_before(sel.0 as int, sel.1 as int, sel.2 as int, sel.3 as int) {
        sel
    } else {
        (sel.2, sel.3, sel.0, sel.1)
    }
}

/// Computes [`ordered`].
pub fn in_order(sel: Selection) -> (r: Selection)
    ensures
        r == ordered(sel),
{
    if precedes((sel.0, sel.1), (sel.2, sel.3)) {
        sel
    } else {
        (sel.2, sel.3, sel.0, sel.1)
    }
}

pub open spec fn least(a: int, b: int) -> int {
    if a <= b {
        a
    } else {
        b
    }
}

pub open spec fn greatest(a: int, b: int) -> int {
    if a >= b {
        a
    } else {
        b
    }
}

/// Whether an ordered selection takes in the display cell at column `col` of
/// row `row`, of which `line` is the text.
pub open spec fn cell_selected(
    sel: Selection,
    rect: bool,
    line: Seq<char>,
    offsets: Seq<usize>,
    row: int,
    col: int,
) -> bool {
    if rect {
        let at = offset_of(offsets, row) + (col - row_indent(line));
        &&& sel.0 <= row <= sel.2
        &&& row_indent(line) <= col
        &&& least(sel.1 as int, sel.3 as int) <= at < greatest(sel.1 as int, sel.3 as int)
    } else {
        &&& sel.0 <= row <= sel.2
        &&& row == sel.0 ==> sel.1 <= col
        &&& row == sel.2 ==> col < sel.3
    }
}

/// The part of `text` between columns `from` and `to`, as far as it goes.
pub open spec fn cut(text: Seq<char>, from: int, to: int) -> Seq<char> {
    let a = least(greatest(from, 0), text.len() as int);
    let b = least(greatest(to, 0), text.len() as int);
    if a < b {
        text.subrange(a, b)
    } else {
        Seq::empty()
    }
}

/// What an ordered selection takes out of row `row`.
pub open spec fn row_piece(
    rows: Seq<Seq<char>>,
    offsets: Seq<usize>,
    sel: Selection,
    rect: bool,
    row: int,
) -> Seq<char> {
    let text = row_text(rows[row]);
    if rect {
        cut(
            text,
            least(sel.1 as int, sel.3 as int) - offset_of(offsets, row),
            greatest(sel.1 as int, sel.3 as int) - offset_of(offsets, row),
        )
    } else {
        cut(
            text,
            if row == sel.0 {
                sel.1 - row_indent(rows[row])
            } else {
                0
            },
            if row == sel.2 {
                sel.3 - row_indent(rows[row])
            } else {
                text.len() as int
            },
        )
    }
}

/// What stands between row `row` and the next one in the copied text: nothing
/// after the last row, the space that wrapping took out where the next row
/// continues the line, a line break otherwise.
pub open spec fn row_break(rows: Seq<Seq<char>>, sel: Selection, rect: bool, row: int) -> Seq<
    char,
> {
    if row >= sel.2 {
        Seq::empty()
    } else if !rect && row + 1 < rows.len() && is_continuation(rows[row + 1]) {
        seq![' ']
    } else {
        seq!['\n']
    }
}

/// The copied text of an ordered selection from row `row` on.
pub open spec fn copied_from(
    rows: Seq<Seq<char>>,
    offsets: Seq<usize>,
    sel: Selection,
    rect: bool,
    row: int,
) -> Seq<char>
    decreases rows.len() - row,
{
    if row < 0 || row >= rows.len() || row > sel.2 {
        Seq::empty()
    } else {
        row_piece(rows, offsets, sel, rect, row) + row_break(rows, sel, rect, row) + copied_from(
            rows,
            offsets,
            sel,
            rect,
            row + 1,
        )
    }
}

/// The copied text of a selection.
pub open spec fn copied(
    rows: Seq<Seq<char>>,
    offsets: Seq<usize>,
    sel: Selection,
    rect: bool,
) -> Seq<char> {
    copied_from(rows, offsets, ordered(sel), rect, ordered(sel).0 as int)
}

/// Appends columns `from` to `to` of a row's text, as far as it goes.
fn push_piece(out: &mut String, chars: &Vec<char>, indent: usize, from: usize, to: usize)
    requires
        indent <= chars@.len(),
    ensures
        final(out)@ == old(out)@ + cut(chars@.skip(indent as int), from as int, to as int),
{
    let n = chars.len() - indent;
    let a = if from < n {
        from
    } else {
        n
    };
    let b = if to < n {
        to
    } else {
        n
    };
    if a < b {
        append_range(out, chars, indent + a, indent + b);
        assert(chars@.subrange(indent + a, indent + b) =~= chars@.skip(indent as int).subrange(
            a as int,
            b as int,
        ));
    } else {
        assert(out@ + Seq::<char>::empty() =~= out@);
    }
}

/// The text that a selection copies: the marks are left out, rows of one
/// original line are joined by the space that wrapping took out, and different
/// lines are separated by a line break. A rectangular selection gives one line
/// per row, empty for a row that the columns do not reach.
pub fn extract_selection(
    wrapped: &Vec<String>,
    offsets: &Vec<usize>,
    sr: usize,
    sc: usize,
    er: usize,
    ec: usize,
    rect: bool,
) -> (text: String)
    ensures
        text@ == copied(texts(wrapped@), offsets@, (sr, sc, er, ec), rect),
{
    let sel = in_order((sr, sc, er, ec));
    let ghost rows = texts(wrapped@);
    let mut result = String::new();
    let mut row: usize = sel.0;
    let ghost whole = copied_from(rows, offsets@, sel, rect, sel.0 as int);
    assert(result@ + whole =~= whole);
    while row < wrapped.len() && row <= sel.2
        invariant
            rows == texts(wrapped@),
            sel.0 <= row,
            result@ + copied_from(rows, offsets@, sel, rect, row as int) == whole,
        decreases wrapped@.len() - row,
    {
        let ghost before = result@;
        let chars = chars_of(wrapped[row].as_str());
        assert(rows[row as int] == chars@);
        let cont = continues(&chars);
        let indent: usize = if cont {
            2
        } else {
            0
        };
        let n = chars.len() - indent;
        if rect {
            let off = offset_at(offsets, row);
            let lo = if sel.1 <= sel.3 {
                sel.1
            } else {
                sel.3
            };
            let hi = if sel.1 <= sel.3 {
                sel.3
            } else {
                sel.1
            };
            let from = if lo >= off {
                lo - off
            } else {
                0
            };
            let to = if hi >= off {
                hi - off
            } else {
                0
            };
            push_piece(&mut result, &chars, indent, from, to);
        } else {
            let from = if row == sel.0 {
                if sel.1 >= indent {
                    sel.1 - indent
                } else {
                    0
                }
            } else {
                0
            };
            let to = if row == sel.2 {
                if sel.3 >= indent {
                    sel.3 - indent
                } else {
                    0
                }
            } else {
                n
            };
            push_piece(&mut result, &chars, indent, from, to);
        }
        assert(result@ == before + row_piece(rows, offsets@, sel, rect, row as int));
        if row < sel.2 {
            let mut next_cont = false;
            if !rect && row + 1 < wrapped.len() {
                let next = chars_of(wrapped[row + 1].as_str());
                assert(rows[row + 1] == next@);
                next_cont = continues(&next);
            }
            result.push(
                if next_cont {
                    ' '
                } else {
                    '\n'
                },
            );
        }
        assert(result@ =~= before + row_piece(rows, offsets@, sel, rect, row as int) + row_break(
            rows,
            sel,
            rect,
            row as int,
        ));
        assert(before + copied_from(rows, offsets@, sel, rect, row as int) =~= result@
            + copied_from(rows, offsets@, sel, rect, row + 1));
        row += 1;
    }
    assert(copied_from(rows, offsets@, sel, rect, row as int) =~= Seq::<char>::empty());
    assert(result@ + Seq::<char>::empty() =~= result@);
    result
}

/// Whether `c` belongs to a word: a letter or number, or one of the characters
/// that paths and addresses are written with.
pub open spec fn word_char(c: char) -> bool {
    alphanumeric(c) || c == '-' || c == '.' || c == '/' || c == ':' || c == '%' || c == '_' || c
        == '@' || c == '~'
}

/// Decides [`word_char`].
pub fn is_word_char(c: char) -> (b: bool)
    ensures
        b == word_char(c),
{
    c.is_alphanumeric() || c == '-' || c == '.' || c == '/' || c == ':' || c == '%' || c == '_'
        || c == '@' || c == '~'
}

/// The start of the run of word characters that ends just before `col`.
pub open spec fn word_start(line: Seq<char>, col: int) -> int
    decreases col,
{
    if 0 < col <= line.len() && word_char(line[col - 1]) {
        word_start(line, col - 1)
    } else {
        col
    }
}

/// The end of the run of word characters that begins at `col`.
pub open spec fn word_end(line: Seq<char>, col: int) -> int
    decreases line.len() - col,
{
    if 0 <= col < line.len() && word_char(line[col]) {
        word_end(line, col + 1)
    } else {
        col
    }
}

/// The word around column `col`: the run of word characters that it lies in,
/// the single character where that is none, nothing beyond the line.
pub open spec fn word_span(line: Seq<char>, col: int) -> (int, int) {
    if col >= line.len() {
        (col, col)
    } else if !word_char(line[col]) {
        (col, col + 1)
    } else {
        (word_start(line, col), word_end(line, col))
    }
}

/// The word around a column: its first column and the one after its last.
pub fn word_boundaries(line: &str, col: usize) -> (r: (usize, usize))
    ensures
        r.0 == word_span(line@, col as int).0,
        r.1 == word_span(line@, col as int).1,
{
    let chars = chars_of(line);
    if col >= chars.len() {
        return (col, col);
    }
    if !is_word_char(chars[col]) {
        return (col, col + 1);
    }
    let mut start: usize = col;
    while start > 0 && is_word_char(chars[start - 1])
        invariant
            start <= col < chars@.len(),
            word_start(chars@, start as int) == word_start(chars@, col as int),
        decreases start,
    {
        start -= 1;
    }
    let mut end: usize = col;
    while end < chars.len() && is_word_char(chars[end])
        invariant
            col <= end <= chars@.len(),
            word_end(chars@, end as int) == word_end(chars@, col as int),
        decreases chars@.len() - end,
    {
        end += 1;
    }
    (start, end)
}

/// What a drag selects: single characters, whole words, or whole rows.
#[derive(Debug, Clone, Copy, PartialEq, Eq, Structural)]
pub enum ClickMode {
    Char,
    Word,
    Line,
}

/// The characters in row `row`: 0 where there is no such row.
pub open spec fn row_len(rows: Seq<Seq<char>>, row: int) -> int {
    if 0 <= row < rows.len() {
        rows[row].len() as int
    } else {
        0
    }
}

/// The nearest row that exists.
pub open spec fn row_within(rows: Seq<Seq<char>>, row: int) -> int {
    if rows.len() == 0 {
        0
    } else {
        least(row, rows.len() - 1)
    }
}

/// The selection of a plain drag by single characters from `(ar, ac)` to
/// `(cr, cc)`: both end characters are inside, whichever comes first.
pub open spec fn span(ar: int, ac: int, cr: int, cc: int) -> Selection {
    if at_or_before(ar, ac, cr, cc) {
        (ar as usize, ac as usize, cr as usize, (cc + 1) as usize)
    } else {
        (cr as usize, cc as usize, ar as usize, (ac + 1) as usize)
    }
}

/// The selection of a rectangular drag from `(ar, ac)` to `(cr, cc)`, columns
/// taken in the original lines: the box that has both end characters inside.
pub open spec fn boxed(ar: int, ac: int, cr: int, cc: int) -> Selection {
    (
        least(ar, cr) as usize,
        least(ac, cc) as usize,
        greatest(ar, cr) as usize,
        (greatest(ac, cc) + 1) as usize,
    )
}

/// The word around a position; nothing where there is no such row.
pub open spec fn word_around(rows: Seq<Seq<char>>, row: int, col: int) -> (int, int) {
    if 0 <= row < rows.len() {
        word_span(rows[row], col)
    } else {
        (col, col)
    }
}

/// The selection of a drag by words from `(ar, ac)`, where a word begins, to
/// `(cr, cc)`: up to the end of the word at the later end, and from the beginning
/// of the word at the earlier end where the drag goes back.
pub open spec fn word_drag(rows: Seq<Seq<char>>, ar: int, ac: int, cr: int, cc: int) -> Selection {
    if at_or_before(ar, ac, cr, cc) {
        (
            ar as usize,
            ac as usize,
            cr as usize,
            word_around(rows, cr, cc).1 as usize,
        )
    } else {
        (
            cr as usize,
            word_around(rows, cr, cc).0 as usize,
            ar as usize,
            word_around(rows, ar, ac).1 as usize,
        )
    }
}

/// The selection after a drag from the display position `anchor` to the
/// display position `current`, when `before` was selected.
pub open spec fn dragged(
    rows: Seq<Seq<char>>,
    offsets: Seq<usize>,
    mode: ClickMode,
    rect: bool,
    anchor: (usize, usize),
    current: (usize, usize),
    before: Option<Selection>,
) -> Option<Selection> {
    let row = row_within(rows, current.0 as int);
    let col = least(current.1 as int, row_len(rows, row));
    match mode {
        ClickMode::Char => if rect {
            Some(
                boxed(
                    anchor.0 as int,
                    original_column(rows, offsets, anchor.0 as int, anchor.1 as int),
                    row,
                    original_column(rows, offsets, row, col),
                ),
            )
        } else {
            Some(span(anchor.0 as int, anchor.1 as int, row, col))
        },
        ClickMode::Word => if row < rows.len() {
            Some(word_drag(rows, anchor.0 as int, anchor.1 as int, row, col))
        } else {
            before
        },
        ClickMode::Line => {
            let last = greatest(anchor.0 as int, row);
            Some(
                (least(anchor.0 as int, row) as usize, 0, last as usize, row_len(rows, last) as usize),
            )
        },
    }
}

/// The columns that a drag by single characters from `anchor` to `current`
/// computes fit: a plain one goes one beyond the column of its later end, a
/// rectangular one beyond the larger column in the original lines.
pub open spec fn drag_fits(
    rows: Seq<Seq<char>>,
    offsets: Seq<usize>,
    mode: ClickMode,
    rect: bool,
    anchor: (usize, usize),
    current: (usize, usize),
) -> bool {
    let row = row_within(rows, current.0 as int);
    let col = least(current.1 as int, row_len(rows, row));
    mode == ClickMode::Char ==> if rect {
        &&& original_column(rows, offsets, anchor.0 as int, anchor.1 as int) < usize::MAX
        &&& original_column(rows, offsets, row, col) < usize::MAX
    } else {
        (if at_or_before(anchor.0 as int, anchor.1 as int, row, col) {
            col
        } else {
            anchor.1 as int
        }) < usize::MAX
    }
}

fn span_of(anchor: (usize, usize), current: (usize, usize)) -> (s: Selection)
    requires
        at_or_before(anchor.0 as int, anchor.1 as int, current.0 as int, current.1 as int)
            ==> current.1 < usize::MAX,
        !at_or_before(anchor.0 as int, anchor.1 as int, current.0 as int, current.1 as int)
            ==> anchor.1 < usize::MAX,
    ensures
        s == span(anchor.0 as int, anchor.1 as int, current.0 as int, current.1 as int),
{
    if precedes(anchor, current) {
        (anchor.0, anchor.1, current.0, current.1 + 1)
    } else {
        (current.0, current.1, anchor.0, anchor.1 + 1)
    }
}

fn box_of(anchor: (usize, usize), current: (usize, usize)) -> (s: Selection)
    requires
        anchor.1 < usize::MAX,
        current.1 < usize::MAX,
    ensures
        s == boxed(anchor.0 as int, anchor.1 as int, current.0 as int, current.1 as int),
{
    let (top, bottom) = if anchor.0 <= current.0 {
        (anchor.0, current.0)
    } else {
        (current.0, anchor.0)
    };
    let (left, right) = if anchor.1 <= current.1 {
        (anchor.1, current.1)
    } else {
        (current.1, anchor.1)
    };
    (top, left, bottom, right + 1)
}

/// The characters in row `row`.
fn length_of_row(wrapped: &Vec<String>, row: usize) -> (n: usize)
    ensures
        n == row_len(texts(wrapped@), row as int),
{
    if row < wrapped.len() {
        assert(texts(wrapped@)[row as int] == wrapped@[row as int]@);
        char_count(wrapped[row].as_str())
    } else {
        0
    }
}

/// Computes [`word_around`].
fn word_at(wrapped: &Vec<String>, at: (usize, usize)) -> (r: (usize, usize))
    ensures
        r.0 == word_around(texts(wrapped@), at.0 as int, at.1 as int).0,
        r.1 == word_around(texts(wrapped@), at.0 as int, at.1 as int).1,
{
    if at.0 < wrapped.len() {
        assert(texts(wrapped@)[at.0 as int] == wrapped@[at.0 as int]@);
        word_boundaries(wrapped[at.0].as_str(), at.1)
    } else {
        (at.1, at.1)
    }
}

/// The number of characters of a string.
pub fn char_count(s: &str) -> (n: usize)
    ensures
        n == s@.len(),
{
    chars_of(s).len()
}

/// The selection after a drag; see [`dragged`].
pub fn drag_selection(
    wrapped: &Vec<String>,
    offsets: &Vec<usize>,
    mode: ClickMode,
    rect: bool,
    anchor: (usize, usize),
    current: (usize, usize),
    before: Option<Selection>,
) -> (r: Option<Selection>)
    requires
        drag_fits(texts(wrapped@), offsets@, mode, rect, anchor, current),
    ensures
        r == dragged(texts(wrapped@), offsets@, mode, rect, anchor, current, before),
{
    let n = wrapped.len();
    let row: usize = if n == 0 {
        0
    } else if current.0 < n {
        current.0
    } else {
        n - 1
    };
    let len = length_of_row(wrapped, row);
    let col: usize = if current.1 <= len {
        current.1
    } else {
        len
    };
    match mode {
        ClickMode::Char => {
            if rect {
                let a_col = orig_col(wrapped, offsets, anchor.0, anchor.1);
                let c_col = orig_col(wrapped, offsets, row, col);
                Some(box_of((anchor.0, a_col), (row, c_col)))
            } else {
                Some(span_of(anchor, (row, col)))
            }
        },
        ClickMode::Word => {
            if row < n {
                let at = (row, col);
                if precedes(anchor, at) {
                    Some((anchor.0, anchor.1, row, word_at(wrapped, at).1))
                } else {
                    Some((row, word_at(wrapped, at).0, anchor.0, word_at(wrapped, anchor).1))
                }
            } else {
                before
            }
        },
        ClickMode::Line => {
            let (first, last) = if anchor.0 <= row {
                (anchor.0, row)
            } else {
                (row, anchor.0)
            };
            Some((first, 0, last, length_of_row(wrapped, last)))
        },
    }
}

/// The number of characters in all rows together.
pub open spec fn total_len(rows: Seq<Seq<char>>) -> int
    decreases rows.len(),
{
    if rows.len() == 0 {
        0
    } else {
        total_len(rows.drop_last()) + rows.last().len()
    }
}

/// The text of a selection does not depend on which of its two positions is
/// named first.
pub proof fn law_copy_ignores_direction(
    rows: Seq<Seq<char>>,
    offsets: Seq<usize>,
    sel: Selection,
    rect: bool,
)
    ensures
        copied(rows, offsets, sel, rect) == copied(
            rows,
            offsets,
            (sel.2, sel.3, sel.0, sel.1),
            rect,
        ),
{
}

/// A box is named by either of its diagonals: exchanging its two columns changes
/// neither what is copied nor what is highlighted.
pub proof fn law_box_has_two_diagonals(
    rows: Seq<Seq<char>>,
    offsets: Seq<usize>,
    sel: Selection,
    line: Seq<char>,
    row: int,
    col: int,
)
    ensures
        copied(rows, offsets, sel, true) == copied(
            rows,
            offsets,
            (sel.0, sel.3, sel.2, sel.1),
            true,
        ),
        cell_selected(ordered(sel), true, line, offsets, row, col) == cell_selected(
            ordered((sel.0, sel.3, sel.2, sel.1)),
            true,
            line,
            offsets,
            row,
            col,
        ),
{
    let a = ordered(sel);
    lemma_box_rows(rows, offsets, a, ordered((sel.0, sel.3, sel.2, sel.1)), a.0 as int);
}

proof fn lemma_box_rows(
    rows: Seq<Seq<char>>,
    offsets: Seq<usize>,
    a: Selection,
    b: Selection,
    row: int,
)
    requires
        a.2 == b.2,
        least(a.1 as int, a.3 as int) == least(b.1 as int, b.3 as int),
        greatest(a.1 as int, a.3 as int) == greatest(b.1 as int, b.3 as int),
    ensures
        copied_from(rows, offsets, a, true, row) == copied_from(rows, offsets, b, true, row),
    decreases rows.len() - row,
{
    if 0 <= row < rows.len() {
        lemma_box_rows(rows, offsets, a, b, row + 1);
    }
}

/// Copying up to a position inside a selection and then on from there gives what
/// the selection copies.
pub proof fn law_copy_splits(
    rows: Seq<Seq<char>>,
    offsets: Seq<usize>,
    sel: Selection,
    at: (usize, usize),
)
    requires
        at_or_before(sel.0 as int, sel.1 as int, at.0 as int, at.1 as int),
        at_or_before(at.0 as int, at.1 as int, sel.2 as int, sel.3 as int),
    ensures
        copied(rows, offsets, sel, false) == copied(
            rows,
            offsets,
            (sel.0, sel.1, at.0, at.1),
            false,
        ) + copied(rows, offsets, (at.0, at.1, sel.2, sel.3), false),
{
    lemma_copy_up_to(rows, offsets, sel, at, sel.0 as int);
}

/// The rows of a selection after its first one do not depend on where it begins.
proof fn lemma_copy_from_below(
    rows: Seq<Seq<char>>,
    offsets: Seq<usize>,
    a: Selection,
    b: Selection,
    row: int,
)
    requires
        a.2 == b.2,
        a.3 == b.3,
        a.0 < row,
        b.0 < row,
    ensures
        copied_from(rows, offsets, a, false, row) == copied_from(rows, offsets, b, false, row),
    decreases rows.len() - row,
{
    if row < rows.len() {
        lemma_copy_from_below(rows, offsets, a, b, row + 1);
    }
}

proof fn lemma_copy_up_to(
    rows: Seq<Seq<char>>,
    offsets: Seq<usize>,
    sel: Selection,
    at: (usize, usize),
    row: int,
)
    requires
        at_or_before(sel.0 as int, sel.1 as int, at.0 as int, at.1 as int),
        at_or_before(at.0 as int, at.1 as int, sel.2 as int, sel.3 as int),
        sel.0 <= row <= at.0,
    ensures
        copied_from(rows, offsets, sel, false, row) == copied_from(
            rows,
            offsets,
            (sel.0, sel.1, at.0, at.1),
            false,
            row,
        ) + copied_from(rows, offsets, (at.0, at.1, sel.2, sel.3), false, at.0 as int),
    decreases at.0 - row,
{
    let (head, tail) = ((sel.0, sel.1, at.0, at.1), (at.0, at.1, sel.2, sel.3));
    let whole = copied_from(rows, offsets, sel, false, row);
    let first = copied_from(rows, offsets, head, false, row);
    let rest = copied_from(rows, offsets, tail, false, at.0 as int);
    if row >= rows.len() {
        assert(whole =~= first + rest);
    } else if row < at.0 {
        lemma_copy_up_to(rows, offsets, sel, at, row + 1);
        assert(whole =~= first + rest);
    } else {
        lemma_copy_from_below(rows, offsets, sel, tail, row + 1);
        let (a, b) = (
            row_piece(rows, offsets, head, false, row),
            row_piece(rows, offsets, tail, false, row),
        );
        assert(row_piece(rows, offsets, sel, false, row) =~= a + b);
        assert(first =~= a);
        assert(whole =~= first + rest);
    }
}

proof fn lemma_total_len_skip(rows: Seq<Seq<char>>, row: int)
    requires
        0 <= row < rows.len(),
    ensures
        total_len(rows.skip(row)) == rows[row].len() + total_len(rows.skip(row + 1)),
    decreases rows.len() - row,
{
    let from = rows.skip(row);
    if row + 1 == rows.len() {
        assert(from.drop_last() =~= Seq::empty());
        assert(rows.skip(row + 1) =~= Seq::empty());
    } else {
        let shorter = rows.drop_last();
        lemma_total_len_skip(shorter, row);
        assert(from.drop_last() =~= shorter.skip(row));
        assert(rows.skip(row + 1).drop_last() =~= shorter.skip(row + 1));
    }
}

proof fn lemma_copied_from_bounded(
    rows: Seq<Seq<char>>,
    offsets: Seq<usize>,
    sel: Selection,
    rect: bool,
    row: int,
)
    requires
        0 <= row,
    ensures
        row <= rows.len() ==> copied_from(rows, offsets, sel, rect, row).len() <= total_len(
            rows.skip(row),
        ) + (rows.len() - row),
        row > rows.len() ==> copied_from(rows, offsets, sel, rect, row).len() == 0,
        total_len(rows.skip(row)) >= 0,
    decreases rows.len() - row,
{
    if row < rows.len() {
        lemma_copied_from_bounded(rows, offsets, sel, rect, row + 1);
        lemma_total_len_skip(rows, row);
    } else if row == rows.len() {
        assert(rows.skip(row) =~= Seq::empty());
    } else {
        lemma_total_len_nonnegative(rows.skip(row));
    }
}

proof fn lemma_total_len_nonnegative(rows: Seq<Seq<char>>)
    ensures
        total_len(rows) >= 0,
    decreases rows.len(),
{
    if rows.len() > 0 {
        lemma_total_len_nonnegative(rows.drop_last());
    }
}

proof fn lemma_total_len_rest(rows: Seq<Seq<char>>, row: int)
    requires
        0 <= row <= rows.len(),
    ensures
        total_len(rows.skip(row)) <= total_len(rows),
    decreases row,
{
    if row == 0 {
        assert(rows.skip(0) =~= rows);
    } else {
        lemma_total_len_rest(rows, row - 1);
        lemma_total_len_skip(rows, row - 1);
    }
}

/// A selection never copies more than all rows hold, with one separator per
/// row.
pub proof fn law_copy_bounded(
    rows: Seq<Seq<char>>,
    offsets: Seq<usize>,
    sel: Selection,
    rect: bool,
)
    ensures
        copied(rows, offsets, sel, rect).len() <= total_len(rows) + rows.len(),
{
    let from = ordered(sel).0 as int;
    lemma_copied_from_bounded(rows, offsets, ordered(sel), rect, from);
    lemma_total_len_nonnegative(rows);
    if from <= rows.len() {
        lemma_total_len_rest(rows, from);
    }
}

/// The characters of `line` from column `col` on whose cell the selection
/// takes in.
pub open spec fn highlighted(
    sel: Selection,
    rect: bool,
    line: Seq<char>,
    offsets: Seq<usize>,
    row: int,
    col: int,
) -> Seq<char>
    decreases line.len() - col,
{
    if col < 0 || col >= line.len() {
        Seq::empty()
    } else if cell_selected(sel, rect, line, offsets, row, col) {
        seq![line[col]] + highlighted(sel, rect, line, offsets, row, col + 1)
    } else {
        highlighted(sel, rect, line, offsets, row, col + 1)
    }
}

proof fn lemma_highlighted_range(
    sel: Selection,
    rect: bool,
    line: Seq<char>,
    offsets: Seq<usize>,
    row: int,
    col: int,
    a: int,
    b: int,
)
    requires
        0 <= col <= line.len(),
        forall|c: int|
            col <= c < line.len() ==> (cell_selected(sel, rect, line, offsets, row, c) <==> a <= c
                < b),
    ensures
        highlighted(sel, rect, line, offsets, row, col) == (if greatest(a, col) < least(
            b,
            line.len() as int,
        ) {
            line.subrange(greatest(a, col), least(b, line.len() as int))
        } else {
            Seq::empty()
        }),
    decreases line.len() - col,
{
    if col < line.len() {
        lemma_highlighted_range(sel, rect, line, offsets, row, col + 1, a, b);
        let rest = highlighted(sel, rect, line, offsets, row, col + 1);
        if a <= col < b {
            let end = least(b, line.len() as int);
            if col + 1 < end {
                assert(seq![line[col]] + line.subrange(col + 1, end) =~= line.subrange(col, end));
            } else {
                assert(seq![line[col]] + rest =~= line.subrange(col, end));
            }
        }
    }
}

/// What is copied from a row is what the row shows highlighted, the mark left
/// out.
pub proof fn law_highlight_is_copied(
    rows: Seq<Seq<char>>,
    offsets: Seq<usize>,
    sel: Selection,
    rect: bool,
    row: int,
)
    requires
        0 <= row < rows.len(),
        sel.0 <= row <= sel.2,
    ensures
        row_piece(rows, offsets, sel, rect, row) == highlighted(
            sel,
            rect,
            rows[row],
            offsets,
            row,
            row_indent(rows[row]),
        ),
{
    let line = rows[row];
    let indent = row_indent(line);
    let text = row_text(line);
    let off = offset_of(offsets, row);
    let (from, to) = if rect {
        (
            least(sel.1 as int, sel.3 as int) - off,
            greatest(sel.1 as int, sel.3 as int) - off,
        )
    } else {
        (
            if row == sel.0 {
                sel.1 - indent
            } else {
                0
            },
            if row == sel.2 {
                sel.3 - indent
            } else {
                text.len() as int
            },
        )
    };
    lemma_highlighted_range(sel, rect, line, offsets, row, indent, indent + from, indent + to);
    let a = least(greatest(from, 0), text.len() as int);
    let b = least(greatest(to, 0), text.len() as int);
    if a < b {
        assert(text.subrange(a, b) =~= line.subrange(indent + a, indent + b));
    }
}

/// Rows that continue one line, each break of which took out one space.
pub open spec fn broken_at_spaces(
    line: Seq<char>,
    rows: Seq<Seq<char>>,
    offsets: Seq<usize>,
) -> bool {
    &&& rows.len() > 0
    &&& rows.len() == offsets.len()
    &&& offsets[0] == 0
    &&& !is_continuation(rows[0])
    &&& forall|i: int| 0 < i < rows.len() ==> is_continuation(#[trigger] rows[i])
    &&& forall|i: int|
        0 <= i < rows.len() ==> {
            let text = row_text(#[trigger] rows[i]);
            &&& offsets[i] + text.len() <= line.len()
            &&& text == line.subrange(offsets[i] as int, offsets[i] + text.len())
        }
    &&& forall|i: int|
        0 <= i < rows.len() - 1 ==> {
            let end = offsets[i] + row_text(#[trigger] rows[i]).len();
            &&& offsets[i + 1] == end + 1
            &&& line[end] == ' '
        }
    &&& offsets[rows.len() - 1] + row_text(rows[rows.len() - 1]).len() == line.len()
}

/// Copying all rows of a line that was broken at single spaces gives the line
/// back.
pub proof fn law_copy_restores_line(line: Seq<char>, rows: Seq<Seq<char>>, offsets: Seq<usize>)
    requires
        broken_at_spaces(line, rows, offsets),
        rows.len() <= usize::MAX,
        rows[rows.len() - 1].len() <= usize::MAX,
    ensures
        copied(
            rows,
            offsets,
            (0, 0, (rows.len() - 1) as usize, rows[rows.len() - 1].len() as usize),
            false,
        ) == line,
{
    let sel = (0usize, 0usize, (rows.len() - 1) as usize, rows[rows.len() - 1].len() as usize);
    lemma_copy_rest(line, rows, offsets, sel, 0);
    assert(line.skip(0) =~= line);
}

proof fn lemma_copy_rest(
    line: Seq<char>,
    rows: Seq<Seq<char>>,
    offsets: Seq<usize>,
    sel: Selection,
    row: int,
)
    requires
        broken_at_spaces(line, rows, offsets),
        rows.len() <= usize::MAX,
        sel.0 == 0,
        sel.1 == 0,
        sel.2 == rows.len() - 1,
        sel.3 == rows[rows.len() - 1].len(),
        0 <= row < rows.len(),
    ensures
        copied_from(rows, offsets, sel, false, row) == line.skip(offsets[row] as int),
    decreases rows.len() - row,
{
    let text = row_text(rows[row]);
    let end = offsets[row] + text.len();
    assert(text.subrange(0, text.len() as int) =~= text);
    assert(row_piece(rows, offsets, sel, false, row) =~= text);
    if row + 1 < rows.len() {
        lemma_copy_rest(line, rows, offsets, sel, row + 1);
        assert(is_continuation(rows[row + 1]));
        assert(text + seq![' '] + line.skip(end + 1) =~= line.skip(offsets[row] as int));
    } else {
        assert(copied_from(rows, offsets, sel, false, row + 1) =~= Seq::empty());
        assert(text + Seq::<char>::empty() + Seq::<char>::empty() =~= line.skip(
            offsets[row] as int,
        ));
    }
}

/// A drag selects the same from either end, as long as both ends are on a
/// character and, in a drag by words, the earlier end is where a word begins.
pub proof fn law_drag_ignores_direction(
    rows: Seq<Seq<char>>,
    offsets: Seq<usize>,
    mode: ClickMode,
    rect: bool,
    a: (usize, usize),
    b: (usize, usize),
    before: Option<Selection>,
)
    requires
        a.0 < rows.len(),
        b.0 < rows.len(),
        a.1 < rows[a.0 as int].len(),
        b.1 < rows[b.0 as int].len(),
        mode == ClickMode::Word ==> if at_or_before(
            a.0 as int,
            a.1 as int,
            b.0 as int,
            b.1 as int,
        ) {
            word_span(rows[a.0 as int], a.1 as int).0 == a.1
        } else {
            word_span(rows[b.0 as int], b.1 as int).0 == b.1
        },
    ensures
        dragged(rows, offsets, mode, rect, a, b, before) == dragged(
            rows,
            offsets,
            mode,
            rect,
            b,
            a,
            before,
        ),
{
}

/// A plain drag by single characters runs from the earlier of its ends to the
/// character after the later one, where the end that moves is brought into the
/// log.
pub proof fn law_plain_drag_is_ordered(
    rows: Seq<Seq<char>>,
    offsets: Seq<usize>,
    anchor: (usize, usize),
    current: (usize, usize),
    before: Option<Selection>,
)
    requires
        rows.len() > 0,
        drag_fits(rows, offsets, ClickMode::Char, false, anchor, current),
    ensures
        ({
            let row = least(current.0 as int, rows.len() - 1);
            let col = least(current.1 as int, rows[row].len() as int);
            let forward = at_or_before(anchor.0 as int, anchor.1 as int, row, col);
            &&& dragged(rows, offsets, ClickMode::Char, false, anchor, current, before) matches Some(
                sel,
            )
            &&& forward ==> sel.0 == anchor.0 && sel.1 == anchor.1 && sel.2 == row && sel.3 == col + 1
            &&& !forward ==> sel.0 == row && sel.1 == col && sel.2 == anchor.0 && sel.3 == anchor.1
                + 1
            &&& at_or_before(sel.0 as int, sel.1 as int, sel.2 as int, sel.3 as int)
        }),
{
}

/// A word has the column in it that it is around, and lies in its line.
pub proof fn lemma_word_around_column(line: Seq<char>, col: int)
    requires
        0 <= col < line.len(),
    ensures
        0 <= word_span(line, col).0 <= col < word_span(line, col).1 <= line.len(),
{
    lemma_word_start(line, col);
    if word_char(line[col]) {
        lemma_word_end(line, col + 1);
    }
}

pub(crate) proof fn lemma_word_start(line: Seq<char>, col: int)
    requires
        0 <= col,
    ensures
        0 <= word_start(line, col) <= col,
    decreases col,
{
    if 0 < col <= line.len() && word_char(line[col - 1]) {
        lemma_word_start(line, col - 1);
    }
}

proof fn lemma_word_end(line: Seq<char>, col: int)
    requires
        0 <= col <= line.len(),
    ensures
        col <= word_end(line, col) <= line.len(),
    decreases line.len() - col,
{
    if col < line.len() && word_char(line[col]) {
        lemma_word_end(line, col + 1);
    }
}

/// A drag takes in the characters under both of its ends, by single characters,
/// by words and by lines, whichever end comes first. A rectangular one does so
/// outside the continuation marks, which are no part of the original lines.
pub proof fn law_drag_includes_both_ends(
    rows: Seq<Seq<char>>,
    offsets: Seq<usize>,
    mode: ClickMode,
    rect: bool,
    a: (usize, usize),
    b: (usize, usize),
    before: Option<Selection>,
)
    requires
        a.0 < rows.len(),
        b.0 < rows.len(),
        a.1 < rows[a.0 as int].len() <= usize::MAX,
        b.1 < rows[b.0 as int].len() <= usize::MAX,
        drag_fits(rows, offsets, mode, rect, a, b),
        rect ==> mode == ClickMode::Char && row_indent(rows[a.0 as int]) <= a.1 && row_indent(
            rows[b.0 as int],
        ) <= b.1,
    ensures
        dragged(rows, offsets, mode, rect, a, b, before) matches Some(sel) && {
            &&& cell_selected(sel, rect, rows[a.0 as int], offsets, a.0 as int, a.1 as int)
            &&& cell_selected(sel, rect, rows[b.0 as int], offsets, b.0 as int, b.1 as int)
        },
{
    lemma_word_around_column(rows[a.0 as int], a.1 as int);
    lemma_word_around_column(rows[b.0 as int], b.1 as int);
}

} // verus!
