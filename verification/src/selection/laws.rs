//! What selecting and copying text means, in terms of the rows themselves.

use crate::selection::{
    cell_selected, copied, copied_from, drag_fits, dragged, greatest, is_continuation, least,
    lemma_word_around_column, mark, ordered, original_column, row_break, row_indent, row_piece,
    row_text, word_char, word_end, word_span, word_start, ClickMode, Selection,
};
use vstd::prelude::*;

verus! {

/// A plain selection takes in the cells from its earlier position on, up to but
/// not including its later one, in reading order.
pub proof fn law_plain_cells_in_reading_order(
    sel: Selection,
    line: Seq<char>,
    offsets: Seq<usize>,
    row: int,
    col: int,
)
    requires
        sel.0 < sel.2 || (sel.0 == sel.2 && sel.1 <= sel.3),
    ensures
        cell_selected(sel, false, line, offsets, row, col) <==> {
            &&& sel.0 < row || (sel.0 == row && sel.1 <= col)
            &&& row < sel.2 || (row == sel.2 && col < sel.3)
        },
        ordered(sel) == sel,
        ordered((sel.2, sel.3, sel.0, sel.1)) == sel,
{
}

/// A box takes in the cells of its rows whose characters lie between its two
/// columns of the original line, the right one excluded; the continuation mark is
/// never in it.
pub proof fn law_box_cells_by_original_column(
    sel: Selection,
    line: Seq<char>,
    offsets: Seq<usize>,
    row: int,
    col: int,
)
    requires
        0 <= row < offsets.len(),
        sel.0 <= sel.2,
        sel.1 <= sel.3,
    ensures
        line.len() >= 2 && line[0] == '↪' && line[1] == ' ' ==> (cell_selected(
            sel,
            true,
            line,
            offsets,
            row,
            col,
        ) <==> sel.0 <= row <= sel.2 && 2 <= col && sel.1 <= offsets[row] + col - 2 < sel.3),
        !(line.len() >= 2 && line[0] == '↪' && line[1] == ' ') ==> (cell_selected(
            sel,
            true,
            line,
            offsets,
            row,
            col,
        ) <==> sel.0 <= row <= sel.2 && 0 <= col && sel.1 <= offsets[row] + col < sel.3),
{
    lemma_mark(line);
}

/// A row continues the one above it just where it begins with the mark, which is
/// no part of its text.
pub proof fn law_mark_is_no_text(row: Seq<char>)
    ensures
        is_continuation(row) <==> row.len() >= 2 && row[0] == '↪' && row[1] == ' ',
        is_continuation(row) ==> row_indent(row) == 2 && row_text(row) == row.skip(2),
        !is_continuation(row) ==> row_indent(row) == 0 && row_text(row) == row,
{
    lemma_mark(row);
    assert(row.skip(0) =~= row);
}

proof fn lemma_mark(row: Seq<char>)
    ensures
        is_continuation(row) <==> row.len() >= 2 && row[0] == '↪' && row[1] == ' ',
{
    if row.len() >= 2 {
        let head = row.take(2);
        assert(head[0] == row[0] && head[1] == row[1]);
        if row[0] == '↪' && row[1] == ' ' {
            assert(head =~= mark());
        }
    }
}

/// The column of the original line under a display column: as many characters
/// after the row's position in the line as the column is after the mark.
pub proof fn law_original_column_counts_from_row(
    rows: Seq<Seq<char>>,
    offsets: Seq<usize>,
    row: int,
    col: int,
)
    requires
        0 <= row < rows.len(),
        rows.len() == offsets.len(),
        0 <= col,
    ensures
        !is_continuation(rows[row]) ==> original_column(rows, offsets, row, col) == offsets[row]
            + col,
        is_continuation(rows[row]) && col >= 2 ==> original_column(rows, offsets, row, col)
            == offsets[row] + col - 2,
        is_continuation(rows[row]) && col < 2 ==> original_column(rows, offsets, row, col)
            == offsets[row],
{
}

/// The character that a row shows at a display column is the one that the
/// original line has at the original column.
pub proof fn law_original_column_finds_character(
    line: Seq<char>,
    rows: Seq<Seq<char>>,
    offsets: Seq<usize>,
    row: int,
    col: int,
)
    requires
        0 <= row < rows.len(),
        rows.len() == offsets.len(),
        row_indent(rows[row]) <= col < rows[row].len(),
        offsets[row] + row_text(rows[row]).len() <= line.len(),
        row_text(rows[row]) == line.subrange(
            offsets[row] as int,
            offsets[row] + row_text(rows[row]).len(),
        ),
    ensures
        0 <= original_column(rows, offsets, row, col) < line.len(),
        line[original_column(rows, offsets, row, col)] == rows[row][col],
{
    let k = col - row_indent(rows[row]);
    assert(row_text(rows[row])[k] == rows[row][col]);
}

/// A plain selection within one row copies just its characters, without the mark.
pub proof fn law_copy_within_row(
    rows: Seq<Seq<char>>,
    offsets: Seq<usize>,
    row: usize,
    from: usize,
    to: usize,
)
    requires
        row < rows.len(),
        row_indent(rows[row as int]) <= from <= to <= rows[row as int].len(),
    ensures
        copied(rows, offsets, (row, from, row, to), false) == rows[row as int].subrange(
            from as int,
            to as int,
        ),
{
    let sel = (row, from, row, to);
    let r = row as int;
    let indent = row_indent(rows[r]);
    assert(copied_from(rows, offsets, sel, false, r + 1) =~= Seq::empty());
    assert(row_break(rows, sel, false, r) =~= Seq::empty());
    assert(row_text(rows[r]).subrange(from - indent, to - indent) =~= rows[r].subrange(
        from as int,
        to as int,
    ));
    assert(row_piece(rows, offsets, sel, false, r) =~= rows[r].subrange(from as int, to as int));
    assert(copied(rows, offsets, sel, false) =~= rows[r].subrange(from as int, to as int));
}

/// A plain selection that goes on in the next row copies the rest of the first row
/// and what separates the two: the space that wrapping took out where the next row
/// continues the line, else the end of the line.
pub proof fn law_copy_to_next_row(
    rows: Seq<Seq<char>>,
    offsets: Seq<usize>,
    row: usize,
    from: usize,
)
    requires
        row + 1 < rows.len() <= usize::MAX,
        row_indent(rows[row as int]) <= from <= rows[row as int].len(),
    ensures
        copied(rows, offsets, (row, from, (row + 1) as usize, 0), false) == rows[row as int].skip(
            from as int,
        ).push(
            if is_continuation(rows[row + 1]) {
                ' '
            } else {
                '\n'
            },
        ),
{
    let sel = (row, from, (row + 1) as usize, 0usize);
    let r = row as int;
    let indent = row_indent(rows[r]);
    let text = row_text(rows[r]);
    assert(copied_from(rows, offsets, sel, false, r + 2) =~= Seq::empty());
    assert(row_piece(rows, offsets, sel, false, r + 1) =~= Seq::empty());
    assert(row_break(rows, sel, false, r + 1) =~= Seq::empty());
    assert(copied_from(rows, offsets, sel, false, r + 1) =~= Seq::empty());
    assert(row_piece(rows, offsets, sel, false, r) =~= rows[r].skip(from as int));
    assert(copied(rows, offsets, sel, false) =~= copied_from(rows, offsets, sel, false, r));
}

/// A box copies one line for each of its rows, broken by ends of lines even where
/// a row continues the one above it.
pub proof fn law_box_copies_row_by_row(
    rows: Seq<Seq<char>>,
    offsets: Seq<usize>,
    sel: Selection,
)
    requires
        sel.0 < sel.2,
        sel.0 < rows.len(),
    ensures
        copied(rows, offsets, sel, true) == copied(
            rows,
            offsets,
            (sel.0, sel.1, sel.0, sel.3),
            true,
        ).push('\n') + copied(rows, offsets, ((sel.0 + 1) as usize, sel.1, sel.2, sel.3), true),
{
    let r = sel.0 as int;
    let top = ordered((sel.0, sel.1, sel.0, sel.3));
    let rest = ordered(((sel.0 + 1) as usize, sel.1, sel.2, sel.3));
    assert(copied_from(rows, offsets, top, true, r + 1) =~= Seq::empty());
    assert(row_break(rows, top, true, r) =~= Seq::empty());
    assert(row_piece(rows, offsets, top, true, r) == row_piece(rows, offsets, sel, true, r));
    assert(copied(rows, offsets, (sel.0, sel.1, sel.0, sel.3), true) =~= row_piece(
        rows,
        offsets,
        sel,
        true,
        r,
    ));
    lemma_box_from(rows, offsets, sel, rest, r + 1);
    assert(row_break(rows, sel, true, r) =~= seq!['\n']);
    assert(copied(rows, offsets, sel, true) =~= row_piece(rows, offsets, sel, true, r).push('\n')
        + copied_from(rows, offsets, sel, true, r + 1));
}

proof fn lemma_box_from(
    rows: Seq<Seq<char>>,
    offsets: Seq<usize>,
    a: Selection,
    b: Selection,
    row: int,
)
    requires
        a.2 == b.2 || (b.0 == b.2 && a.2 == b.0),
        least(a.1 as int, a.3 as int) == least(b.1 as int, b.3 as int),
        greatest(a.1 as int, a.3 as int) == greatest(b.1 as int, b.3 as int),
    ensures
        copied_from(rows, offsets, a, true, row) == copied_from(rows, offsets, b, true, row),
    decreases rows.len() - row,
{
    if 0 <= row < rows.len() {
        lemma_box_from(rows, offsets, a, b, row + 1);
    }
}

/// In one row a box copies the characters of the original line between its
/// columns, as far as the row holds them.
pub proof fn law_box_copies_columns(
    rows: Seq<Seq<char>>,
    offsets: Seq<usize>,
    row: usize,
    from: usize,
    to: usize,
)
    requires
        row < rows.len(),
        rows.len() == offsets.len(),
        offsets[row as int] <= from <= to,
    ensures
        ({
            let text = row_text(rows[row as int]);
            let off = offsets[row as int];
            let got = copied(rows, offsets, (row, from, row, to), true);
            &&& to <= off + text.len() ==> got == text.subrange(from - off, to - off)
            &&& from <= off + text.len() <= to ==> got == text.skip(from - off)
            &&& off + text.len() <= from ==> got.len() == 0
        }),
{
    let sel = (row, from, row, to);
    let r = row as int;
    let text = row_text(rows[r]);
    let off = offsets[r];
    assert(copied_from(rows, offsets, sel, true, r + 1) =~= Seq::empty());
    assert(row_break(rows, sel, true, r) =~= Seq::empty());
    assert(copied(rows, offsets, sel, true) =~= row_piece(rows, offsets, sel, true, r));
    assert(to <= off + text.len() ==> row_piece(rows, offsets, sel, true, r) =~= text.subrange(
        from - off,
        to - off,
    ));
    assert(from <= off + text.len() <= to ==> row_piece(rows, offsets, sel, true, r)
        =~= text.skip(from - off));
}

/// The word around a character of a word is the longest run of word characters
/// that it lies in.
pub proof fn law_word_is_a_longest_run(line: Seq<char>, col: int)
    requires
        0 <= col < line.len(),
        word_char(line[col]),
    ensures
        ({
            let (from, to) = word_span(line, col);
            &&& 0 <= from <= col < to <= line.len()
            &&& forall|i: int| from <= i < to ==> word_char(#[trigger] line[i])
            &&& from > 0 ==> !word_char(line[from - 1])
            &&& to < line.len() ==> !word_char(line[to])
        }),
{
    lemma_run_start(line, col);
    lemma_run_end(line, col);
}

proof fn lemma_run_start(line: Seq<char>, col: int)
    requires
        0 <= col <= line.len(),
    ensures
        0 <= word_start(line, col) <= col,
        forall|i: int| word_start(line, col) <= i < col ==> word_char(#[trigger] line[i]),
        word_start(line, col) > 0 ==> !word_char(line[word_start(line, col) - 1]),
    decreases col,
{
    if 0 < col && word_char(line[col - 1]) {
        lemma_run_start(line, col - 1);
    }
}

proof fn lemma_run_end(line: Seq<char>, col: int)
    requires
        0 <= col <= line.len(),
    ensures
        col <= word_end(line, col) <= line.len(),
        col < line.len() && word_char(line[col]) ==> col < word_end(line, col),
        forall|i: int| col <= i < word_end(line, col) ==> word_char(#[trigger] line[i]),
        word_end(line, col) < line.len() ==> !word_char(line[word_end(line, col)]),
    decreases line.len() - col,
{
    if col < line.len() && word_char(line[col]) {
        lemma_run_end(line, col + 1);
    }
}

/// Off a word there is a single character, and beyond the line nothing.
pub proof fn law_no_word_is_one_character(line: Seq<char>, col: int)
    requires
        0 <= col,
    ensures
        col < line.len() && !word_char(line[col]) ==> word_span(line, col) == (col, col + 1),
        col >= line.len() ==> word_span(line, col) == (col, col),
{
}

/// What a path, an address, an option or a percentage is written with belongs to
/// a word; white space, quotes, brackets and the signs between words do not.
pub proof fn law_paths_are_words(c: char)
    ensures
        'a' <= c <= 'z' || 'A' <= c <= 'Z' || '0' <= c <= '9' ==> word_char(c),
        "-./:%_@~"@.contains(c) ==> word_char(c),
        " \t\n\"'`()[]{}<>,;!?=+*&^$#|\\"@.contains(c) ==> !word_char(c),
{
    reveal_strlit("-./:%_@~");
    reveal_strlit(" \t\n\"'`()[]{}<>,;!?=+*&^$#|\\");
}

/// A drag by lines selects whole rows: from the first column of the earlier row to
/// the end of the later one, wherever in the rows its two ends are. So every cell
/// of both end rows and of the rows in between is selected.
pub proof fn law_line_drag_selects_whole_rows(
    rows: Seq<Seq<char>>,
    offsets: Seq<usize>,
    anchor: (usize, usize),
    current: (usize, usize),
    before: Option<Selection>,
    row: int,
    col: int,
)
    requires
        anchor.0 < rows.len(),
        current.0 < rows.len(),
        rows[anchor.0 as int].len() <= usize::MAX,
        rows[current.0 as int].len() <= usize::MAX,
    ensures
        ({
            let (first, last) = if anchor.0 <= current.0 {
                (anchor.0, current.0)
            } else {
                (current.0, anchor.0)
            };
            let selected = dragged(
                rows,
                offsets,
                ClickMode::Line,
                false,
                anchor,
                current,
                before,
            );
            &&& selected matches Some(sel)
            &&& sel == (first, 0usize, last, rows[last as int].len() as usize)
            &&& first <= row <= last && 0 <= col < rows[row].len() ==> cell_selected(
                sel,
                false,
                rows[row],
                offsets,
                row,
                col,
            )
            &&& row < first || row > last ==> !cell_selected(
                sel,
                false,
                rows[row],
                offsets,
                row,
                col,
            )
        }),
{
}

/// Where a drag by lines goes below the log, it selects to the end of the last
/// row.
pub proof fn law_line_drag_below_log_ends_with_it(
    rows: Seq<Seq<char>>,
    offsets: Seq<usize>,
    anchor: (usize, usize),
    current: (usize, usize),
    before: Option<Selection>,
)
    requires
        anchor.0 < rows.len() <= current.0,
        rows[rows.len() - 1].len() <= usize::MAX,
    ensures
        dragged(rows, offsets, ClickMode::Line, false, anchor, current, before) == Some(
            (anchor.0, 0usize, (rows.len() - 1) as usize, rows[rows.len() - 1].len() as usize),
        ),
{
}

/// A plain drag by single characters takes in every cell from the one under its
/// earlier end to the one under its later end, and no other.
pub proof fn law_plain_drag_selects_all_between(
    rows: Seq<Seq<char>>,
    offsets: Seq<usize>,
    a: (usize, usize),
    b: (usize, usize),
    before: Option<Selection>,
    row: int,
    col: int,
)
    requires
        b.0 < rows.len(),
        b.1 < rows[b.0 as int].len() < usize::MAX,
        a.1 < usize::MAX,
        0 <= row < rows.len(),
    ensures
        dragged(rows, offsets, ClickMode::Char, false, a, b, before) matches Some(sel) && (
        cell_selected(sel, false, rows[row], offsets, row, col) <==> {
            ||| {
                &&& a.0 < row || (a.0 == row && a.1 <= col)
                &&& row < b.0 || (row == b.0 && col <= b.1)
            }
            ||| {
                &&& b.0 < row || (b.0 == row && b.1 <= col)
                &&& row < a.0 || (row == a.0 && col <= a.1)
            }
        }),
{
}

/// A drag that leaves the log is brought back into it: below the last row it ends
/// there, and beyond the end of a row it ends with the row.
pub proof fn law_drag_is_brought_into_log(
    rows: Seq<Seq<char>>,
    offsets: Seq<usize>,
    mode: ClickMode,
    rect: bool,
    anchor: (usize, usize),
    current: (usize, usize),
    before: Option<Selection>,
)
    requires
        rows.len() > 0,
        rows.len() <= usize::MAX,
        current.0 < rows.len() ==> rows[current.0 as int].len() <= usize::MAX,
    ensures
        current.0 >= rows.len() ==> dragged(rows, offsets, mode, rect, anchor, current, before)
            == dragged(
            rows,
            offsets,
            mode,
            rect,
            anchor,
            ((rows.len() - 1) as usize, current.1),
            before,
        ),
        current.0 < rows.len() && current.1 > rows[current.0 as int].len() ==> dragged(
            rows,
            offsets,
            mode,
            rect,
            anchor,
            current,
            before,
        ) == dragged(
            rows,
            offsets,
            mode,
            rect,
            anchor,
            (current.0, rows[current.0 as int].len() as usize),
            before,
        ),
{
}

/// A drag by words ends with the whole word under its later end; where it goes
/// back, it begins with the whole word under the pointer and ends with the word
/// that it began at.
pub proof fn law_word_drag_ends_with_words(
    rows: Seq<Seq<char>>,
    offsets: Seq<usize>,
    anchor: (usize, usize),
    current: (usize, usize),
    before: Option<Selection>,
)
    requires
        anchor.0 < rows.len(),
        current.0 < rows.len(),
        anchor.1 < rows[anchor.0 as int].len() <= usize::MAX,
        current.1 < rows[current.0 as int].len() <= usize::MAX,
    ensures
        ({
            let at = word_span(rows[current.0 as int], current.1 as int);
            let from = word_span(rows[anchor.0 as int], anchor.1 as int);
            let forward = anchor.0 < current.0 || (anchor.0 == current.0 && anchor.1 <= current.1);
            &&& dragged(rows, offsets, ClickMode::Word, false, anchor, current, before) matches Some(
                sel,
            )
            &&& forward ==> sel.0 == anchor.0 && sel.1 == anchor.1 && sel.2 == current.0 && sel.3
                == at.1
            &&& !forward ==> sel.0 == current.0 && sel.1 == at.0 && sel.2 == anchor.0 && sel.3
                == from.1
        }),
{
    lemma_word_around_column(rows[current.0 as int], current.1 as int);
    lemma_word_around_column(rows[anchor.0 as int], anchor.1 as int);
    lemma_run_start(rows[current.0 as int], current.1 as int);
    lemma_run_end(rows[current.0 as int], current.1 as int);
    lemma_run_end(rows[anchor.0 as int], anchor.1 as int);
}

/// A rectangular drag makes the box whose opposite corners are its two ends, in
/// columns of the original lines: it takes in a cell of a row just where the row is
/// between the two and the character's original column is between theirs.
pub proof fn law_box_drag_selects_box(
    rows: Seq<Seq<char>>,
    offsets: Seq<usize>,
    a: (usize, usize),
    b: (usize, usize),
    before: Option<Selection>,
    row: int,
    col: int,
)
    requires
        rows.len() == offsets.len(),
        a.0 < rows.len(),
        b.0 < rows.len(),
        a.1 < rows[a.0 as int].len() <= usize::MAX,
        b.1 < rows[b.0 as int].len() <= usize::MAX,
        drag_fits(rows, offsets, ClickMode::Char, true, a, b),
        0 <= row < rows.len(),
        row_indent(rows[row]) <= col,
    ensures
        ({
            let ac = original_column(rows, offsets, a.0 as int, a.1 as int);
            let bc = original_column(rows, offsets, b.0 as int, b.1 as int);
            let here = original_column(rows, offsets, row, col);
            &&& dragged(rows, offsets, ClickMode::Char, true, a, b, before) matches Some(sel)
            &&& cell_selected(sel, true, rows[row], offsets, row, col) <==> {
                &&& a.0 <= row <= b.0 || b.0 <= row <= a.0
                &&& ac <= here <= bc || bc <= here <= ac
            }
        }),
{
}

/// In a log without rows a drag by words selects nothing new, and a drag by single
/// characters or by lines goes to the place where the first row would begin.
pub proof fn law_drag_in_empty_log(
    offsets: Seq<usize>,
    anchor: (usize, usize),
    current: (usize, usize),
    before: Option<Selection>,
)
    requires
        anchor.1 < usize::MAX,
    ensures
        ({
            let none = Seq::<Seq<char>>::empty();
            let word = dragged(none, offsets, ClickMode::Word, false, anchor, current, before);
            let by_line = dragged(none, offsets, ClickMode::Line, false, anchor, current, before);
            let plain = dragged(none, offsets, ClickMode::Char, false, anchor, current, before);
            &&& word == before
            &&& by_line == Some((0usize, 0usize, anchor.0, 0usize))
            &&& plain == Some((0usize, 0usize, anchor.0, (anchor.1 + 1) as usize))
        }),
{
}

} // verus!
