//! What the interactive shell shows: the log above, the input line below.

use crate::geometry::Rect;
use crate::input::{
    first_chars, rest_chars, split_confirmed, visual_column, CompletionState, Input,
};
use crate::selection::{
    cell_selected, continues, greatest, in_order, is_continuation, least, offset_at, offset_of,
    ordered, row_indent, row_len, Selection,
};
use crate::text::{chars_of, decimal, decimal_text, joined, texts};
use crate::tui::{TuiState, ViewportCache};
use crate::wrap::{log_rows, wrap_log, zipped};
use vstd::prelude::*;
use vstd::string::*;

verus! {

/// How many of `height` rows the upper of two parts gets, where the upper one is
/// to have `min` rows at least and the lower one `length`: all that the lower one
/// leaves, and where the rows are too few for both, the upper one comes first.
pub open spec fn upper_rows(height: u16, min: u16, length: u16) -> int {
    if min + length <= height {
        height - length
    } else {
        least(height as int, min as int)
    }
}

/// The two parts of `area`, one below the other.
pub open spec fn split_rows(area: Rect, min: u16, length: u16) -> (Rect, Rect) {
    let upper = upper_rows(area.height, min, length);
    (
        Rect { height: upper as u16, ..area },
        Rect { y: (area.y + upper) as u16, height: (area.height - upper) as u16, ..area },
    )
}

/// ratatui's `Layout::split` divides an area into rows. Its solver weighs a `Min`
/// more than a `Length`, and a `Length` more than the wish of a `Min` to grow: where
/// the area is high enough for both, the lower part gets its `length` and the upper
/// one all the rest; where it is not, the upper part gets its `min` first, and the
/// lower one what is left. The two fill the area.
#[verifier::external_body]
fn split(area: Rect, min: u16, length: u16) -> (r: (Rect, Rect))
    requires
        area.fits(),
        min <= i16::MAX,
    ensures
        r == split_rows(area, min, length),
{
    let rows = ratatui::layout::Layout::default()
        .direction(ratatui::layout::Direction::Vertical)
        .constraints([
            ratatui::layout::Constraint::Min(min),
            ratatui::layout::Constraint::Length(length),
        ])
        .split(ratatui::layout::Rect::new(area.x, area.y, area.width, area.height));
    let (a, b) = (rows[0], rows[1]);
    (
        Rect { x: a.x, y: a.y, width: a.width, height: a.height },
        Rect { x: b.x, y: b.y, width: b.width, height: b.height },
    )
}

/// The areas of the log and of the input line on a screen: the input line has
/// the three lowest rows, and the log has all the others; a screen of fewer than
/// six rows has three for the log first.
pub fn screen_parts(area: Rect) -> (r: (Rect, Rect))
    requires
        area.fits(),
    ensures
        r == split_rows(area, 3, 3),
{
    split(area, 3, 3)
}

/// A cell of the log.
#[derive(Debug, Clone, Copy, PartialEq, Eq, Structural)]
pub struct LogCell {
    pub x: u16,
    pub y: u16,
    pub ch: char,
    pub selected: bool,
    /// Whether the cell is part of a continuation mark.
    pub dim: bool,
}

/// The visible rows of the log.
pub struct LogWidget {
    pub lines: Vec<String>,
    pub selection: Option<Selection>,
    /// The content row of the first line.
    pub viewport_start: usize,
    /// Whether the selection is rectangular.
    pub rect: bool,
    /// For each content row, its position in its original line.
    pub offsets: Vec<usize>,
}

impl LogWidget {
    /// The positions that rendering in `area` computes fit.
    pub open spec fn fits(&self, area: Rect) -> bool {
        &&& area.fits()
        &&& self.viewport_start + area.height <= usize::MAX
        &&& forall|i: int|
            0 <= i < self.offsets@.len() ==> #[trigger] self.offsets@[i] + area.width <= usize::MAX
    }

    /// The cell of line `row` at column `col`.
    pub open spec fn cell(&self, area: Rect, row: int, col: int) -> LogCell {
        let line = self.lines@[row]@;
        let selected = self.selection matches Some(sel) && cell_selected(
            ordered(sel),
            self.rect,
            line,
            self.offsets@,
            self.viewport_start + row,
            col,
        );
        LogCell {
            x: (area.x + col) as u16,
            y: (area.y + row) as u16,
            ch: line[col],
            selected,
            dim: !selected && is_continuation(line) && col < 2,
        }
    }

    /// The cells of line `row`.
    pub open spec fn row_cells(&self, area: Rect, row: int) -> Seq<LogCell> {
        Seq::new(
            least(self.lines@[row]@.len() as int, area.width as int) as nat,
            |col: int| self.cell(area, row, col),
        )
    }

    /// The cells of the first `n` lines.
    pub open spec fn first_cells(&self, area: Rect, n: int) -> Seq<LogCell>
        decreases n,
    {
        if n <= 0 {
            Seq::empty()
        } else {
            self.first_cells(area, n - 1) + self.row_cells(area, n - 1)
        }
    }

    /// Whether the cell of `line` at column `col` is selected.
    fn is_selected(&self, line: &Vec<char>, indent: usize, content_row: usize, col: usize) -> (b:
        bool)
        requires
            indent == row_indent(line@),
            forall|i: int|
                0 <= i < self.offsets@.len() ==> #[trigger] self.offsets@[i] + col <= usize::MAX,
        ensures
            b == (self.selection matches Some(sel) && cell_selected(
                ordered(sel),
                self.rect,
                line@,
                self.offsets@,
                content_row as int,
                col as int,
            )),
    {
        match self.selection {
            None => false,
            Some(unordered) => {
                let sel = in_order(unordered);
                if content_row < sel.0 || content_row > sel.2 {
                    return false;
                }
                if self.rect {
                    if col < indent {
                        return false;
                    }
                    let at = offset_at(&self.offsets, content_row) + (col - indent);
                    let (from, to) = if sel.1 <= sel.3 {
                        (sel.1, sel.3)
                    } else {
                        (sel.3, sel.1)
                    };
                    from <= at && at < to
                } else {
                    (content_row != sel.0 || sel.1 <= col) && (content_row != sel.2 || col < sel.3)
                }
            },
        }
    }

    /// The cells that the log shows in `area`, line by line.
    pub fn cells(&self, area: Rect) -> (v: Vec<LogCell>)
        requires
            self.fits(area),
        ensures
            v@ == self.first_cells(
                area,
                least(self.lines@.len() as int, area.height as int),
            ),
    {
        let mut v: Vec<LogCell> = Vec::new();
        let mut row: usize = 0;
        while row < self.lines.len() && row < area.height as usize
            invariant
                self.fits(area),
                row <= least(self.lines@.len() as int, area.height as int),
                v@ == self.first_cells(area, row as int),
            decreases self.lines@.len() - row,
        {
            let line = chars_of(self.lines[row].as_str());
            let continued = continues(&line);
            let indent: usize = if continued {
                2
            } else {
                0
            };
            let ghost before = v@;
            let ghost cells = self.row_cells(area, row as int);
            let mut col: usize = 0;
            assert(before + cells.take(0) =~= before);
            while col < line.len() && col < area.width as usize
                invariant
                    self.fits(area),
                    row < self.lines@.len(),
                    row < area.height,
                    line@ == self.lines@[row as int]@,
                    indent == row_indent(line@),
                    continued == is_continuation(line@),
                    cells == self.row_cells(area, row as int),
                    col <= cells.len(),
                    v@ == before + cells.take(col as int),
                decreases line@.len() - col,
            {
                let selected = self.is_selected(&line, indent, self.viewport_start + row, col);
                let cell = LogCell {
                    x: area.x + col as u16,
                    y: area.y + row as u16,
                    ch: line[col],
                    selected,
                    dim: !selected && continued && col < 2,
                };
                assert(cell == self.cell(area, row as int, col as int));
                assert(cell == cells[col as int]);
                v.push(cell);
                assert(v@ =~= before + cells.take(col + 1));
                col += 1;
            }
            assert(cells.take(col as int) =~= cells);
            row += 1;
        }
        v
    }
}

/// All that one frame shows.
pub struct FramePlan {
    pub log_area: Rect,
    pub log_inner: Rect,
    pub input_area: Rect,
    pub title: String,
    pub log: LogWidget,
    /// How far up the log can scroll.
    pub scroll_max: usize,
    /// How many rows are above the view.
    pub scroll_position: usize,
    /// The prompt and what is confirmed of the line.
    pub line: String,
    /// What is not confirmed of the line.
    pub suggestion: String,
    /// The cell of the cursor, where it has one.
    pub cursor: Option<(u16, u16)>,
    /// What the frame shows, for translating screen positions.
    pub viewport: ViewportCache,
}

/// The scroll position in a view of `height` rows on `total` rows.
pub open spec fn clamped_scroll(scroll_up: int, total: int, height: int) -> int {
    least(scroll_up, greatest(total - height, 0))
}

/// The title above a log that is scrolled up by `scroll_up` rows.
pub open spec fn title_text(scroll_up: int) -> Seq<char> {
    if scroll_up > 0 {
        "Log (↑"@ + decimal_text(scroll_up as nat) + " rows)"@
    } else {
        "Log"@
    }
}

/// The cell of the cursor in the input line, behind the border and the prompt,
/// where it is at column `visual` of the line. Of a column that does not fit in
/// sixteen bits the low sixteen are kept.
pub open spec fn cursor_cell(area: Rect, visual: int) -> (int, int) {
    (area.x + 3 + visual % 0x10000, area.y + 1)
}

/// Computes [`cursor_cell`].
pub fn cursor_position(area: Rect, visual: usize) -> (p: (u16, u16))
    requires
        cursor_cell(area, visual as int).0 <= u16::MAX,
        cursor_cell(area, visual as int).1 <= u16::MAX,
    ensures
        p.0 == cursor_cell(area, visual as int).0,
        p.1 == cursor_cell(area, visual as int).1,
{
    assert(visual as u16 == visual % 0x10000) by (bit_vector);
    #[verifier::truncate]
    let low = visual as u16;
    (area.x + 3 + low, area.y + 1)
}

/// The cell of the cursor, where the coordinates have room for it.
pub fn cursor_if_fits(area: Rect, visual: usize) -> (p: Option<(u16, u16)>)
    ensures
        p is Some <==> cursor_cell(area, visual as int).0 <= u16::MAX && cursor_cell(
            area,
            visual as int,
        ).1 <= u16::MAX,
        p matches Some(at) ==> at.0 == cursor_cell(area, visual as int).0 && at.1 == cursor_cell(
            area,
            visual as int,
        ).1,
{
    let low: u32 = (visual % 0x10000) as u32;
    let right: u32 = area.x as u32 + 3 + low;
    let down: u32 = area.y as u32 + 1;
    if right <= u16::MAX as u32 && down <= u16::MAX as u32 {
        Some(cursor_position(area, visual))
    } else {
        None
    }
}

/// The strings of `v` from `from` on.
pub(crate) fn texts_from(v: &Vec<String>, from: usize) -> (r: Vec<String>)
    requires
        from <= v@.len(),
    ensures
        texts(r@) == texts(v@).skip(from as int),
{
    let mut r: Vec<String> = Vec::new();
    let mut i: usize = from;
    while i < v.len()
        invariant
            from <= i <= v@.len(),
            texts(r@) == texts(v@).subrange(from as int, i as int),
        decreases v@.len() - i,
    {
        let ghost so_far = r@;
        r.push(v[i].clone());
        assert(texts(r@) =~= texts(so_far).push(v@[i as int]@));
        assert(texts(r@) =~= texts(v@).subrange(from as int, i + 1));
        i += 1;
    }
    assert(texts(r@) =~= texts(v@).skip(from as int));
    r
}

/// The numbers of `v`.
fn copy_numbers(v: &Vec<usize>) -> (r: Vec<usize>)
    ensures
        r@ == v@,
{
    let mut r: Vec<usize> = Vec::new();
    let mut i: usize = 0;
    while i < v.len()
        invariant
            i <= v@.len(),
            r@ == v@.take(i as int),
        decreases v@.len() - i,
    {
        r.push(v[i]);
        assert(v@.take(i + 1) =~= v@.take(i as int).push(v@[i as int]));
        i += 1;
    }
    assert(v@.take(i as int) =~= v@);
    r
}

/// The title above the log.
fn title(scroll_up: u16) -> (t: String)
    ensures
        t@ == title_text(scroll_up as int),
{
    if scroll_up > 0 {
        let mut t = joined("Log (↑", decimal(scroll_up as u64).as_str());
        t.append(" rows)");
        t
    } else {
        "Log".to_owned()
    }
}

/// Whether a plan shows the log, the selection and the line as they are, on a
/// screen of the given area.
pub open spec fn planned(
    state: TuiState,
    input: Input,
    comp: CompletionState,
    area: Rect,
    plan: FramePlan,
) -> bool {
    let (log_area, input_area) = split_rows(area, 3, 3);
    let inner = log_area.shrunk(1, 1);
    let rows = log_rows(texts(state.log_lines@), inner.width as usize);
    let max = greatest(rows.len() - inner.height, 0);
    let scroll_up = clamped_scroll(state.scroll_up as int, rows.len() as int, inner.height as int);
    let start = max - scroll_up;
    &&& plan.log_area == log_area
    &&& plan.input_area == input_area
    &&& plan.log_inner == inner
    &&& plan.title@ == title_text(scroll_up)
    &&& plan.scroll_max == max
    &&& plan.scroll_position == start
    &&& plan.viewport.log_area == log_area
    &&& plan.viewport.log_inner == inner
    &&& plan.viewport.viewport_start == start
    &&& plan.viewport.total_wrapped == rows.len()
    &&& plan.viewport.wrapped@.len() == plan.viewport.offsets@.len()
    &&& zipped(plan.viewport.wrapped@, plan.viewport.offsets@) == rows
    &&& plan.log.selection == state.selection
    &&& plan.log.rect == state.selection_rect
    &&& plan.log.viewport_start == start
    &&& plan.log.offsets@ == plan.viewport.offsets@
    &&& texts(plan.log.lines@) == texts(plan.viewport.wrapped@).skip(start)
    &&& plan.line@ == "> "@ + first_chars(input.value@, comp.confirmed as int)
    &&& plan.suggestion@ == rest_chars(input.value@, comp.confirmed as int)
    &&& {
        let at = cursor_cell(input_area, visual_column(input.value@, input.cursor) as int);
        match plan.cursor {
            Some(p) => p.0 == at.0 && p.1 == at.1,
            None => at.0 > u16::MAX || at.1 > u16::MAX,
        }
    }
}

/// Plans a frame: wraps the log, keeps the scroll position within it, and says
/// what to show where.
pub fn plan_frame(
    state: &mut TuiState,
    input: &Input,
    comp: &CompletionState,
    area: Rect,
) -> (plan: FramePlan)
    requires
        area.fits(),
        input.wf(),
    ensures
        planned(*old(state), *input, *comp, area, plan),
        *final(state) == (TuiState { scroll_up: final(state).scroll_up, ..*old(state) }),
        final(state).scroll_up == clamped_scroll(
            old(state).scroll_up as int,
            plan.viewport.total_wrapped as int,
            plan.log_inner.height as int,
        ),
{
    let (log_area, input_area) = screen_parts(area);
    let log_inner = log_area.inner(1, 1);
    let height = log_inner.height as usize;
    let (wrapped, offsets) = wrap_log(&state.log_lines, log_inner.width as usize);
    let total = wrapped.len();
    let scroll_max = total.saturating_sub(height);
    if state.scroll_up as usize > scroll_max {
        state.scroll_up = scroll_max as u16;
    }
    let start = scroll_max - state.scroll_up as usize;
    let visible = texts_from(&wrapped, start);
    let shown_offsets = copy_numbers(&offsets);
    let (confirmed, suggestion) = split_confirmed(input.value.as_str(), comp.confirmed);
    FramePlan {
        log_area,
        log_inner,
        input_area,
        title: title(state.scroll_up),
        log: LogWidget {
            lines: visible,
            selection: state.selection,
            viewport_start: start,
            rect: state.selection_rect,
            offsets: shown_offsets,
        },
        scroll_max,
        scroll_position: start,
        line: joined("> ", confirmed.as_str()),
        suggestion,
        cursor: cursor_if_fits(input_area, input.visual_cursor()),
        viewport: ViewportCache {
            log_area,
            log_inner,
            viewport_start: start,
            total_wrapped: total,
            wrapped,
            offsets,
        },
    }
}

/// Whether mouse events can be handled in a view: its areas fit the screen, and
/// every position computed from it fits its type.
pub fn usable(vp: &ViewportCache) -> (b: bool)
    ensures
        b == vp.wf(),
{
    let area = vp.log_area;
    let inner = vp.log_inner;
    if area.x as u32 + area.width as u32 > u16::MAX as u32 || area.y as u32 + area.height as u32
        > u16::MAX as u32 || inner.x as u32 + inner.width as u32 > u16::MAX as u32 || inner.y as u32
        + inner.height as u32 > u16::MAX as u32 {
        return false;
    }
    if vp.viewport_start > usize::MAX - 0xffff || vp.total_wrapped > usize::MAX / 0x10000 {
        return false;
    }
    let mut i: usize = 0;
    while i < vp.wrapped.len() || i < vp.offsets.len()
        invariant
            i <= vp.wrapped@.len() || i <= vp.offsets@.len(),
            forall|j: int|
                0 <= j < i ==> #[trigger] offset_of(vp.offsets@, j) + row_len(
                    texts(vp.wrapped@),
                    j,
                ) + 0x10000 <= usize::MAX,
        decreases vp.wrapped@.len() + vp.offsets@.len() - i,
    {
        let offset = offset_at(&vp.offsets, i);
        let len: usize = if i < vp.wrapped.len() {
            assert(texts(vp.wrapped@)[i as int] == vp.wrapped@[i as int]@);
            chars_of(vp.wrapped[i].as_str()).len()
        } else {
            0
        };
        if offset > usize::MAX - 0x10000 || len > usize::MAX - 0x10000 - offset {
            assert(!(offset_of(vp.offsets@, i as int) + row_len(texts(vp.wrapped@), i as int)
                + 0x10000 <= usize::MAX));
            return false;
        }
        i += 1;
    }
    true
}

/// The view never shows rows before the first or after the last: it ends where
/// the log ends when it is not scrolled up, and begins where the log begins when
/// it is scrolled up as far as can be.
pub proof fn law_view_within_log(total: int, height: int, scroll_up: int)
    requires
        0 <= height,
        0 <= scroll_up,
        0 <= total,
    ensures
        ({
            let max = greatest(total - height, 0);
            let start = max - clamped_scroll(scroll_up, total, height);
            &&& 0 <= start <= total
            &&& scroll_up == 0 ==> start == max
            &&& scroll_up >= max ==> start == 0
            &&& height <= total ==> start + height <= total
        }),
{
}

/// A row that the view shows is highlighted just where the selection takes in
/// its characters, wherever the view is scrolled to.
pub proof fn law_highlight_survives_scrolling(
    a: LogWidget,
    b: LogWidget,
    area: Rect,
    row_a: int,
    row_b: int,
    col: int,
)
    requires
        0 <= row_a < a.lines@.len(),
        0 <= row_b < b.lines@.len(),
        a.viewport_start + row_a == b.viewport_start + row_b,
        a.lines@[row_a]@ == b.lines@[row_b]@,
        a.selection == b.selection,
        a.rect == b.rect,
        a.offsets@ == b.offsets@,
    ensures
        a.cell(area, row_a, col).selected == b.cell(area, row_b, col).selected,
        a.cell(area, row_a, col).ch == b.cell(area, row_b, col).ch,
{
}

/// The log and the input line share the screen: the log is above, at the full
/// width, the input line right below it, and together they are as high as the
/// screen. The input line has three rows on every screen that has three more.
pub proof fn law_parts_fill_the_screen(area: Rect)
    requires
        area.fits(),
    ensures
        ({
            let (log, line) = split_rows(area, 3, 3);
            &&& log.x == area.x && line.x == area.x
            &&& log.width == area.width && line.width == area.width
            &&& log.y == area.y
            &&& line.y == log.y + log.height
            &&& log.height + line.height == area.height
            &&& area.height >= 6 ==> line.height == 3
            &&& 3 <= area.height < 6 ==> log.height == 3
            &&& area.height < 3 ==> line.height == 0
        }),
{
}

/// What is inside the border is what the border leaves: all cells but the first
/// and the last row and column.
pub proof fn law_inside_the_border(area: Rect, col: int, row: int)
    requires
        area.fits(),
        area.width >= 2,
        area.height >= 2,
    ensures
        area.shrunk(1, 1).covers(col, row) <==> area.x < col < area.x + area.width - 1 && area.y
            < row < area.y + area.height - 1,
{
}

/// The cells that the log shows are those of its lines, as far as the area goes:
/// one for each character, at the character's place, and no other.
pub proof fn law_every_character_has_its_cell(
    w: LogWidget,
    area: Rect,
    n: int,
    row: int,
    col: int,
    i: int,
)
    requires
        0 <= n <= w.lines@.len(),
        n <= area.height,
        area.fits(),
    ensures
        0 <= row < n && 0 <= col < w.lines@[row]@.len() && col < area.width ==> exists|k: int|
            0 <= k < w.first_cells(area, n).len() && (#[trigger] w.first_cells(area, n)[k]).x
                == area.x + col && w.first_cells(area, n)[k].y == area.y + row && w.first_cells(
                area,
                n,
            )[k].ch == w.lines@[row]@[col] && w.first_cells(area, n)[k] == w.cell(area, row, col),
        0 <= i < w.first_cells(area, n).len() ==> exists|r: int, c: int|
            0 <= r < n && 0 <= c < w.lines@[r]@.len() && c < area.width && w.first_cells(area, n)[i]
                == #[trigger] w.cell(area, r, c),
    decreases n,
{
    if n > 0 {
        let rest = w.first_cells(area, n - 1);
        let last = w.row_cells(area, n - 1);
        let all = w.first_cells(area, n);
        law_every_character_has_its_cell(w, area, n - 1, row, col, i);
        if 0 <= row < n && 0 <= col < w.lines@[row]@.len() && col < area.width {
            if row < n - 1 {
                let k = choose|k: int|
                    0 <= k < rest.len() && (#[trigger] rest[k]).x == area.x + col && rest[k].y
                        == area.y + row && rest[k].ch == w.lines@[row]@[col] && rest[k] == w.cell(
                        area,
                        row,
                        col,
                    );
                assert(all[k] == rest[k]);
            } else {
                let k = rest.len() + col;
                assert(all[k] == last[col]);
            }
        }
        if 0 <= i < all.len() {
            if i < rest.len() {
                let (r, c) = choose|r: int, c: int|
                    0 <= r < n - 1 && 0 <= c < w.lines@[r]@.len() && c < area.width && rest[i]
                        == #[trigger] w.cell(area, r, c);
                assert(all[i] == w.cell(area, r, c));
            } else {
                assert(all[i] == w.cell(area, n - 1, i - rest.len()));
            }
        }
    }
}

/// A cell is highlighted just where the selection takes in its character, in
/// whichever order its ends are; the mark of a continued row is dim where it is not
/// highlighted, and nothing else is.
pub proof fn law_cell_shows_selection(w: LogWidget, area: Rect, row: int, col: int, sel: Selection)
    requires
        0 <= row < w.lines@.len(),
        0 <= col < w.lines@[row]@.len(),
        !w.rect,
        sel.0 < sel.2 || (sel.0 == sel.2 && sel.1 <= sel.3),
    ensures
        ({
            let cell = w.cell(area, row, col);
            let at = w.viewport_start + row;
            let taken = {
                &&& sel.0 < at || (sel.0 == at && sel.1 <= col)
                &&& at < sel.2 || (at == sel.2 && col < sel.3)
            };
            let line = w.lines@[row]@;
            &&& w.selection == Some(sel) || w.selection == Some((sel.2, sel.3, sel.0, sel.1))
                ==> cell.selected == taken
            &&& w.selection is None ==> !cell.selected
            &&& cell.dim <==> !cell.selected && col < 2 && line.len() >= 2 && line[0] == '↪'
                && line[1] == ' '
        }),
{
    crate::selection::laws::law_mark_is_no_text(w.lines@[row]@);
    crate::selection::laws::law_plain_cells_in_reading_order(
        sel,
        w.lines@[row]@,
        w.offsets@,
        w.viewport_start + row,
        col,
    );
}

/// A frame shows the rows of the log that the view is on, from its top row on, and
/// the pointer is on what it seems to be on: the content position under a cell is that
/// of the character that the cell shows.
pub proof fn law_pointer_hits_what_is_shown(
    state: TuiState,
    input: Input,
    comp: CompletionState,
    area: Rect,
    plan: FramePlan,
    row: int,
    col: int,
    m: crate::event::MouseEvent,
)
    requires
        planned(state, input, comp, area, plan),
        area.fits(),
        0 <= row < plan.log.lines@.len(),
        row < plan.log_inner.height,
        0 <= col < plan.log.lines@[row]@.len(),
        col < plan.log_inner.width,
        m.column == plan.log.cell(plan.log_inner, row, col).x,
        m.row == plan.log.cell(plan.log_inner, row, col).y,
    ensures
        ({
            let (r, c) = plan.viewport.position(m);
            &&& plan.viewport.in_log(m)
            &&& 0 <= r < plan.viewport.wrapped@.len()
            &&& c == col
            &&& plan.viewport.wrapped@[r]@[c] == plan.log.cell(plan.log_inner, row, col).ch
        }),
{
    let inner = plan.log_inner;
    assert(inner.fits());
    let shown = texts(plan.log.lines@);
    let all = texts(plan.viewport.wrapped@);
    assert(shown[row] == plan.log.lines@[row]@);
    assert(shown.len() == plan.log.lines@.len());
    assert(all.len() == plan.viewport.wrapped@.len());
    assert(all.skip(plan.scroll_position as int)[row] == all[plan.scroll_position + row]);
    assert(all[plan.scroll_position + row] == plan.viewport.wrapped@[plan.scroll_position + row]@);
}

/// A view that is not scrolled up ends with the last row, one that is scrolled up
/// as far as can be begins with the first, and a row further up shows one row
/// earlier; a view never leaves the log.
pub proof fn law_frame_follows_scroll_position(
    state: TuiState,
    input: Input,
    comp: CompletionState,
    area: Rect,
    plan: FramePlan,
)
    requires
        planned(state, input, comp, area, plan),
    ensures
        ({
            let total = plan.viewport.wrapped@.len() as int;
            let height = plan.log_inner.height as int;
            let top = plan.scroll_position as int;
            &&& plan.viewport.viewport_start == top
            &&& total >= height ==> (state.scroll_up <= total - height ==> top == total - height
                - state.scroll_up) && (state.scroll_up > total - height ==> top == 0)
            &&& total < height ==> top == 0
            &&& plan.log.lines@.len() == total - top
            &&& plan.scroll_max == if total >= height {
                total - height
            } else {
                0
            }
        }),
{
    let all = texts(plan.viewport.wrapped@);
    assert(all.len() == plan.viewport.wrapped@.len());
    assert(texts(plan.log.lines@).len() == plan.log.lines@.len());
    assert(zipped(plan.viewport.wrapped@, plan.viewport.offsets@).len()
        == plan.viewport.wrapped@.len());
}

/// The title says how many rows the view is scrolled up, and nothing of it at the
/// end of the log.
pub proof fn law_title_tells_scroll_position(up: int)
    requires
        up >= 0,
    ensures
        up == 0 ==> title_text(up) == "Log"@,
        up > 0 ==> title_text(up) == "Log (↑"@ + decimal_text(up as nat) + " rows)"@,
{
}

/// The cursor is on the row of the line, below its upper border, and behind the
/// left border and the prompt: as many columns further as the text before the cursor
/// takes up.
pub proof fn law_cursor_is_behind_prompt(area: Rect, visual: int)
    requires
        0 <= visual <= u16::MAX,
    ensures
        cursor_cell(area, visual).1 == area.y + 1,
        cursor_cell(area, visual).0 == area.x + 1 + "> "@.len() + visual,
{
    reveal_strlit("> ");
}

/// A frame shows the line in two parts, the confirmed one behind the prompt and the
/// suggestion after it: together they are the prompt and the whole line.
pub proof fn law_frame_shows_whole_line(
    state: TuiState,
    input: Input,
    comp: CompletionState,
    area: Rect,
    plan: FramePlan,
)
    requires
        planned(state, input, comp, area, plan),
    ensures
        plan.line@ + plan.suggestion@ == "> "@ + input.value@,
        comp.confirmed <= input.value@.len() ==> plan.line@.len() == "> "@.len() + comp.confirmed,
        comp.confirmed >= input.value@.len() ==> plan.suggestion@.len() == 0,
{
    crate::input::laws::law_confirmed_and_rest_make_line(input.value@, comp.confirmed as int);
    assert(plan.line@ + plan.suggestion@ =~= "> "@ + input.value@);
}

/// A frame highlights what is selected: a cell that shows a character of the log
/// is highlighted just where the selection, as it is kept, takes in that character.
pub proof fn law_frame_highlights_selection(
    state: TuiState,
    input: Input,
    comp: CompletionState,
    area: Rect,
    plan: FramePlan,
    row: int,
    col: int,
)
    requires
        planned(state, input, comp, area, plan),
        0 <= row < plan.log.lines@.len(),
        0 <= col < plan.log.lines@[row]@.len(),
    ensures
        ({
            let cell = plan.log.cell(plan.log_inner, row, col);
            let at = plan.scroll_position + row;
            let line = plan.log.lines@[row]@;
            &&& state.selection is None ==> !cell.selected
            &&& state.selection matches Some(sel) ==> cell.selected == cell_selected(
                ordered(sel),
                state.selection_rect,
                line,
                plan.viewport.offsets@,
                at,
                col,
            )
        }),
{
}

/// A frame shows the whole log, wrapped to what is inside its border, and keeps for
/// the mouse where that is: the log fills the upper part of the screen, and the view
/// lies inside its border.
pub proof fn law_frame_wraps_whole_log(
    state: TuiState,
    input: Input,
    comp: CompletionState,
    area: Rect,
    plan: FramePlan,
)
    requires
        planned(state, input, comp, area, plan),
    ensures
        zipped(plan.viewport.wrapped@, plan.viewport.offsets@) == log_rows(
            texts(state.log_lines@),
            plan.log_inner.width as usize,
        ),
        plan.viewport.offsets@.len() == plan.viewport.wrapped@.len(),
        plan.viewport.total_wrapped == plan.viewport.wrapped@.len(),
        plan.viewport.log_area == plan.log_area,
        plan.viewport.log_inner == plan.log_inner,
        plan.log_inner == plan.log_area.shrunk(1, 1),
        (plan.log_area, plan.input_area) == split_rows(area, 3, 3),
        texts(plan.log.lines@) == texts(plan.viewport.wrapped@).skip(plan.scroll_position as int),
        plan.title@ == title_text(plan.scroll_max - plan.scroll_position),
{
    let all = zipped(plan.viewport.wrapped@, plan.viewport.offsets@);
    assert(all.len() == plan.viewport.wrapped@.len());
}

/// The cursor of a frame is where the text before it ends on the screen, if that is
/// on the screen at all.
pub proof fn law_frame_shows_cursor(
    state: TuiState,
    input: Input,
    comp: CompletionState,
    area: Rect,
    plan: FramePlan,
)
    requires
        planned(state, input, comp, area, plan),
        visual_column(input.value@, input.cursor) <= u16::MAX,
    ensures
        plan.cursor matches Some(at) ==> at.0 == plan.input_area.x + 3 + visual_column(
            input.value@,
            input.cursor,
        ) && at.1 == plan.input_area.y + 1,
        plan.input_area.x + 3 + visual_column(input.value@, input.cursor) <= u16::MAX
            && plan.input_area.y < u16::MAX ==> plan.cursor is Some,
{
}

} // verus!
