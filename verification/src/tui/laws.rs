//! What the mouse does to the log view, in terms of cells and rows.

use crate::event::{MouseButton, MouseEvent, MouseEventKind};
use crate::selection::{cell_selected, copied, dragged, original_column, row_indent, word_span, ClickMode};
use crate::text::texts;
use crate::tui::{
    after_idle, after_mouse, clip_after, measured, mouse_handled, timed, Clip, Interaction, MouseState,
    TuiState, ViewportCache,
};
use std::time::{Duration, Instant};
use vstd::prelude::*;

verus! {

/// The pointer is on a cell inside the border of the log.
pub open spec fn inside(vp: ViewportCache, m: MouseEvent) -> bool {
    &&& vp.log_inner.x <= m.column < vp.log_inner.x + vp.log_inner.width
    &&& vp.log_inner.y <= m.row < vp.log_inner.y + vp.log_inner.height
}

/// The pointer is on the right border of the log, between its corners.
pub open spec fn on_bar(vp: ViewportCache, m: MouseEvent) -> bool {
    &&& m.column + 1 == vp.log_area.x + vp.log_area.width
    &&& vp.log_area.y < m.row
    &&& m.row + 1 < vp.log_area.y + vp.log_area.height
}

/// The left button is pressed on a cell of the log.
pub open spec fn pressed_inside(vp: ViewportCache, m: MouseEvent) -> bool {
    m.kind == MouseEventKind::Down(MouseButton::Left) && inside(vp, m) && !on_bar(vp, m)
}

/// The row of the log under the pointer.
pub open spec fn row_under(vp: ViewportCache, m: MouseEvent) -> int {
    vp.viewport_start + (m.row - vp.log_inner.y)
}

/// The column of that row under the pointer.
pub open spec fn col_under(vp: ViewportCache, m: MouseEvent) -> int {
    m.column - vp.log_inner.x
}

/// All rows of the log are known, the view lies in the log, and positions fit.
pub open spec fn in_order(s: Interaction, vp: ViewportCache) -> bool {
    &&& vp.wf()
    &&& vp.wrapped@.len() == vp.total_wrapped
    &&& 0 < vp.log_inner.height <= vp.total_wrapped
    &&& 0 <= s.scroll_up <= vp.total_wrapped - vp.log_inner.height
    &&& s.scroll_up <= u16::MAX
}

/// A plain drag by single characters is under way, from the cell `a`.
pub open spec fn dragging_from(s: Interaction, a: (usize, usize)) -> bool {
    &&& s.selecting
    &&& !s.scrollbar_drag
    &&& s.click_mode == ClickMode::Char
    &&& !s.rect
    &&& s.anchor == Some(a)
}

/// While a plain drag is held below the view, the view scrolls down by a row, as
/// long as there are rows below it, and the selection goes from where the drag began
/// to the end of the row below the view, or of the last row. So where the drag began
/// at or above the lowest row in view, every cell from there to the end of that row
/// is selected, and no cell before.
pub proof fn law_drag_below_view_selects_down(
    s: Interaction,
    vp: ViewportCache,
    m: MouseEvent,
    fast: bool,
    a: (usize, usize),
    row: int,
    col: int,
)
    requires
        in_order(s, vp),
        dragging_from(s, a),
        m.kind == MouseEventKind::Drag(MouseButton::Left),
        m.row >= vp.log_inner.y + vp.log_inner.height,
    ensures
        ({
            let rows = texts(vp.wrapped@);
            let after = after_mouse(s, vp, m, fast);
            let lowest = vp.total_wrapped - after.scroll_up - 1;
            let last = if after.scroll_up > 0 {
                lowest + 1
            } else {
                lowest
            };
            &&& after.scroll_up == if s.scroll_up > 0 {
                s.scroll_up - 1
            } else {
                0
            }
            &&& after.auto_scroll == Some(false)
            &&& after.selecting
            &&& a.0 <= lowest && a.1 <= rows[a.0 as int].len() ==> {
                &&& after.selection matches Some(sel)
                &&& sel.0 == a.0 && sel.1 == a.1
                &&& sel.2 == last && sel.3 == rows[last].len() + 1
                &&& a.0 < row <= lowest || (a.0 == row && a.1 <= col) ==> (0 <= col
                    < rows[row].len() ==> cell_selected(
                    sel,
                    false,
                    rows[row],
                    vp.offsets@,
                    row,
                    col,
                ))
                &&& row < a.0 || (row == a.0 && col < a.1) ==> !cell_selected(
                    sel,
                    false,
                    rows[row],
                    vp.offsets@,
                    row,
                    col,
                )
            }
        }),
{
    let rows = texts(vp.wrapped@);
    let after = after_mouse(s, vp, m, fast);
    let lowest = vp.total_wrapped - after.scroll_up - 1;
    let last = if after.scroll_up > 0 {
        lowest + 1
    } else {
        lowest
    };
    assert(crate::selection::offset_of(vp.offsets@, last) + crate::selection::row_len(rows, last)
        + 0x10000 <= usize::MAX);
}

/// While a plain drag is held above the view, the view scrolls up by a row, as long
/// as there are rows above it, and the selection goes from the first column of the
/// top row in view to where the drag began: every cell between is selected, and no
/// cell after it.
pub proof fn law_drag_above_view_selects_up(
    s: Interaction,
    vp: ViewportCache,
    m: MouseEvent,
    fast: bool,
    a: (usize, usize),
    row: int,
    col: int,
)
    requires
        in_order(s, vp),
        dragging_from(s, a),
        a.1 < usize::MAX,
        m.kind == MouseEventKind::Drag(MouseButton::Left),
        m.row < vp.log_inner.y,
    ensures
        ({
            let rows = texts(vp.wrapped@);
            let after = after_mouse(s, vp, m, fast);
            let top = vp.total_wrapped - vp.log_inner.height - after.scroll_up;
            &&& after.scroll_up == if s.scroll_up < vp.total_wrapped - vp.log_inner.height {
                s.scroll_up + 1
            } else {
                s.scroll_up
            }
            &&& after.auto_scroll == Some(true)
            &&& after.selecting
            &&& top <= a.0 ==> {
                &&& after.selection matches Some(sel)
                &&& sel.0 == top && sel.1 == 0 && sel.2 == a.0 && sel.3 == a.1 + 1
                &&& top <= row < a.0 || (row == a.0 && col <= a.1) ==> (0 <= col ==> cell_selected(
                    sel,
                    false,
                    rows[row],
                    vp.offsets@,
                    row,
                    col,
                ))
                &&& row < top || row > a.0 || (row == a.0 && col > a.1) ==> !cell_selected(
                    sel,
                    false,
                    rows[row],
                    vp.offsets@,
                    row,
                    col,
                )
            }
        }),
{
}

/// While the pointer is held beyond an edge and no event comes, the view goes on
/// just as it would if the pointer were dragged there again.
pub proof fn law_idle_goes_on_as_drag(
    s: Interaction,
    vp: ViewportCache,
    m: MouseEvent,
    fast: bool,
)
    requires
        s.selecting,
        !s.scrollbar_drag,
        m.kind == MouseEventKind::Drag(MouseButton::Left),
        s.auto_scroll == Some(true) && m.row < vp.log_inner.y || s.auto_scroll == Some(false)
            && m.row >= vp.log_inner.y + vp.log_inner.height,
        vp.log_inner.height > 0,
    ensures
        after_idle(s, vp) == after_mouse(s, vp, m, fast),
{
}

/// Without a drag beyond an edge nothing happens while no event comes.
pub proof fn law_idle_rests(s: Interaction, vp: ViewportCache)
    requires
        s.auto_scroll is None || !s.selecting,
    ensures
        after_idle(s, vp) == s,
{
}

/// The wheel over the log or its scrollbar scrolls by three rows, up towards older
/// ones and down towards newer ones, as far as the position counts; elsewhere it does
/// nothing.
pub proof fn law_wheel_scrolls_three_rows(
    s: Interaction,
    vp: ViewportCache,
    m: MouseEvent,
    fast: bool,
)
    requires
        0 <= s.scroll_up <= u16::MAX,
    ensures
        ({
            let over = inside(vp, m) || on_bar(vp, m);
            let after = after_mouse(s, vp, m, fast).scroll_up;
            &&& m.kind == MouseEventKind::ScrollUp && over && s.scroll_up + 3 <= u16::MAX ==> after
                == s.scroll_up + 3
            &&& m.kind == MouseEventKind::ScrollUp && over && s.scroll_up + 3 > u16::MAX ==> after
                == u16::MAX
            &&& m.kind == MouseEventKind::ScrollDown && over && s.scroll_up >= 3 ==> after
                == s.scroll_up - 3
            &&& m.kind == MouseEventKind::ScrollDown && over && s.scroll_up < 3 ==> after == 0
            &&& (m.kind == MouseEventKind::ScrollUp || m.kind == MouseEventKind::ScrollDown)
                && !over ==> after == s.scroll_up
        }),
{
}

/// A press on a cell of the log begins a selection there: clicks that follow each
/// other fast at one place are counted, others begin anew. The first takes in
/// characters, the second words, and any further one lines.
pub proof fn law_clicks_are_counted(s: Interaction, vp: ViewportCache, m: MouseEvent, fast: bool)
    requires
        vp.wf(),
        s.click_count >= 1,
        pressed_inside(vp, m),
    ensures
        ({
            let after = after_mouse(s, vp, m, fast);
            let again = fast && s.last_click_pos == (m.column, m.row);
            &&& after.click_count == if again {
                s.click_count + 1
            } else {
                1
            }
            &&& after.last_click_pos == (m.column, m.row)
            &&& !again ==> after.click_mode == ClickMode::Char
            &&& again && s.click_count == 1 ==> after.click_mode == ClickMode::Word
            &&& again && s.click_count >= 2 ==> after.click_mode == ClickMode::Line
            &&& after.selecting
            &&& after.auto_scroll is None
            &&& after.scroll_up == s.scroll_up
            &&& after.scrollbar_drag == s.scrollbar_drag
        }),
{
}

/// A single click selects the one character under the pointer, and a drag begins
/// there. With Alt held the selection is a box.
pub proof fn law_single_click_selects_one_cell(
    s: Interaction,
    vp: ViewportCache,
    m: MouseEvent,
    row: int,
    col: int,
)
    requires
        vp.wf(),
        pressed_inside(vp, m),
        0 <= row_under(vp, m) < vp.wrapped@.len(),
        0 <= row < vp.wrapped@.len(),
    ensures
        ({
            let rows = texts(vp.wrapped@);
            let after = after_mouse(s, vp, m, false);
            let (r, c) = (row_under(vp, m), col_under(vp, m));
            &&& after.anchor == Some((r as usize, c as usize))
            &&& after.rect == m.modifiers.alt
            &&& after.selection matches Some(sel)
            &&& !m.modifiers.alt ==> (cell_selected(sel, false, rows[row], vp.offsets@, row, col)
                <==> row == r && col == c)
            &&& m.modifiers.alt && row_indent(rows[row]) <= col ==> (cell_selected(
                sel,
                true,
                rows[row],
                vp.offsets@,
                row,
                col,
            ) <==> row == r && original_column(rows, vp.offsets@, row, col) == original_column(
                rows,
                vp.offsets@,
                r,
                c,
            ))
        }),
{
    let rows = texts(vp.wrapped@);
    let r = row_under(vp, m);
    assert(crate::selection::offset_of(vp.offsets@, r) + crate::selection::row_len(rows, r)
        + 0x10000 <= usize::MAX);
}

/// A double click selects the word under the pointer, and a triple click the row;
/// a drag then begins where the selection does. Neither is a box.
pub proof fn law_double_and_triple_click(
    s: Interaction,
    vp: ViewportCache,
    m: MouseEvent,
)
    requires
        vp.wf(),
        pressed_inside(vp, m),
        0 <= row_under(vp, m) < vp.wrapped@.len(),
        s.last_click_pos == (m.column, m.row),
        s.click_count >= 1,
    ensures
        ({
            let rows = texts(vp.wrapped@);
            let after = after_mouse(s, vp, m, true);
            let r = row_under(vp, m);
            let word = word_span(rows[r], col_under(vp, m));
            &&& !after.rect
            &&& after.selection matches Some(sel)
            &&& sel.0 == r && sel.2 == r
            &&& s.click_count == 1 ==> sel.1 == word.0 && sel.3 == word.1
            &&& s.click_count >= 2 ==> sel.1 == 0 && sel.3 == rows[r].len()
            &&& after.anchor == Some((sel.0, sel.1))
        }),
{
    let rows = texts(vp.wrapped@);
    let r = row_under(vp, m);
    let c = col_under(vp, m);
    assert(crate::selection::offset_of(vp.offsets@, r) + crate::selection::row_len(rows, r)
        + 0x10000 <= usize::MAX);
    if c < rows[r].len() {
        if crate::selection::word_char(rows[r][c]) {
            crate::selection::laws::law_word_is_a_longest_run(rows[r], c);
        }
    }
}

/// Below the last row of the log a click still marks the place where a drag can
/// begin. There is no word there, so a double click leaves the selection and the
/// place where a drag begins as they were, and a triple click selects nothing.
pub proof fn law_clicks_below_the_log(s: Interaction, vp: ViewportCache, m: MouseEvent, fast: bool)
    requires
        vp.wf(),
        pressed_inside(vp, m),
        row_under(vp, m) >= vp.wrapped@.len(),
    ensures
        ({
            let after = after_mouse(s, vp, m, fast);
            let (r, c) = (row_under(vp, m), col_under(vp, m));
            let again = fast && s.last_click_pos == (m.column, m.row);
            &&& !again && !m.modifiers.alt ==> after.selection == Some(
                (r as usize, c as usize, r as usize, (c + 1) as usize),
            )
            &&& !again ==> after.anchor == Some((r as usize, c as usize)) && after.rect
                == m.modifiers.alt
            &&& again && s.click_count == 1 ==> after.selection == s.selection && after.anchor
                == s.anchor && !after.rect
            &&& again && s.click_count >= 2 ==> after.selection == Some(
                (r as usize, 0usize, r as usize, 0usize),
            ) && after.anchor == Some((r as usize, 0usize)) && !after.rect
        }),
{
}

/// The clock decides whether a click is one more in a row: it is where less than
/// half a second has gone by since the last one, and the time of every click is kept.
pub proof fn law_half_a_second_for_another_click(
    m: MouseEvent,
    state: TuiState,
    mouse: MouseState,
    vp: ViewportCache,
    state_after: TuiState,
    mouse_after: MouseState,
    clip: Clip,
    last: Instant,
)
    requires
        vp.wf(),
        mouse_handled(m, state, mouse, vp, state_after, mouse_after, clip),
        pressed_inside(vp, m),
        mouse.last_click_time == Some(last),
        mouse.last_click_pos == (m.column, m.row),
    ensures
        exists|now: Instant, d: Duration, ms: u128| #[trigger]
            measured(now, last, d, ms) && mouse_after.last_click_time == Some(now)
                && mouse_after.click_count == if ms < 500 {
                mouse.click_count + 1
            } else {
                1
            },
{
    let (now, since) = choose|now: Instant, since: Option<u128>| #[trigger]
        timed(now, mouse.last_click_time, since) && crate::tui::interaction(
            state_after,
            mouse_after,
        ) == after_mouse(
            crate::tui::interaction(state, mouse),
            vp,
            m,
            crate::tui::soon(since),
        ) && mouse_after.last_click_time == if crate::tui::counts_as_click(vp, m) {
            Some(now)
        } else {
            mouse.last_click_time
        };
    let (d, ms) = choose|d: Duration, ms: u128| #[trigger]
        measured(now, last, d, ms) && since == Some(ms);
    assert(crate::tui::counts_as_click(vp, m));
    assert(measured(now, last, d, ms));
    assert(mouse_after.click_count == crate::tui::interaction(state_after, mouse_after).click_count);
}

/// The first click of all selects a character: no earlier one counts.
pub proof fn law_first_click_is_single(
    m: MouseEvent,
    state: TuiState,
    mouse: MouseState,
    vp: ViewportCache,
    state_after: TuiState,
    mouse_after: MouseState,
    clip: Clip,
)
    requires
        vp.wf(),
        mouse_handled(m, state, mouse, vp, state_after, mouse_after, clip),
        pressed_inside(vp, m),
        mouse.last_click_time is None,
    ensures
        mouse_after.click_count == 1,
        mouse_after.click_mode == ClickMode::Char,
        mouse_after.last_click_time is Some,
{
    assert(mouse_after.click_count == crate::tui::interaction(state_after, mouse_after).click_count);
}

/// The mouse changes neither the log nor the history, and what is no press in the
/// log leaves the time of the last click alone.
pub proof fn law_mouse_leaves_log_alone(
    m: MouseEvent,
    state: TuiState,
    mouse: MouseState,
    vp: ViewportCache,
    state_after: TuiState,
    mouse_after: MouseState,
    clip: Clip,
)
    requires
        mouse_handled(m, state, mouse, vp, state_after, mouse_after, clip),
    ensures
        state_after.log_lines == state.log_lines,
        state_after.history == state.history,
        state_after.history_idx == state.history_idx,
        !pressed_inside(vp, m) ==> mouse_after.last_click_time == mouse.last_click_time,
{
}

/// A press of the left button elsewhere than on the log or its scrollbar drops the
/// selection and ends selecting, and nothing else.
pub proof fn law_press_elsewhere_drops_selection(
    s: Interaction,
    vp: ViewportCache,
    m: MouseEvent,
    fast: bool,
)
    requires
        m.kind == MouseEventKind::Down(MouseButton::Left),
        !inside(vp, m),
        !on_bar(vp, m),
    ensures
        after_mouse(s, vp, m, fast) == (Interaction {
            selection: None,
            selecting: false,
            auto_scroll: None,
            ..s
        }),
        clip_after(s, vp, m) == Clip::Nothing,
{
}

/// A press on the scrollbar takes hold of it and moves the view in proportion: as
/// many rows are above the view, of all those that can be, as cells of the track are
/// above the pointer, rounded down. The selection stays.
pub proof fn law_scrollbar_is_proportional(
    s: Interaction,
    vp: ViewportCache,
    m: MouseEvent,
    fast: bool,
)
    requires
        vp.wf(),
        m.kind == MouseEventKind::Down(MouseButton::Left),
        on_bar(vp, m),
        vp.total_wrapped >= vp.log_inner.height,
    ensures
        ({
            let after = after_mouse(s, vp, m, fast);
            let most = vp.total_wrapped - vp.log_inner.height;
            let above = most - after.scroll_up;
            let track = vp.log_area.height - 2;
            let y = m.row - vp.log_area.y - 1;
            &&& after.scrollbar_drag
            &&& after.selection == s.selection
            &&& after.selecting == s.selecting
            &&& 0 <= after.scroll_up <= u16::MAX
            &&& after.scroll_up < u16::MAX ==> above * track <= y * most < (above + 1) * track
            &&& after.scroll_up == u16::MAX ==> y * most < (above + 1) * track
        }),
{
    let most = vp.total_wrapped - vp.log_inner.height;
    let track = vp.log_area.height - 2;
    let y = m.row - vp.log_area.y - 1;
    let down = y * most / track;
    assert(down * track <= y * most < (down + 1) * track) by (nonlinear_arith)
        requires
            track > 0,
            down == y * most / track,
    ;
    assert(0 <= down <= most) by (nonlinear_arith)
        requires
            track > 0,
            0 <= y < track,
            0 <= most,
            down == y * most / track,
    ;
    let above = most - after_mouse(s, vp, m, fast).scroll_up;
    assert(above >= down);
    assert((down + 1) * track <= (above + 1) * track) by (nonlinear_arith)
        requires
            above >= down,
            track > 0,
    ;
}

/// While the scrollbar is held, dragging along it moves the view as a press at that
/// row would, from above its top as at its top; dragging beside it does nothing, and
/// the selection stays either way.
pub proof fn law_held_scrollbar_follows_pointer(
    s: Interaction,
    vp: ViewportCache,
    drag: MouseEvent,
    press: MouseEvent,
    fast: bool,
)
    requires
        s.scrollbar_drag,
        drag.kind == MouseEventKind::Drag(MouseButton::Left),
        press.kind == MouseEventKind::Down(MouseButton::Left),
        on_bar(vp, press),
        press.row == drag.row || drag.row <= vp.log_area.y && press.row == vp.log_area.y + 1,
    ensures
        drag.column + 1 == vp.log_area.x + vp.log_area.width ==> after_mouse(s, vp, drag, fast)
            == after_mouse(s, vp, press, fast),
        drag.column + 1 != vp.log_area.x + vp.log_area.width ==> after_mouse(s, vp, drag, fast)
            == s,
        clip_after(s, vp, drag) == Clip::Nothing,
{
}

/// The release of a held scrollbar lets go of it, and does nothing else: nothing is
/// copied.
pub proof fn law_scrollbar_release_copies_nothing(
    s: Interaction,
    vp: ViewportCache,
    m: MouseEvent,
    fast: bool,
)
    requires
        m.kind == MouseEventKind::Up(MouseButton::Left),
        s.scrollbar_drag,
    ensures
        after_mouse(s, vp, m, fast) == (Interaction { scrollbar_drag: false, ..s }),
        clip_after(s, vp, m) == Clip::Nothing,
{
}

/// The release that ends a selection copies its text, wherever the pointer is, and
/// keeps the selection on the screen. An empty text is not copied.
pub proof fn law_release_copies_text(
    s: Interaction,
    vp: ViewportCache,
    m: MouseEvent,
    fast: bool,
)
    requires
        m.kind == MouseEventKind::Up(MouseButton::Left),
        !s.scrollbar_drag,
        s.selecting,
    ensures
        after_mouse(s, vp, m, fast) == (Interaction { selecting: false, auto_scroll: None, ..s }),
        s.selection matches Some(sel) ==> {
            let text = copied(texts(vp.wrapped@), vp.offsets@, sel, s.rect);
            if text.len() > 0 {
                clip_after(s, vp, m) == Clip::Copy(text)
            } else {
                clip_after(s, vp, m) == Clip::Nothing
            }
        },
        s.selection is None ==> clip_after(s, vp, m) == Clip::Nothing,
{
}

/// What a mouse event puts on the clipboard is the text of the selection as it then is
/// on the screen, never an empty one; only the release that ends a selection and the
/// right click do so. The middle click, and nothing else, asks for the clipboard.
pub proof fn law_clipboard_gets_what_is_selected(
    m: MouseEvent,
    state: TuiState,
    mouse: MouseState,
    vp: ViewportCache,
    state_after: TuiState,
    mouse_after: MouseState,
    clip: Clip,
)
    requires
        mouse_handled(m, state, mouse, vp, state_after, mouse_after, clip),
    ensures
        clip == Clip::Paste <==> m.kind == MouseEventKind::Down(MouseButton::Middle),
        clip matches Clip::Copy(text) ==> {
            &&& text.len() > 0
            &&& m.kind == MouseEventKind::Up(MouseButton::Left) && mouse.selecting || m.kind
                == MouseEventKind::Down(MouseButton::Right)
            &&& state_after.selection matches Some(sel)
            &&& text == copied(texts(vp.wrapped@), vp.offsets@, sel, state_after.selection_rect)
        },
        m.kind == MouseEventKind::Up(MouseButton::Left) && mouse.selecting && !mouse.scrollbar_drag
            ==> (state_after.selection matches Some(sel) ==> (copied(
            texts(vp.wrapped@),
            vp.offsets@,
            sel,
            state_after.selection_rect,
        ).len() > 0 ==> clip is Copy)),
{
}

/// A drag in the view draws the selection from where it began to the cell under the
/// pointer, and ends scrolling at the edge; the view stays.
pub proof fn law_drag_in_view_extends_to_pointer(
    s: Interaction,
    vp: ViewportCache,
    m: MouseEvent,
    fast: bool,
    a: (usize, usize),
)
    requires
        vp.wf(),
        m.kind == MouseEventKind::Drag(MouseButton::Left),
        inside(vp, m),
        s.selecting,
        !s.scrollbar_drag,
        s.anchor == Some(a),
    ensures
        after_mouse(s, vp, m, fast) == (Interaction {
            selection: dragged(
                texts(vp.wrapped@),
                vp.offsets@,
                s.click_mode,
                s.rect,
                a,
                (row_under(vp, m) as usize, col_under(vp, m) as usize),
                s.selection,
            ),
            auto_scroll: None,
            ..s
        }),
{
}

/// A drag that did not begin in the log or on its scrollbar does nothing, and
/// neither does a release.
pub proof fn law_drag_needs_a_press(s: Interaction, vp: ViewportCache, m: MouseEvent, fast: bool)
    requires
        m.kind == MouseEventKind::Drag(MouseButton::Left) || m.kind == MouseEventKind::Up(
            MouseButton::Left,
        ),
        !s.selecting,
        !s.scrollbar_drag,
    ensures
        after_mouse(s, vp, m, fast) == s,
        clip_after(s, vp, m) == Clip::Nothing,
{
}

/// The right button extends a selection to the cell under the pointer, as a drag
/// there would, and copies it at once; without a selection, or outside the log, it
/// drops what is selected. It begins no drag.
pub proof fn law_right_click_extends(
    s: Interaction,
    vp: ViewportCache,
    m: MouseEvent,
    drag: MouseEvent,
    fast: bool,
)
    requires
        vp.wf(),
        m.kind == MouseEventKind::Down(MouseButton::Right),
        drag.kind == MouseEventKind::Drag(MouseButton::Left),
        (drag.column, drag.row) == (m.column, m.row),
    ensures
        ({
            let after = after_mouse(s, vp, m, fast);
            let held = Interaction { selecting: true, scrollbar_drag: false, ..s };
            let rows = texts(vp.wrapped@);
            &&& after.selecting == s.selecting
            &&& after.scroll_up == s.scroll_up
            &&& inside(vp, m) && s.selection is Some ==> after.selection == after_mouse(
                held,
                vp,
                drag,
                fast,
            ).selection
            &&& inside(vp, m) && s.selection is Some && s.anchor is Some && after.selection is Some
                && copied(rows, vp.offsets@, after.selection->Some_0, s.rect).len() > 0
                ==> clip_after(s, vp, m) == Clip::Copy(
                copied(rows, vp.offsets@, after.selection->Some_0, s.rect),
            )
            &&& !inside(vp, m) || s.selection is None ==> after.selection is None && clip_after(
                s,
                vp,
                m,
            ) == Clip::Nothing
        }),
{
}

/// The middle button asks for what is on the clipboard and changes nothing here;
/// mere movements, other releases and other drags do nothing at all.
pub proof fn law_other_mouse_events(s: Interaction, vp: ViewportCache, m: MouseEvent, fast: bool)
    requires
        m.kind == MouseEventKind::Down(MouseButton::Middle) || m.kind is Moved || m.kind
            is ScrollLeft || m.kind is ScrollRight || m.kind == MouseEventKind::Up(MouseButton::Right) || m.kind == MouseEventKind::Up(
            MouseButton::Middle,
        ) || m.kind == MouseEventKind::Drag(MouseButton::Right) || m.kind == MouseEventKind::Drag(
            MouseButton::Middle,
        ),
    ensures
        after_mouse(s, vp, m, fast) == s,
        clip_after(s, vp, m) == if m.kind is Down {
            Clip::Paste
        } else {
            Clip::Nothing
        },
{
}

} // verus!
