//! The log view: scrolling, and selection with the mouse.
//!
//! A selection is kept in content coordinates, so it stays on the same text
//! while the view scrolls.

pub mod laws;

use crate::event::{MouseButton, MouseEvent, MouseEventKind};
use crate::geometry::Rect;
use crate::selection::{
    cell_selected, char_count, copied, drag_fits, drag_selection, dragged, extract_selection, greatest,
    law_drag_includes_both_ends, least, lemma_word_around_column, lemma_word_start, offset_of, orig_col,
    original_column, row_indent, row_len, word_boundaries, word_span, ClickMode, Selection,
};
use crate::text::texts;
use std::time::{Duration, Instant};
use vstd::prelude::*;
use vstd::string::*;

verus! {

/// A moment in time; only the time between two of them is ever looked at.
#[verifier::external_type_specification]
#[verifier::external_body]
pub struct ExInstant(std::time::Instant);

/// `Instant::now` reads the clock; nothing is known of what it shows.
pub assume_specification[ std::time::Instant::now ]() -> (t: std::time::Instant)
;

/// `Instant::duration_since` measures the time between two moments; nothing is
/// known of how long that is.
pub assume_specification[ std::time::Instant::duration_since ](
    later: &std::time::Instant,
    earlier: std::time::Instant,
) -> (d: std::time::Duration)
;

/// `Duration::as_millis` gives the whole milliseconds of a time span; nothing
/// is known of how many they are.
pub assume_specification[ std::time::Duration::as_millis ](d: &std::time::Duration) -> (ms: u128)
;

/// What the clock may show: `now` is a moment that it shows, and `ms` milliseconds
/// lie between `last` and `now`, as `d` has them.
pub open spec fn measured(now: Instant, last: Instant, d: Duration, ms: u128) -> bool {
    &&& call_ensures(Instant::now, (), now)
    &&& call_ensures(Instant::duration_since, (&now, last), d)
    &&& call_ensures(Duration::as_millis, (&d,), ms)
}

/// Whether the clock may show `now`, and `since` milliseconds after `last`, where
/// there is such a moment.
pub open spec fn timed(now: Instant, last: Option<Instant>, since: Option<u128>) -> bool {
    match last {
        Some(last) => exists|d: Duration, ms: u128| #[trigger]
            measured(now, last, d, ms) && since == Some(ms),
        None => call_ensures(Instant::now, (), now) && since is None,
    }
}

/// Reads the clock, and how many milliseconds have gone by since `last`.
pub(crate) fn read_clock(last: Option<Instant>) -> (r: (Instant, Option<u128>))
    ensures
        timed(r.0, last, r.1),
{
    let now = Instant::now();
    match last {
        Some(last) => {
            let d = now.duration_since(last);
            let ms = d.as_millis();
            assert(measured(now, last, d, ms));
            (now, Some(ms))
        },
        None => (now, None),
    }
}

/// Whether a click is so soon after the one before it that the two belong
/// together.
pub open spec fn soon(since: Option<u128>) -> bool {
    since matches Some(ms) && ms < 500
}

/// Log lines, scroll position, selection and command history.
pub struct TuiState {
    pub log_lines: Vec<String>,
    /// How many rows the view is scrolled up from the end of the log.
    pub scroll_up: u16,
    pub selection: Option<Selection>,
    /// Whether the selection is rectangular.
    pub selection_rect: bool,
    /// The command lines entered so far.
    pub history: Vec<String>,
    /// The line of `history` that is recalled, if one is.
    pub history_idx: Option<usize>,
}

/// The line that a new log begins with.
pub open spec fn greeting() -> Seq<char> {
    "servatui interactive mode. Type 'help' for commands."@
}

impl TuiState {
    /// A log with its greeting, at its end, with nothing selected or entered.
    pub fn new() -> (s: TuiState)
        ensures
            texts(s.log_lines@) == seq![greeting()],
            s.scroll_up == 0,
            s.selection is None,
            !s.selection_rect,
            s.history@.len() == 0,
            s.history_idx is None,
    {
        let mut log_lines: Vec<String> = Vec::new();
        log_lines.push("servatui interactive mode. Type 'help' for commands.".to_string());
        assert(texts(log_lines@) =~= seq![greeting()]);
        TuiState {
            log_lines,
            scroll_up: 0,
            selection: None,
            selection_rect: false,
            history: Vec::new(),
            history_idx: None,
        }
    }
}

impl Default for TuiState {
    fn default() -> (s: TuiState)
        ensures
            texts(s.log_lines@) == seq![greeting()],
            s.scroll_up == 0,
            s.selection is None,
            !s.selection_rect,
            s.history@.len() == 0,
            s.history_idx is None,
    {
        TuiState::new()
    }
}

/// Mouse interaction across frames.
pub struct MouseState {
    pub selecting: bool,
    pub scrollbar_drag: bool,
    pub click_count: u32,
    pub last_click_time: Option<Instant>,
    pub last_click_pos: (u16, u16),
    pub click_mode: ClickMode,
    /// Where the drag began, as (row, display column).
    pub anchor: Option<(usize, usize)>,
    /// Whether the view scrolls on its own: `Some(true)` up, `Some(false)`
    /// down.
    pub auto_scroll: Option<bool>,
}

impl MouseState {
    /// No button is held, nothing was clicked.
    pub fn new() -> (m: MouseState)
        ensures
            !m.selecting,
            !m.scrollbar_drag,
            m.click_count == 0,
            m.last_click_time is None,
            m.last_click_pos == (0u16, 0u16),
            m.click_mode == ClickMode::Char,
            m.anchor is None,
            m.auto_scroll is None,
            m.wf(),
    {
        MouseState {
            selecting: false,
            scrollbar_drag: false,
            click_count: 0,
            last_click_time: None,
            last_click_pos: (0, 0),
            click_mode: ClickMode::Char,
            anchor: None,
            auto_scroll: None,
        }
    }

    /// A drag begins at a column of the screen.
    pub open spec fn wf(&self) -> bool {
        self.anchor matches Some(a) ==> a.1 <= u16::MAX
    }
}

impl Default for MouseState {
    fn default() -> (m: MouseState)
        ensures
            !m.selecting,
            !m.scrollbar_drag,
            m.click_count == 0,
            m.last_click_time is None,
            m.last_click_pos == (0u16, 0u16),
            m.click_mode == ClickMode::Char,
            m.anchor is None,
            m.auto_scroll is None,
            m.wf(),
    {
        MouseState::new()
    }
}

/// What the last frame showed, for translating screen positions.
pub struct ViewportCache {
    pub log_area: Rect,
    /// The part of `log_area` inside its border.
    pub log_inner: Rect,
    /// The content row at the top of the view.
    pub viewport_start: usize,
    /// The number of content rows.
    pub total_wrapped: usize,
    pub wrapped: Vec<String>,
    /// For each row, its position in its original line.
    pub offsets: Vec<usize>,
}

impl ViewportCache {
    /// The areas fit the screen, and every position computed from the view
    /// fits its type.
    pub open spec fn wf(&self) -> bool {
        &&& self.log_area.fits()
        &&& self.log_inner.fits()
        &&& self.viewport_start + u16::MAX <= usize::MAX
        &&& self.total_wrapped * 0x10000 <= usize::MAX
        &&& forall|i: int|
            0 <= i ==> #[trigger] offset_of(self.offsets@, i) + row_len(texts(self.wrapped@), i)
                + 0x10000 <= usize::MAX
    }

    /// The cell is one of the log's.
    pub open spec fn in_log(&self, m: MouseEvent) -> bool {
        self.log_inner.covers(m.column as int, m.row as int)
    }

    /// The cell is one of the scrollbar's: the right border, between the
    /// corners.
    pub open spec fn on_scrollbar(&self, m: MouseEvent) -> bool {
        &&& m.column == self.scrollbar_col()
        &&& self.log_area.y < m.row < self.log_area.y + self.log_area.height - 1
    }

    pub open spec fn scrollbar_col(&self) -> int {
        self.log_area.x + self.log_area.width - 1
    }

    /// How far up the view can scroll.
    pub open spec fn max_scroll(&self) -> int {
        greatest(self.total_wrapped - self.log_inner.height, 0)
    }

    /// The content row at the top of the view when it is scrolled up by
    /// `scroll_up` rows.
    pub open spec fn top_row(&self, scroll_up: int) -> int {
        greatest(self.max_scroll() - scroll_up, 0)
    }

    /// The scroll position for a click `y` rows below the top of the
    /// scrollbar: the top shows the oldest rows, or those as far up as a
    /// position can count.
    pub open spec fn scroll_for(&self, y: int) -> int {
        let track = greatest(greatest(self.log_area.height - 2, 0), 1);
        least(greatest(self.max_scroll() - y * self.max_scroll() / track, 0), u16::MAX as int)
    }

    /// The content position under a cell of the screen.
    pub open spec fn position(&self, m: MouseEvent) -> (int, int) {
        (
            self.viewport_start + greatest(m.row - self.log_inner.y, 0),
            greatest(m.column - self.log_inner.x, 0),
        )
    }
}

/// What is to be done with the clipboard.
pub enum ClipboardRequest {
    Nothing,
    /// Put this text there.
    Copy(String),
    /// Ask for what is there.
    Paste,
}

/// A [`ClipboardRequest`] with its text.
pub enum Clip {
    Nothing,
    Copy(Seq<char>),
    Paste,
}

impl View for ClipboardRequest {
    type V = Clip;

    open spec fn view(&self) -> Clip {
        match self {
            ClipboardRequest::Nothing => Clip::Nothing,
            ClipboardRequest::Copy(s) => Clip::Copy(s@),
            ClipboardRequest::Paste => Clip::Paste,
        }
    }
}

/// The part of the view's state that the mouse changes.
pub struct Interaction {
    pub scroll_up: int,
    pub selection: Option<Selection>,
    pub rect: bool,
    pub selecting: bool,
    pub scrollbar_drag: bool,
    pub click_count: int,
    pub last_click_pos: (u16, u16),
    pub click_mode: ClickMode,
    pub anchor: Option<(usize, usize)>,
    pub auto_scroll: Option<bool>,
}

/// The mouse-driven state of a view.
pub open spec fn interaction(state: TuiState, mouse: MouseState) -> Interaction {
    Interaction {
        scroll_up: state.scroll_up as int,
        selection: state.selection,
        rect: state.selection_rect,
        selecting: mouse.selecting,
        scrollbar_drag: mouse.scrollbar_drag,
        click_count: mouse.click_count as int,
        last_click_pos: mouse.last_click_pos,
        click_mode: mouse.click_mode,
        anchor: mouse.anchor,
        auto_scroll: mouse.auto_scroll,
    }
}

/// The log and the history are what they were.
pub open spec fn same_log(before: TuiState, after: TuiState) -> bool {
    &&& after.log_lines == before.log_lines
    &&& after.history == before.history
    &&& after.history_idx == before.history_idx
}

/// The state after the selection is dragged to `current`; nothing changes
/// where no drag has begun.
pub open spec fn extended(s: Interaction, vp: ViewportCache, current: (usize, usize)) -> Interaction {
    match s.anchor {
        Some(anchor) => Interaction {
            selection: dragged(
                texts(vp.wrapped@),
                vp.offsets@,
                s.click_mode,
                s.rect,
                anchor,
                current,
                s.selection,
            ),
            ..s
        },
        None => s,
    }
}

/// The text that the selection copies, if it is not empty.
pub open spec fn clip_of(s: Interaction, vp: ViewportCache) -> Clip {
    match s.selection {
        Some(sel) => {
            let text = copied(texts(vp.wrapped@), vp.offsets@, sel, s.rect);
            if text.len() == 0 {
                Clip::Nothing
            } else {
                Clip::Copy(text)
            }
        },
        None => Clip::Nothing,
    }
}

/// The mode of the `count`-th click in a row at one place.
pub open spec fn mode_for(count: int) -> ClickMode {
    if count == 1 {
        ClickMode::Char
    } else if count == 2 {
        ClickMode::Word
    } else {
        ClickMode::Line
    }
}

/// The state after a click in the log; `fast` says that the last one was less
/// than half a second ago.
pub open spec fn clicked(s: Interaction, vp: ViewportCache, m: MouseEvent, fast: bool) -> Interaction {
    let rows = texts(vp.wrapped@);
    let count = if fast && s.last_click_pos == (m.column, m.row) {
        s.click_count + 1
    } else {
        1
    };
    let row = vp.position(m).0;
    let col = vp.position(m).1;
    let begun = Interaction {
        click_count: count,
        last_click_pos: (m.column, m.row),
        click_mode: mode_for(count),
        selecting: true,
        auto_scroll: None,
        ..s
    };
    match mode_for(count) {
        ClickMode::Char => {
            let at = if m.modifiers.alt {
                original_column(rows, vp.offsets@, row, col)
            } else {
                col
            };
            Interaction {
                anchor: Some((row as usize, col as usize)),
                rect: m.modifiers.alt,
                selection: Some((row as usize, at as usize, row as usize, (at + 1) as usize)),
                ..begun
            }
        },
        ClickMode::Word => if row < rows.len() {
            let word = word_span(rows[row], col);
            Interaction {
                anchor: Some((row as usize, word.0 as usize)),
                rect: false,
                selection: Some((row as usize, word.0 as usize, row as usize, word.1 as usize)),
                ..begun
            }
        } else {
            Interaction { rect: false, ..begun }
        },
        ClickMode::Line => Interaction {
            anchor: Some((row as usize, 0)),
            rect: false,
            selection: Some((row as usize, 0, row as usize, row_len(rows, row) as usize)),
            ..begun
        },
    }
}

/// The state after one step of scrolling at an edge of the view, up or down,
/// with the selection drawn along.
pub open spec fn edge_scrolled(s: Interaction, vp: ViewportCache, up: bool) -> Interaction {
    let scroll_up = if up {
        if s.scroll_up < vp.max_scroll() {
            s.scroll_up + 1
        } else {
            s.scroll_up
        }
    } else {
        greatest(s.scroll_up - 1, 0)
    };
    let moved = Interaction { scroll_up, ..s };
    if up {
        extended(moved, vp, (vp.top_row(scroll_up) as usize, 0))
    } else {
        extended(
            moved,
            vp,
            ((vp.top_row(scroll_up) + vp.log_inner.height) as usize, usize::MAX),
        )
    }
}

/// The state after a drag with the left button.
pub open spec fn drag_moved(s: Interaction, vp: ViewportCache, m: MouseEvent) -> Interaction {
    if s.scrollbar_drag {
        if m.column == vp.scrollbar_col() {
            Interaction { scroll_up: vp.scroll_for(greatest(m.row - vp.log_area.y - 1, 0)), ..s }
        } else {
            s
        }
    } else if !s.selecting {
        s
    } else if m.row < vp.log_inner.y {
        Interaction { auto_scroll: Some(true), ..edge_scrolled(s, vp, true) }
    } else if m.row >= vp.log_inner.y + vp.log_inner.height {
        Interaction { auto_scroll: Some(false), ..edge_scrolled(s, vp, false) }
    } else {
        extended(
            Interaction { auto_scroll: None, ..s },
            vp,
            (vp.position(m).0 as usize, vp.position(m).1 as usize),
        )
    }
}

/// The state after a mouse event.
pub open spec fn after_mouse(s: Interaction, vp: ViewportCache, m: MouseEvent, fast: bool) -> Interaction {
    match m.kind {
        MouseEventKind::ScrollUp => if vp.in_log(m) || vp.on_scrollbar(m) {
            Interaction { scroll_up: least(s.scroll_up + 3, u16::MAX as int), ..s }
        } else {
            s
        },
        MouseEventKind::ScrollDown => if vp.in_log(m) || vp.on_scrollbar(m) {
            Interaction { scroll_up: greatest(s.scroll_up - 3, 0), ..s }
        } else {
            s
        },
        MouseEventKind::Down(MouseButton::Left) => if vp.on_scrollbar(m) {
            Interaction {
                scrollbar_drag: true,
                scroll_up: vp.scroll_for(m.row - vp.log_area.y - 1),
                ..s
            }
        } else if !vp.in_log(m) {
            Interaction { selecting: false, auto_scroll: None, selection: None, ..s }
        } else {
            clicked(s, vp, m, fast)
        },
        MouseEventKind::Drag(MouseButton::Left) => drag_moved(s, vp, m),
        MouseEventKind::Up(MouseButton::Left) => if s.scrollbar_drag {
            Interaction { scrollbar_drag: false, ..s }
        } else if s.selecting {
            Interaction { selecting: false, auto_scroll: None, ..s }
        } else {
            s
        },
        MouseEventKind::Down(MouseButton::Right) => if vp.in_log(m) && s.selection is Some {
            extended(s, vp, (vp.position(m).0 as usize, vp.position(m).1 as usize))
        } else {
            Interaction { selection: None, ..s }
        },
        _ => s,
    }
}

/// What a mouse event asks of the clipboard: the release that ends a selection
/// and the right click that extends one copy it, the middle click pastes.
pub open spec fn clip_after(s: Interaction, vp: ViewportCache, m: MouseEvent) -> Clip {
    match m.kind {
        MouseEventKind::Up(MouseButton::Left) => if !s.scrollbar_drag && s.selecting {
            clip_of(s, vp)
        } else {
            Clip::Nothing
        },
        MouseEventKind::Down(MouseButton::Right) => if vp.in_log(m) && s.selection is Some
            && s.anchor is Some {
            clip_of(after_mouse(s, vp, m, false), vp)
        } else {
            Clip::Nothing
        },
        MouseEventKind::Down(MouseButton::Middle) => Clip::Paste,
        _ => Clip::Nothing,
    }
}

/// Whether a mouse event counts as a click in the log.
pub open spec fn counts_as_click(vp: ViewportCache, m: MouseEvent) -> bool {
    m.kind == MouseEventKind::Down(MouseButton::Left) && vp.in_log(m) && !vp.on_scrollbar(m)
}

/// Scrolling up by one row at the edge of the view does not overrun the scroll
/// position.
pub open spec fn edge_has_room(s: Interaction, vp: ViewportCache, up: bool) -> bool {
    up ==> s.scroll_up < u16::MAX || vp.max_scroll() <= u16::MAX
}

/// A mouse event overruns neither counter: the scroll position grows without
/// bound only where a drag scrolls at the upper edge, and the clicks are counted
/// on only where one follows another at the same place.
pub open spec fn has_room(s: Interaction, vp: ViewportCache, m: MouseEvent) -> bool {
    &&& counts_as_click(vp, m) && s.last_click_pos == (m.column, m.row) ==> s.click_count
        < u32::MAX
    &&& m.kind == MouseEventKind::Drag(MouseButton::Left) && s.selecting && !s.scrollbar_drag
        ==> edge_has_room(s, vp, m.row < vp.log_inner.y)
}

/// Updates the selection for a drag from `anchor` to `current`.
pub fn update_selection(
    state: &mut TuiState,
    mouse: &MouseState,
    anchor: (usize, usize),
    current: (usize, usize),
    wrapped: &Vec<String>,
    offsets: &Vec<usize>,
)
    requires
        drag_fits(
            texts(wrapped@),
            offsets@,
            mouse.click_mode,
            old(state).selection_rect,
            anchor,
            current,
        ),
    ensures
        final(state).selection == dragged(
            texts(wrapped@),
            offsets@,
            mouse.click_mode,
            old(state).selection_rect,
            anchor,
            current,
            old(state).selection,
        ),
        final(state).scroll_up == old(state).scroll_up,
        final(state).selection_rect == old(state).selection_rect,
        same_log(*old(state), *final(state)),
{
    state.selection = drag_selection(
        wrapped,
        offsets,
        mouse.click_mode,
        state.selection_rect,
        anchor,
        current,
        state.selection,
    );
}

/// Drags the selection to `current`, if a drag has begun.
fn extend_to(state: &mut TuiState, mouse: &MouseState, vp: &ViewportCache, current: (usize, usize))
    requires
        vp.wf(),
        mouse.wf(),
    ensures
        interaction(*final(state), *mouse) == extended(
            interaction(*old(state), *mouse),
            *vp,
            current,
        ),
        same_log(*old(state), *final(state)),
{
    if let Some(anchor) = mouse.anchor {
        proof {
            let rows = texts(vp.wrapped@);
            let row = crate::selection::row_within(rows, current.0 as int);
            assert(offset_of(vp.offsets@, anchor.0 as int) + row_len(rows, anchor.0 as int)
                + 0x10000 <= usize::MAX);
            assert(offset_of(vp.offsets@, row) + row_len(rows, row) + 0x10000 <= usize::MAX);
        }
        update_selection(state, mouse, anchor, current, &vp.wrapped, &vp.offsets);
    }
}

/// The text of the selection, as a request to copy it.
fn copy_request(state: &TuiState, vp: &ViewportCache, mouse: Ghost<MouseState>) -> (r:
    ClipboardRequest)
    ensures
        r@ == clip_of(interaction(*state, mouse@), *vp),
{
    match state.selection {
        Some(sel) => {
            let text = extract_selection(
                &vp.wrapped,
                &vp.offsets,
                sel.0,
                sel.1,
                sel.2,
                sel.3,
                state.selection_rect,
            );
            if text.as_str().is_empty() {
                ClipboardRequest::Nothing
            } else {
                ClipboardRequest::Copy(text)
            }
        },
        None => ClipboardRequest::Nothing,
    }
}

/// How far up the view can scroll.
fn max_scroll(vp: &ViewportCache) -> (n: usize)
    ensures
        n == vp.max_scroll(),
{
    let height = vp.log_inner.height as usize;
    if vp.total_wrapped >= height {
        vp.total_wrapped - height
    } else {
        0
    }
}

/// The content row at the top of the view when it is scrolled up by
/// `scroll_up` rows.
fn top_row(vp: &ViewportCache, scroll_up: u16) -> (n: usize)
    ensures
        n == vp.top_row(scroll_up as int),
{
    let max = max_scroll(vp);
    if max >= scroll_up as usize {
        max - scroll_up as usize
    } else {
        0
    }
}

/// The scroll position for a click `y` rows below the top of the scrollbar.
fn scroll_for(vp: &ViewportCache, y: u16) -> (n: u16)
    requires
        vp.wf(),
    ensures
        n == vp.scroll_for(y as int),
{
    let track: usize = if vp.log_area.height > 2 {
        (vp.log_area.height - 2) as usize
    } else {
        1
    };
    let max = max_scroll(vp);
    let y = y as usize;
    assert(y * max <= usize::MAX) by (nonlinear_arith)
        requires
            0 <= y <= 0xffff,
            0 <= max,
            max * 0x10000 <= usize::MAX,
    ;
    let down = y * max / track;
    let to = if max >= down {
        max - down
    } else {
        0
    };
    if to <= u16::MAX as usize {
        to as u16
    } else {
        u16::MAX
    }
}

/// Scrolls one row up or down and draws the selection along.
fn scroll_at_edge(state: &mut TuiState, mouse: &MouseState, vp: &ViewportCache, up: bool)
    requires
        vp.wf(),
        mouse.wf(),
        edge_has_room(interaction(*old(state), *mouse), *vp, up),
    ensures
        interaction(*final(state), *mouse) == edge_scrolled(
            interaction(*old(state), *mouse),
            *vp,
            up,
        ),
        same_log(*old(state), *final(state)),
{
    if up {
        if (state.scroll_up as usize) < max_scroll(vp) {
            state.scroll_up = state.scroll_up + 1;
        }
        let top = top_row(vp, state.scroll_up);
        extend_to(state, mouse, vp, (top, 0));
    } else {
        if state.scroll_up > 0 {
            state.scroll_up = state.scroll_up - 1;
        }
        let top = top_row(vp, state.scroll_up);
        extend_to(state, mouse, vp, (top + vp.log_inner.height as usize, usize::MAX));
    }
}

/// The content position under a cell of the screen.
fn position(vp: &ViewportCache, m: MouseEvent) -> (p: (usize, usize))
    requires
        vp.wf(),
    ensures
        p.0 == vp.position(m).0,
        p.1 == vp.position(m).1,
        p.1 <= u16::MAX,
{
    let row = if m.row >= vp.log_inner.y {
        m.row - vp.log_inner.y
    } else {
        0
    };
    let col = if m.column >= vp.log_inner.x {
        m.column - vp.log_inner.x
    } else {
        0
    };
    (vp.viewport_start + row as usize, col as usize)
}

/// Handles a click in the log.
fn click(state: &mut TuiState, mouse: &mut MouseState, vp: &ViewportCache, m: MouseEvent, fast: bool)
    requires
        vp.wf(),
        old(mouse).wf(),
        old(mouse).last_click_pos == (m.column, m.row) ==> old(mouse).click_count < u32::MAX,
    ensures
        interaction(*final(state), *final(mouse)) == clicked(
            interaction(*old(state), *old(mouse)),
            *vp,
            m,
            fast,
        ),
        same_log(*old(state), *final(state)),
        final(mouse).last_click_time == old(mouse).last_click_time,
        final(mouse).wf(),
{
    let ghost rows = texts(vp.wrapped@);
    if fast && mouse.last_click_pos.0 == m.column && mouse.last_click_pos.1 == m.row {
        mouse.click_count = mouse.click_count + 1;
    } else {
        mouse.click_count = 1;
    }
    mouse.last_click_pos = (m.column, m.row);
    mouse.click_mode = if mouse.click_count == 1 {
        ClickMode::Char
    } else if mouse.click_count == 2 {
        ClickMode::Word
    } else {
        ClickMode::Line
    };
    mouse.selecting = true;
    mouse.auto_scroll = None;
    let (row, col) = position(vp, m);
    assert(offset_of(vp.offsets@, row as int) + row_len(rows, row as int) + 0x10000
        <= usize::MAX);
    match mouse.click_mode {
        ClickMode::Char => {
            mouse.anchor = Some((row, col));
            state.selection_rect = m.modifiers.alt;
            let at = if m.modifiers.alt {
                orig_col(&vp.wrapped, &vp.offsets, row, col)
            } else {
                col
            };
            state.selection = Some((row, at, row, at + 1));
        },
        ClickMode::Word => {
            state.selection_rect = false;
            if row < vp.wrapped.len() {
                assert(rows[row as int] == vp.wrapped@[row as int]@);
                let (start, end) = word_boundaries(vp.wrapped[row].as_str(), col);
                proof {
                    lemma_word_start(rows[row as int], col as int);
                }
                mouse.anchor = Some((row, start));
                state.selection = Some((row, start, row, end));
            }
        },
        ClickMode::Line => {
            state.selection_rect = false;
            let len = if row < vp.wrapped.len() {
                assert(rows[row as int] == vp.wrapped@[row as int]@);
                char_count(vp.wrapped[row].as_str())
            } else {
                0
            };
            mouse.anchor = Some((row, 0));
            state.selection = Some((row, 0, row, len));
        },
    }
}

/// Handles a mouse event. `now` is the time of the event, and `since_click`
/// how many milliseconds it comes after the last click, if there was one.
#[verifier::rlimit(40)]
pub fn handle_mouse_event_at(
    m: MouseEvent,
    state: &mut TuiState,
    mouse: &mut MouseState,
    vp: &ViewportCache,
    now: Instant,
    since_click: Option<u128>,
) -> (clip: ClipboardRequest)
    requires
        vp.wf(),
        old(mouse).wf(),
        has_room(interaction(*old(state), *old(mouse)), *vp, m),
    ensures
        interaction(*final(state), *final(mouse)) == after_mouse(
            interaction(*old(state), *old(mouse)),
            *vp,
            m,
            soon(since_click),
        ),
        clip@ == clip_after(interaction(*old(state), *old(mouse)), *vp, m),
        same_log(*old(state), *final(state)),
        final(mouse).last_click_time == if counts_as_click(*vp, m) {
            Some(now)
        } else {
            old(mouse).last_click_time
        },
        final(mouse).wf(),
{
    let area = vp.log_area;
    let in_log = vp.log_inner.contains(m.column, m.row);
    let at_right_edge = m.column as u32 + 1 == (area.x + area.width) as u32;
    let on_scrollbar = at_right_edge && m.row > area.y && m.row as u32 + 1 < (area.y
        + area.height) as u32;
    match m.kind {
        MouseEventKind::ScrollUp => {
            if in_log || on_scrollbar {
                state.scroll_up = state.scroll_up.saturating_add(3);
            }
            ClipboardRequest::Nothing
        },
        MouseEventKind::ScrollDown => {
            if in_log || on_scrollbar {
                state.scroll_up = state.scroll_up.saturating_sub(3);
            }
            ClipboardRequest::Nothing
        },
        MouseEventKind::Down(MouseButton::Left) => {
            if on_scrollbar {
                mouse.scrollbar_drag = true;
                state.scroll_up = scroll_for(vp, m.row - area.y - 1);
            } else if !in_log {
                mouse.selecting = false;
                mouse.auto_scroll = None;
                state.selection = None;
            } else {
                let fast = match since_click {
                    Some(ms) => ms < 500,
                    None => false,
                };
                click(state, mouse, vp, m, fast);
                mouse.last_click_time = Some(now);
            }
            ClipboardRequest::Nothing
        },
        MouseEventKind::Drag(MouseButton::Left) => {
            if mouse.scrollbar_drag {
                if at_right_edge {
                    let y = if m.row > area.y {
                        m.row - area.y - 1
                    } else {
                        0
                    };
                    state.scroll_up = scroll_for(vp, y);
                }
            } else if mouse.selecting {
                if m.row < vp.log_inner.y {
                    scroll_at_edge(state, mouse, vp, true);
                    mouse.auto_scroll = Some(true);
                } else if m.row >= vp.log_inner.y + vp.log_inner.height {
                    scroll_at_edge(state, mouse, vp, false);
                    mouse.auto_scroll = Some(false);
                } else {
                    mouse.auto_scroll = None;
                    let at = position(vp, m);
                    extend_to(state, mouse, vp, at);
                }
            }
            ClipboardRequest::Nothing
        },
        MouseEventKind::Up(MouseButton::Left) => {
            if mouse.scrollbar_drag {
                mouse.scrollbar_drag = false;
                ClipboardRequest::Nothing
            } else if mouse.selecting {
                mouse.selecting = false;
                mouse.auto_scroll = None;
                copy_request(state, vp, Ghost(*old(mouse)))
            } else {
                ClipboardRequest::Nothing
            }
        },
        MouseEventKind::Down(MouseButton::Right) => {
            if in_log && state.selection.is_some() {
                let at = position(vp, m);
                extend_to(state, mouse, vp, at);
                if mouse.anchor.is_some() {
                    copy_request(state, vp, Ghost(*mouse))
                } else {
                    ClipboardRequest::Nothing
                }
            } else {
                state.selection = None;
                ClipboardRequest::Nothing
            }
        },
        MouseEventKind::Down(MouseButton::Middle) => ClipboardRequest::Paste,
        _ => ClipboardRequest::Nothing,
    }
}

/// What a mouse event does that happens now: the clock decides whether a click is
/// a fast one.
pub open spec fn mouse_handled(
    m: MouseEvent,
    state: TuiState,
    mouse: MouseState,
    vp: ViewportCache,
    state_after: TuiState,
    mouse_after: MouseState,
    clip: Clip,
) -> bool {
    let s = interaction(state, mouse);
    &&& exists|now: Instant, since: Option<u128>| #[trigger]
        timed(now, mouse.last_click_time, since) && interaction(state_after, mouse_after)
            == after_mouse(s, vp, m, soon(since)) && mouse_after.last_click_time
            == if counts_as_click(vp, m) {
            Some(now)
        } else {
            mouse.last_click_time
        }
    &&& clip == clip_after(s, vp, m)
    &&& same_log(state, state_after)
}

/// Handles a mouse event that happens now.
pub fn handle_mouse_event(
    m: MouseEvent,
    state: &mut TuiState,
    mouse: &mut MouseState,
    vp: &ViewportCache,
) -> (clip: ClipboardRequest)
    requires
        vp.wf(),
        old(mouse).wf(),
        has_room(interaction(*old(state), *old(mouse)), *vp, m),
    ensures
        mouse_handled(m, *old(state), *old(mouse), *vp, *final(state), *final(mouse), clip@),
        final(mouse).wf(),
{
    let (now, since_click) = read_clock(mouse.last_click_time);
    handle_mouse_event_at(m, state, mouse, vp, now, since_click)
}

/// The state after the view has scrolled on its own for one step, which it
/// does while the pointer is dragged beyond an edge.
pub open spec fn after_idle(s: Interaction, vp: ViewportCache) -> Interaction {
    match s.auto_scroll {
        Some(up) => if s.selecting {
            edge_scrolled(s, vp, up)
        } else {
            s
        },
        None => s,
    }
}

/// Scrolls on by one step when no event has come.
pub fn handle_idle(state: &mut TuiState, mouse: &MouseState, vp: &ViewportCache)
    requires
        vp.wf(),
        mouse.wf(),
        mouse.auto_scroll == Some(true) && mouse.selecting ==> edge_has_room(
            interaction(*old(state), *mouse),
            *vp,
            true,
        ),
    ensures
        interaction(*final(state), *mouse) == after_idle(interaction(*old(state), *mouse), *vp),
        same_log(*old(state), *final(state)),
{
    if let Some(up) = mouse.auto_scroll {
        if mouse.selecting {
            scroll_at_edge(state, mouse, vp, up);
        }
    }
}

/// A plain click in the log takes in the character under the pointer, whatever
/// was selected before, and so does a rectangular one outside the continuation
/// mark.
pub proof fn law_click_selects_cell(s: Interaction, vp: ViewportCache, m: MouseEvent)
    requires
        vp.wf(),
        vp.in_log(m),
        !vp.on_scrollbar(m),
        m.kind == MouseEventKind::Down(MouseButton::Left),
        vp.position(m).0 < vp.wrapped@.len(),
        m.modifiers.alt ==> crate::selection::row_indent(texts(vp.wrapped@)[vp.position(m).0])
            <= vp.position(m).1,
    ensures
        after_mouse(s, vp, m, false).selection matches Some(sel) && cell_selected(
            sel,
            after_mouse(s, vp, m, false).rect,
            texts(vp.wrapped@)[vp.position(m).0],
            vp.offsets@,
            vp.position(m).0,
            vp.position(m).1,
        ),
{
    let row = vp.position(m).0;
    let rows = texts(vp.wrapped@);
    assert(offset_of(vp.offsets@, row) + row_len(rows, row) + 0x10000 <= usize::MAX);
}

/// A click on a row of the log selects on that row, whether it takes in a
/// character, a word or the line, and does not scroll.
pub proof fn law_click_stays_on_row(s: Interaction, vp: ViewportCache, m: MouseEvent, fast: bool)
    requires
        vp.wf(),
        vp.in_log(m),
        !vp.on_scrollbar(m),
        m.kind == MouseEventKind::Down(MouseButton::Left),
        vp.position(m).0 < vp.wrapped@.len(),
    ensures
        after_mouse(s, vp, m, fast).selection matches Some(sel) && sel.0 == vp.position(m).0
            && sel.2 == vp.position(m).0 && sel.1 <= sel.3,
        after_mouse(s, vp, m, fast).scroll_up == s.scroll_up,
{
    let (row, col) = vp.position(m);
    let rows = texts(vp.wrapped@);
    assert(offset_of(vp.offsets@, row) + row_len(rows, row) + 0x10000 <= usize::MAX);
    if col < rows[row].len() {
        lemma_word_around_column(rows[row], col);
    }
}

/// A press on one character and a drag to another, both in the view, take in
/// both characters; with Alt held, outside the continuation marks.
pub proof fn law_press_and_drag_select_both(
    s: Interaction,
    vp: ViewportCache,
    press: MouseEvent,
    drag: MouseEvent,
)
    requires
        vp.wf(),
        !s.scrollbar_drag,
        press.kind == MouseEventKind::Down(MouseButton::Left),
        drag.kind == MouseEventKind::Drag(MouseButton::Left),
        vp.in_log(press),
        vp.in_log(drag),
        !vp.on_scrollbar(press),
        vp.position(press).0 < vp.wrapped@.len(),
        vp.position(drag).0 < vp.wrapped@.len(),
        vp.position(press).1 < texts(vp.wrapped@)[vp.position(press).0].len(),
        vp.position(drag).1 < texts(vp.wrapped@)[vp.position(drag).0].len(),
        press.modifiers.alt ==> row_indent(texts(vp.wrapped@)[vp.position(press).0])
            <= vp.position(press).1 && row_indent(texts(vp.wrapped@)[vp.position(drag).0])
            <= vp.position(drag).1,
    ensures
        ({
            let rows = texts(vp.wrapped@);
            let (a, b) = (vp.position(press), vp.position(drag));
            let end = after_mouse(after_mouse(s, vp, press, false), vp, drag, false);
            &&& end.selection matches Some(sel)
            &&& cell_selected(sel, end.rect, rows[a.0], vp.offsets@, a.0, a.1)
            &&& cell_selected(sel, end.rect, rows[b.0], vp.offsets@, b.0, b.1)
        }),
{
    let rows = texts(vp.wrapped@);
    let (a, b) = (vp.position(press), vp.position(drag));
    let pressed = after_mouse(s, vp, press, false);
    assert(offset_of(vp.offsets@, a.0) + row_len(rows, a.0) + 0x10000 <= usize::MAX);
    assert(offset_of(vp.offsets@, b.0) + row_len(rows, b.0) + 0x10000 <= usize::MAX);
    law_drag_includes_both_ends(
        rows,
        vp.offsets@,
        ClickMode::Char,
        press.modifiers.alt,
        (a.0 as usize, a.1 as usize),
        (b.0 as usize, b.1 as usize),
        pressed.selection,
    );
}

/// The wheel moves the view and nothing else: the selection stays where it is.
pub proof fn law_wheel_keeps_selection(s: Interaction, vp: ViewportCache, m: MouseEvent, fast: bool)
    requires
        m.kind == MouseEventKind::ScrollUp || m.kind == MouseEventKind::ScrollDown,
    ensures
        after_mouse(s, vp, m, fast) == (Interaction {
            scroll_up: after_mouse(s, vp, m, fast).scroll_up,
            ..s
        }),
        clip_after(s, vp, m) == Clip::Nothing,
{
}

/// A press at the top of the scrollbar shows the oldest rows that a scroll
/// position can reach, one below its
/// last cell the newest, and a press further down never shows older ones.
pub proof fn law_scrollbar_order(vp: ViewportCache, upper: int, lower: int)
    requires
        vp.wf(),
        vp.log_area.height > 2,
        0 <= upper <= lower,
    ensures
        vp.scroll_for(0) == least(vp.max_scroll(), u16::MAX as int),
        vp.scroll_for(vp.log_area.height - 2) == 0,
        vp.scroll_for(lower) <= vp.scroll_for(upper) <= vp.max_scroll(),
{
    let track = vp.log_area.height - 2;
    let max = vp.max_scroll();
    assert(0 * max / track == 0) by (nonlinear_arith)
        requires
            track > 0,
    ;
    assert(track * max / track == max) by (nonlinear_arith)
        requires
            track > 0,
    ;
    assert(0 <= upper * max <= lower * max) by (nonlinear_arith)
        requires
            0 <= upper <= lower,
            0 <= max,
    ;
    let (a, b) = (upper * max, lower * max);
    assert(0 <= a / track <= b / track) by (nonlinear_arith)
        requires
            0 <= a <= b,
            track > 0,
    ;
}

/// While the pointer is held beyond an edge, the view scrolls on by one row at
/// a time and never beyond the ends of the log.
pub proof fn law_edge_scroll_stays_in_log(s: Interaction, vp: ViewportCache, up: bool)
    requires
        0 <= s.scroll_up <= vp.max_scroll(),
    ensures
        0 <= edge_scrolled(s, vp, up).scroll_up <= vp.max_scroll(),
        up && s.scroll_up < vp.max_scroll() ==> edge_scrolled(s, vp, up).scroll_up == s.scroll_up
            + 1,
        !up && s.scroll_up > 0 ==> edge_scrolled(s, vp, up).scroll_up == s.scroll_up - 1,
{
}

/// A release copies what is selected once: a second one without a press in
/// between copies nothing.
pub proof fn law_release_copies_once(s: Interaction, vp: ViewportCache, m: MouseEvent, fast: bool)
    requires
        m.kind == MouseEventKind::Up(MouseButton::Left),
        s.selecting,
        !s.scrollbar_drag,
    ensures
        clip_after(s, vp, m) == clip_of(s, vp),
        clip_after(after_mouse(s, vp, m, fast), vp, m) == Clip::Nothing,
        after_mouse(s, vp, m, fast).selection == s.selection,
{
}

} // verus!
