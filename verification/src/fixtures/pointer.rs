//! Sessions with the mouse in a log, and frames of a log.

use crate::event::{Modifiers, MouseButton, MouseEvent, MouseEventKind};
use crate::fixtures::{sprout, sprouted};
use crate::geometry::Rect;
use crate::screen::{clamped_scroll, texts_from, LogCell, LogWidget};
use crate::selection::{greatest, least, offset_of, row_len, Selection};
use crate::text::{decimal, decimal_text, joined, texts};
use crate::tui::{
    clip_after, handle_mouse_event, interaction, mouse_handled, same_log, MouseState, TuiState, ViewportCache,
};
use vstd::prelude::*;
use vstd::string::*;

verus! {

/// A mouse button.
#[derive(Debug, Clone, Copy, PartialEq, Eq, Structural)]
pub enum FuzzButton {
    Left,
    Right,
    Middle,
}

/// What happens in a session. Positions are taken modulo the screen's size.
#[derive(Debug, Clone, Copy, PartialEq, Eq, Structural)]
pub enum FuzzEv {
    Down { button: FuzzButton, col: u8, row: u8, ctrl: bool },
    Up { button: FuzzButton, col: u8, row: u8 },
    Drag { button: FuzzButton, col: u8, row: u8, ctrl: bool },
    ScrollUp { col: u8, row: u8 },
    ScrollDown { col: u8, row: u8 },
    Moved { col: u8, row: u8 },
    /// A line is added to the log.
    AppendLine { salt: u8 },
    /// The screen changes its size.
    Resize { w: u8, h: u8 },
}

/// The button of an event.
pub open spec fn button_of(button: FuzzButton) -> MouseButton {
    match button {
        FuzzButton::Left => MouseButton::Left,
        FuzzButton::Right => MouseButton::Right,
        FuzzButton::Middle => MouseButton::Middle,
    }
}

/// The mouse event at a cell of a screen of `w` columns and `h` rows.
pub open spec fn event_at(
    kind: MouseEventKind,
    col: u8,
    row: u8,
    ctrl: bool,
    w: u16,
    h: u16,
) -> MouseEvent {
    MouseEvent {
        kind,
        column: col as u16 % w,
        row: row as u16 % h,
        modifiers: Modifiers {
            shift: false,
            control: ctrl,
            alt: false,
            super_key: false,
            hyper: false,
            meta: false,
        },
    }
}

/// The mouse event that happens on a screen of `w` columns and `h` rows, if it
/// is one.
pub open spec fn event_of(ev: FuzzEv, w: u16, h: u16) -> Option<MouseEvent> {
    match ev {
        FuzzEv::Down { button, col, row, ctrl } => Some(
            event_at(MouseEventKind::Down(button_of(button)), col, row, ctrl, w, h),
        ),
        FuzzEv::Up { button, col, row } => Some(
            event_at(MouseEventKind::Up(button_of(button)), col, row, false, w, h),
        ),
        FuzzEv::Drag { button, col, row, ctrl } => Some(
            event_at(MouseEventKind::Drag(button_of(button)), col, row, ctrl, w, h),
        ),
        FuzzEv::ScrollUp { col, row } => Some(
            event_at(MouseEventKind::ScrollUp, col, row, false, w, h),
        ),
        FuzzEv::ScrollDown { col, row } => Some(
            event_at(MouseEventKind::ScrollDown, col, row, false, w, h),
        ),
        FuzzEv::Moved { col, row } => Some(event_at(MouseEventKind::Moved, col, row, false, w, h)),
        FuzzEv::AppendLine { .. } | FuzzEv::Resize { .. } => None,
    }
}

/// Computes [`button_of`].
fn button(b: FuzzButton) -> (r: MouseButton)
    ensures
        r == button_of(b),
{
    match b {
        FuzzButton::Left => MouseButton::Left,
        FuzzButton::Right => MouseButton::Right,
        FuzzButton::Middle => MouseButton::Middle,
    }
}

/// Computes [`event_of`].
pub fn mouse_event(ev: &FuzzEv, w: u16, h: u16) -> (r: Option<MouseEvent>)
    requires
        w > 0,
        h > 0,
    ensures
        r == event_of(*ev, w, h),
{
    let (kind, col, row, control) = match *ev {
        FuzzEv::Down { button: b, col, row, ctrl } => (
            MouseEventKind::Down(button(b)),
            col,
            row,
            ctrl,
        ),
        FuzzEv::Up { button: b, col, row } => (MouseEventKind::Up(button(b)), col, row, false),
        FuzzEv::Drag { button: b, col, row, ctrl } => (
            MouseEventKind::Drag(button(b)),
            col,
            row,
            ctrl,
        ),
        FuzzEv::ScrollUp { col, row } => (MouseEventKind::ScrollUp, col, row, false),
        FuzzEv::ScrollDown { col, row } => (MouseEventKind::ScrollDown, col, row, false),
        FuzzEv::Moved { col, row } => (MouseEventKind::Moved, col, row, false),
        FuzzEv::AppendLine { .. } | FuzzEv::Resize { .. } => {
            return None;
        },
    };
    let mut modifiers = Modifiers::none();
    modifiers.control = control;
    Some(MouseEvent { kind, column: col as u16 % w, row: row as u16 % h, modifiers })
}

/// The columns of the screen for a number.
pub open spec fn width_of(n: u8) -> u16 {
    (20 + n % 100) as u16
}

/// The rows of the screen for a number.
pub open spec fn height_of(n: u8) -> u16 {
    (8 + n % 42) as u16
}

/// Where the log is on a screen of `w` columns and `h` rows.
pub open spec fn shown_area(w: u16, h: u16) -> Rect {
    Rect { x: 0, y: 0, width: w, height: greatest(h - 3, 4) as u16 }
}

/// Whether `vp` shows `lines`, scrolled up by `scroll_up` rows, on a screen of
/// `w` columns and `h` rows.
pub open spec fn shows(
    vp: ViewportCache,
    lines: Seq<Seq<char>>,
    scroll_up: int,
    w: u16,
    h: u16,
) -> bool {
    &&& vp.log_area == shown_area(w, h)
    &&& vp.log_inner == shown_area(w, h).shrunk(1, 1)
    &&& vp.total_wrapped == lines.len()
    &&& texts(vp.wrapped@) == lines
    &&& vp.offsets@ == Seq::new(lines.len(), |i: int| 0usize)
    &&& vp.viewport_start == vp.top_row(scroll_up)
}

/// Every position in a log of these lines fits its type.
pub open spec fn lines_fit(lines: Seq<Seq<char>>) -> bool {
    &&& lines.len() * 0x10000 <= usize::MAX
    &&& forall|i: int| 0 <= i < lines.len() ==> (#[trigger] lines[i]).len() + 0x10000 <= usize::MAX
}

/// `n` zeros.
fn zeros(n: usize) -> (v: Vec<usize>)
    ensures
        v@ == Seq::new(n as nat, |i: int| 0usize),
{
    let mut v: Vec<usize> = Vec::new();
    let mut i: usize = 0;
    assert(v@ =~= Seq::new(0, |i: int| 0usize));
    while i < n
        invariant
            i <= n,
            v@ == Seq::new(i as nat, |i: int| 0usize),
        decreases n - i,
    {
        v.push(0);
        assert(v@ =~= Seq::new((i + 1) as nat, |i: int| 0usize));
        i += 1;
    }
    v
}

/// Brings the scroll position into range and works out what a screen of `w`
/// columns and `h` rows shows.
pub fn rebuild_viewport(state: &mut TuiState, w: u16, h: u16) -> (vp: ViewportCache)
    requires
        w > 0,
    ensures
        shows(vp, texts(final(state).log_lines@), final(state).scroll_up as int, w, h),
        final(state).scroll_up == clamped_scroll(
            old(state).scroll_up as int,
            old(state).log_lines@.len() as int,
            shown_area(w, h).shrunk(1, 1).height as int,
        ),
        final(state).selection == old(state).selection,
        final(state).selection_rect == old(state).selection_rect,
        same_log(*old(state), *final(state)),
        lines_fit(texts(old(state).log_lines@)) ==> vp.wf(),
{
    let height = if h >= 7 {
        h - 3
    } else {
        4
    };
    let log_area = Rect::new(0, 0, w, height);
    let log_inner = log_area.inner(1, 1);
    let total = state.log_lines.len();
    let max_scroll = if total >= log_inner.height as usize {
        total - log_inner.height as usize
    } else {
        0
    };
    if (state.scroll_up as usize) > max_scroll {
        state.scroll_up = max_scroll as u16;
    }
    let wrapped = texts_from(&state.log_lines, 0);
    let ghost lines = texts(state.log_lines@);
    assert(lines.skip(0) =~= lines);
    let vp = ViewportCache {
        log_area,
        log_inner,
        viewport_start: max_scroll - state.scroll_up as usize,
        total_wrapped: total,
        wrapped,
        offsets: zeros(total),
    };
    proof {
        assert(texts(vp.wrapped@) == lines);
        assert(lines.len() == total);
        if lines_fit(lines) {
            assert forall|i: int| 0 <= i implies #[trigger] offset_of(vp.offsets@, i) + row_len(
                lines,
                i,
            ) + 0x10000 <= usize::MAX by {
                if i < lines.len() {
                    assert(lines[i].len() + 0x10000 <= usize::MAX);
                }
            }
        }
    }
    vp
}

/// A session: a log, what the mouse does in it, and what the screen shows.
pub struct MouseDesk {
    pub state: TuiState,
    pub mouse: MouseState,
    pub vp: ViewportCache,
    pub w: u16,
    pub h: u16,
}

impl MouseDesk {
    /// The screen shows the lines of the log, and every position fits its type.
    pub open spec fn wf(&self) -> bool {
        &&& self.w > 0
        &&& self.h > 0
        &&& self.mouse.wf()
        &&& self.vp.wf()
        &&& texts(self.vp.wrapped@) == texts(self.state.log_lines@)
        &&& self.vp.total_wrapped == self.state.log_lines@.len()
    }

    /// There is room for `lines` more lines and `clicks` more clicks, and where
    /// there are still drags, no scroll position overruns its type.
    pub open spec fn has_room(&self, lines: int, clicks: int, drags: bool) -> bool {
        let total = self.state.log_lines@.len() + lines;
        &&& total * 0x10000 <= usize::MAX
        &&& drags ==> total <= u16::MAX
        &&& self.mouse.click_count + clicks <= u32::MAX
        &&& lines_fit(texts(self.state.log_lines@))
    }
}

/// The lines that an event adds to the log.
pub open spec fn lines_of(ev: FuzzEv) -> int {
    if ev is AppendLine {
        1
    } else {
        0
    }
}

/// The clicks that an event may count.
pub open spec fn clicks_of(ev: FuzzEv) -> int {
    if ev matches FuzzEv::Down { button, .. } && button == FuzzButton::Left {
        1
    } else {
        0
    }
}

/// Whether an event drags with the left button.
pub open spec fn drags(ev: FuzzEv) -> bool {
    ev matches FuzzEv::Drag { button, .. } && button == FuzzButton::Left
}

/// The lines that the events add from the one at `i` on.
pub open spec fn lines_from(events: Seq<FuzzEv>, i: int) -> int
    decreases events.len() - i,
{
    if i < 0 || i >= events.len() {
        0
    } else {
        lines_of(events[i]) + lines_from(events, i + 1)
    }
}

/// The clicks that the events may count from the one at `i` on.
pub open spec fn clicks_from(events: Seq<FuzzEv>, i: int) -> int
    decreases events.len() - i,
{
    if i < 0 || i >= events.len() {
        0
    } else {
        clicks_of(events[i]) + clicks_from(events, i + 1)
    }
}

/// Whether one of the events from the one at `i` on drags with the left button.
pub open spec fn drags_from(events: Seq<FuzzEv>, i: int) -> bool
    decreases events.len() - i,
{
    0 <= i < events.len() && (drags(events[i]) || drags_from(events, i + 1))
}

proof fn lemma_counts(events: Seq<FuzzEv>, i: int)
    ensures
        lines_from(events, i) >= 0,
        clicks_from(events, i) >= 0,
    decreases events.len() - i,
{
    if 0 <= i < events.len() {
        lemma_counts(events, i + 1);
    }
}

/// The line that is added for a number.
pub open spec fn new_line(salt: u8) -> Seq<char> {
    "new "@ + decimal_text(salt as nat)
}

/// How an event changes a session. A click counts as one more in a row where it
/// comes fast enough, which the clock decides.
pub open spec fn turned(a: MouseDesk, ev: FuzzEv, b: MouseDesk) -> bool {
    let lines = texts(a.state.log_lines@);
    match ev {
        FuzzEv::AppendLine { salt } => {
            &&& texts(b.state.log_lines@) == lines.push(new_line(salt))
            &&& b.state.scroll_up == 0
            &&& b.state.selection is None
            &&& b.state.selection_rect == a.state.selection_rect
            &&& b.mouse == a.mouse
            &&& b.w == a.w && b.h == a.h
            &&& shows(b.vp, lines.push(new_line(salt)), 0, a.w, a.h)
        },
        FuzzEv::Resize { w, h } => {
            &&& texts(b.state.log_lines@) == lines
            &&& b.state.scroll_up == clamped_scroll(
                a.state.scroll_up as int,
                lines.len() as int,
                shown_area(width_of(w), height_of(h)).shrunk(1, 1).height as int,
            )
            &&& b.state.selection == a.state.selection
            &&& b.state.selection_rect == a.state.selection_rect
            &&& b.mouse == a.mouse
            &&& b.w == width_of(w) && b.h == height_of(h)
            &&& shows(b.vp, lines, b.state.scroll_up as int, b.w, b.h)
        },
        _ => {
            &&& texts(b.state.log_lines@) == lines
            &&& b.vp == a.vp
            &&& b.w == a.w && b.h == a.h
            &&& event_of(ev, a.w, a.h) matches Some(m) && mouse_handled(
                m,
                a.state,
                a.mouse,
                a.vp,
                b.state,
                b.mouse,
                clip_after(interaction(a.state, a.mouse), a.vp, m),
            )
        },
    }
}

proof fn lemma_new_line_short(salt: u8)
    ensures
        new_line(salt).len() <= 7,
{
    reveal_strlit("new ");
    reveal_with_fuel(decimal_text, 4);
}

/// Adds a line to the log.
fn append_line(desk: &mut MouseDesk, salt: u8)
    requires
        old(desk).wf(),
        old(desk).has_room(1, 0, false),
    ensures
        turned(*old(desk), FuzzEv::AppendLine { salt }, *final(desk)),
        final(desk).wf(),
        lines_fit(texts(final(desk).state.log_lines@)),
{
    let ghost lines = texts(desk.state.log_lines@);
    assert(lines.len() == desk.state.log_lines@.len());
    desk.state.log_lines.push(joined("new ", decimal(salt as u64).as_str()));
    assert(texts(desk.state.log_lines@) =~= lines.push(new_line(salt)));
    proof {
        lemma_new_line_short(salt);
    }
    desk.state.scroll_up = 0;
    desk.state.selection = None;
    desk.vp = rebuild_viewport(&mut desk.state, desk.w, desk.h);
}

/// Changes the size of the screen.
fn resize(desk: &mut MouseDesk, w: u8, h: u8)
    requires
        old(desk).wf(),
        old(desk).has_room(0, 0, false),
    ensures
        turned(*old(desk), FuzzEv::Resize { w, h }, *final(desk)),
        final(desk).wf(),
{
    assert(texts(desk.state.log_lines@).len() == desk.state.log_lines@.len());
    desk.w = 20 + w as u16 % 100;
    desk.h = 8 + h as u16 % 42;
    desk.vp = rebuild_viewport(&mut desk.state, desk.w, desk.h);
}

/// Lets an event happen.
#[verifier::rlimit(30)]
pub fn turn(desk: &mut MouseDesk, ev: &FuzzEv)
    requires
        old(desk).wf(),
        old(desk).has_room(lines_of(*ev), clicks_of(*ev), drags(*ev)),
    ensures
        turned(*old(desk), *ev, *final(desk)),
        final(desk).wf(),
        forall|lines: int, clicks: int, more: bool|
            lines >= 0 && clicks >= 0 && old(desk).has_room(
                lines_of(*ev) + lines,
                clicks_of(*ev) + clicks,
                drags(*ev) || more,
            ) ==> #[trigger] final(desk).has_room(lines, clicks, more),
{
    let ghost before = *desk;
    assert(texts(before.state.log_lines@).len() == before.state.log_lines@.len());
    match *ev {
        FuzzEv::AppendLine { salt } => {
            append_line(desk, salt);
        },
        FuzzEv::Resize { w, h } => {
            resize(desk, w, h);
        },
        _ => {
            if let Some(m) = mouse_event(ev, desk.w, desk.h) {
                handle_mouse_event(m, &mut desk.state, &mut desk.mouse, &desk.vp);
            }
        },
    }
    assert(texts(desk.state.log_lines@).len() == desk.state.log_lines@.len());
}

/// A log and what happens in it.
pub struct MouseCase {
    pub lines: Vec<String>,
    pub term_w: u8,
    pub term_h: u8,
    pub scroll0: u8,
    pub events: Vec<FuzzEv>,
}

/// The lines of a log: uncommon ones in place of short ones.
pub open spec fn grown(lines: Seq<Seq<char>>) -> Seq<Seq<char>> {
    Seq::new(lines.len(), |i: int| sprouted(lines[i], (i % 256) as u8))
}

/// Computes [`grown`].
fn grow(lines: &Vec<String>) -> (v: Vec<String>)
    ensures
        texts(v@) == grown(texts(lines@)),
{
    let mut v: Vec<String> = Vec::new();
    let ghost all = grown(texts(lines@));
    let mut i: usize = 0;
    assert(texts(v@) =~= all.take(0));
    while i < lines.len()
        invariant
            i <= lines@.len(),
            all == grown(texts(lines@)),
            texts(v@) == all.take(i as int),
        decreases lines@.len() - i,
    {
        let ghost before = v@;
        v.push(sprout(lines[i].as_str(), (i % 256) as u8));
        assert(texts(lines@)[i as int] == lines@[i as int]@);
        assert(texts(v@) =~= texts(before).push(all[i as int]));
        assert(texts(v@) =~= all.take(i + 1));
        i += 1;
    }
    assert(all.take(i as int) =~= all);
    v
}

/// The lines that a session begins with.
pub open spec fn first_lines(c: MouseCase) -> Seq<Seq<char>> {
    if c.lines@.len() == 0 {
        seq!["seed line"@]
    } else {
        grown(texts(c.lines@))
    }
}

/// Whether a session begins like this.
pub open spec fn opened(c: MouseCase, d: MouseDesk) -> bool {
    &&& d.w == width_of(c.term_w)
    &&& d.h == height_of(c.term_h)
    &&& texts(d.state.log_lines@) == first_lines(c)
    &&& d.state.scroll_up == clamped_scroll(
        c.scroll0 as int,
        first_lines(c).len() as int,
        shown_area(d.w, d.h).shrunk(1, 1).height as int,
    )
    &&& d.state.selection is None
    &&& !d.state.selection_rect
    &&& !d.mouse.selecting
    &&& !d.mouse.scrollbar_drag
    &&& d.mouse.click_count == 0
    &&& d.mouse.last_click_time is None
    &&& d.mouse.anchor is None
    &&& d.mouse.auto_scroll is None
    &&& shows(d.vp, first_lines(c), d.state.scroll_up as int, d.w, d.h)
}

/// Whether the events lead from one session to the other.
pub open spec fn played(a: MouseDesk, events: Seq<FuzzEv>, b: MouseDesk) -> bool
    decreases events.len(),
{
    if events.len() == 0 {
        a == b
    } else {
        exists|d: MouseDesk| #[trigger]
            turned(d, events.last(), b) && played(a, events.drop_last(), d)
    }
}

/// The lines that a session begins with fit.
proof fn lemma_first_lines_fit(c: MouseCase)
    requires
        c.lines@.len() * 0x10000 <= usize::MAX,
        forall|i: int| 0 <= i < c.lines@.len() ==> (#[trigger] c.lines@[i])@.len() + 0x10000
            <= usize::MAX,
    ensures
        lines_fit(first_lines(c)),
{
    reveal_strlit("seed line");
    reveal_strlit("");
    reveal_strlit(" ");
    reveal_strlit("héllo");
    reveal_strlit("日本語");
    reveal_strlit("↪ continuation");
    reveal_strlit("a\nb");
    reveal_strlit("\t");
    reveal_strlit("\u{1F600} ok");
    reveal_strlit("lineachar");
    let lines = texts(c.lines@);
    assert forall|i: int| 0 <= i < first_lines(c).len() implies (#[trigger] first_lines(c)[i]).len()
        + 0x10000 <= usize::MAX by {
        if c.lines@.len() > 0 {
            assert(lines[i] == c.lines@[i]@);
        }
    }
}

/// Opens a session and lets its events happen. The log stays so short that
/// every position in it fits its type; where there are drags, which scroll at the
/// edge, no longer than a scroll position can count.
pub fn run_mouse_case(c: &MouseCase) -> (desk: MouseDesk)
    requires
        (first_lines(*c).len() + lines_from(c.events@, 0)) * 0x10000 <= usize::MAX,
        drags_from(c.events@, 0) ==> first_lines(*c).len() + lines_from(c.events@, 0) <= u16::MAX,
        clicks_from(c.events@, 0) <= u32::MAX,
        forall|i: int| 0 <= i < c.lines@.len() ==> (#[trigger] c.lines@[i])@.len() + 0x10000
            <= usize::MAX,
    ensures
        exists|start: MouseDesk| #[trigger]
            opened(*c, start) && played(start, c.events@, desk),
        desk.wf(),
{
    proof {
        lemma_counts(c.events@, 0);
        lemma_first_lines_fit(*c);
    }
    let mut state = TuiState::new();
    let mut lines = grow(&c.lines);
    assert(texts(lines@).len() == c.lines@.len());
    if lines.len() == 0 {
        lines.push("seed line".to_owned());
        assert(texts(lines@) =~= seq!["seed line"@]);
    }
    assert(texts(lines@) == first_lines(*c));
    assert(lines@.len() == texts(lines@).len());
    state.log_lines = lines;
    state.scroll_up = c.scroll0 as u16;
    let w = 20 + c.term_w as u16 % 100;
    let h = 8 + c.term_h as u16 % 42;
    let vp = rebuild_viewport(&mut state, w, h);
    let mut desk = MouseDesk { state, mouse: MouseState::new(), vp, w, h };
    let ghost start = desk;
    let mut i: usize = 0;
    assert(c.events@.take(0) =~= Seq::empty());
    while i < c.events.len()
        invariant
            i <= c.events@.len(),
            opened(*c, start),
            desk.wf(),
            desk.has_room(
                lines_from(c.events@, i as int),
                clicks_from(c.events@, i as int),
                drags_from(c.events@, i as int),
            ),
            played(start, c.events@.take(i as int), desk),
        decreases c.events@.len() - i,
    {
        let ghost before = desk;
        proof {
            lemma_counts(c.events@, i + 1);
        }
        turn(&mut desk, &c.events[i]);
        proof {
            let next = c.events@.take(i + 1);
            assert(next.drop_last() =~= c.events@.take(i as int));
            assert(next.last() == c.events@[i as int]);
            assert(played(start, next.drop_last(), before));
            assert(turned(before, next.last(), desk));
            assert(played(start, next, desk));
            assert(desk.has_room(
                lines_from(c.events@, i + 1),
                clicks_from(c.events@, i + 1),
                drags_from(c.events@, i + 1),
            ));
        }
        i += 1;
    }
    assert(c.events@.take(i as int) =~= c.events@);
    desk
}

/// A frame of a log with a selection, which need not lie in the log.
pub struct RenderCase {
    pub lines: Vec<String>,
    pub has_sel: bool,
    pub sr: u8,
    pub sc: u8,
    pub er: u8,
    pub ec: u8,
    pub viewport_start: u8,
    pub rect: bool,
    pub area_x: u8,
    pub area_y: u8,
    pub area_w: u8,
    pub area_h: u8,
}

/// Where a frame is drawn.
pub open spec fn frame_area(c: RenderCase) -> Rect {
    Rect {
        x: (c.area_x % 80) as u16,
        y: (c.area_y % 40) as u16,
        width: (c.area_w % 80) as u16,
        height: (c.area_h % 40) as u16,
    }
}

/// Whether `log` is the log of a frame.
pub open spec fn framed_log(c: RenderCase, log: LogWidget) -> bool {
    &&& texts(log.lines@) == grown(texts(c.lines@))
    &&& log.selection == if c.has_sel {
        Some((c.sr as usize, c.sc as usize, c.er as usize, c.ec as usize))
    } else {
        None
    }
    &&& log.viewport_start == c.viewport_start
    &&& log.rect == c.rect
    &&& log.offsets@ == Seq::new(c.lines@.len(), |i: int| 0usize)
}

/// Draws a frame: the cells of its log, line by line, each in the area.
pub fn run_render_case(c: &RenderCase) -> (cells: Vec<LogCell>)
    ensures
        exists|log: LogWidget| #[trigger]
            framed_log(*c, log) && cells@ == log.first_cells(
                frame_area(*c),
                least(log.lines@.len() as int, frame_area(*c).height as int),
            ),
        forall|i: int|
            0 <= i < cells@.len() ==> frame_area(*c).covers(
                (#[trigger] cells@[i]).x as int,
                cells@[i].y as int,
            ),
{
    let lines = grow(&c.lines);
    let selection: Option<Selection> = if c.has_sel {
        Some((c.sr as usize, c.sc as usize, c.er as usize, c.ec as usize))
    } else {
        None
    };
    assert(texts(lines@).len() == lines@.len());
    assert(texts(lines@).len() == c.lines@.len());
    let offsets = zeros(c.lines.len());
    let log = LogWidget {
        lines,
        selection,
        viewport_start: c.viewport_start as usize,
        rect: c.rect,
        offsets,
    };
    let area = Rect::new(
        c.area_x as u16 % 80,
        c.area_y as u16 % 40,
        c.area_w as u16 % 80,
        c.area_h as u16 % 40,
    );
    assert(area == frame_area(*c));
    assert(framed_log(*c, log));
    let cells = log.cells(area);
    proof {
        lemma_cells_inside(log, area, least(log.lines@.len() as int, area.height as int));
    }
    cells
}

/// The cells of a log lie in its area.
proof fn lemma_cells_inside(log: LogWidget, area: Rect, n: int)
    requires
        area.fits(),
        n <= area.height,
    ensures
        forall|i: int|
            0 <= i < log.first_cells(area, n).len() ==> area.covers(
                (#[trigger] log.first_cells(area, n)[i]).x as int,
                log.first_cells(area, n)[i].y as int,
            ),
    decreases n,
{
    if n > 0 {
        lemma_cells_inside(log, area, n - 1);
        let before = log.first_cells(area, n - 1);
        let row = log.row_cells(area, n - 1);
        assert forall|i: int| 0 <= i < log.first_cells(area, n).len() implies area.covers(
            (#[trigger] log.first_cells(area, n)[i]).x as int,
            log.first_cells(area, n)[i].y as int,
        ) by {
            if i < before.len() {
                assert(log.first_cells(area, n)[i] == before[i]);
            } else {
                assert(log.first_cells(area, n)[i] == row[i - before.len()]);
            }
        }
    }
}

} // verus!
