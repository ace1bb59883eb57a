//! What the mouse is doing: where it is, and which buttons are held.

use crate::event::{Modifiers, MouseButton, MouseEvent, MouseEventKind};
use crate::geometry::{Color, Rect};
use crate::text::{decimal, decimal_text};
use crate::tui::{read_clock, timed};
use std::time::Instant;
use vstd::prelude::*;
use vstd::string::*;

verus! {

/// The state of the mouse across frames. Every mouse event is to be processed;
/// a loss of focus is to be followed by a reset, for a button that is released
/// outside the window is not reported.
pub struct MouseTracker {
    pub pos: (u16, u16),
    pub left: bool,
    pub right: bool,
    pub middle: bool,
    /// The modifier keys at the last event.
    pub modifiers: Modifiers,
    /// Whether the mouse was dragged away from where a button was last pressed.
    pub moved_since_press: bool,
    /// When a button was last pressed.
    pub last_down_time: Option<Instant>,
    /// Where a button was last pressed.
    pub last_down_pos: (u16, u16),
    /// How many milliseconds the last press came after the one before it, if
    /// there was one.
    pub since_prev_down: Option<u128>,
    /// Where a button was pressed before that.
    pub prev_down_pos: (u16, u16),
}

/// The state with one button held or not.
pub open spec fn with_button(t: MouseTracker, button: MouseButton, down: bool) -> MouseTracker {
    match button {
        MouseButton::Left => MouseTracker { left: down, ..t },
        MouseButton::Right => MouseTracker { right: down, ..t },
        MouseButton::Middle => MouseTracker { middle: down, ..t },
    }
}

/// The state after an event at the time `now`, which comes `since` milliseconds
/// after the last press, if there was one.
pub open spec fn followed(
    t: MouseTracker,
    m: MouseEvent,
    now: Instant,
    since: Option<u128>,
) -> MouseTracker {
    let at = (m.column, m.row);
    let seen = MouseTracker { pos: at, modifiers: m.modifiers, ..t };
    match m.kind {
        MouseEventKind::Down(button) => MouseTracker {
            moved_since_press: false,
            last_down_time: Some(now),
            last_down_pos: at,
            since_prev_down: since,
            prev_down_pos: t.last_down_pos,
            ..with_button(seen, button, true)
        },
        MouseEventKind::Up(button) => with_button(seen, button, false),
        MouseEventKind::Drag(button) => MouseTracker {
            moved_since_press: t.moved_since_press || at != t.last_down_pos,
            ..with_button(seen, button, true)
        },
        _ => seen,
    }
}

/// The last press was the second of a double click: it came less than half a
/// second after the press before it, at the same place.
pub open spec fn double_click(t: MouseTracker) -> bool {
    t.since_prev_down matches Some(ms) && ms < 500 && t.prev_down_pos == t.last_down_pos
}

/// The mark of a button in the status.
pub open spec fn button_mark(down: bool) -> Seq<char> {
    if down {
        "●"@
    } else {
        "○"@
    }
}

fn mark_of(down: bool) -> (s: &'static str)
    ensures
        s@ == button_mark(down),
{
    if down {
        "●"
    } else {
        "○"
    }
}

impl Default for MouseTracker {
    fn default() -> (t: MouseTracker)
        ensures
            t.pos == (0u16, 0u16),
            !t.left,
            !t.right,
            !t.middle,
            !t.moved_since_press,
            t.last_down_time is None,
            t.last_down_pos == (0u16, 0u16),
            t.since_prev_down is None,
            t.prev_down_pos == (0u16, 0u16),
            t.modifiers == (Modifiers {
                shift: false,
                control: false,
                alt: false,
                super_key: false,
                hyper: false,
                meta: false,
            }),
    {
        MouseTracker::new()
    }
}

impl MouseTracker {
    /// The mouse is at the origin, and no button is held.
    pub fn new() -> (t: MouseTracker)
        ensures
            t.pos == (0u16, 0u16),
            !t.left,
            !t.right,
            !t.middle,
            !t.moved_since_press,
            t.last_down_time is None,
            t.last_down_pos == (0u16, 0u16),
            t.since_prev_down is None,
            t.prev_down_pos == (0u16, 0u16),
            t.modifiers == (Modifiers {
                shift: false,
                control: false,
                alt: false,
                super_key: false,
                hyper: false,
                meta: false,
            }),
    {
        MouseTracker {
            pos: (0, 0),
            left: false,
            right: false,
            middle: false,
            modifiers: Modifiers::none(),
            moved_since_press: false,
            last_down_time: None,
            last_down_pos: (0, 0),
            since_prev_down: None,
            prev_down_pos: (0, 0),
        }
    }

    /// Processes an event that happens now. How long after the last press that is
    /// the clock says.
    pub fn process(&mut self, m: &MouseEvent)
        ensures
            exists|now: Instant, since: Option<u128>| #[trigger]
                timed(now, old(self).last_down_time, since) && *final(self) == followed(
                    *old(self),
                    *m,
                    now,
                    since,
                ),
    {
        let (now, since) = read_clock(self.last_down_time);
        self.process_at(m, now, since)
    }

    /// Processes an event at the time `now`, which comes `since` milliseconds
    /// after the last press, if there was one.
    pub fn process_at(&mut self, m: &MouseEvent, now: Instant, since: Option<u128>)
        ensures
            *final(self) == followed(*old(self), *m, now, since),
    {
        self.pos = (m.column, m.row);
        self.modifiers = m.modifiers;
        match m.kind {
            MouseEventKind::Down(button) => {
                self.set_button(button, true);
                self.moved_since_press = false;
                self.since_prev_down = since;
                self.prev_down_pos = self.last_down_pos;
                self.last_down_time = Some(now);
                self.last_down_pos = (m.column, m.row);
            },
            MouseEventKind::Up(button) => {
                self.set_button(button, false);
            },
            MouseEventKind::Drag(button) => {
                self.set_button(button, true);
                if m.column != self.last_down_pos.0 || m.row != self.last_down_pos.1 {
                    self.moved_since_press = true;
                }
            },
            _ => {},
        }
    }

    fn set_button(&mut self, button: MouseButton, down: bool)
        ensures
            *final(self) == with_button(*old(self), button, down),
    {
        match button {
            MouseButton::Left => {
                self.left = down;
            },
            MouseButton::Right => {
                self.right = down;
            },
            MouseButton::Middle => {
                self.middle = down;
            },
        }
    }

    /// Lets go of all buttons.
    pub fn reset(&mut self)
        ensures
            *final(self) == (MouseTracker {
                left: false,
                right: false,
                middle: false,
                ..*old(self)
            }),
    {
        self.left = false;
        self.right = false;
        self.middle = false;
    }

    /// Whether a button is held.
    pub fn any_down(&self) -> (b: bool)
        ensures
            b == (self.left || self.right || self.middle),
    {
        self.left || self.right || self.middle
    }

    /// Whether the last press was the second of a double click.
    pub fn is_double_click(&self) -> (b: bool)
        ensures
            b == double_click(*self),
    {
        match self.since_prev_down {
            Some(ms) => ms < 500 && self.prev_down_pos.0 == self.last_down_pos.0
                && self.prev_down_pos.1 == self.last_down_pos.1,
            None => false,
        }
    }

    /// The color of the cell under the pointer: green, red or blue while the left,
    /// else the right, else the middle button is held, and gray otherwise.
    pub open spec fn pointer_color(&self) -> Color {
        if self.left {
            Color::LightGreen
        } else if self.right {
            Color::LightRed
        } else if self.middle {
            Color::LightBlue
        } else {
            Color::DarkGray
        }
    }

    /// The cell to highlight in `area` and its color, which tells the button
    /// that is held.
    pub fn highlight(&self, area: Rect) -> (h: Option<(u16, u16, Color)>)
        ensures
            match h {
                Some((x, y, color)) => {
                    &&& area.covers(self.pos.0 as int, self.pos.1 as int)
                    &&& (x, y) == self.pos
                    &&& color == self.pointer_color()
                },
                None => !area.covers(self.pos.0 as int, self.pos.1 as int),
            },
    {
        if !area.contains(self.pos.0, self.pos.1) {
            return None;
        }
        let color = if self.left {
            Color::LightGreen
        } else if self.right {
            Color::LightRed
        } else if self.middle {
            Color::LightBlue
        } else {
            Color::DarkGray
        };
        Some((self.pos.0, self.pos.1, color))
    }

    /// The state in a few characters: `L:● R:○ M:○ (col,row)`.
    pub fn status_string(&self) -> (s: String)
        ensures
            s@ == "L:"@ + button_mark(self.left) + " R:"@ + button_mark(self.right) + " M:"@
                + button_mark(self.middle) + " ("@ + decimal_text(self.pos.0 as nat) + ","@
                + decimal_text(self.pos.1 as nat) + ")"@,
    {
        let mut s = "L:".to_owned();
        s.append(mark_of(self.left));
        s.append(" R:");
        s.append(mark_of(self.right));
        s.append(" M:");
        s.append(mark_of(self.middle));
        s.append(" (");
        s.append(decimal(self.pos.0 as u64).as_str());
        s.append(",");
        s.append(decimal(self.pos.1 as u64).as_str());
        s.append(")");
        s
    }
}

/// It takes two presses for a double click, the second less than half a second
/// after the first and at the same place; what comes between or after them does not
/// matter.
pub proof fn law_double_click_takes_two_presses(
    t: MouseTracker,
    press: MouseEvent,
    other: MouseEvent,
    then: Instant,
    now: Instant,
    since: Option<u128>,
)
    requires
        press.kind is Down,
        !(other.kind is Down),
        since is Some <==> t.last_down_time is Some,
    ensures
        double_click(followed(t, press, then, since)) <==> t.last_down_time is Some
            && since->Some_0 < 500 && t.last_down_pos == (press.column, press.row),
        double_click(followed(t, other, now, since)) <==> double_click(t),
        followed(t, other, now, since).last_down_time == t.last_down_time,
        followed(t, other, now, since).last_down_pos == t.last_down_pos,
{
}

/// A press and the release of the same button leave no button held that was not
/// held before, wherever the release is.
pub proof fn law_press_and_release(
    t: MouseTracker,
    button: MouseButton,
    press: MouseEvent,
    release: MouseEvent,
    then: Instant,
    now: Instant,
    since: Option<u128>,
    later: Option<u128>,
)
    requires
        press.kind == MouseEventKind::Down(button),
        release.kind == MouseEventKind::Up(button),
    ensures
        ({
            let after = followed(followed(t, press, then, since), release, now, later);
            &&& after.left ==> t.left
            &&& after.right ==> t.right
            &&& after.middle ==> t.middle
            &&& after.pos == (release.column, release.row)
        }),
{
}

/// The button is held.
pub open spec fn is_held(t: MouseTracker, button: MouseButton) -> bool {
    match button {
        MouseButton::Left => t.left,
        MouseButton::Right => t.right,
        MouseButton::Middle => t.middle,
    }
}

/// Every event tells where the mouse is and which modifier keys are held. A press
/// and a drag say that their button is held and a release that it is not, and neither
/// says anything of the other buttons; no other event says anything of a button.
pub proof fn law_events_tell_of_their_button(
    t: MouseTracker,
    m: MouseEvent,
    now: Instant,
    since: Option<u128>,
    button: MouseButton,
)
    ensures
        ({
            let after = followed(t, m, now, since);
            &&& after.pos == (m.column, m.row)
            &&& after.modifiers == m.modifiers
            &&& is_held(after, button) == match m.kind {
                MouseEventKind::Down(b) if b == button => true,
                MouseEventKind::Drag(b) if b == button => true,
                MouseEventKind::Up(b) if b == button => false,
                _ => is_held(t, button),
            }
        }),
{
}

/// A press forgets earlier movement and keeps where and when it was. Dragging away
/// from there counts as movement for good, also after dragging back; a drag that stays
/// there, a release and a mere movement do not.
pub proof fn law_dragging_away_counts(
    t: MouseTracker,
    m: MouseEvent,
    now: Instant,
    since: Option<u128>,
)
    ensures
        ({
            let after = followed(t, m, now, since);
            let at = (m.column, m.row);
            &&& m.kind is Down ==> !after.moved_since_press && after.last_down_pos == at
                && after.last_down_time == Some(now) && after.prev_down_pos == t.last_down_pos
            &&& m.kind is Drag && at != t.last_down_pos ==> after.moved_since_press
            &&& m.kind is Drag && at == t.last_down_pos ==> after.moved_since_press
                == t.moved_since_press
            &&& !(m.kind is Drag) && !(m.kind is Down) ==> after.moved_since_press
                == t.moved_since_press
            &&& !(m.kind is Down) ==> after.last_down_pos == t.last_down_pos
                && after.last_down_time == t.last_down_time
        }),
{
}

/// The color under the pointer tells the three buttons apart, and a held button from
/// none. Of several held buttons the left one shows, else the right one.
pub proof fn law_pointer_color_tells_buttons_apart(t: MouseTracker)
    ensures
        !t.left && !t.right && !t.middle <==> t.pointer_color() == Color::DarkGray,
        t.left <==> t.pointer_color() == Color::LightGreen,
        !t.left && t.right <==> t.pointer_color() == Color::LightRed,
        !t.left && !t.right && t.middle <==> t.pointer_color() == Color::LightBlue,
{
}

} // verus!
