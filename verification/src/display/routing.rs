//! Where events go: to the layer on top, to the one under the pointer, or to
//! the one that has the pointer.

use crate::display::{
    activated, apart, color_of, lemma_same_ids_live, live, same_but_layer, same_but_layers,
    same_but_slots, slot_of, topped, touched, Display, EventResult, LayerCtx, LayerId, LayerSlot, Told,
};
use crate::event::{Event, KeyCode, KeyEventKind, MouseEventKind};
use crate::geometry::{Color, Rect};
use vstd::prelude::*;

verus! {

/// Whether the layer `id` has a widget at a cell.
pub open spec fn owns_cell(
    cached: Seq<(LayerId, &'static str, Rect)>,
    id: LayerId,
    col: u16,
    row: u16,
) -> bool {
    exists|i: int|
        0 <= i < cached.len() && (#[trigger] cached[i]).0 == id && cached[i].2.covers(
            col as int,
            row as int,
        )
}

/// The topmost of the lowest `n` layers that has a widget at a cell.
pub open spec fn occupant<W>(
    slots: Seq<LayerSlot<W>>,
    cached: Seq<(LayerId, &'static str, Rect)>,
    col: u16,
    row: u16,
    n: int,
) -> Option<LayerId>
    decreases n,
{
    if n <= 0 {
        None
    } else if owns_cell(cached, slots[n - 1].id, col, row) {
        Some(slots[n - 1].id)
    } else {
        occupant(slots, cached, col, row, n - 1)
    }
}

/// The layer of the first button from `i` on that is at a cell.
pub open spec fn button_at(taskbar: Seq<(LayerId, Rect)>, col: u16, row: u16, i: int) -> Option<
    LayerId,
>
    decreases taskbar.len() - i,
{
    if i < 0 || i >= taskbar.len() {
        None
    } else if taskbar[i].1.covers(col as int, row as int) {
        Some(taskbar[i].0)
    } else {
        button_at(taskbar, col, row, i + 1)
    }
}

/// The widgets of the layer `id`.
pub open spec fn widgets_of(cached: Seq<(LayerId, &'static str, Rect)>, id: LayerId) -> Seq<
    (&'static str, Rect),
>
    decreases cached.len(),
{
    if cached.len() == 0 {
        Seq::empty()
    } else if cached.last().0 == id {
        widgets_of(cached.drop_last(), id).push((cached.last().1, cached.last().2))
    } else {
        widgets_of(cached.drop_last(), id)
    }
}

/// Where an event goes.
#[derive(Debug, Clone, Copy, PartialEq, Eq, Structural)]
pub enum Route {
    /// It brings the bottom layer to the top.
    Rotate,
    /// It brings this layer to the top.
    Activate(LayerId),
    /// To the layer that has the pointer, which loses it if this is a release.
    Grabbed(LayerId, bool),
    /// To the layer under the pointer, which comes to the top if this is a
    /// press.
    Occupant(LayerId, bool),
    /// To this layer alone.
    Only(LayerId),
    /// To every layer from the top on, until one swallows it.
    Everyone,
    /// To no layer.
    Nobody,
}

/// Where an event goes.
pub open spec fn route_of<W>(d: Display<W>, ev: Event) -> Route {
    match ev {
        Event::Key(k) => if k.kind == KeyEventKind::Press && (k.code == KeyCode::Tab
            && k.modifiers.shift || k.code == KeyCode::BackTab) {
            Route::Rotate
        } else if d.slots@.last().id == LayerId(0) {
            Route::Only(LayerId(0))
        } else {
            Route::Everyone
        },
        Event::Mouse(m) => if m.kind is Down && button_at(d.taskbar@, m.column, m.row, 0) is Some {
            Route::Activate(button_at(d.taskbar@, m.column, m.row, 0)->Some_0)
        } else if d.grabbed is Some && (m.kind is Drag || m.kind is Up) {
            Route::Grabbed(d.grabbed->Some_0, m.kind is Up)
        } else {
            match occupant(
                d.slots@,
                d.cached_widgets@,
                m.column,
                m.row,
                d.slots@.len() as int,
            ) {
                Some(id) => Route::Occupant(id, m.kind is Down),
                None => Route::Nobody,
            }
        },
        _ => Route::Everyone,
    }
}

/// What the layer `id` is told about itself.
pub open spec fn told_of<W>(d: Display<W>, id: LayerId) -> Told {
    Told {
        id,
        color: match color_of(d.palette@, id) {
            Some(color) => color,
            None => Color::Reset,
        },
        terminal_area: d.terminal_area,
        my_widgets: widgets_of(d.cached_widgets@, id),
    }
}

/// The layer at `k` was told about itself, was offered an event and answered it
/// with `r`.
pub open spec fn asked<W>(
    before: Display<W>,
    ev: Event,
    k: int,
    r: EventResult,
    after: Display<W>,
) -> bool {
    let slot = before.slots@[k];
    &&& same_but_layer(slot, after.slots@[k])
    &&& slot.layer.may_answer(ev, told_of(before, slot.id), r, after.slots@[k].layer)
}

/// The layer at `k` alone was offered an event and answered it with `r`.
pub open spec fn delivered_at<W>(
    before: Display<W>,
    ev: Event,
    k: int,
    r: EventResult,
    after: Display<W>,
) -> bool {
    &&& same_but_slots(before, after)
    &&& after.slots@.len() == before.slots@.len()
    &&& asked(before, ev, k, r, after)
    &&& forall|i: int|
        0 <= i < before.slots@.len() && i != k ==> #[trigger] after.slots@[i] == before.slots@[i]
}

/// The layer `id` alone was offered an event and answered it with `r`.
pub open spec fn delivered<W>(
    before: Display<W>,
    ev: Event,
    id: LayerId,
    r: EventResult,
    after: Display<W>,
) -> bool {
    match slot_of(before.slots@, id, 0) {
        Some(k) => delivered_at(before, ev, k, r, after),
        None => r == EventResult::Pass && after == before,
    }
}

/// The layer at `k` swallowed an event that the layers above it passed; those
/// below it did not see it.
pub open spec fn swallowed_at<W>(before: Display<W>, ev: Event, k: int, after: Display<W>) -> bool {
    &&& 0 <= k < before.slots@.len()
    &&& asked(before, ev, k, EventResult::Swallow, after)
    &&& forall|i: int|
        k < i < before.slots@.len() ==> #[trigger] asked(before, ev, i, EventResult::Pass, after)
    &&& forall|i: int| 0 <= i < k ==> #[trigger] after.slots@[i] == before.slots@[i]
}

/// Every layer was offered an event and passed it.
pub open spec fn passed_by_all<W>(before: Display<W>, ev: Event, after: Display<W>) -> bool {
    forall|i: int|
        0 <= i < before.slots@.len() ==> #[trigger] asked(before, ev, i, EventResult::Pass, after)
}

/// What comes of an event that was offered to one layer along `route`, where
/// `answer` is what the layer made of it: a press brings the layer to the top,
/// and a swallowed press gives it the pointer; a release takes the pointer away.
pub open spec fn settled<W>(
    before: Display<W>,
    route: Route,
    answer: EventResult,
    after: Display<W>,
) -> bool {
    &&& same_but_grab(before, after)
    &&& match route {
        Route::Grabbed(_, release) => {
            &&& after.slots@ == before.slots@
            &&& after.grabbed == if release {
                None
            } else {
                before.grabbed
            }
        },
        Route::Occupant(id, true) => {
            &&& topped(before.slots@, id, after.slots@)
            &&& after.grabbed == if answer == EventResult::Swallow {
                Some(id)
            } else {
                before.grabbed
            }
        },
        _ => {
            &&& after.slots@ == before.slots@
            &&& after.grabbed == before.grabbed
        },
    }
}

/// The layer `id` was offered an event that goes along `route`, and its answer
/// says whether the event was swallowed.
pub open spec fn one_asked<W>(
    before: Display<W>,
    ev: Event,
    route: Route,
    id: LayerId,
    swallowed: bool,
    after: Display<W>,
) -> bool {
    exists|r: EventResult, then: Display<W>| #[trigger]
        delivered(before, ev, id, r, then) && settled(then, route, r, after) && swallowed == (r
            == EventResult::Swallow)
}

/// What the event `ev` does that goes along `route`, where `swallowed` says
/// whether it was consumed.
pub open spec fn routed<W>(
    before: Display<W>,
    ev: Event,
    route: Route,
    swallowed: bool,
    after: Display<W>,
) -> bool {
    let slots = before.slots@;
    match route {
        Route::Rotate => {
            &&& swallowed
            &&& topped(slots, slots[0].id, after.slots@)
            &&& same_but_slots(before, after)
        },
        Route::Activate(id) => {
            &&& swallowed
            &&& topped(slots, id, after.slots@)
            &&& same_but_slots(before, after)
        },
        Route::Grabbed(id, _) => one_asked(before, ev, route, id, swallowed, after),
        Route::Occupant(id, _) => one_asked(before, ev, route, id, swallowed, after),
        Route::Only(id) => one_asked(before, ev, route, id, swallowed, after),
        Route::Everyone => {
            &&& after.slots@.len() == slots.len()
            &&& same_but_slots(before, after)
            &&& if swallowed {
                exists|k: int| swallowed_at(before, ev, k, after)
            } else {
                passed_by_all(before, ev, after)
            }
        },
        Route::Nobody => !swallowed && after == before,
    }
}

/// Everything but the slots and the grab is the same.
pub open spec fn same_but_grab<W>(a: Display<W>, b: Display<W>) -> bool {
    &&& b.next_id == a.next_id
    &&& b.palette == a.palette
    &&& b.owners == a.owners
    &&& b.cached_widgets == a.cached_widgets
    &&& b.taskbar == a.taskbar
    &&& b.terminal_area == a.terminal_area
    &&& b.free_slots == a.free_slots
    &&& b.next_slot == a.next_slot
}

impl<W> Display<W> {
    /// Whether the layer `id` has a widget at a cell.
    fn owns(&self, id: LayerId, col: u16, row: u16) -> (b: bool)
        ensures
            b == owns_cell(self.cached_widgets@, id, col, row),
    {
        let mut i: usize = 0;
        while i < self.cached_widgets.len()
            invariant
                i <= self.cached_widgets@.len(),
                forall|j: int|
                    0 <= j < i ==> !((#[trigger] self.cached_widgets@[j]).0 == id
                        && self.cached_widgets@[j].2.covers(col as int, row as int)),
            decreases self.cached_widgets@.len() - i,
        {
            if self.cached_widgets[i].0 == id && self.cached_widgets[i].2.contains(col, row) {
                return true;
            }
            i += 1;
        }
        false
    }

    /// The topmost layer that has a widget at a cell.
    fn find_occupant(&self, col: u16, row: u16) -> (r: Option<LayerId>)
        ensures
            r == occupant(
                self.slots@,
                self.cached_widgets@,
                col,
                row,
                self.slots@.len() as int,
            ),
    {
        let mut n: usize = self.slots.len();
        while n > 0
            invariant
                n <= self.slots@.len(),
                occupant(
                    self.slots@,
                    self.cached_widgets@,
                    col,
                    row,
                    self.slots@.len() as int,
                ) == occupant(self.slots@, self.cached_widgets@, col, row, n as int),
            decreases n,
        {
            if self.owns(self.slots[n - 1].id, col, row) {
                return Some(self.slots[n - 1].id);
            }
            n -= 1;
        }
        None
    }

    /// The layer whose button is at a cell.
    fn find_button(&self, col: u16, row: u16) -> (r: Option<LayerId>)
        ensures
            r == button_at(self.taskbar@, col, row, 0),
    {
        let mut i: usize = 0;
        while i < self.taskbar.len()
            invariant
                i <= self.taskbar@.len(),
                button_at(self.taskbar@, col, row, 0) == button_at(
                    self.taskbar@,
                    col,
                    row,
                    i as int,
                ),
            decreases self.taskbar@.len() - i,
        {
            if self.taskbar[i].1.contains(col, row) {
                return Some(self.taskbar[i].0);
            }
            i += 1;
        }
        None
    }

    /// Where an event goes.
    pub fn route(&self, ev: &Event) -> (r: Route)
        requires
            self.wf(),
        ensures
            r == route_of(*self, *ev),
    {
        match ev {
            Event::Key(k) => {
                if k.kind == KeyEventKind::Press && (k.code == KeyCode::Tab && k.modifiers.shift
                    || k.code == KeyCode::BackTab) {
                    Route::Rotate
                } else if self.topmost() == Some(LayerId(0)) {
                    Route::Only(LayerId(0))
                } else {
                    Route::Everyone
                }
            },
            Event::Mouse(m) => {
                let (down, drag, up) = match m.kind {
                    MouseEventKind::Down(_) => (true, false, false),
                    MouseEventKind::Drag(_) => (false, true, false),
                    MouseEventKind::Up(_) => (false, false, true),
                    _ => (false, false, false),
                };
                if down {
                    if let Some(id) = self.find_button(m.column, m.row) {
                        return Route::Activate(id);
                    }
                }
                if drag || up {
                    if let Some(id) = self.grabbed {
                        return Route::Grabbed(id, up);
                    }
                }
                match self.find_occupant(m.column, m.row) {
                    Some(id) => Route::Occupant(id, down),
                    None => Route::Nobody,
                }
            },
            _ => Route::Everyone,
        }
    }

    /// What the layer `id` is told about itself.
    pub(crate) fn context(&self, id: LayerId) -> (c: LayerCtx)
        ensures
            c@ == told_of(*self, id),
    {
        let mut my_widgets: Vec<(&'static str, Rect)> = Vec::new();
        let mut i: usize = 0;
        assert(widgets_of(self.cached_widgets@.take(0), id) =~= Seq::empty());
        while i < self.cached_widgets.len()
            invariant
                i <= self.cached_widgets@.len(),
                my_widgets@ == widgets_of(self.cached_widgets@.take(i as int), id),
            decreases self.cached_widgets@.len() - i,
        {
            assert(self.cached_widgets@.take(i + 1).drop_last() =~= self.cached_widgets@.take(
                i as int,
            ));
            if self.cached_widgets[i].0 == id {
                my_widgets.push((self.cached_widgets[i].1, self.cached_widgets[i].2));
            }
            i += 1;
        }
        assert(self.cached_widgets@.take(i as int) =~= self.cached_widgets@);
        let color = match self.layer_color(id) {
            Some(color) => color,
            None => Color::Reset,
        };
        LayerCtx { id, color, terminal_area: self.terminal_area, my_widgets }
    }

    /// Offers an event to the layer at `k`.
    fn deliver_at(&mut self, k: usize, ev: &Event) -> (r: EventResult)
        requires
            old(self).wf(),
            k < old(self).slots@.len(),
        ensures
            final(self).wf(),
            delivered_at(*old(self), *ev, k as int, r, *final(self)),
    {
        let id = self.slots[k].id;
        let ctx = self.context(id);
        let r = self.slots[k].layer.on_event(ev, &ctx);
        proof {
            lemma_same_slots_wf(*old(self), *self);
        }
        r
    }

    /// Offers an event to the layer `id`.
    fn deliver(&mut self, id: LayerId, ev: &Event) -> (r: EventResult)
        requires
            old(self).wf(),
        ensures
            final(self).wf(),
            delivered(*old(self), *ev, id, r, *final(self)),
    {
        match self.position(id) {
            Some(k) => self.deliver_at(k, ev),
            None => EventResult::Pass,
        }
    }

    /// Offers an event to every layer from the top on, until one swallows it.
    fn offer(&mut self, ev: &Event) -> (swallowed: bool)
        requires
            old(self).wf(),
        ensures
            final(self).wf(),
            routed(*old(self), *ev, Route::Everyone, swallowed, *final(self)),
    {
        let mut n: usize = self.slots.len();
        while n > 0
            invariant
                self.wf(),
                n <= self.slots@.len() == old(self).slots@.len(),
                same_but_slots(*old(self), *self),
                forall|i: int|
                    n <= i < self.slots@.len() ==> #[trigger] asked(
                        *old(self),
                        *ev,
                        i,
                        EventResult::Pass,
                        *self,
                    ),
                forall|i: int| 0 <= i < n ==> #[trigger] self.slots@[i] == old(self).slots@[i],
            decreases n,
        {
            let ghost before = *self;
            let r = self.deliver_at(n - 1, ev);
            proof {
                assert(told_of(before, before.slots@[n - 1].id) == told_of(
                    *old(self),
                    before.slots@[n - 1].id,
                ));
                assert(asked(*old(self), *ev, n - 1, r, *self));
                assert forall|i: int| n <= i < self.slots@.len() implies #[trigger] asked(
                    *old(self),
                    *ev,
                    i,
                    EventResult::Pass,
                    *self,
                ) by {
                    assert(asked(*old(self), *ev, i, EventResult::Pass, before));
                    assert(self.slots@[i] == before.slots@[i]);
                }
            }
            if r == EventResult::Swallow {
                assert(swallowed_at(*old(self), *ev, n - 1, *self));
                return true;
            }
            n -= 1;
        }
        false
    }

    /// Does what follows from a layer's answer to an event that was offered to it
    /// along `route`. Says whether the event was swallowed.
    pub fn settle(&mut self, route: Route, answer: EventResult) -> (swallowed: bool)
        requires
            old(self).wf(),
            route matches Route::Occupant(id, _) ==> live(old(self).slots@, id),
        ensures
            final(self).wf(),
            settled(*old(self), route, answer, *final(self)),
            swallowed == (answer == EventResult::Swallow),
    {
        match route {
            Route::Grabbed(_, release) => {
                if release {
                    self.grabbed = None;
                }
            },
            Route::Occupant(id, press) => {
                if press {
                    self.activate(id);
                    proof {
                        let slots = old(self).slots@;
                        lemma_activated_live(slots, id);
                        lemma_same_ids_live(activated(slots, id), self.slots@);
                    }
                    if answer == EventResult::Swallow {
                        self.grabbed = Some(id);
                    }
                }
            },
            _ => {},
        }
        answer == EventResult::Swallow
    }

    /// Routes an event. Says whether it was swallowed; if not, it is left to the
    /// program around the display. Whether a layer swallows an event is up to
    /// the layer.
    pub fn route_event(&mut self, ev: &Event) -> (swallowed: bool)
        requires
            old(self).wf(),
        ensures
            final(self).wf(),
            routed(*old(self), *ev, route_of(*old(self), *ev), swallowed, *final(self)),
    {
        let route = self.route(ev);
        match route {
            Route::Rotate => {
                self.rotate();
                true
            },
            Route::Activate(id) => {
                self.activate(id);
                true
            },
            Route::Grabbed(id, _) => {
                let answer = self.deliver(id, ev);
                self.settle(route, answer)
            },
            Route::Occupant(id, _) => {
                let answer = self.deliver(id, ev);
                proof {
                    lemma_occupant_live(*old(self), *ev, old(self).slots@.len() as int);
                    lemma_delivered_touched(*old(self), *ev, id, answer, *self);
                    lemma_same_ids_live(old(self).slots@, self.slots@);
                }
                self.settle(route, answer)
            },
            Route::Only(id) => {
                let answer = self.deliver(id, ev);
                self.settle(route, answer)
            },
            Route::Everyone => self.offer(ev),
            Route::Nobody => false,
        }
    }
}

/// An event that is offered to one layer leaves the others alone.
proof fn lemma_delivered_touched<W>(
    before: Display<W>,
    ev: Event,
    id: LayerId,
    r: EventResult,
    after: Display<W>,
)
    requires
        delivered(before, ev, id, r, after),
    ensures
        touched(before.slots@, id, after.slots@),
        same_but_slots(before, after),
{
    lemma_touched_slot_of(before.slots@, id, before.slots@, 0);
    let (a, b) = (before.slots@, after.slots@);
    assert forall|i: int| 0 <= i < a.len() implies if a[i].id == id {
        same_but_layer(a[i], #[trigger] b[i])
    } else {
        b[i] == a[i]
    } by {
        if slot_of(a, id, 0) == Some(i) {
            assert(asked(before, ev, i, r, after));
        }
    }
}

/// Bringing a layer to the top leaves the others alone.
proof fn lemma_topped_touched<W>(
    slots: Seq<LayerSlot<W>>,
    id: LayerId,
    after: Seq<LayerSlot<W>>,
)
    requires
        topped(slots, id, after),
    ensures
        touched(activated(slots, id), id, after),
{
    lemma_touched_slot_of(slots, id, slots, 0);
    let up = activated(slots, id);
    assert forall|i: int| 0 <= i < up.len() implies if up[i].id == id {
        same_but_layer(up[i], #[trigger] after[i])
    } else {
        after[i] == up[i]
    } by {
        if i == up.len() - 1 {
            assert(up.last() == up[i]);
            assert(after.last() == after[i]);
        }
    }
}

/// An event that goes to one layer leaves the others alone, and the layer comes to
/// the top on a press.
pub(crate) proof fn lemma_one_asked<W>(
    before: Display<W>,
    ev: Event,
    route: Route,
    id: LayerId,
    swallowed: bool,
    after: Display<W>,
)
    requires
        one_asked(before, ev, route, id, swallowed, after),
        route is Grabbed || route is Only || (route matches Route::Occupant(i, _) && i == id),
    ensures
        touched(
            if route == Route::Occupant(id, true) {
                activated(before.slots@, id)
            } else {
                before.slots@
            },
            id,
            after.slots@,
        ),
        same_but_grab(before, after),
        after.grabbed == if route matches Route::Grabbed(_, true) {
            None
        } else if route == Route::Occupant(id, true) && swallowed {
            Some(id)
        } else {
            before.grabbed
        },
{
    let (r, then) = choose|r: EventResult, then: Display<W>| #[trigger]
        delivered(before, ev, id, r, then) && settled(then, route, r, after) && swallowed == (r
            == EventResult::Swallow);
    lemma_delivered_touched(before, ev, id, r, then);
    if route == Route::Occupant(id, true) {
        lemma_topped_touched(then.slots@, id, after.slots@);
        lemma_touched_activated(before.slots@, id, then.slots@);
        let (a, b, c) = (
            activated(before.slots@, id),
            activated(then.slots@, id),
            after.slots@,
        );
        assert forall|i: int| 0 <= i < a.len() implies if a[i].id == id {
            same_but_layer(a[i], #[trigger] c[i])
        } else {
            c[i] == a[i]
        } by {
            assert(if a[i].id == id {
                same_but_layer(a[i], b[i])
            } else {
                b[i] == a[i]
            });
        }
    }
}

proof fn lemma_touched_slot_of<W>(a: Seq<LayerSlot<W>>, id: LayerId, b: Seq<LayerSlot<W>>, i: int)
    requires
        touched(a, id, b),
    ensures
        slot_of(b, id, i) == slot_of(a, id, i),
        slot_of(a, id, i) matches Some(k) ==> i <= k < a.len() && a[k].id == id,
    decreases a.len() - i,
{
    if 0 <= i < a.len() {
        lemma_touched_slot_of(a, id, b, i + 1);
        assert(b[i].id == a[i].id);
    }
}

/// What a layer keeps for itself does not matter for bringing it to the top.
proof fn lemma_touched_activated<W>(a: Seq<LayerSlot<W>>, id: LayerId, b: Seq<LayerSlot<W>>)
    requires
        touched(a, id, b),
    ensures
        touched(activated(a, id), id, activated(b, id)),
{
    lemma_touched_slot_of(a, id, b, 0);
    let (x, y) = (activated(a, id), activated(b, id));
    match slot_of(a, id, 0) {
        Some(k) => {
            assert forall|i: int| 0 <= i < x.len() implies #[trigger] y[i] == if x[i].id == id {
                LayerSlot { layer: y[i].layer, ..x[i] }
            } else {
                x[i]
            } by {
                let j = if i < k {
                    i
                } else if i < a.len() - 1 {
                    i + 1
                } else {
                    k
                };
                assert(b[j].id == a[j].id);
            }
        },
        None => {
            assert forall|i: int| 0 <= i < x.len() implies #[trigger] y[i] == if x[i].id == id {
                LayerSlot { layer: y[i].layer, ..x[i] }
            } else {
                x[i]
            } by {
                assert(b[i].id == a[i].id);
            }
        },
    }
}

proof fn lemma_activated_live<W>(slots: Seq<LayerSlot<W>>, id: LayerId)
    requires
        live(slots, id),
    ensures
        live(activated(slots, id), id),
{
    let same = slots;
    lemma_touched_slot_of(slots, id, same, 0);
    match slot_of(slots, id, 0) {
        Some(k) => {
            assert(activated(slots, id)[slots.len() - 1].id == id);
        },
        None => {
            let i = choose|i: int| 0 <= i < slots.len() && (#[trigger] slots[i]).id == id;
            assert(activated(slots, id)[i].id == id);
        },
    }
}

pub(crate) proof fn lemma_occupant_live<W>(d: Display<W>, ev: Event, n: int)
    requires
        0 <= n <= d.slots@.len(),
    ensures
        ev matches Event::Mouse(m) ==> match occupant(
            d.slots@,
            d.cached_widgets@,
            m.column,
            m.row,
            n,
        ) {
            Some(id) => live(d.slots@, id),
            None => true,
        },
    decreases n,
{
    if n > 0 {
        lemma_occupant_live(d, ev, n - 1);
    }
}

/// A stack whose layers differ in nothing but what they keep for themselves is
/// in order if the other is.
pub(crate) proof fn lemma_same_slots_wf<W>(d: Display<W>, e: Display<W>)
    requires
        d.wf(),
        same_but_slots(d, e),
        same_but_layers(d.slots@, e.slots@),
    ensures
        e.wf(),
{
    let (a, b) = (d.slots@, e.slots@);
    assert forall|x: LayerId| live(a, x) implies #[trigger] live(b, x) by {
        let i = choose|i: int| 0 <= i < a.len() && (#[trigger] a[i]).id == x;
        assert(b[i].id == x);
    }
    assert forall|i: int, j: int| 0 <= i < j < b.len() implies apart(
        #[trigger] b[i],
        #[trigger] b[j],
    ) by {
        assert(apart(a[i], a[j]));
    }
}

} // verus!
