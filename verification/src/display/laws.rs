//! What holds of the stack of layers as a whole.

use crate::display::frame::{
    backdrop_of, backdrops, button_area, button_widgets, buttons, dressed, framed, group,
    intents_of, owner_or_builtin, restacked, shown, total_places, wanted_order, widgets_after, Turn,
};
use crate::display::frame::{
    lemma_owner_live, lemma_total_places, lemma_total_places_bound, lemma_wanted_order,
};
use crate::display::routing::{
    asked, button_at, delivered, lemma_occupant_live, lemma_one_asked, occupant, passed_by_all,
    route_of, routed, settled, swallowed_at, widgets_of, Route,
};
use crate::display::{
    activated, added, apart, ids, live, owner, removed, slot_of, touched, Display, EventResult, Layer,
    LayerId, LayerSlot, WidgetEntry,
};
use crate::event::{Event, KeyEvent, MouseEvent};
use crate::geometry::{Color, Rect};
use vstd::prelude::*;

verus! {

pub(crate) proof fn lemma_slot_of<W>(slots: Seq<LayerSlot<W>>, id: LayerId, i: int)
    requires
        0 <= i,
    ensures
        slot_of(slots, id, i) matches Some(k) ==> i <= k < slots.len() && slots[k].id == id,
        slot_of(slots, id, i) is None ==> forall|j: int|
            i <= j < slots.len() ==> (#[trigger] slots[j]).id != id,
    decreases slots.len() - i,
{
    if i < slots.len() {
        lemma_slot_of(slots, id, i + 1);
    }
}

/// A layer that is activated is on top, the others keep their order, and the
/// priorities are adjacent.
pub proof fn law_activation<W>(d: Display<W>, id: LayerId, k: int)
    requires
        d.wf(),
        0 <= k < d.slots@.len(),
        d.slots@[k].id == id,
    ensures
        ids(activated(d.slots@, id)) == ids(d.slots@).remove(k).push(id),
        forall|i: int|
            0 <= i < d.slots@.len() <= u64::MAX ==> (#[trigger] activated(
                d.slots@,
                id,
            )[i]).priority == i,
{
    let slots = d.slots@;
    lemma_slot_of(slots, id, 0);
    let j = slot_of(slots, id, 0)->Some_0;
    if j < k {
        assert(apart(slots[j], slots[k]));
    } else if k < j {
        assert(apart(slots[k], slots[j]));
    }
    assert(ids(activated(slots, id)) =~= ids(slots).remove(k).push(id));
}

/// A sequence after its first element has gone to the end `k` times.
pub open spec fn cycled(s: Seq<LayerId>, k: nat) -> Seq<LayerId>
    decreases k,
{
    if k == 0 {
        s
    } else {
        let t = cycled(s, (k - 1) as nat);
        t.drop_first().push(t[0])
    }
}

/// Rotation raises the bottom layer and is a carousel: each rotation cycles the
/// stack by one, and as many as there are layers bring it back to where it was.
pub proof fn law_rotation_is_a_carousel<W>(
    before: Display<W>,
    ev: Event,
    swallowed: bool,
    after: Display<W>,
)
    requires
        before.wf(),
        routed(before, ev, Route::Rotate, swallowed, after),
    ensures
        ids(after.slots@) == cycled(ids(before.slots@), 1),
        cycled(ids(before.slots@), before.slots@.len()) == ids(before.slots@),
{
    let slots = before.slots@;
    let s = ids(slots);
    assert(live(slots, LayerId(0)));
    law_activation(before, slots[0].id, 0);
    assert(cycled(s, 0) == s);
    assert(s.remove(0) =~= s.drop_first());
    assert forall|i: int| 0 <= i < s.len() implies ids(after.slots@)[i] == activated(
        slots,
        slots[0].id,
    )[i].id by {
        assert(after.slots@[i].id == activated(slots, slots[0].id)[i].id);
    }
    assert(ids(after.slots@) =~= ids(activated(slots, slots[0].id)));
    assert(cycled(s, 1) == cycled(s, 0).drop_first().push(cycled(s, 0)[0]));
    lemma_cycled(s, s.len());
    assert(s.skip(s.len() as int) + s.take(s.len() as int) =~= s);
}

proof fn lemma_cycled(s: Seq<LayerId>, k: nat)
    requires
        k <= s.len(),
        s.len() > 0,
    ensures
        cycled(s, k) == s.skip(k as int) + s.take(k as int),
    decreases k,
{
    if k == 0 {
        assert(s.skip(0) + s.take(0) =~= s);
    } else {
        lemma_cycled(s, (k - 1) as nat);
        let t = s.skip(k - 1) + s.take(k - 1);
        assert(t[0] == s[k - 1]);
        assert(t.drop_first().push(t[0]) =~= s.skip(k as int) + s.take(k as int));
    }
}

/// A frame keeps every layer with its label and its place in the taskbar, and
/// leaves the priorities adjacent.
pub proof fn law_frame_keeps_layers<W>(
    before: Display<W>,
    ws: Seq<WidgetEntry<W>>,
    turns: Seq<Turn<W>>,
    hides: Seq<bool>,
    after: Display<W>,
    ws_after: Seq<WidgetEntry<W>>,
    i: int,
)
    requires
        before.wf(),
        framed(before, ws, turns, hides, after, ws_after),
        0 <= i < before.slots@.len() <= u64::MAX,
    ensures
        after.slots@.len() == before.slots@.len(),
        after.slots@[i].priority == i,
        exists|j: int|
            0 <= j < after.slots@.len() && (#[trigger] after.slots@[j]).id == before.slots@[i].id
                && after.slots@[j].label == before.slots@[i].label && after.slots@[j].button
                == before.slots@[i].button,
{
    let intents = intents_of(turns);
    lemma_wanted_order(intents);
    let order = wanted_order(intents);
    let stack = restacked(before.slots@, intents);
    assert(order.contains(i));
    let j = choose|j: int| 0 <= j < order.len() && order[j] == i;
    assert(stack[j].id == before.slots@[i].id);
    assert(after.slots@[j].id == stack[j].id);
    assert(after.slots@[i].priority == stack[i].priority);
}

/// The buttons of two layers have no cell in common, and all of them fit the
/// coordinate type.
pub proof fn law_buttons_apart<W>(d: Display<W>, i: int, j: int, col: int, row: int)
    requires
        d.wf(),
        0 <= i < j < d.slots@.len(),
    ensures
        ({
            let total = total_places(d.slots@);
            let a = button_area(d.terminal_area, total, d.slots@[i].button as int);
            let b = button_area(d.terminal_area, total, d.slots@[j].button as int);
            &&& a.fits()
            &&& b.fits()
            &&& !(a.covers(col, row) && b.covers(col, row))
        }),
{
    lemma_total_places_bound(d.slots@, d.next_slot as int);
    lemma_total_places(d.slots@, i);
    lemma_total_places(d.slots@, j);
    assert(apart(d.slots@[i], d.slots@[j]));
}

/// A press on the button of a layer brings that layer to the top.
pub proof fn law_button_press_activates<W>(
    before: Display<W>,
    ws: Seq<WidgetEntry<W>>,
    turns: Seq<Turn<W>>,
    hides: Seq<bool>,
    d: Display<W>,
    ws_after: Seq<WidgetEntry<W>>,
    i: int,
    m: MouseEvent,
)
    requires
        framed(before, ws, turns, hides, d, ws_after),
        d.wf(),
        0 <= i < d.slots@.len(),
        shown(d.slots@, d.cached_widgets@, hides, i),
        m.kind is Down,
        button_area(
            d.terminal_area,
            total_places(d.slots@),
            d.slots@[i].button as int,
        ).covers(m.column as int, m.row as int),
    ensures
        route_of(d, Event::Mouse(m)) == Route::Activate(d.slots@[i].id),
{
    lemma_wanted_order(intents_of(turns));
    lemma_button_found(d, hides, d.slots@.len() as int, i, m);
    lemma_button_unique(d, hides, d.slots@.len() as int, i, m, 0);
}

/// Among the buttons of the lowest `n` layers there is that of a shown layer.
proof fn lemma_button_found<W>(d: Display<W>, hides: Seq<bool>, n: int, i: int, m: MouseEvent)
    requires
        0 <= i < n <= d.slots@.len(),
        shown(d.slots@, d.cached_widgets@, hides, i),
    ensures
        ({
            let taskbar = buttons(d.slots@, d.cached_widgets@, hides, d.terminal_area, n);
            exists|k: int|
                0 <= k < taskbar.len() && (#[trigger] taskbar[k]).1 == button_area(
                    d.terminal_area,
                    total_places(d.slots@),
                    d.slots@[i].button as int,
                )
        }),
    decreases n,
{
    let taskbar = buttons(d.slots@, d.cached_widgets@, hides, d.terminal_area, n);
    let rest = buttons(d.slots@, d.cached_widgets@, hides, d.terminal_area, n - 1);
    if i == n - 1 {
        assert(taskbar[rest.len() as int].1 == button_area(
            d.terminal_area,
            total_places(d.slots@),
            d.slots@[i].button as int,
        ));
    } else {
        lemma_button_found(d, hides, n - 1, i, m);
        let k = choose|k: int|
            0 <= k < rest.len() && (#[trigger] rest[k]).1 == button_area(
                d.terminal_area,
                total_places(d.slots@),
                d.slots@[i].button as int,
            );
        assert(taskbar[k] == rest[k]);
    }
}

/// Every button is that of a layer.
proof fn lemma_button_of<W>(d: Display<W>, hides: Seq<bool>, n: int, k: int)
    requires
        0 <= n <= d.slots@.len(),
        0 <= k < buttons(d.slots@, d.cached_widgets@, hides, d.terminal_area, n).len(),
    ensures
        exists|j: int|
            0 <= j < n && (#[trigger] d.slots@[j]).id == buttons(
                d.slots@,
                d.cached_widgets@,
                hides,
                d.terminal_area,
                n,
            )[k].0 && buttons(d.slots@, d.cached_widgets@, hides, d.terminal_area, n)[k].1
                == button_area(d.terminal_area, total_places(d.slots@), d.slots@[j].button as int),
    decreases n,
{
    if n > 0 {
        let rest = buttons(d.slots@, d.cached_widgets@, hides, d.terminal_area, n - 1);
        if k < rest.len() {
            lemma_button_of(d, hides, n - 1, k);
            let j = choose|j: int|
                0 <= j < n - 1 && (#[trigger] d.slots@[j]).id == rest[k].0 && rest[k].1
                    == button_area(
                    d.terminal_area,
                    total_places(d.slots@),
                    d.slots@[j].button as int,
                );
            assert(d.slots@[j].id == rest[k].0);
        } else {
            assert(d.slots@[n - 1].id == d.slots@[n - 1].id);
        }
    }
}

/// The button at a cell of a layer's button is that layer's.
proof fn lemma_button_unique<W>(
    d: Display<W>,
    hides: Seq<bool>,
    n: int,
    i: int,
    m: MouseEvent,
    from: int,
)
    requires
        d.wf(),
        n == d.slots@.len(),
        0 <= i < n,
        d.taskbar@ == buttons(d.slots@, d.cached_widgets@, hides, d.terminal_area, n),
        button_area(
            d.terminal_area,
            total_places(d.slots@),
            d.slots@[i].button as int,
        ).covers(m.column as int, m.row as int),
        0 <= from,
        exists|k: int|
            from <= k < d.taskbar@.len() && (#[trigger] d.taskbar@[k]).1 == button_area(
                d.terminal_area,
                total_places(d.slots@),
                d.slots@[i].button as int,
            ),
    ensures
        button_at(d.taskbar@, m.column, m.row, from) == Some(d.slots@[i].id),
    decreases d.taskbar@.len() - from,
{
    let t = d.taskbar@;
    if t[from].1.covers(m.column as int, m.row as int) {
        lemma_button_of(d, hides, n, from);
        let j = choose|j: int|
            0 <= j < n && (#[trigger] d.slots@[j]).id == t[from].0 && t[from].1 == button_area(
                d.terminal_area,
                total_places(d.slots@),
                d.slots@[j].button as int,
            );
        if i < j {
            law_buttons_apart(d, i, j, m.column as int, m.row as int);
        } else if j < i {
            law_buttons_apart(d, j, i, m.column as int, m.row as int);
        }
    } else {
        let k = choose|k: int|
            from <= k < t.len() && (#[trigger] t[k]).1 == button_area(
                d.terminal_area,
                total_places(d.slots@),
                d.slots@[i].button as int,
            );
        assert(k != from);
        assert(t[k].1 == button_area(
            d.terminal_area,
            total_places(d.slots@),
            d.slots@[i].button as int,
        ));
        lemma_button_unique(d, hides, n, i, m, from + 1);
    }
}

/// Nothing is left of a layer that was removed: it owns no widgets, has no
/// cells, does not have the pointer and is not in the stack.
pub proof fn law_removed_is_forgotten<W>(
    before: Display<W>,
    k: int,
    after: Display<W>,
    name: Seq<char>,
)
    requires
        before.wf(),
        0 <= k < before.slots@.len(),
        removed(before, k, after),
    ensures
        owner(after.owners@, name, 0) != Some(before.slots@[k].id),
        widgets_of(after.cached_widgets@, before.slots@[k].id).len() == 0,
        after.grabbed != Some(before.slots@[k].id),
        !live(after.slots@, before.slots@[k].id),
{
    let id = before.slots@[k].id;
    let kept = |o: (&'static str, LayerId)| o.1 != id;
    let shown = |w: (LayerId, &'static str, Rect)| w.0 != id;
    broadcast use vstd::seq_lib::group_filter_ensures;

    assert forall|i: int| 0 <= i < after.owners@.len() implies (#[trigger] after.owners@[i]).1
        != id by {
        assert(kept(after.owners@[i]));
    }
    lemma_not_owner(after.owners@, name, id, 0);
    assert forall|i: int| 0 <= i < after.cached_widgets@.len() implies (
    #[trigger] after.cached_widgets@[i]).0 != id by {
        assert(shown(after.cached_widgets@[i]));
    }
    lemma_no_widgets(after.cached_widgets@, id);
    assert forall|i: int| 0 <= i < after.slots@.len() implies (#[trigger] after.slots@[i]).id
        != id by {
        if i < k {
            assert(after.slots@[i] == before.slots@[i]);
            assert(apart(before.slots@[i], before.slots@[k]));
        } else {
            assert(after.slots@[i] == before.slots@[i + 1]);
            assert(apart(before.slots@[k], before.slots@[i + 1]));
        }
    }
}

proof fn lemma_not_owner(owners: Seq<(&'static str, LayerId)>, name: Seq<char>, id: LayerId, i: int)
    requires
        0 <= i,
        forall|j: int| 0 <= j < owners.len() ==> (#[trigger] owners[j]).1 != id,
    ensures
        owner(owners, name, i) != Some(id),
    decreases owners.len() - i,
{
    if i < owners.len() {
        lemma_not_owner(owners, name, id, i + 1);
    }
}

proof fn lemma_no_widgets(cached: Seq<(LayerId, &'static str, Rect)>, id: LayerId)
    requires
        forall|j: int| 0 <= j < cached.len() ==> (#[trigger] cached[j]).0 != id,
    ensures
        widgets_of(cached, id).len() == 0,
    decreases cached.len(),
{
    if cached.len() > 0 {
        let rest = cached.drop_last();
        assert forall|j: int| 0 <= j < rest.len() implies (#[trigger] rest[j]).0 != id by {
            assert(cached[j].0 != id);
        }
        lemma_no_widgets(rest, id);
        assert(cached[cached.len() - 1].0 != id);
    }
}

/// The place in the taskbar of a layer that was removed goes to the next one
/// that is added.
pub proof fn law_places_are_recycled<W>(
    before: Display<W>,
    k: int,
    without: Display<W>,
    layer: Layer<W>,
    c: char,
    after: Display<W>,
)
    requires
        before.wf(),
        0 <= k < before.slots@.len(),
        removed(before, k, without),
        added(without, layer, c, after),
    ensures
        after.slots@.last().button == before.slots@[k].button,
        after.next_slot == before.next_slot,
{
}

/// While a layer has the pointer, drags and the release go to it, wherever the
/// pointer is; the release takes the pointer from it.
pub proof fn law_grab_until_release<W>(
    before: Display<W>,
    m: MouseEvent,
    swallowed: bool,
    after: Display<W>,
    id: LayerId,
)
    requires
        before.grabbed == Some(id),
        m.kind is Drag || m.kind is Up,
        routed(before, Event::Mouse(m), route_of(before, Event::Mouse(m)), swallowed, after),
    ensures
        route_of(before, Event::Mouse(m)) == Route::Grabbed(id, m.kind is Up),
        touched(before.slots@, id, after.slots@),
        after.grabbed == if m.kind is Up {
            None
        } else {
            Some(id)
        },
{
    let ev = Event::Mouse(m);
    lemma_one_asked(before, ev, route_of(before, ev), id, swallowed, after);
}

/// A press on a layer is offered to that layer, and its answer decides: it comes to
/// the top either way, and has the pointer where it swallows the press.
pub proof fn law_press_focuses_occupant<W>(
    before: Display<W>,
    m: MouseEvent,
    swallowed: bool,
    after: Display<W>,
    id: LayerId,
)
    requires
        before.wf(),
        m.kind is Down,
        button_at(before.taskbar@, m.column, m.row, 0) is None,
        occupant(
            before.slots@,
            before.cached_widgets@,
            m.column,
            m.row,
            before.slots@.len() as int,
        ) == Some(id),
        routed(before, Event::Mouse(m), route_of(before, Event::Mouse(m)), swallowed, after),
    ensures
        after.slots@.last().id == id,
        after.grabbed == if swallowed {
            Some(id)
        } else {
            before.grabbed
        },
        exists|r: EventResult, then: Display<W>| #[trigger]
            delivered(before, Event::Mouse(m), id, r, then) && swallowed == (r
                == EventResult::Swallow),
{
    let ev = Event::Mouse(m);
    lemma_one_asked(before, ev, route_of(before, ev), id, swallowed, after);
    lemma_occupant_live(before, ev, before.slots@.len() as int);
    let k = choose|k: int| 0 <= k < before.slots@.len() && (#[trigger] before.slots@[k]).id == id;
    lemma_slot_of(before.slots@, id, 0);
    let up = activated(before.slots@, id);
    assert(up[up.len() - 1].id == id);
    assert(after.slots@[up.len() - 1].id == id);
    let (r, then) = choose|r: EventResult, then: Display<W>| #[trigger]
        delivered(before, ev, id, r, then) && settled(then, Route::Occupant(id, true), r, after)
            && swallowed == (r == EventResult::Swallow);
    assert(delivered(before, ev, id, r, then));
}

/// The wheel and a mere movement of the mouse neither change the order of the
/// stack nor who has the pointer.
pub proof fn law_wheel_never_activates<W>(
    before: Display<W>,
    m: MouseEvent,
    swallowed: bool,
    after: Display<W>,
)
    requires
        !(m.kind is Down),
        !(m.kind is Drag),
        !(m.kind is Up),
        routed(before, Event::Mouse(m), route_of(before, Event::Mouse(m)), swallowed, after),
    ensures
        ids(after.slots@) == ids(before.slots@),
        after.grabbed == before.grabbed,
{
    let (a, b) = (before.slots@, after.slots@);
    if let Route::Occupant(id, _) = route_of(before, Event::Mouse(m)) {
        lemma_one_asked(
            before,
            Event::Mouse(m),
            route_of(before, Event::Mouse(m)),
            id,
            swallowed,
            after,
        );
        assert forall|i: int| 0 <= i < a.len() implies #[trigger] ids(b)[i] == ids(a)[i] by {
            assert(b[i].id == a[i].id);
        }
    }
    assert(ids(b) =~= ids(a));
}

/// A mouse event belongs to the layer that covers its cell: where no button is
/// pressed and no layer has the pointer, every other layer keeps its state.
pub proof fn law_pointer_belongs_to_occupant<W>(
    before: Display<W>,
    m: MouseEvent,
    swallowed: bool,
    after: Display<W>,
    i: int,
)
    requires
        before.wf(),
        before.grabbed is None,
        button_at(before.taskbar@, m.column, m.row, 0) is None,
        routed(before, Event::Mouse(m), route_of(before, Event::Mouse(m)), swallowed, after),
        0 <= i < before.slots@.len(),
        occupant(
            before.slots@,
            before.cached_widgets@,
            m.column,
            m.row,
            before.slots@.len() as int,
        ) != Some(before.slots@[i].id),
    ensures
        exists|j: int|
            0 <= j < after.slots@.len() && (#[trigger] after.slots@[j]).id == before.slots@[i].id
                && after.slots@[j].layer == before.slots@[i].layer,
{
    let (a, b) = (before.slots@, after.slots@);
    match route_of(before, Event::Mouse(m)) {
        Route::Occupant(id, press) => {
            let ev = Event::Mouse(m);
            lemma_one_asked(before, ev, route_of(before, ev), id, swallowed, after);
            if press {
                lemma_slot_of(a, id, 0);
                let j = match slot_of(a, id, 0) {
                    Some(k) => if i < k {
                        i
                    } else {
                        i - 1
                    },
                    None => i,
                };
                assert(activated(a, id)[j].id == a[i].id);
                assert(b[j].id == a[i].id && b[j].layer == a[i].layer);
            } else {
                assert(b[i] == a[i]);
            }
        },
        _ => {
            assert(b[i].id == a[i].id);
        },
    }
}

/// While the log and the input line are on top, keys are left to the program
/// around the display, and no layer sees them.
pub proof fn law_input_line_has_focus<W>(
    before: Display<W>,
    k: KeyEvent,
    swallowed: bool,
    after: Display<W>,
)
    requires
        before.wf(),
        before.slots@.last().id == LayerId(0),
        before.slots@.last().layer is Builtin,
        route_of(before, Event::Key(k)) != Route::Rotate,
        routed(before, Event::Key(k), route_of(before, Event::Key(k)), swallowed, after),
    ensures
        !swallowed,
        after.slots@ == before.slots@,
{
    let slots = before.slots@;
    assert(live(slots, LayerId(0)));
    lemma_slot_of(slots, LayerId(0), 0);
    let j = slot_of(slots, LayerId(0), 0)->Some_0;
    if j < slots.len() - 1 {
        assert(apart(slots[j], slots[slots.len() - 1]));
    }
}

/// What a layer swallows no layer below it sees: some layer answered that it
/// swallows the event, and those below it keep their state.
pub proof fn law_swallowing_consumes<W>(before: Display<W>, ev: Event, after: Display<W>)
    requires
        routed(before, ev, Route::Everyone, true, after),
    ensures
        exists|k: int|
            0 <= k < before.slots@.len() && #[trigger] asked(
                before,
                ev,
                k,
                EventResult::Swallow,
                after,
            ) && forall|i: int| 0 <= i < k ==> #[trigger] after.slots@[i] == before.slots@[i],
{
    let k = choose|k: int| swallowed_at(before, ev, k, after);
    assert(asked(before, ev, k, EventResult::Swallow, after));
}

/// An event that every layer passes falls through to the program around the
/// display.
pub proof fn law_passed_event_falls_through<W>(
    before: Display<W>,
    ev: Event,
    swallowed: bool,
    after: Display<W>,
)
    requires
        routed(before, ev, Route::Everyone, swallowed, after),
        forall|i: int|
            0 <= i < before.slots@.len() ==> !#[trigger] asked(
                before,
                ev,
                i,
                EventResult::Swallow,
                after,
            ),
    ensures
        !swallowed,
        passed_by_all(before, ev, after),
{
}

/// The widgets of the lowest `n` layers, layer by layer.
pub open spec fn by_layers<W>(
    slots: Seq<LayerSlot<W>>,
    owners: Seq<(&'static str, LayerId)>,
    ws: Seq<WidgetEntry<W>>,
    n: int,
) -> Seq<WidgetEntry<W>>
    decreases n,
{
    if n <= 0 {
        Seq::empty()
    } else {
        by_layers(slots, owners, ws, n - 1) + group(owners, ws, slots[n - 1].id)
    }
}

/// Bringing the widgets into the order of the stack loses none and doubles
/// none.
pub proof fn law_every_widget_once<W>(d: Display<W>, ws: Seq<WidgetEntry<W>>)
    requires
        d.wf(),
    ensures
        by_layers(d.slots@, d.owners@, ws, d.slots@.len() as int).to_multiset()
            == ws.to_multiset(),
    decreases ws.len(),
{
    broadcast use vstd::seq_lib::group_to_multiset_ensures;

    let n = d.slots@.len() as int;
    if ws.len() == 0 {
        lemma_by_layers_empty(d.slots@, d.owners@, ws, n);
        assert(ws =~= Seq::empty());
    } else {
        let rest = ws.drop_last();
        law_every_widget_once(d, rest);
        let id = owner_or_builtin(d.owners@, ws.last().name@);
        lemma_owner_live(d, ws.last().name@, 0);
        let k = choose|k: int| 0 <= k < n && (#[trigger] d.slots@[k]).id == id;
        lemma_by_layers_push(d, ws, k, n);
        assert(ws =~= rest.push(ws.last()));
    }
}

proof fn lemma_by_layers_empty<W>(
    slots: Seq<LayerSlot<W>>,
    owners: Seq<(&'static str, LayerId)>,
    ws: Seq<WidgetEntry<W>>,
    n: int,
)
    requires
        ws.len() == 0,
    ensures
        by_layers(slots, owners, ws, n) == Seq::<WidgetEntry<W>>::empty(),
    decreases n,
{
    if n > 0 {
        lemma_by_layers_empty(slots, owners, ws, n - 1);
        assert(by_layers(slots, owners, ws, n) =~= Seq::empty());
    }
}

proof fn lemma_by_layers_push<W>(d: Display<W>, ws: Seq<WidgetEntry<W>>, k: int, n: int)
    requires
        d.wf(),
        ws.len() > 0,
        0 <= k < d.slots@.len(),
        0 <= n <= d.slots@.len(),
        d.slots@[k].id == owner_or_builtin(d.owners@, ws.last().name@),
    ensures
        by_layers(d.slots@, d.owners@, ws, n).to_multiset() == if k < n {
            by_layers(d.slots@, d.owners@, ws.drop_last(), n).to_multiset().insert(ws.last())
        } else {
            by_layers(d.slots@, d.owners@, ws.drop_last(), n).to_multiset()
        },
    decreases n,
{
    broadcast use vstd::seq_lib::group_to_multiset_ensures;

    if n > 0 {
        lemma_by_layers_push(d, ws, k, n - 1);
        let id = d.slots@[n - 1].id;
        let (a, b) = (
            by_layers(d.slots@, d.owners@, ws, n - 1),
            by_layers(d.slots@, d.owners@, ws.drop_last(), n - 1),
        );
        let (g, h) = (group(d.owners@, ws, id), group(d.owners@, ws.drop_last(), id));
        vstd::seq_lib::lemma_multiset_commutative(a, g);
        vstd::seq_lib::lemma_multiset_commutative(b, h);
        if n - 1 < k {
            assert(apart(d.slots@[n - 1], d.slots@[k]));
        } else if k < n - 1 {
            assert(apart(d.slots@[k], d.slots@[n - 1]));
        }
        assert((a + g).to_multiset() =~= a.to_multiset().add(g.to_multiset()));
        assert((b + h).to_multiset() =~= b.to_multiset().add(h.to_multiset()));
        if k == n - 1 {
            assert(g == h.push(ws.last()));
            assert(a.to_multiset().add(g.to_multiset()) =~= b.to_multiset().add(
                h.to_multiset(),
            ).insert(ws.last()));
        } else if k < n - 1 {
            assert(g == h);
            assert(a.to_multiset().add(g.to_multiset()) =~= b.to_multiset().add(
                h.to_multiset(),
            ).insert(ws.last()));
        }
    }
}

/// The backdrops of the lowest `n` layers, layer by layer.
pub open spec fn backdrops_by_layers<W>(
    slots: Seq<LayerSlot<W>>,
    owners: Seq<(&'static str, LayerId)>,
    palette: Seq<Color>,
    ws: Seq<WidgetEntry<W>>,
    n: int,
) -> Seq<WidgetEntry<W>>
    decreases n,
{
    if n <= 0 {
        Seq::empty()
    } else {
        let id = slots[n - 1].id;
        backdrops_by_layers(slots, owners, palette, ws, n - 1) + backdrops(
            group(owners, ws, id),
            backdrop_of(palette, id),
        )
    }
}

proof fn lemma_dressed_parts<W>(
    slots: Seq<LayerSlot<W>>,
    owners: Seq<(&'static str, LayerId)>,
    palette: Seq<Color>,
    ws: Seq<WidgetEntry<W>>,
    n: int,
)
    ensures
        dressed(slots, owners, palette, ws, n).to_multiset() == by_layers(
            slots,
            owners,
            ws,
            n,
        ).to_multiset().add(backdrops_by_layers(slots, owners, palette, ws, n).to_multiset()),
    decreases n,
{
    broadcast use vstd::seq_lib::group_to_multiset_ensures;

    let none = Seq::<WidgetEntry<W>>::empty();
    if n <= 0 {
        assert(none.to_multiset() =~= none.to_multiset().add(none.to_multiset()));
    } else {
        lemma_dressed_parts(slots, owners, palette, ws, n - 1);
        let id = slots[n - 1].id;
        let own = group(owners, ws, id);
        let behind = backdrops(own, backdrop_of(palette, id));
        let all = dressed(slots, owners, palette, ws, n - 1);
        let a = by_layers(slots, owners, ws, n - 1);
        let b = backdrops_by_layers(slots, owners, palette, ws, n - 1);
        vstd::seq_lib::lemma_multiset_commutative(all, behind);
        vstd::seq_lib::lemma_multiset_commutative(all + behind, own);
        vstd::seq_lib::lemma_multiset_commutative(a, own);
        vstd::seq_lib::lemma_multiset_commutative(b, behind);
        assert((all + behind + own).to_multiset() =~= (a + own).to_multiset().add(
            (b + behind).to_multiset(),
        ));
    }
}

/// Every layer only added widgets behind those that were there.
pub open spec fn only_pushed<W>(ws: Seq<WidgetEntry<W>>, turns: Seq<Turn<W>>) -> bool {
    forall|i: int|
        0 <= i < turns.len() ==> widgets_after(ws, turns, i).is_prefix_of((#[trigger] turns[i]).0)
}

proof fn lemma_only_pushed<W>(ws: Seq<WidgetEntry<W>>, turns: Seq<Turn<W>>, i: int)
    requires
        only_pushed(ws, turns),
        0 <= i <= turns.len(),
    ensures
        ws.is_prefix_of(widgets_after(ws, turns, i)),
    decreases i,
{
    if i > 0 {
        lemma_only_pushed(ws, turns, i - 1);
        let (a, b) = (widgets_after(ws, turns, i - 1), turns[i - 1].0);
        assert(a.is_prefix_of(b));
        assert(b.subrange(0, ws.len() as int) =~= b.subrange(0, a.len() as int).subrange(
            0,
            ws.len() as int,
        ));
    }
}

/// A frame shows every widget that was contributed once, and besides these the
/// backdrops and the buttons of the taskbar alone. Where the layers only add
/// widgets, those that were there before them are among the contributed ones.
pub proof fn law_frame_shows_every_widget<W>(
    before: Display<W>,
    ws: Seq<WidgetEntry<W>>,
    turns: Seq<Turn<W>>,
    hides: Seq<bool>,
    after: Display<W>,
    ws_after: Seq<WidgetEntry<W>>,
)
    requires
        framed(before, ws, turns, hides, after, ws_after),
        after.wf(),
    ensures
        ({
            let n = before.slots@.len() as int;
            let contributed = widgets_after(ws, turns, n);
            ws_after.to_multiset() == contributed.to_multiset().add(
                backdrops_by_layers(
                    after.slots@,
                    after.owners@,
                    after.palette@,
                    contributed,
                    n,
                ).to_multiset(),
            ).add(
                button_widgets(
                    after.slots@,
                    after.palette@,
                    after.cached_widgets@,
                    hides,
                    after.terminal_area,
                    n,
                ).to_multiset(),
            )
        }),
        only_pushed(ws, turns) ==> ws.is_prefix_of(
            widgets_after(ws, turns, before.slots@.len() as int),
        ),
{
    broadcast use vstd::seq_lib::group_to_multiset_ensures;

    let n = before.slots@.len() as int;
    let contributed = widgets_after(ws, turns, n);
    lemma_wanted_order(intents_of(turns));
    assert(after.slots@.len() == n);
    law_every_widget_once(after, contributed);
    lemma_dressed_parts(after.slots@, after.owners@, after.palette@, contributed, n);
    vstd::seq_lib::lemma_multiset_commutative(
        dressed(after.slots@, after.owners@, after.palette@, contributed, n),
        button_widgets(
            after.slots@,
            after.palette@,
            after.cached_widgets@,
            hides,
            after.terminal_area,
            n,
        ),
    );
    if only_pushed(ws, turns) {
        lemma_only_pushed(ws, turns, n);
    }
}

} // verus!
