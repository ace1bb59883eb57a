//! Which layer sees an event, and what the event does to the stack, in terms of
//! keys, cells and layers.

use crate::display::routing::{
    asked, button_at, delivered, occupant, owns_cell, route_of, routed, settled, told_of, widgets_of,
    Route,
};
use crate::display::laws::lemma_slot_of;
use crate::display::{
    color_of, live, slot_of, Display, EventResult, LayerId, LayerSlot,
};
use crate::event::{Event, KeyCode, KeyEvent, KeyEventKind, MouseEvent};
use crate::geometry::{Color, Rect};
use vstd::prelude::*;

verus! {

/// The event `ev` was routed, and `swallowed` says whether it was consumed.
pub open spec fn went<W>(before: Display<W>, ev: Event, swallowed: bool, after: Display<W>) -> bool {
    routed(before, ev, route_of(before, ev), swallowed, after)
}

/// Shift+Tab is pressed, in either of the ways in which terminals report it.
pub open spec fn is_shift_tab(k: KeyEvent) -> bool {
    k.kind == KeyEventKind::Press && (k.code == KeyCode::BackTab || k.code == KeyCode::Tab
        && k.modifiers.shift)
}

/// Whether one of the rectangles that are kept for a layer holds a cell.
pub open spec fn has_cell(
    cached: Seq<(LayerId, &'static str, Rect)>,
    id: LayerId,
    col: u16,
    row: u16,
) -> bool {
    exists|i: int|
        0 <= i < cached.len() && (#[trigger] cached[i]).0 == id && holds(cached[i].2, col, row)
}

/// Whether a cell lies in a rectangle.
pub open spec fn holds(r: Rect, col: u16, row: u16) -> bool {
    r.x <= col && col < r.x + r.width && r.y <= row && row < r.y + r.height
}

/// The layer at `k` is the topmost one that has a widget at the pointer.
pub open spec fn under_pointer<W>(d: Display<W>, m: MouseEvent, k: int) -> bool {
    &&& 0 <= k < d.slots@.len()
    &&& has_cell(d.cached_widgets@, d.slots@[k].id, m.column, m.row)
    &&& forall|j: int|
        k < j < d.slots@.len() ==> !has_cell(
            d.cached_widgets@,
            (#[trigger] d.slots@[j]).id,
            m.column,
            m.row,
        )
}

/// No button of the taskbar is at the pointer.
pub open spec fn off_buttons<W>(d: Display<W>, m: MouseEvent) -> bool {
    forall|i: int|
        0 <= i < d.taskbar@.len() ==> !holds((#[trigger] d.taskbar@[i]).1, m.column, m.row)
}

/// The two stacks have the same layers in the same order.
pub open spec fn same_order<W>(before: Display<W>, after: Display<W>) -> bool {
    &&& after.slots@.len() == before.slots@.len()
    &&& forall|i: int|
        0 <= i < before.slots@.len() ==> (#[trigger] after.slots@[i]).id == before.slots@[i].id
            && after.slots@[i].label == before.slots@[i].label && after.slots@[i].button
            == before.slots@[i].button
}

/// Every press of Shift+Tab brings the bottom layer to the top and is consumed,
/// whatever the layers are: the others keep their order, none of them sees the key,
/// and the pointer stays with who has it.
pub proof fn law_shift_tab_rotates<W>(
    before: Display<W>,
    k: KeyEvent,
    swallowed: bool,
    after: Display<W>,
)
    requires
        before.wf(),
        went(before, Event::Key(k), swallowed, after),
        is_shift_tab(k),
    ensures
        swallowed,
        after.slots@.len() == before.slots@.len(),
        after.slots@.last().id == before.slots@[0].id,
        forall|i: int|
            0 <= i < before.slots@.len() - 1 ==> (#[trigger] after.slots@[i]).id
                == before.slots@[i + 1].id && after.slots@[i].layer == before.slots@[i + 1].layer,
        after.grabbed == before.grabbed,
{
    assert(live(before.slots@, LayerId(0)));
}

/// No other key changes the order of the stack, and none changes who has the
/// pointer.
pub proof fn law_no_other_key_rotates<W>(
    before: Display<W>,
    k: KeyEvent,
    swallowed: bool,
    after: Display<W>,
)
    requires
        before.wf(),
        went(before, Event::Key(k), swallowed, after),
        !is_shift_tab(k),
    ensures
        same_order(before, after),
        after.grabbed == before.grabbed,
{
    let ev = Event::Key(k);
    if before.slots@.last().id == LayerId(0) {
        lemma_slot_at(before, before.slots@.len() - 1);
    } else if swallowed {
        lemma_swallowed_order(before, ev, after);
    } else {
        assert forall|i: int| 0 <= i < before.slots@.len() implies (#[trigger] after.slots@[i]).id
            == before.slots@[i].id && after.slots@[i].label == before.slots@[i].label
            && after.slots@[i].button == before.slots@[i].button by {
            assert(asked(before, ev, i, EventResult::Pass, after));
        }
    }
}

proof fn lemma_swallowed_order<W>(before: Display<W>, ev: Event, after: Display<W>)
    requires
        routed(before, ev, Route::Everyone, true, after),
    ensures
        same_order(before, after),
{
    let k = choose|k: int| crate::display::routing::swallowed_at(before, ev, k, after);
    assert forall|i: int| 0 <= i < before.slots@.len() implies (#[trigger] after.slots@[i]).id
        == before.slots@[i].id && after.slots@[i].label == before.slots@[i].label
        && after.slots@[i].button == before.slots@[i].button by {
        if i > k {
            assert(asked(before, ev, i, EventResult::Pass, after));
        }
    }
}

/// A key goes down the stack from the top: while a layer other than that of the log
/// is on top, the first layer that swallows the key consumes it, those above have
/// passed it, and those below do not see it. Where none swallows it, all have passed
/// it, and it is left to the program.
pub proof fn law_keys_go_down_the_stack<W>(
    before: Display<W>,
    k: KeyEvent,
    swallowed: bool,
    after: Display<W>,
) -> (at: int)
    requires
        before.wf(),
        went(before, Event::Key(k), swallowed, after),
        !is_shift_tab(k),
        before.slots@.last().id != LayerId(0),
    ensures
        swallowed ==> 0 <= at < before.slots@.len() && asked(
            before,
            Event::Key(k),
            at,
            EventResult::Swallow,
            after,
        ),
        !swallowed ==> at == -1,
        forall|i: int|
            at < i < before.slots@.len() ==> #[trigger] asked(
                before,
                Event::Key(k),
                i,
                EventResult::Pass,
                after,
            ),
        forall|i: int| 0 <= i < at ==> #[trigger] after.slots@[i] == before.slots@[i],
{
    if swallowed {
        choose|j: int| crate::display::routing::swallowed_at(before, Event::Key(k), j, after)
    } else {
        -1
    }
}

/// While the layer of the log is on top, a key is offered to it alone; no other
/// layer sees the key.
pub proof fn law_keys_stay_with_input_line<W>(
    before: Display<W>,
    k: KeyEvent,
    swallowed: bool,
    after: Display<W>,
)
    requires
        before.wf(),
        went(before, Event::Key(k), swallowed, after),
        !is_shift_tab(k),
        before.slots@.last().id == LayerId(0),
    ensures
        forall|i: int|
            0 <= i < before.slots@.len() - 1 ==> #[trigger] after.slots@[i] == before.slots@[i],
        asked(
            before,
            Event::Key(k),
            before.slots@.len() - 1,
            if swallowed {
                EventResult::Swallow
            } else {
                EventResult::Pass
            },
            after,
        ),
{
    lemma_slot_at(before, before.slots@.len() - 1);
}

proof fn lemma_slot_at<W>(d: Display<W>, k: int)
    requires
        d.wf(),
        0 <= k < d.slots@.len(),
    ensures
        slot_of(d.slots@, d.slots@[k].id, 0) == Some(k),
{
    lemma_slot_from(d, k, 0);
}

proof fn lemma_slot_from<W>(d: Display<W>, k: int, i: int)
    requires
        d.wf(),
        0 <= i <= k < d.slots@.len(),
    ensures
        slot_of(d.slots@, d.slots@[k].id, i) == Some(k),
    decreases k - i,
{
    if i < k {
        assert(crate::display::apart(d.slots@[i], d.slots@[k]));
        lemma_slot_from(d, k, i + 1);
    }
}

/// A resize, a change of focus or a paste goes down the whole stack, whichever
/// layer is on top, until a layer swallows it, and leaves the order as it is.
pub proof fn law_other_events_go_down_the_stack<W>(
    before: Display<W>,
    ev: Event,
    swallowed: bool,
    after: Display<W>,
) -> (at: int)
    requires
        before.wf(),
        went(before, ev, swallowed, after),
        !(ev is Key),
        !(ev is Mouse),
    ensures
        swallowed ==> 0 <= at < before.slots@.len() && asked(
            before,
            ev,
            at,
            EventResult::Swallow,
            after,
        ),
        !swallowed ==> at == -1,
        forall|i: int|
            at < i < before.slots@.len() ==> #[trigger] asked(
                before,
                ev,
                i,
                EventResult::Pass,
                after,
            ),
        forall|i: int| 0 <= i < at ==> #[trigger] after.slots@[i] == before.slots@[i],
        after.grabbed == before.grabbed,
{
    if swallowed {
        choose|j: int| crate::display::routing::swallowed_at(before, ev, j, after)
    } else {
        -1
    }
}

/// A layer that is asked about an event is told its own identity, its own color,
/// the screen, and where its own widgets were last shown, and no others.
pub proof fn law_layers_are_told_about_themselves<W>(d: Display<W>, id: LayerId)
    ensures
        told_of(d, id).id == id,
        told_of(d, id).terminal_area == d.terminal_area,
        told_of(d, id).my_widgets == d.cached_widgets@.filter(
            |w: (LayerId, &'static str, Rect)| w.0 == id,
        ).map_values(|w: (LayerId, &'static str, Rect)| (w.1, w.2)),
        color_of(d.palette@, id) matches Some(c) ==> told_of(d, id).color == c,
        color_of(d.palette@, id) is None ==> told_of(d, id).color == Color::Reset,
{
    lemma_widgets_filter(d.cached_widgets@, id);
}

proof fn lemma_widgets_filter(cached: Seq<(LayerId, &'static str, Rect)>, id: LayerId)
    ensures
        widgets_of(cached, id) == cached.filter(
            |w: (LayerId, &'static str, Rect)| w.0 == id,
        ).map_values(|w: (LayerId, &'static str, Rect)| (w.1, w.2)),
    decreases cached.len(),
{
    let own = |w: (LayerId, &'static str, Rect)| w.0 == id;
    let pair = |w: (LayerId, &'static str, Rect)| (w.1, w.2);
    reveal(Seq::filter);
    if cached.len() > 0 {
        lemma_widgets_filter(cached.drop_last(), id);
        let rest = cached.drop_last().filter(own);
        assert(rest.push(cached.last()).map_values(pair) =~= rest.map_values(pair).push(
            pair(cached.last()),
        ));
    }
    assert(widgets_of(cached, id) =~= cached.filter(own).map_values(pair));
}

/// A press on a button of the taskbar brings the layer of that button to the top
/// and is consumed: of buttons that overlap the first counts. The other layers keep
/// their order and see nothing of it, and the pointer stays with who has it.
pub proof fn law_taskbar_press_raises<W>(
    before: Display<W>,
    m: MouseEvent,
    swallowed: bool,
    after: Display<W>,
    b: int,
    k: int,
)
    requires
        before.wf(),
        went(before, Event::Mouse(m), swallowed, after),
        m.kind is Down,
        0 <= b < before.taskbar@.len(),
        holds(before.taskbar@[b].1, m.column, m.row),
        forall|i: int| 0 <= i < b ==> !holds((#[trigger] before.taskbar@[i]).1, m.column, m.row),
        0 <= k < before.slots@.len(),
        before.slots@[k].id == before.taskbar@[b].0,
    ensures
        swallowed,
        after.slots@.len() == before.slots@.len(),
        after.slots@.last().id == before.taskbar@[b].0,
        forall|i: int|
            0 <= i < k ==> (#[trigger] after.slots@[i]).id == before.slots@[i].id
                && after.slots@[i].layer == before.slots@[i].layer,
        forall|i: int|
            k <= i < before.slots@.len() - 1 ==> (#[trigger] after.slots@[i]).id
                == before.slots@[i + 1].id && after.slots@[i].layer == before.slots@[i + 1].layer,
        after.grabbed == before.grabbed,
{
    lemma_first_button(before.taskbar@, m.column, m.row, 0, b);
    lemma_slot_at(before, k);
}

proof fn lemma_first_button(taskbar: Seq<(LayerId, Rect)>, col: u16, row: u16, i: int, b: int)
    requires
        0 <= i <= b < taskbar.len(),
        holds(taskbar[b].1, col, row),
        forall|j: int| i <= j < b ==> !holds((#[trigger] taskbar[j]).1, col, row),
    ensures
        button_at(taskbar, col, row, i) == Some(taskbar[b].0),
    decreases b - i,
{
    if i < b {
        assert(!holds(taskbar[i].1, col, row));
        lemma_first_button(taskbar, col, row, i + 1, b);
    }
}

proof fn lemma_no_button(taskbar: Seq<(LayerId, Rect)>, col: u16, row: u16, i: int)
    requires
        forall|j: int| 0 <= j < taskbar.len() ==> !holds((#[trigger] taskbar[j]).1, col, row),
    ensures
        button_at(taskbar, col, row, i) is None,
    decreases taskbar.len() - i,
{
    if 0 <= i < taskbar.len() {
        lemma_no_button(taskbar, col, row, i + 1);
    }
}

proof fn lemma_cell(
    cached: Seq<(LayerId, &'static str, Rect)>,
    id: LayerId,
    col: u16,
    row: u16,
)
    ensures
        owns_cell(cached, id, col, row) == has_cell(cached, id, col, row),
{
    if owns_cell(cached, id, col, row) {
        let i = choose|i: int|
            0 <= i < cached.len() && (#[trigger] cached[i]).0 == id && cached[i].2.covers(
                col as int,
                row as int,
            );
        assert(cached[i].0 == id && holds(cached[i].2, col, row));
    }
    if has_cell(cached, id, col, row) {
        let i = choose|i: int|
            0 <= i < cached.len() && (#[trigger] cached[i]).0 == id && holds(cached[i].2, col, row);
        assert(cached[i].0 == id && cached[i].2.covers(col as int, row as int));
    }
}

proof fn lemma_topmost_occupant<W>(d: Display<W>, m: MouseEvent, k: int, n: int)
    requires
        under_pointer(d, m, k),
        k < n <= d.slots@.len(),
    ensures
        occupant(d.slots@, d.cached_widgets@, m.column, m.row, n) == Some(d.slots@[k].id),
    decreases n,
{
    lemma_cell(d.cached_widgets@, d.slots@[n - 1].id, m.column, m.row);
    if n - 1 > k {
        lemma_topmost_occupant(d, m, k, n - 1);
    }
}

proof fn lemma_no_occupant<W>(d: Display<W>, m: MouseEvent, n: int)
    requires
        n <= d.slots@.len(),
        forall|j: int|
            0 <= j < d.slots@.len() ==> !has_cell(
                d.cached_widgets@,
                (#[trigger] d.slots@[j]).id,
                m.column,
                m.row,
            ),
    ensures
        occupant(d.slots@, d.cached_widgets@, m.column, m.row, n) is None,
    decreases n,
{
    if n > 0 {
        lemma_cell(d.cached_widgets@, d.slots@[n - 1].id, m.column, m.row);
        assert(!has_cell(d.cached_widgets@, d.slots@[n - 1].id, m.column, m.row));
        lemma_no_occupant(d, m, n - 1);
    }
}

/// A mouse event other than a press, with no layer having the pointer, goes to the
/// topmost layer that has a widget under it, and to no other; that layer's answer
/// says whether it is consumed. The order stays, and nobody gets the pointer.
pub proof fn law_pointer_goes_to_what_it_is_over<W>(
    before: Display<W>,
    m: MouseEvent,
    swallowed: bool,
    after: Display<W>,
    k: int,
)
    requires
        before.wf(),
        went(before, Event::Mouse(m), swallowed, after),
        !(m.kind is Down),
        before.grabbed is None || !(m.kind is Drag || m.kind is Up),
        under_pointer(before, m, k),
    ensures
        asked(
            before,
            Event::Mouse(m),
            k,
            if swallowed {
                EventResult::Swallow
            } else {
                EventResult::Pass
            },
            after,
        ),
        forall|i: int|
            0 <= i < before.slots@.len() && i != k ==> #[trigger] after.slots@[i]
                == before.slots@[i],
        same_order(before, after),
        after.grabbed == before.grabbed,
{
    lemma_topmost_occupant(before, m, k, before.slots@.len() as int);
    lemma_slot_at(before, k);
}

/// A press off the taskbar goes to the topmost layer that has a widget under it,
/// and to no other. That layer comes to the top whether it swallows the press or not;
/// where it does, it has the pointer from then on.
pub proof fn law_press_raises_what_it_hits<W>(
    before: Display<W>,
    m: MouseEvent,
    swallowed: bool,
    after: Display<W>,
    k: int,
)
    requires
        before.wf(),
        went(before, Event::Mouse(m), swallowed, after),
        m.kind is Down,
        off_buttons(before, m),
        under_pointer(before, m, k),
    ensures
        after.slots@.len() == before.slots@.len(),
        after.slots@.last().id == before.slots@[k].id,
        forall|i: int|
            0 <= i < k ==> (#[trigger] after.slots@[i]).id == before.slots@[i].id
                && after.slots@[i].layer == before.slots@[i].layer,
        forall|i: int|
            k <= i < before.slots@.len() - 1 ==> (#[trigger] after.slots@[i]).id
                == before.slots@[i + 1].id && after.slots@[i].layer == before.slots@[i + 1].layer,
        swallowed ==> after.grabbed == Some(before.slots@[k].id),
        !swallowed ==> after.grabbed == before.grabbed,
        exists|r: EventResult, then: Display<W>| #[trigger]
            delivered(before, Event::Mouse(m), before.slots@[k].id, r, then) && asked(
                before,
                Event::Mouse(m),
                k,
                r,
                then,
            ) && swallowed == (r == EventResult::Swallow),
{
    lemma_no_button(before.taskbar@, m.column, m.row, 0);
    lemma_topmost_occupant(before, m, k, before.slots@.len() as int);
    lemma_slot_at(before, k);
    let id = before.slots@[k].id;
    let route = Route::Occupant(id, true);
    let (r, then) = choose|r: EventResult, then: Display<W>| #[trigger]
        delivered(before, Event::Mouse(m), id, r, then) && crate::display::routing::settled(
            then,
            route,
            r,
            after,
        ) && swallowed == (r == EventResult::Swallow);
    assert(delivered(before, Event::Mouse(m), id, r, then));
    lemma_same_ids_slot(before, then, k, 0);
}

proof fn lemma_same_ids_slot<W>(before: Display<W>, then: Display<W>, k: int, i: int)
    requires
        before.wf(),
        0 <= i <= k < before.slots@.len(),
        then.slots@.len() == before.slots@.len(),
        forall|j: int|
            0 <= j < before.slots@.len() ==> (#[trigger] then.slots@[j]).id == before.slots@[j].id,
    ensures
        slot_of(then.slots@, before.slots@[k].id, i) == Some(k),
    decreases k - i,
{
    assert(then.slots@[i].id == before.slots@[i].id);
    if i < k {
        assert(crate::display::apart(before.slots@[i], before.slots@[k]));
        lemma_same_ids_slot(before, then, k, i + 1);
    }
}

/// Where no layer has a widget under the pointer, no layer sees a mouse event, and
/// nothing changes: it is left to the program.
pub proof fn law_pointer_over_nothing<W>(
    before: Display<W>,
    m: MouseEvent,
    swallowed: bool,
    after: Display<W>,
)
    requires
        went(before, Event::Mouse(m), swallowed, after),
        m.kind is Down ==> off_buttons(before, m),
        before.grabbed is None || !(m.kind is Drag || m.kind is Up),
        forall|j: int|
            0 <= j < before.slots@.len() ==> !has_cell(
                before.cached_widgets@,
                (#[trigger] before.slots@[j]).id,
                m.column,
                m.row,
            ),
    ensures
        !swallowed,
        after == before,
{
    if m.kind is Down {
        lemma_no_button(before.taskbar@, m.column, m.row, 0);
    }
    lemma_no_occupant(before, m, before.slots@.len() as int);
}

/// The layer that has the pointer, and no other, is asked about drags and the
/// release, wherever the pointer is, and its answer says whether they are consumed.
/// The order stays; the release takes the pointer from it, a drag does not.
pub proof fn law_grabbing_layer_answers<W>(
    before: Display<W>,
    m: MouseEvent,
    swallowed: bool,
    after: Display<W>,
    k: int,
)
    requires
        before.wf(),
        went(before, Event::Mouse(m), swallowed, after),
        m.kind is Drag || m.kind is Up,
        0 <= k < before.slots@.len(),
        before.grabbed == Some(before.slots@[k].id),
    ensures
        asked(
            before,
            Event::Mouse(m),
            k,
            if swallowed {
                EventResult::Swallow
            } else {
                EventResult::Pass
            },
            after,
        ),
        forall|i: int|
            0 <= i < before.slots@.len() && i != k ==> #[trigger] after.slots@[i]
                == before.slots@[i],
        m.kind is Up ==> after.grabbed is None,
        m.kind is Drag ==> after.grabbed == before.grabbed,
        same_order(before, after),
{
    lemma_slot_at(before, k);
}

/// The layer that is brought to the top hears of it, and no other layer does.
pub proof fn law_raised_layer_hears<W>(
    before: Display<W>,
    k: int,
    after: Seq<LayerSlot<W>>,
)
    requires
        before.wf(),
        0 <= k < before.slots@.len(),
        crate::display::topped(before.slots@, before.slots@[k].id, after),
    ensures
        before.slots@[k].layer.wakes(after.last().layer),
        after.last().id == before.slots@[k].id,
        after.last().label == before.slots@[k].label,
        after.last().button == before.slots@[k].button,
        forall|i: int| 0 <= i < k ==> (#[trigger] after[i]).layer == before.slots@[i].layer,
        forall|i: int|
            k <= i < after.len() - 1 ==> (#[trigger] after[i]).layer == before.slots@[i + 1].layer,
{
    lemma_slot_at(before, k);
}

/// An event adds no layer and removes none. It changes neither the colors, the owners
/// and the places of the widgets, the buttons of the taskbar nor the screen, nor how
/// the next layer will be numbered.
pub proof fn law_events_leave_the_books_alone<W>(
    before: Display<W>,
    ev: Event,
    swallowed: bool,
    after: Display<W>,
)
    requires
        before.wf(),
        went(before, ev, swallowed, after),
    ensures
        after.slots@.len() == before.slots@.len(),
        after.next_id == before.next_id,
        after.next_slot == before.next_slot,
        after.free_slots == before.free_slots,
        after.palette == before.palette,
        after.owners == before.owners,
        after.cached_widgets == before.cached_widgets,
        after.taskbar == before.taskbar,
        after.terminal_area == before.terminal_area,
{
    match route_of(before, ev) {
        Route::Rotate => {
            lemma_slot_of(before.slots@, before.slots@[0].id, 0);
        },
        Route::Activate(id) => {
            lemma_slot_of(before.slots@, id, 0);
        },
        Route::Grabbed(id, _) | Route::Occupant(id, _) | Route::Only(id) => {
            let (r, then) = choose|r: EventResult, then: Display<W>| #[trigger]
                delivered(before, ev, id, r, then) && settled(then, route_of(before, ev), r, after)
                    && swallowed == (r == EventResult::Swallow);
            lemma_slot_of(before.slots@, id, 0);
            lemma_slot_of(then.slots@, id, 0);
        },
        _ => {},
    }
}

/// An event for a layer that is gone is passed, and nothing changes.
pub proof fn law_gone_layer_hears_nothing<W>(
    before: Display<W>,
    ev: Event,
    id: LayerId,
    r: EventResult,
    after: Display<W>,
)
    requires
        delivered(before, ev, id, r, after),
        slot_of(before.slots@, id, 0) is None,
    ensures
        r == EventResult::Pass,
        after == before,
{
}

} // verus!
