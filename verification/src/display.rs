//! Window-manager layers.
//!
//! A [`Display`] owns a stack of layers. Each frame the layers contribute
//! widgets, bottom first, and a taskbar shows one button for each of them.
//! Events go to the layer on top, or to the one under the pointer.

pub mod event_laws;
pub mod frame;
pub mod frame_laws;
pub mod laws;
pub mod palette;
pub mod routing;

use crate::event::Event;
use crate::geometry::{Color, Rect};
use vstd::prelude::*;
use vstd::string::*;

verus! {

/// The name of the log widget.
pub const WIDGET_LOG: &'static str = "servatui.log";

/// The name of the input line.
pub const WIDGET_INPUT: &'static str = "servatui.input";

/// The name of the scrollbar.
pub const WIDGET_SCROLLBAR: &'static str = "servatui.scrollbar";

/// The identity of a layer. The layers that are added are numbered from one
/// on; zero is the layer of the log and the input line.
#[derive(Debug, Clone, Copy, PartialEq, Eq, Structural)]
pub struct LayerId(pub u64);

impl LayerId {
    /// The layer of the log and the input line.
    pub fn builtin() -> (id: LayerId)
        ensures
            id == LayerId(0),
    {
        LayerId(0)
    }
}

/// What a layer does with an event.
#[derive(Debug, Clone, Copy, PartialEq, Eq, Structural)]
pub enum EventResult {
    /// Others may have it.
    Pass,
    /// It is consumed.
    Swallow,
}

/// Where a layer wants to be in the next frame.
#[derive(Debug, Clone, Copy, PartialEq, Eq, Structural)]
pub enum StackIntent {
    Keep,
    Top,
    Bottom,
}

/// What a widget shows.
pub enum Content<W> {
    /// Something of the program's own.
    Own(W),
    /// Cleared cells in a color.
    Backdrop(Color),
    /// A button of the taskbar.
    Button { label: char, color: Color, bold: bool },
}

/// A named widget with its place on the screen.
pub struct WidgetEntry<W> {
    pub name: &'static str,
    pub widget: Content<W>,
    pub area: Rect,
}

/// What a layer is told about itself.
pub struct LayerCtx {
    pub id: LayerId,
    pub color: Color,
    pub terminal_area: Rect,
    /// The widgets that the layer owned at the end of the last frame.
    pub my_widgets: Vec<(&'static str, Rect)>,
}

/// What a layer is told about itself, with the widgets as a sequence.
pub struct Told {
    pub id: LayerId,
    pub color: Color,
    pub terminal_area: Rect,
    pub my_widgets: Seq<(&'static str, Rect)>,
}

impl View for LayerCtx {
    type V = Told;

    open spec fn view(&self) -> Told {
        Told {
            id: self.id,
            color: self.color,
            terminal_area: self.terminal_area,
            my_widgets: self.my_widgets@,
        }
    }
}

impl LayerCtx {
    /// Whether a cell lies inside one of the layer's widgets.
    pub fn hit_test(&self, col: u16, row: u16) -> (b: bool)
        ensures
            b == exists|i: int|
                0 <= i < self.my_widgets@.len() && (#[trigger] self.my_widgets@[i]).1.covers(
                    col as int,
                    row as int,
                ),
    {
        let mut i: usize = 0;
        while i < self.my_widgets.len()
            invariant
                i <= self.my_widgets@.len(),
                forall|j: int|
                    0 <= j < i ==> !(#[trigger] self.my_widgets@[j]).1.covers(
                        col as int,
                        row as int,
                    ),
            decreases self.my_widgets@.len() - i,
        {
            if self.my_widgets[i].1.contains(col, row) {
                return true;
            }
            i += 1;
        }
        false
    }
}

/// One layer. What it does is up to it: it says of itself what it may do, and a
/// layer that says nothing may do anything.
pub trait DisplayLayer<W> {
    /// A number that stands for what the layer keeps for itself.
    open spec fn state(&self) -> int {
        0
    }

    /// Whether the layer, told `told`, may make the widgets `after` of the
    /// widgets `before`, ask for `intent` and come into the state `next`.
    open spec fn contributes(
        &self,
        told: Told,
        before: Seq<WidgetEntry<W>>,
        after: Seq<WidgetEntry<W>>,
        intent: StackIntent,
        next: int,
    ) -> bool {
        true
    }

    /// Whether the layer may come into the state `next` on the news that it is on
    /// top.
    open spec fn wakes(&self, next: int) -> bool {
        true
    }

    /// Whether the layer may say `b` when asked if it has no button while it has
    /// no widgets.
    open spec fn hides(&self, b: bool) -> bool {
        true
    }

    /// Whether the layer, told `told`, may answer an event with `r` and come into
    /// the state `next`.
    open spec fn may_answer(&self, ev: Event, told: Told, r: EventResult, next: int) -> bool {
        true
    }

    /// Whether the layer may ask for the label `c`.
    open spec fn labels(&self, c: char) -> bool {
        true
    }

    /// Contributes widgets, and says where the layer wants to be.
    fn on_overlay(&mut self, ctx: &LayerCtx, widgets: &mut Vec<WidgetEntry<W>>) -> (intent:
        StackIntent)
        ensures
            old(self).contributes(
                ctx@,
                old(widgets)@,
                final(widgets)@,
                intent,
                final(self).state(),
            ),
    ;

    /// The layer has come to the top.
    fn on_active(&mut self)
        ensures
            old(self).wakes(final(self).state()),
    ;

    /// Whether the layer has no button while it has no widgets.
    fn hide_when_empty(&self) -> (b: bool)
        ensures
            self.hides(b),
    ;

    /// Offers an event.
    fn on_event(&mut self, ev: &Event, ctx: &LayerCtx) -> (r: EventResult)
        ensures
            old(self).may_answer(*ev, ctx@, r, final(self).state()),
    ;

    /// The label of the layer's button, `'\0'` for the one it gets by its
    /// number.
    fn tab_label(&self) -> (c: char)
        ensures
            self.labels(c),
    ;
}

/// The behaviour of a layer.
#[verifier::reject_recursive_types(W)]
pub enum Layer<W> {
    /// That of the log and the input line: it contributes nothing and leaves
    /// all events to the program around the display.
    Builtin,
    /// One that was added.
    Own(Box<dyn DisplayLayer<W>>),
}

impl<W> Layer<W> {
    /// Whether the layer, told `told`, may make the widgets `after` of the
    /// widgets `before`, ask for `intent` and then be `next`.
    pub open spec fn contributes(
        &self,
        told: Told,
        before: Seq<WidgetEntry<W>>,
        after: Seq<WidgetEntry<W>>,
        intent: StackIntent,
        next: Layer<W>,
    ) -> bool {
        match (self, next) {
            (Layer::Builtin, Layer::Builtin) => after == before && intent == StackIntent::Keep,
            (Layer::Own(layer), Layer::Own(then)) => layer.contributes(
                told,
                before,
                after,
                intent,
                then.state(),
            ),
            _ => false,
        }
    }

    /// Whether the layer may be `next` after the news that it is on top.
    pub open spec fn wakes(&self, next: Layer<W>) -> bool {
        match (self, next) {
            (Layer::Builtin, Layer::Builtin) => true,
            (Layer::Own(layer), Layer::Own(then)) => layer.wakes(then.state()),
            _ => false,
        }
    }

    /// Whether the layer may say `b` when asked if it has no button while it has
    /// no widgets.
    pub open spec fn hides(&self, b: bool) -> bool {
        match self {
            Layer::Builtin => !b,
            Layer::Own(layer) => layer.hides(b),
        }
    }

    /// Whether the layer, told `told`, may answer an event with `r` and then be
    /// `next`.
    pub open spec fn may_answer(
        &self,
        ev: Event,
        told: Told,
        r: EventResult,
        next: Layer<W>,
    ) -> bool {
        match (self, next) {
            (Layer::Builtin, Layer::Builtin) => r == EventResult::Pass,
            (Layer::Own(layer), Layer::Own(then)) => layer.may_answer(ev, told, r, then.state()),
            _ => false,
        }
    }

    /// Whether the layer may ask for the label `c`.
    pub open spec fn labels(&self, c: char) -> bool {
        match self {
            Layer::Builtin => c == '\0',
            Layer::Own(layer) => layer.labels(c),
        }
    }

    fn on_overlay(&mut self, ctx: &LayerCtx, widgets: &mut Vec<WidgetEntry<W>>) -> (r: StackIntent)
        ensures
            old(self).contributes(ctx@, old(widgets)@, final(widgets)@, r, *final(self)),
    {
        match self {
            Layer::Builtin => StackIntent::Keep,
            Layer::Own(layer) => layer.on_overlay(ctx, widgets),
        }
    }

    fn on_active(&mut self)
        ensures
            old(self).wakes(*final(self)),
    {
        match self {
            Layer::Builtin => {},
            Layer::Own(layer) => layer.on_active(),
        }
    }

    fn hide_when_empty(&self) -> (b: bool)
        ensures
            self.hides(b),
    {
        match self {
            Layer::Builtin => false,
            Layer::Own(layer) => layer.hide_when_empty(),
        }
    }

    fn on_event(&mut self, ev: &Event, ctx: &LayerCtx) -> (r: EventResult)
        ensures
            old(self).may_answer(*ev, ctx@, r, *final(self)),
    {
        match self {
            Layer::Builtin => EventResult::Pass,
            Layer::Own(layer) => layer.on_event(ev, ctx),
        }
    }

    fn tab_label(&self) -> (c: char)
        ensures
            self.labels(c),
    {
        match self {
            Layer::Builtin => '\0',
            Layer::Own(layer) => layer.tab_label(),
        }
    }
}

/// A layer in the stack.
#[verifier::reject_recursive_types(W)]
pub struct LayerSlot<W> {
    pub id: LayerId,
    pub layer: Layer<W>,
    pub priority: u64,
    /// The layer's place among all that were ever added.
    pub seq: u64,
    pub label: char,
    /// The layer's place in the taskbar.
    pub button: usize,
}

/// The stack of layers.
#[verifier::reject_recursive_types(W)]
pub struct Display<W> {
    /// From the bottom of the stack to its top.
    pub slots: Vec<LayerSlot<W>>,
    pub next_id: u64,
    pub palette: Vec<Color>,
    /// The layer that gets the pointer until the button is released.
    pub grabbed: Option<LayerId>,
    /// Which layer a widget belongs to, by its name.
    pub owners: Vec<(&'static str, LayerId)>,
    /// The widgets of the last frame, each with its layer.
    pub cached_widgets: Vec<(LayerId, &'static str, Rect)>,
    pub taskbar: Vec<(LayerId, Rect)>,
    pub terminal_area: Rect,
    /// The places in the taskbar that were given back.
    pub free_slots: Vec<usize>,
    pub next_slot: usize,
}

/// The index of the layer `id` in `slots`, from `i` on.
pub open spec fn slot_of<W>(slots: Seq<LayerSlot<W>>, id: LayerId, i: int) -> Option<int>
    decreases slots.len() - i,
{
    if i < 0 || i >= slots.len() {
        None
    } else if slots[i].id == id {
        Some(i)
    } else {
        slot_of(slots, id, i + 1)
    }
}

/// Whether the layer `id` is in `slots`.
pub open spec fn live<W>(slots: Seq<LayerSlot<W>>, id: LayerId) -> bool {
    exists|i: int| 0 <= i < slots.len() && (#[trigger] slots[i]).id == id
}

/// The slots with the priorities 0, 1, 2 and so on.
pub open spec fn renumbered<W>(slots: Seq<LayerSlot<W>>) -> Seq<LayerSlot<W>> {
    Seq::new(slots.len(), |i: int| LayerSlot { priority: i as u64, ..slots[i] })
}

/// The slots with the one at `k` on top.
pub open spec fn raised<W>(slots: Seq<LayerSlot<W>>, k: int) -> Seq<LayerSlot<W>> {
    renumbered(slots.remove(k).push(slots[k]))
}

/// The slots with the layer `id` on top, where it is among them.
pub open spec fn activated<W>(slots: Seq<LayerSlot<W>>, id: LayerId) -> Seq<LayerSlot<W>> {
    match slot_of(slots, id, 0) {
        Some(k) => raised(slots, k),
        None => renumbered(slots),
    }
}

/// The slots with `layer` in the place of the one of the log and the input line.
pub open spec fn attached<W>(slots: Seq<LayerSlot<W>>, layer: Layer<W>) -> Seq<LayerSlot<W>> {
    match slot_of(slots, LayerId(0), 0) {
        Some(k) => slots.update(k, LayerSlot { layer, ..slots[k] }),
        None => slots,
    }
}

/// The same slots but for what the layer `id` keeps for itself.
pub open spec fn touched<W>(before: Seq<LayerSlot<W>>, id: LayerId, after: Seq<LayerSlot<W>>) -> bool {
    &&& after.len() == before.len()
    &&& forall|i: int|
        0 <= i < before.len() ==> if before[i].id == id {
            same_but_layer(before[i], #[trigger] after[i])
        } else {
            after[i] == before[i]
        }
}

/// The same slot but for what the layer keeps for itself.
pub open spec fn same_but_layer<W>(before: LayerSlot<W>, after: LayerSlot<W>) -> bool {
    &&& after == LayerSlot { layer: after.layer, ..before }
    &&& after.layer is Builtin <==> before.layer is Builtin
}

/// The same slots but for what the layers keep for themselves.
pub open spec fn same_but_layers<W>(before: Seq<LayerSlot<W>>, after: Seq<LayerSlot<W>>) -> bool {
    &&& after.len() == before.len()
    &&& forall|i: int|
        0 <= i < before.len() ==> same_but_layer(before[i], #[trigger] after[i])
}

/// Nothing is there but the layer of the log and the input line, and nothing was
/// shown yet.
pub open spec fn fresh<W>(d: Display<W>) -> bool {
    &&& d.slots@.len() == 1
    &&& d.slots@[0].id == LayerId(0)
    &&& d.slots@[0].layer is Builtin
    &&& d.slots@[0].priority == 0
    &&& d.slots@[0].seq == 0
    &&& d.slots@[0].label == '*'
    &&& d.slots@[0].button == 0
    &&& d.next_id == 0
    &&& d.next_slot == 1
    &&& d.grabbed is None
    &&& d.owners@.len() == 0
    &&& d.cached_widgets@.len() == 0
    &&& d.taskbar@.len() == 0
    &&& d.free_slots@.len() == 0
    &&& d.terminal_area == Rect { x: 0, y: 0, width: 80, height: 24 }
}

/// The slots `up`, whose top layer has heard that it is on top where `told`
/// says so.
pub open spec fn top_told<W>(up: Seq<LayerSlot<W>>, told: bool, after: Seq<LayerSlot<W>>) -> bool {
    &&& after.len() == up.len()
    &&& forall|i: int| 0 <= i < up.len() - 1 ==> #[trigger] after[i] == up[i]
    &&& if told {
        same_but_layer(up.last(), after.last()) && up.last().layer.wakes(after.last().layer)
    } else {
        after.last() == up.last()
    }
}

/// The slots with the layer `id` on top, which has heard of it, where it is among
/// them.
pub open spec fn topped<W>(slots: Seq<LayerSlot<W>>, id: LayerId, after: Seq<LayerSlot<W>>) -> bool {
    top_told(activated(slots, id), slot_of(slots, id, 0) is Some, after)
}

/// The layers of the stack, bottom first.
pub open spec fn ids<W>(slots: Seq<LayerSlot<W>>) -> Seq<LayerId> {
    slots.map_values(|s: LayerSlot<W>| s.id)
}

/// Most layers that the taskbar has places for.
pub const MOST_BUTTONS: usize = 16384;

/// The label of the button of the layer numbered `n`, which asks for `c`.
pub open spec fn label_for(c: char, n: int) -> char {
    if c == '\0' {
        ('a' as int + (n - 1) % 26) as char
    } else {
        c
    }
}

/// Whether two slots have neither their identity nor their button in common,
/// and the first is below the second.
pub open spec fn apart<W>(a: LayerSlot<W>, b: LayerSlot<W>) -> bool {
    a.id != b.id && a.button != b.button && a.priority < b.priority
}

impl<W> Display<W> {
    /// The stack is ordered by priority without ties, no two layers share an
    /// identity or a place in the taskbar, the layer of the log is there, and
    /// nothing belongs to a layer that is not.
    pub open spec fn wf(&self) -> bool {
        &&& self.stacked()
        &&& self.placed()
        &&& live(self.slots@, LayerId(0))
        &&& forall|i: int| 0 <= i < self.owners@.len() ==> live(self.slots@, (#[trigger] self.owners@[i]).1)
        &&& self.grabbed matches Some(id) ==> live(self.slots@, id)
        &&& self.terminal_area.x == 0
        &&& self.terminal_area.y == 0
    }

    /// The stack is ordered by priority without ties.
    pub open spec fn stacked(&self) -> bool {
        &&& self.next_id < u64::MAX
        &&& forall|i: int|
            0 <= i < self.slots@.len() ==> (#[trigger] self.slots@[i]).priority <= self.next_id
                && self.slots@[i].id.0 <= self.next_id
        &&& forall|i: int, j: int|
            0 <= i < j < self.slots@.len() ==> apart(
                #[trigger] self.slots@[i],
                #[trigger] self.slots@[j],
            )
    }

    /// Every place in the taskbar is taken by one layer or free.
    pub open spec fn placed(&self) -> bool {
        &&& self.next_slot <= MOST_BUTTONS
        &&& forall|i: int|
            0 <= i < self.slots@.len() ==> (#[trigger] self.slots@[i]).button < self.next_slot
        &&& forall|i: int|
            0 <= i < self.free_slots@.len() ==> #[trigger] self.free_slots@[i] < self.next_slot
        &&& forall|i: int, j: int|
            0 <= i < j < self.free_slots@.len() ==> #[trigger] self.free_slots@[i]
                != #[trigger] self.free_slots@[j]
        &&& forall|i: int, j: int|
            0 <= i < self.slots@.len() && 0 <= j < self.free_slots@.len() ==> (
            #[trigger] self.slots@[i]).button != #[trigger] self.free_slots@[j]
    }

    /// A display with the log and the input line alone.
    pub fn with_palette(palette: Vec<Color>) -> (d: Display<W>)
        ensures
            d.wf(),
            fresh(d),
            d.palette == palette,
    {
        let mut slots: Vec<LayerSlot<W>> = Vec::new();
        slots.push(
            LayerSlot {
                id: LayerId(0),
                layer: Layer::Builtin,
                priority: 0,
                seq: 0,
                label: '*',
                button: 0,
            },
        );
        let d = Display {
            slots,
            next_id: 0,
            palette,
            grabbed: None,
            owners: Vec::new(),
            cached_widgets: Vec::new(),
            taskbar: Vec::new(),
            terminal_area: Rect { x: 0, y: 0, width: 80, height: 24 },
            free_slots: Vec::new(),
            next_slot: 1,
        };
        assert(d.slots@[0].id == LayerId(0));
        d
    }

    /// Puts another layer in the place of the one of the log and the input
    /// line.
    pub fn attach_builtin(&mut self, layer: Layer<W>)
        requires
            old(self).wf(),
        ensures
            final(self).wf(),
            final(self).slots@ == attached(old(self).slots@, layer),
            same_but_slots(*old(self), *final(self)),
    {
        if let Some(k) = self.position(LayerId(0)) {
            self.slots[k].layer = layer;
            proof {
                lemma_same_ids_live(old(self).slots@, self.slots@);
            }
        }
    }

    /// The place of a layer in the stack.
    fn position(&self, id: LayerId) -> (r: Option<usize>)
        ensures
            match r {
                Some(k) => k < self.slots@.len() && self.slots@[k as int].id == id && slot_of(
                    self.slots@,
                    id,
                    0,
                ) == Some(k as int),
                None => slot_of(self.slots@, id, 0) is None && !live(self.slots@, id),
            },
    {
        let mut i: usize = 0;
        while i < self.slots.len()
            invariant
                i <= self.slots@.len(),
                slot_of(self.slots@, id, 0) == slot_of(self.slots@, id, i as int),
                forall|j: int| 0 <= j < i ==> (#[trigger] self.slots@[j]).id != id,
            decreases self.slots@.len() - i,
        {
            if self.slots[i].id == id {
                return Some(i);
            }
            i += 1;
        }
        None
    }
}

impl<W> Display<W> {
    /// Adds a layer on top of the stack. The label of its button is up to the
    /// layer.
    pub fn add_layer(&mut self, layer: Layer<W>) -> (id: LayerId)
        requires
            old(self).wf(),
            old(self).next_id < u64::MAX - 1,
            old(self).free_slots@.len() > 0 || old(self).next_slot < MOST_BUTTONS,
        ensures
            exists|c: char|
                layer.labels(c) && #[trigger] added(*old(self), layer, c, *final(self)),
            id == LayerId((old(self).next_id + 1) as u64),
            final(self).wf(),
    {
        let c = layer.tab_label();
        self.add_labelled(layer, c)
    }

    /// Adds a layer that asks for the label `c` on top of the stack.
    pub fn add_labelled(&mut self, layer: Layer<W>, c: char) -> (id: LayerId)
        requires
            old(self).wf(),
            old(self).next_id < u64::MAX - 1,
            old(self).free_slots@.len() > 0 || old(self).next_slot < MOST_BUTTONS,
        ensures
            added(*old(self), layer, c, *final(self)),
            id == LayerId((old(self).next_id + 1) as u64),
            final(self).wf(),
    {
        self.next_id = self.next_id + 1;
        let id = LayerId(self.next_id);
        let label = label_of(c, self.next_id);
        let button = match self.free_slots.pop() {
            Some(button) => button,
            None => {
                let button = self.next_slot;
                self.next_slot = self.next_slot + 1;
                button
            },
        };
        let priority = self.slots[self.slots.len() - 1].priority + 1;
        let slot = LayerSlot { id, layer, priority, seq: self.next_id, label, button };
        self.slots.push(slot);
        proof {
            assert forall|x: LayerId| live(old(self).slots@, x) implies #[trigger] live(
                self.slots@,
                x,
            ) by {
                let i = choose|i: int|
                    0 <= i < old(self).slots@.len() && (#[trigger] old(self).slots@[i]).id == x;
                assert(self.slots@[i].id == x);
            }
        }
        id
    }

    /// Removes a layer, but never the one of the log and the input line.
    pub fn remove_layer(&mut self, id: LayerId) -> (r: Option<Layer<W>>)
        requires
            old(self).wf(),
        ensures
            final(self).wf(),
            match slot_of(old(self).slots@, id, 0) {
                Some(k) if id != LayerId(0) => r == Some(old(self).slots@[k].layer) && removed(
                    *old(self),
                    k,
                    *final(self),
                ),
                _ => r is None && *final(self) == *old(self),
            },
    {
        if id == LayerId(0) {
            return None;
        }
        match self.position(id) {
            None => None,
            Some(k) => {
                let slot = self.slots.remove(k);
                if self.grabbed == Some(id) {
                    self.grabbed = None;
                }
                self.free_slots.push(slot.button);
                self.owners = owners_without(&self.owners, id);
                self.cached_widgets = cached_without(&self.cached_widgets, id);
                proof {
                    let before = old(self).slots@;
                    assert forall|x: LayerId| x != id && live(before, x) implies #[trigger] live(
                        self.slots@,
                        x,
                    ) by {
                        let i = choose|i: int| 0 <= i < before.len() && (#[trigger] before[i]).id == x;
                        if i < k {
                            assert(self.slots@[i].id == x);
                        } else {
                            assert(self.slots@[i - 1].id == x);
                        }
                    }
                    assert forall|i: int| 0 <= i < self.owners@.len() implies live(
                        self.slots@,
                        (#[trigger] self.owners@[i]).1,
                    ) by {
                        lemma_filter_kept(old(self).owners@, id, i);
                    }
                }
                Some(slot.layer)
            },
        }
    }

    /// Gives the slots the priorities 0, 1, 2 and so on.
    fn renumber(&mut self)
        ensures
            final(self).slots@ == renumbered(old(self).slots@),
            same_but_slots(*old(self), *final(self)),
    {
        let mut i: usize = 0;
        while i < self.slots.len()
            invariant
                i <= self.slots@.len(),
                self.slots@.len() == old(self).slots@.len(),
                same_but_slots(*old(self), *self),
                forall|j: int|
                    0 <= j < i ==> #[trigger] self.slots@[j] == renumbered(old(self).slots@)[j],
                forall|j: int| i <= j < self.slots@.len() ==> #[trigger] self.slots@[j] == old(self).slots@[j],
            decreases self.slots@.len() - i,
        {
            self.slots[i].priority = i as u64;
            i += 1;
        }
        assert(self.slots@ =~= renumbered(old(self).slots@));
    }

    /// Brings a layer to the top and tells it.
    pub fn activate(&mut self, id: LayerId)
        requires
            old(self).wf(),
        ensures
            final(self).wf(),
            topped(old(self).slots@, id, final(self).slots@),
            touched(activated(old(self).slots@, id), id, final(self).slots@),
            same_but_slots(*old(self), *final(self)),
    {
        match self.position(id) {
            Some(k) => {
                let slot = self.slots.remove(k);
                self.slots.push(slot);
                self.renumber();
                let top = self.slots.len() - 1;
                self.slots[top].layer.on_active();
                proof {
                    let n = self.slots@.len();
                    let from = |i: int|
                        if i < k {
                            i
                        } else if i < n - 1 {
                            i + 1
                        } else {
                            k as int
                        };
                    let to = |i: int|
                        if i < k {
                            i
                        } else if i == k {
                            n - 1
                        } else {
                            i - 1
                        };
                    lemma_reordered_wf(*old(self), *self, from, to);
                }
            },
            None => {
                self.renumber();
                proof {
                    assert(self.slots.len() == self.slots@.len());
                    lemma_reordered_wf(*old(self), *self, |i: int| i, |i: int| i);
                }
            },
        }
    }

    /// Brings the bottom layer to the top.
    fn rotate(&mut self)
        requires
            old(self).wf(),
        ensures
            final(self).wf(),
            topped(old(self).slots@, old(self).slots@[0].id, final(self).slots@),
            same_but_slots(*old(self), *final(self)),
    {
        let bottom = self.slots[0].id;
        self.activate(bottom);
    }

    /// The layer on top.
    pub fn topmost(&self) -> (r: Option<LayerId>)
        ensures
            self.slots@.len() == 0 ==> r is None,
            self.slots@.len() > 0 ==> r == Some(self.slots@.last().id),
    {
        if self.slots.len() == 0 {
            None
        } else {
            Some(self.slots[self.slots.len() - 1].id)
        }
    }

    /// The layers, bottom first.
    pub fn stack_order(&self) -> (v: Vec<LayerId>)
        ensures
            v@ == ids(self.slots@),
    {
        let mut v: Vec<LayerId> = Vec::new();
        let mut i: usize = 0;
        while i < self.slots.len()
            invariant
                i <= self.slots@.len(),
                v@ == ids(self.slots@).take(i as int),
            decreases self.slots@.len() - i,
        {
            v.push(self.slots[i].id);
            assert(ids(self.slots@).take(i + 1) =~= ids(self.slots@).take(i as int).push(
                self.slots@[i as int].id,
            ));
            i += 1;
        }
        assert(ids(self.slots@).take(i as int) =~= ids(self.slots@));
        v
    }

    /// The priorities of the layers, bottom first.
    pub fn priorities(&self) -> (v: Vec<u64>)
        ensures
            v@ == self.slots@.map_values(|s: LayerSlot<W>| s.priority),
    {
        let ghost all = self.slots@.map_values(|s: LayerSlot<W>| s.priority);
        let mut v: Vec<u64> = Vec::new();
        let mut i: usize = 0;
        while i < self.slots.len()
            invariant
                i <= self.slots@.len(),
                all == self.slots@.map_values(|s: LayerSlot<W>| s.priority),
                v@ == all.take(i as int),
            decreases self.slots@.len() - i,
        {
            v.push(self.slots[i].priority);
            assert(all.take(i + 1) =~= all.take(i as int).push(all[i as int]));
            i += 1;
        }
        assert(all.take(i as int) =~= all);
        v
    }

    /// The layer that a widget belongs to.
    pub fn owner_of(&self, name: &str) -> (r: Option<LayerId>)
        ensures
            r == owner(self.owners@, name@, 0),
    {
        find_owner(&self.owners, name)
    }

    /// The layer that has the pointer.
    pub fn grabbed(&self) -> (r: Option<LayerId>)
        ensures
            r == self.grabbed,
    {
        self.grabbed
    }

    /// The color of a layer; that of the log and the input line has none.
    pub fn layer_color(&self, id: LayerId) -> (c: Option<Color>)
        ensures
            c == color_of(self.palette@, id),
    {
        if id == LayerId(0) || self.palette.len() == 0 {
            None
        } else {
            let n = id.0 as usize;
            Some(self.palette[n.saturating_sub(1) % self.palette.len()])
        }
    }
}

/// The color of a layer, by its number; that of the log and the input line has
/// none.
pub open spec fn color_of(palette: Seq<Color>, id: LayerId) -> Option<Color> {
    if id == LayerId(0) || palette.len() == 0 {
        None
    } else {
        let n = id.0 as usize;
        Some(palette[(if n == 0 { 0int } else { n - 1 }) % palette.len() as int])
    }
}

/// The owner of `name`, from entry `i` on.
pub open spec fn owner(owners: Seq<(&'static str, LayerId)>, name: Seq<char>, i: int) -> Option<
    LayerId,
>
    decreases owners.len() - i,
{
    if i < 0 || i >= owners.len() {
        None
    } else if owners[i].0@ == name {
        Some(owners[i].1)
    } else {
        owner(owners, name, i + 1)
    }
}

/// Finds the owner of `name`.
fn find_owner(owners: &Vec<(&'static str, LayerId)>, name: &str) -> (r: Option<LayerId>)
    ensures
        r == owner(owners@, name@, 0),
{
    let mut i: usize = 0;
    while i < owners.len()
        invariant
            i <= owners@.len(),
            owner(owners@, name@, 0) == owner(owners@, name@, i as int),
        decreases owners@.len() - i,
    {
        if *owners[i].0 == *name {
            return Some(owners[i].1);
        }
        i += 1;
    }
    None
}

/// The display with one more layer.
pub open spec fn added<W>(before: Display<W>, layer: Layer<W>, c: char, after: Display<W>) -> bool {
    let n = before.next_id + 1;
    let recycled = before.free_slots@.len() > 0;
    &&& after.next_id == n
    &&& after.slots@ == before.slots@.push(
        LayerSlot {
            id: LayerId(n as u64),
            layer,
            priority: (before.slots@.last().priority + 1) as u64,
            seq: n as u64,
            label: label_for(c, n),
            button: if recycled {
                before.free_slots@.last()
            } else {
                before.next_slot
            },
        },
    )
    &&& after.free_slots@ == if recycled {
        before.free_slots@.drop_last()
    } else {
        before.free_slots@
    }
    &&& after.next_slot == if recycled {
        before.next_slot as int
    } else {
        before.next_slot + 1
    }
    &&& after.palette == before.palette
    &&& after.grabbed == before.grabbed
    &&& after.owners == before.owners
    &&& after.cached_widgets == before.cached_widgets
    &&& after.taskbar == before.taskbar
    &&& after.terminal_area == before.terminal_area
}

/// The display without the layer at `k`: nothing belongs to it any more, it has
/// lost the pointer, and its place in the taskbar is free.
pub open spec fn removed<W>(before: Display<W>, k: int, after: Display<W>) -> bool {
    let id = before.slots@[k].id;
    &&& after.slots@ == before.slots@.remove(k)
    &&& after.grabbed == if before.grabbed == Some(id) {
        None
    } else {
        before.grabbed
    }
    &&& after.owners@ == before.owners@.filter(|o: (&'static str, LayerId)| o.1 != id)
    &&& after.cached_widgets@ == before.cached_widgets@.filter(
        |w: (LayerId, &'static str, Rect)| w.0 != id,
    )
    &&& after.free_slots@ == before.free_slots@.push(before.slots@[k].button)
    &&& after.next_slot == before.next_slot
    &&& after.next_id == before.next_id
    &&& after.palette == before.palette
    &&& after.taskbar == before.taskbar
    &&& after.terminal_area == before.terminal_area
}

/// Computes [`label_for`].
fn label_of(c: char, n: u64) -> (label: char)
    requires
        n >= 1,
    ensures
        label == label_for(c, n as int),
{
    if c == '\0' {
        let k = ((n - 1) % 26) as u8;
        (97 + k) as char
    } else {
        c
    }
}

/// The owners without those that name the layer `id`.
fn owners_without(owners: &Vec<(&'static str, LayerId)>, id: LayerId) -> (r: Vec<
    (&'static str, LayerId),
>)
    ensures
        r@ == owners@.filter(|o: (&'static str, LayerId)| o.1 != id),
{
    let mut r: Vec<(&'static str, LayerId)> = Vec::new();
    let ghost keep = |o: (&'static str, LayerId)| o.1 != id;
    let mut i: usize = 0;
    assert(owners@.take(0).filter(keep) =~= Seq::empty()) by {
        reveal(Seq::filter);
    }
    while i < owners.len()
        invariant
            i <= owners@.len(),
            keep == (|o: (&'static str, LayerId)| o.1 != id),
            r@ == owners@.take(i as int).filter(keep),
        decreases owners@.len() - i,
    {
        proof {
            reveal(Seq::filter);
            assert(owners@.take(i + 1).drop_last() =~= owners@.take(i as int));
        }
        if owners[i].1 != id {
            r.push(owners[i]);
        }
        i += 1;
    }
    assert(owners@.take(i as int) =~= owners@);
    r
}

/// The cached widgets without those of the layer `id`.
fn cached_without(cached: &Vec<(LayerId, &'static str, Rect)>, id: LayerId) -> (r: Vec<
    (LayerId, &'static str, Rect),
>)
    ensures
        r@ == cached@.filter(|w: (LayerId, &'static str, Rect)| w.0 != id),
{
    let mut r: Vec<(LayerId, &'static str, Rect)> = Vec::new();
    let ghost keep = |w: (LayerId, &'static str, Rect)| w.0 != id;
    let mut i: usize = 0;
    assert(cached@.take(0).filter(keep) =~= Seq::empty()) by {
        reveal(Seq::filter);
    }
    while i < cached.len()
        invariant
            i <= cached@.len(),
            keep == (|w: (LayerId, &'static str, Rect)| w.0 != id),
            r@ == cached@.take(i as int).filter(keep),
        decreases cached@.len() - i,
    {
        proof {
            reveal(Seq::filter);
            assert(cached@.take(i + 1).drop_last() =~= cached@.take(i as int));
        }
        if cached[i].0 != id {
            r.push(cached[i]);
        }
        i += 1;
    }
    assert(cached@.take(i as int) =~= cached@);
    r
}

proof fn lemma_filter_kept(owners: Seq<(&'static str, LayerId)>, id: LayerId, i: int)
    requires
        0 <= i < owners.filter(|o: (&'static str, LayerId)| o.1 != id).len(),
    ensures
        ({
            let kept = owners.filter(|o: (&'static str, LayerId)| o.1 != id);
            &&& kept[i].1 != id
            &&& exists|j: int| 0 <= j < owners.len() && #[trigger] owners[j] == kept[i]
        }),
{
    let keep = |o: (&'static str, LayerId)| o.1 != id;
    owners.lemma_filter_contains_rev(keep, owners.filter(keep)[i]);
    broadcast use vstd::seq_lib::group_filter_ensures;

}

/// In a stack without ties a layer has no more layers below it than its
/// priority.
proof fn lemma_priority_bounds_place<W>(d: Display<W>, i: int)
    requires
        d.stacked(),
        0 <= i < d.slots@.len(),
    ensures
        i <= d.slots@[i].priority,
    decreases i,
{
    if i > 0 {
        lemma_priority_bounds_place(d, i - 1);
        assert(apart(d.slots@[i - 1], d.slots@[i]));
    }
}

/// A stack whose layers come from another, in any order, and are numbered
/// afresh is in order if the other is.
proof fn lemma_reordered_wf<W>(
    d: Display<W>,
    e: Display<W>,
    from: spec_fn(int) -> int,
    to: spec_fn(int) -> int,
)
    requires
        d.wf(),
        same_but_slots(d, e),
        e.slots@.len() == d.slots@.len(),
        forall|i: int| 0 <= i < d.slots@.len() ==> 0 <= #[trigger] from(i) < d.slots@.len(),
        forall|i: int| 0 <= i < d.slots@.len() ==> 0 <= #[trigger] to(i) < d.slots@.len(),
        forall|i: int| 0 <= i < d.slots@.len() ==> from(#[trigger] to(i)) == i,
        forall|i: int| 0 <= i < d.slots@.len() ==> to(#[trigger] from(i)) == i,
        forall|i: int|
            0 <= i < d.slots@.len() ==> (#[trigger] e.slots@[i]).id == d.slots@[from(i)].id
                && e.slots@[i].button == d.slots@[from(i)].button && e.slots@[i].priority == i,
    ensures
        e.wf(),
{
    let (a, b) = (d.slots@, e.slots@);
    let n = a.len();
    assert forall|i: int, j: int| 0 <= i < j < n implies apart(#[trigger] b[i], #[trigger] b[j]) by {
        let (x, y) = (from(i), from(j));
        assert(x != y);
        if x < y {
            assert(apart(a[x], a[y]));
        } else {
            assert(apart(a[y], a[x]));
        }
    }
    assert forall|i: int| 0 <= i < n implies (#[trigger] b[i]).priority <= e.next_id && b[i].id.0
        <= e.next_id by {
        lemma_priority_bounds_place(d, n - 1);
        assert(a[n - 1].priority <= d.next_id);
        assert(a[from(i)].id.0 <= d.next_id);
    }
    assert forall|x: LayerId| live(a, x) implies #[trigger] live(b, x) by {
        let i = choose|i: int| 0 <= i < n && (#[trigger] a[i]).id == x;
        assert(b[to(i)].id == x);
    }
    assert forall|i: int| 0 <= i < n implies (#[trigger] b[i]).button < e.next_slot by {
        assert(a[from(i)].button < d.next_slot);
    }
    assert forall|i: int, j: int| 0 <= i < n && 0 <= j < e.free_slots@.len() implies (
    #[trigger] b[i]).button != #[trigger] e.free_slots@[j] by {
        assert(a[from(i)].button != d.free_slots@[j]);
    }
}

/// Everything but the slots is the same.
pub open spec fn same_but_slots<W>(a: Display<W>, b: Display<W>) -> bool {
    &&& b.next_id == a.next_id
    &&& b.palette == a.palette
    &&& b.grabbed == a.grabbed
    &&& b.owners == a.owners
    &&& b.cached_widgets == a.cached_widgets
    &&& b.taskbar == a.taskbar
    &&& b.terminal_area == a.terminal_area
    &&& b.free_slots == a.free_slots
    &&& b.next_slot == a.next_slot
}

proof fn lemma_same_ids_live<W>(a: Seq<LayerSlot<W>>, b: Seq<LayerSlot<W>>)
    requires
        b.len() == a.len(),
        forall|i: int| 0 <= i < a.len() ==> (#[trigger] b[i]).id == a[i].id,
    ensures
        forall|x: LayerId| #[trigger] live(b, x) == live(a, x),
{
    assert forall|x: LayerId| #[trigger] live(b, x) == live(a, x) by {
        if live(a, x) {
            let i = choose|i: int| 0 <= i < a.len() && (#[trigger] a[i]).id == x;
            assert(b[i].id == x);
        }
        if live(b, x) {
            let i = choose|i: int| 0 <= i < b.len() && (#[trigger] b[i]).id == x;
            assert(a[i].id == x);
        }
    }
}

} // verus!
