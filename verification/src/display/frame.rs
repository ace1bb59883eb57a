//! What a frame shows: the widgets of the layers in the order of the stack, and
//! the taskbar.

use crate::display::routing::{lemma_same_slots_wf, told_of, widgets_of};
use crate::display::{
    apart, color_of, find_owner, lemma_reordered_wf, live, owner, renumbered,
    same_but_layers, same_but_slots, top_told, Content, Display, Layer, LayerId, LayerSlot,
    StackIntent, WidgetEntry, MOST_BUTTONS, WIDGET_INPUT,
};
use crate::geometry::{Color, Rect};
use vstd::prelude::*;

verus! {

/// The name of the cleared cells behind a widget.
pub const WIDGET_BACKDROP: &'static str = "display.backdrop";

/// The name of a button of the taskbar.
pub const WIDGET_TASKBAR: &'static str = "display.taskbar";

/// The index of the first widget from `i` on that is called `name`.
pub open spec fn widget_named<W>(ws: Seq<WidgetEntry<W>>, name: Seq<char>, i: int) -> Option<int>
    decreases ws.len() - i,
{
    if i < 0 || i >= ws.len() {
        None
    } else if ws[i].name@ == name {
        Some(i)
    } else {
        widget_named(ws, name, i + 1)
    }
}

/// The screen, which the input line is at the bottom of; the one of the last
/// frame where there is no input line.
pub open spec fn screen_of<W>(last: Rect, ws: Seq<WidgetEntry<W>>) -> Rect {
    match widget_named(ws, WIDGET_INPUT@, 0) {
        Some(k) => Rect {
            x: 0,
            y: 0,
            width: ws[k].area.width,
            height: (ws[k].area.y + ws[k].area.height) as u16,
        },
        None => last,
    }
}

/// Whether `name` is one of `known`.
pub open spec fn knows(known: Seq<&'static str>, name: Seq<char>) -> bool {
    exists|i: int| 0 <= i < known.len() && (#[trigger] known[i])@ == name
}

/// The names of the widgets.
pub open spec fn names<W>(ws: Seq<WidgetEntry<W>>) -> Seq<&'static str> {
    ws.map_values(|w: WidgetEntry<W>| w.name)
}

/// The owners once the layer `id` has claimed the widgets whose names are
/// neither known nor taken.
pub open spec fn claimed<W>(
    owners: Seq<(&'static str, LayerId)>,
    known: Seq<&'static str>,
    ws: Seq<WidgetEntry<W>>,
    id: LayerId,
) -> Seq<(&'static str, LayerId)>
    decreases ws.len(),
{
    if ws.len() == 0 {
        owners
    } else {
        let rest = claimed(owners, known, ws.drop_last(), id);
        let name = ws.last().name;
        if knows(known, name@) || owner(rest, name@, 0) is Some {
            rest
        } else {
            rest.push((name, id))
        }
    }
}

/// The places of the layers that want `which`.
pub open spec fn places(intents: Seq<StackIntent>, which: StackIntent) -> Seq<int>
    decreases intents.len(),
{
    if intents.len() == 0 {
        Seq::empty()
    } else if intents.last() == which {
        places(intents.drop_last(), which).push(intents.len() - 1)
    } else {
        places(intents.drop_last(), which)
    }
}

/// The places of the layers in the order in which they want to be: those for
/// the bottom first, those for the top last, each as they were.
pub open spec fn wanted_order(intents: Seq<StackIntent>) -> Seq<int> {
    places(intents, StackIntent::Bottom) + places(intents, StackIntent::Keep) + places(
        intents,
        StackIntent::Top,
    )
}

/// The slots at the given places.
pub open spec fn at_places<W>(slots: Seq<LayerSlot<W>>, at: Seq<int>) -> Seq<LayerSlot<W>> {
    Seq::new(at.len(), |m: int| slots[at[m]])
}

/// The slots where the layers want them.
pub open spec fn restacked<W>(slots: Seq<LayerSlot<W>>, intents: Seq<StackIntent>) -> Seq<
    LayerSlot<W>,
> {
    renumbered(at_places(slots, wanted_order(intents)))
}

pub(crate) proof fn lemma_places(intents: Seq<StackIntent>, which: StackIntent)
    ensures
        forall|m: int|
            0 <= m < places(intents, which).len() ==> 0 <= #[trigger] places(intents, which)[m]
                < intents.len() && intents[places(intents, which)[m]] == which,
        forall|m: int, n: int|
            0 <= m < n < places(intents, which).len() ==> #[trigger] places(intents, which)[m]
                < #[trigger] places(intents, which)[n],
        forall|i: int|
            0 <= i < intents.len() && #[trigger] intents[i] == which ==> places(
                intents,
                which,
            ).contains(i),
    decreases intents.len(),
{
    if intents.len() > 0 {
        let before = intents.drop_last();
        let (a, b) = (places(before, which), places(intents, which));
        lemma_places(before, which);
        assert forall|m: int| 0 <= m < b.len() implies 0 <= #[trigger] b[m] < intents.len()
            && intents[b[m]] == which by {
            if m < a.len() {
                assert(b[m] == a[m]);
                assert(before[a[m]] == which);
            }
        }
        assert forall|m: int, n: int| 0 <= m < n < b.len() implies #[trigger] b[m] < #[trigger] b[n] by {
            assert(b[m] == a[m]);
            if n < a.len() {
                assert(b[n] == a[n]);
            }
        }
        assert forall|i: int| 0 <= i < intents.len() && #[trigger] intents[i] == which implies b.contains(
            i,
        ) by {
            if i < before.len() {
                assert(before[i] == which);
                let m = choose|m: int| 0 <= m < a.len() && a[m] == i;
                assert(b[m] == i);
            } else {
                assert(b[a.len() as int] == i);
            }
        }
    }
}

/// Every layer has exactly one place in the wanted order.
pub(crate) proof fn lemma_wanted_order(intents: Seq<StackIntent>)
    ensures
        forall|m: int|
            0 <= m < wanted_order(intents).len() ==> 0 <= #[trigger] wanted_order(intents)[m]
                < intents.len(),
        forall|m: int, n: int|
            0 <= m < n < wanted_order(intents).len() ==> #[trigger] wanted_order(intents)[m]
                != #[trigger] wanted_order(intents)[n],
        forall|i: int| 0 <= i < intents.len() ==> #[trigger] wanted_order(intents).contains(i),
        wanted_order(intents).len() == intents.len(),
{
    let (b, k, t) = (
        places(intents, StackIntent::Bottom),
        places(intents, StackIntent::Keep),
        places(intents, StackIntent::Top),
    );
    lemma_places(intents, StackIntent::Bottom);
    lemma_places(intents, StackIntent::Keep);
    lemma_places(intents, StackIntent::Top);
    let order = wanted_order(intents);
    assert forall|i: int| 0 <= i < intents.len() implies #[trigger] order.contains(i) by {
        match intents[i] {
            StackIntent::Bottom => {
                let m = choose|m: int| 0 <= m < b.len() && b[m] == i;
                assert(order[m] == i);
            },
            StackIntent::Keep => {
                let m = choose|m: int| 0 <= m < k.len() && k[m] == i;
                assert(order[b.len() + m] == i);
            },
            StackIntent::Top => {
                let m = choose|m: int| 0 <= m < t.len() && t[m] == i;
                assert(order[b.len() + k.len() + m] == i);
            },
        }
    }
    lemma_order_len(intents);
}

proof fn lemma_order_len(intents: Seq<StackIntent>)
    ensures
        wanted_order(intents).len() == intents.len(),
    decreases intents.len(),
{
    if intents.len() > 0 {
        lemma_order_len(intents.drop_last());
    }
}

/// Whether another layer comes to the top where the layers want to be.
pub open spec fn topped_by_another<W>(slots: Seq<LayerSlot<W>>, intents: Seq<StackIntent>) -> bool {
    restacked(slots, intents).last().id != slots.last().id
}

impl<W> Display<W> {
    /// Puts the layers where they want to be; a layer that has come to the top
    /// is told.
    pub fn restack(&mut self, intents: &Vec<StackIntent>)
        requires
            old(self).wf(),
            intents@.len() == old(self).slots@.len(),
        ensures
            final(self).wf(),
            top_told(
                restacked(old(self).slots@, intents@),
                topped_by_another(old(self).slots@, intents@),
                final(self).slots@,
            ),
            same_but_slots(*old(self), *final(self)),
    {
        let ghost all = self.slots@;
        let top = self.slots[self.slots.len() - 1].id;
        let n = self.slots.len();
        let mut bottoms: Vec<LayerSlot<W>> = Vec::new();
        let mut keeps: Vec<LayerSlot<W>> = Vec::new();
        let mut tops: Vec<LayerSlot<W>> = Vec::new();
        let mut i: usize = 0;
        assert(self.slots@ =~= all.skip(0));
        while i < n
            invariant
                i <= n == all.len() == intents@.len(),
                self.slots@ == all.skip(i as int),
                same_but_slots(*old(self), *self),
                bottoms@ == at_places(all, places(intents@.take(i as int), StackIntent::Bottom)),
                keeps@ == at_places(all, places(intents@.take(i as int), StackIntent::Keep)),
                tops@ == at_places(all, places(intents@.take(i as int), StackIntent::Top)),
            decreases n - i,
        {
            let slot = self.slots.remove(0);
            proof {
                assert(slot == all[i as int]);
                assert(self.slots@ =~= all.skip(i + 1));
                assert(intents@.take(i + 1).drop_last() =~= intents@.take(i as int));
            }
            let ghost (b, k, t) = (bottoms@, keeps@, tops@);
            match intents[i] {
                StackIntent::Bottom => {
                    bottoms.push(slot);
                },
                StackIntent::Keep => {
                    keeps.push(slot);
                },
                StackIntent::Top => {
                    tops.push(slot);
                },
            }
            assert(bottoms@ =~= at_places(
                all,
                places(intents@.take(i + 1), StackIntent::Bottom),
            ));
            assert(keeps@ =~= at_places(all, places(intents@.take(i + 1), StackIntent::Keep)));
            assert(tops@ =~= at_places(all, places(intents@.take(i + 1), StackIntent::Top)));
            i += 1;
        }
        assert(intents@.take(i as int) =~= intents@);
        bottoms.append(&mut keeps);
        bottoms.append(&mut tops);
        assert(bottoms@ =~= at_places(all, wanted_order(intents@)));
        self.slots = bottoms;
        self.renumber();
        proof {
            lemma_wanted_order(intents@);
            let order = wanted_order(intents@);
            let from = |m: int| order[m];
            let to = |i: int| choose|m: int| 0 <= m < order.len() && order[m] == i;
            assert forall|i: int| 0 <= i < order.len() implies 0 <= #[trigger] to(i) < order.len()
                && from(to(i)) == i by {
                assert(order.contains(i));
            }
            assert forall|m: int| 0 <= m < order.len() implies to(#[trigger] from(m)) == m by {
                assert(order[m] == from(m));
                let m2 = to(from(m));
                assert(0 <= m2 < order.len() && order[m2] == from(m));
            }
            lemma_reordered_wf(*old(self), *self, from, to);
        }
        let ghost ordered = *self;
        let last = self.slots.len() - 1;
        if self.slots[last].id != top {
            self.slots[last].layer.on_active();
        }
        proof {
            lemma_same_slots_wf(ordered, *self);
        }
    }
}

/// The layer that a widget belongs to; what nobody owns belongs to the layer of
/// the log and the input line.
pub open spec fn owner_or_builtin(owners: Seq<(&'static str, LayerId)>, name: Seq<char>) -> LayerId {
    match owner(owners, name, 0) {
        Some(id) => id,
        None => LayerId(0),
    }
}

/// The widgets, each with its owner.
pub open spec fn cached_from<W>(
    owners: Seq<(&'static str, LayerId)>,
    ws: Seq<WidgetEntry<W>>,
) -> Seq<(LayerId, &'static str, Rect)>
    decreases ws.len(),
{
    if ws.len() == 0 {
        Seq::empty()
    } else {
        let w = ws.last();
        let rest = cached_from(owners, ws.drop_last());
        match owner(owners, w.name@, 0) {
            Some(id) => rest.push((id, w.name, w.area)),
            None => rest,
        }
    }
}

/// The widgets of the layer `id`, in order.
pub open spec fn group<W>(
    owners: Seq<(&'static str, LayerId)>,
    ws: Seq<WidgetEntry<W>>,
    id: LayerId,
) -> Seq<WidgetEntry<W>>
    decreases ws.len(),
{
    if ws.len() == 0 {
        Seq::empty()
    } else {
        let rest = group(owners, ws.drop_last(), id);
        if owner_or_builtin(owners, ws.last().name@) == id {
            rest.push(ws.last())
        } else {
            rest
        }
    }
}

/// The color behind the widgets of a layer; the layer of the log and the input
/// line has the terminal's own.
pub open spec fn backdrop_of(palette: Seq<Color>, id: LayerId) -> Option<Color> {
    if id == LayerId(0) {
        Some(Color::Reset)
    } else {
        color_of(palette, id)
    }
}

/// Cleared cells behind each of the widgets.
pub open spec fn backdrops<W>(ws: Seq<WidgetEntry<W>>, color: Option<Color>) -> Seq<WidgetEntry<W>> {
    match color {
        Some(c) => Seq::new(
            ws.len(),
            |i: int|
                WidgetEntry {
                    name: WIDGET_BACKDROP,
                    widget: Content::Backdrop(c),
                    area: ws[i].area,
                },
        ),
        None => Seq::empty(),
    }
}

/// What the lowest `n` layers show: for each its backdrops, then its widgets.
pub open spec fn dressed<W>(
    slots: Seq<LayerSlot<W>>,
    owners: Seq<(&'static str, LayerId)>,
    palette: Seq<Color>,
    ws: Seq<WidgetEntry<W>>,
    n: int,
) -> Seq<WidgetEntry<W>>
    decreases n,
{
    if n <= 0 {
        Seq::empty()
    } else {
        let id = slots[n - 1].id;
        let own = group(owners, ws, id);
        dressed(slots, owners, palette, ws, n - 1) + backdrops(own, backdrop_of(palette, id)) + own
    }
}

/// How many places the taskbar shows.
pub open spec fn total_places<W>(slots: Seq<LayerSlot<W>>) -> int
    decreases slots.len(),
{
    if slots.len() == 0 {
        0
    } else {
        let rest = total_places(slots.drop_last());
        if slots.last().button < rest {
            rest
        } else {
            slots.last().button + 1
        }
    }
}

/// The column at which a taskbar of `total` places begins: buttons of three
/// cells with one cell between them, in the middle of the screen.
pub open spec fn strip_start(screen: Rect, total: int) -> int {
    let strip = 4 * total - 1;
    if screen.width > strip {
        (screen.width - strip) / 2
    } else {
        0
    }
}

/// The button at a place of the taskbar: three cells in the bottom row.
pub open spec fn button_area(screen: Rect, total: int, place: int) -> Rect {
    Rect {
        x: (strip_start(screen, total) + 4 * place) as u16,
        y: if screen.height > 0 {
            (screen.height - 1) as u16
        } else {
            0
        },
        width: 3,
        height: 1,
    }
}

/// Whether the layer at `i` has a button: not while it has no widgets, if it
/// wants that.
pub open spec fn shown<W>(
    slots: Seq<LayerSlot<W>>,
    cached: Seq<(LayerId, &'static str, Rect)>,
    hides: Seq<bool>,
    i: int,
) -> bool {
    !(hides[i] && widgets_of(cached, slots[i].id).len() == 0)
}

/// The buttons of the lowest `n` layers.
pub open spec fn buttons<W>(
    slots: Seq<LayerSlot<W>>,
    cached: Seq<(LayerId, &'static str, Rect)>,
    hides: Seq<bool>,
    screen: Rect,
    n: int,
) -> Seq<(LayerId, Rect)>
    decreases n,
{
    if n <= 0 {
        Seq::empty()
    } else {
        let rest = buttons(slots, cached, hides, screen, n - 1);
        if shown(slots, cached, hides, n - 1) {
            rest.push(
                (
                    slots[n - 1].id,
                    button_area(screen, total_places(slots), slots[n - 1].button as int),
                ),
            )
        } else {
            rest
        }
    }
}

/// The widget of the button of the layer at `i`.
pub open spec fn button_widget<W>(
    slots: Seq<LayerSlot<W>>,
    palette: Seq<Color>,
    screen: Rect,
    i: int,
) -> WidgetEntry<W> {
    WidgetEntry {
        name: WIDGET_TASKBAR,
        widget: Content::Button {
            label: slots[i].label,
            color: match color_of(palette, slots[i].id) {
                Some(c) => c,
                None => Color::DarkGray,
            },
            bold: i == slots.len() - 1,
        },
        area: button_area(screen, total_places(slots), slots[i].button as int),
    }
}

/// The widgets of the buttons of the lowest `n` layers.
pub open spec fn button_widgets<W>(
    slots: Seq<LayerSlot<W>>,
    palette: Seq<Color>,
    cached: Seq<(LayerId, &'static str, Rect)>,
    hides: Seq<bool>,
    screen: Rect,
    n: int,
) -> Seq<WidgetEntry<W>>
    decreases n,
{
    if n <= 0 {
        Seq::empty()
    } else {
        let rest = button_widgets(slots, palette, cached, hides, screen, n - 1);
        if shown(slots, cached, hides, n - 1) {
            rest.push(button_widget(slots, palette, screen, n - 1))
        } else {
            rest
        }
    }
}

pub(crate) proof fn lemma_owner_live<W>(d: Display<W>, name: Seq<char>, i: int)
    requires
        d.wf(),
        0 <= i,
    ensures
        owner(d.owners@, name, i) matches Some(id) ==> live(d.slots@, id),
    decreases d.owners@.len() - i,
{
    if i < d.owners@.len() {
        lemma_owner_live(d, name, i + 1);
    }
}

pub(crate) proof fn lemma_total_places<W>(slots: Seq<LayerSlot<W>>, i: int)
    requires
        0 <= i < slots.len(),
    ensures
        slots[i].button < total_places(slots),
    decreases slots.len(),
{
    if i < slots.len() - 1 {
        lemma_total_places(slots.drop_last(), i);
    }
}

pub(crate) proof fn lemma_total_places_bound<W>(slots: Seq<LayerSlot<W>>, most: int)
    requires
        0 <= most,
        forall|i: int| 0 <= i < slots.len() ==> (#[trigger] slots[i]).button < most,
    ensures
        0 <= total_places(slots) <= most,
    decreases slots.len(),
{
    if slots.len() > 0 {
        let rest = slots.drop_last();
        assert forall|i: int| 0 <= i < rest.len() implies (#[trigger] rest[i]).button < most by {
            assert(slots[i].button < most);
        }
        lemma_total_places_bound(rest, most);
        assert(slots[slots.len() - 1].button < most);
    }
}

impl<W> Display<W> {
    /// Takes the screen from the input line, where there is one.
    fn measure(&mut self, widgets: &Vec<WidgetEntry<W>>)
        requires
            old(self).wf(),
            widget_named(widgets@, WIDGET_INPUT@, 0) matches Some(k)
                ==> widgets@[k].area.fits(),
        ensures
            final(self).wf(),
            final(self).terminal_area == screen_of(old(self).terminal_area, widgets@),
            *final(self) == (Display { terminal_area: final(self).terminal_area, ..*old(self) }),
    {
        let mut i: usize = 0;
        while i < widgets.len()
            invariant
                *self == *old(self),
                self.wf(),
                i <= widgets@.len(),
                widget_named(widgets@, WIDGET_INPUT@, 0) == widget_named(
                    widgets@,
                    WIDGET_INPUT@,
                    i as int,
                ),
                widget_named(widgets@, WIDGET_INPUT@, 0) matches Some(k)
                    ==> widgets@[k].area.fits(),
            decreases widgets@.len() - i,
        {
            if *widgets[i].name == *WIDGET_INPUT {
                let area = widgets[i].area;
                self.terminal_area = Rect {
                    x: 0,
                    y: 0,
                    width: area.width,
                    height: area.y + area.height,
                };
                return;
            }
            i += 1;
        }
    }

    /// Lets the layer `id` claim the widgets whose names are neither known nor
    /// taken.
    pub fn claim(&mut self, known: &Vec<&'static str>, widgets: &Vec<WidgetEntry<W>>, id: LayerId)
        requires
            old(self).wf(),
            live(old(self).slots@, id),
        ensures
            final(self).wf(),
            final(self).owners@ == claimed(old(self).owners@, known@, widgets@, id),
            *final(self) == (Display { owners: final(self).owners, ..*old(self) }),
    {
        let mut i: usize = 0;
        while i < widgets.len()
            invariant
                self.wf(),
                live(self.slots@, id),
                i <= widgets@.len(),
                self.owners@ == claimed(
                    old(self).owners@,
                    known@,
                    widgets@.take(i as int),
                    id,
                ),
                *self == (Display { owners: self.owners, ..*old(self) }),
            decreases widgets@.len() - i,
        {
            assert(widgets@.take(i + 1).drop_last() =~= widgets@.take(i as int));
            let name = widgets[i].name;
            if !is_known(known, name) && find_owner(&self.owners, name).is_none() {
                self.owners.push((name, id));
            }
            i += 1;
        }
        assert(widgets@.take(i as int) =~= widgets@);
    }

    /// Remembers the widgets, each with its owner.
    fn remember(&mut self, widgets: &Vec<WidgetEntry<W>>)
        requires
            old(self).wf(),
        ensures
            final(self).wf(),
            final(self).cached_widgets@ == cached_from(old(self).owners@, widgets@),
            *final(self) == (Display { cached_widgets: final(self).cached_widgets, ..*old(self) }),
    {
        let mut cached: Vec<(LayerId, &'static str, Rect)> = Vec::new();
        let mut i: usize = 0;
        assert(cached_from(self.owners@, widgets@.take(0)) =~= Seq::empty());
        while i < widgets.len()
            invariant
                *self == *old(self),
                i <= widgets@.len(),
                cached@ == cached_from(self.owners@, widgets@.take(i as int)),
            decreases widgets@.len() - i,
        {
            assert(widgets@.take(i + 1).drop_last() =~= widgets@.take(i as int));
            if let Some(id) = find_owner(&self.owners, widgets[i].name) {
                cached.push((id, widgets[i].name, widgets[i].area));
            }
            i += 1;
        }
        assert(widgets@.take(i as int) =~= widgets@);
        self.cached_widgets = cached;
    }

    /// The place in the stack of the layer that a widget belongs to.
    fn owner_position(&self, name: &str) -> (k: usize)
        requires
            self.wf(),
        ensures
            k < self.slots@.len(),
            self.slots@[k as int].id == owner_or_builtin(self.owners@, name@),
    {
        proof {
            lemma_owner_live(*self, name@, 0);
        }
        let id = match find_owner(&self.owners, name) {
            Some(id) => id,
            None => LayerId(0),
        };
        match self.position(id) {
            Some(k) => k,
            None => 0,
        }
    }

    /// Parts the widgets by their layers, in the order of the stack.
    fn part(&self, widgets: Vec<WidgetEntry<W>>) -> (groups: Vec<Vec<WidgetEntry<W>>>)
        requires
            self.wf(),
        ensures
            groups@.len() == self.slots@.len(),
            forall|j: int|
                0 <= j < groups@.len() ==> (#[trigger] groups@[j])@ == group(
                    self.owners@,
                    widgets@,
                    self.slots@[j].id,
                ),
    {
        let ghost all = widgets@;
        let mut groups: Vec<Vec<WidgetEntry<W>>> = Vec::new();
        let mut i: usize = 0;
        while i < self.slots.len()
            invariant
                i <= self.slots@.len(),
                groups@.len() == i,
                forall|j: int| 0 <= j < i ==> (#[trigger] groups@[j])@.len() == 0,
            decreases self.slots@.len() - i,
        {
            groups.push(Vec::new());
            i += 1;
        }
        assert forall|j: int| 0 <= j < groups@.len() implies (#[trigger] groups@[j])@ == group(
            self.owners@,
            all.take(0),
            self.slots@[j].id,
        ) by {
            assert(groups@[j]@ =~= Seq::empty());
        }
        for w in it: widgets
            invariant
                self.wf(),
                it.seq() == all,
                groups@.len() == self.slots@.len(),
                forall|j: int|
                    0 <= j < groups@.len() ==> (#[trigger] groups@[j])@ == group(
                        self.owners@,
                        all.take(it.index() as int),
                        self.slots@[j].id,
                    ),
        {
            let ghost before = groups@;
            let ghost at = it.index() as int;
            let k = self.owner_position(w.name);
            groups[k].push(w);
            proof {
                assert(all.take(at + 1).drop_last() =~= all.take(at));
                assert forall|j: int| 0 <= j < groups@.len() implies (#[trigger] groups@[j])@
                    == group(self.owners@, all.take(at + 1), self.slots@[j].id) by {
                    assert(before[j]@ == group(self.owners@, all.take(at), self.slots@[j].id));
                    if j < k {
                        assert(apart(self.slots@[j], self.slots@[k as int]));
                    } else if j > k {
                        assert(apart(self.slots@[k as int], self.slots@[j]));
                    }
                }
            }
        }
        assert(all.take(all.len() as int) =~= all);
        groups
    }

    /// The color behind the widgets of a layer.
    fn backdrop(&self, id: LayerId) -> (c: Option<Color>)
        ensures
            c == backdrop_of(self.palette@, id),
    {
        if id == LayerId(0) {
            Some(Color::Reset)
        } else {
            self.layer_color(id)
        }
    }

    /// Brings the widgets into the order of the stack, with cleared cells
    /// behind those of each layer.
    fn dress(&self, widgets: Vec<WidgetEntry<W>>) -> (all: Vec<WidgetEntry<W>>)
        requires
            self.wf(),
        ensures
            all@ == dressed(
                self.slots@,
                self.owners@,
                self.palette@,
                widgets@,
                self.slots@.len() as int,
            ),
    {
        let ghost ws = widgets@;
        let mut groups = self.part(widgets);
        let ghost parted = groups@;
        let mut all: Vec<WidgetEntry<W>> = Vec::new();
        let mut n: usize = 0;
        assert(groups@ =~= parted.skip(0));
        while n < self.slots.len()
            invariant
                n <= self.slots@.len() == parted.len(),
                groups@ == parted.skip(n as int),
                forall|j: int|
                    0 <= j < parted.len() ==> (#[trigger] parted[j])@ == group(
                        self.owners@,
                        ws,
                        self.slots@[j].id,
                    ),
                all@ == dressed(self.slots@, self.owners@, self.palette@, ws, n as int),
            decreases self.slots@.len() - n,
        {
            let mut own = groups.remove(0);
            let ghost before = all@;
            let ghost mine = own@;
            let id = self.slots[n].id;
            assert(own == parted[n as int]);
            assert(groups@ =~= parted.skip(n + 1));
            let color = self.backdrop(id);
            if let Some(c) = color {
                let mut i: usize = 0;
                while i < own.len()
                    invariant
                        i <= own@.len(),
                        own@ == mine,
                        color == Some(c),
                        all@ == before + backdrops(mine, color).take(i as int),
                    decreases own@.len() - i,
                {
                    all.push(
                        WidgetEntry {
                            name: WIDGET_BACKDROP,
                            widget: Content::Backdrop(c),
                            area: own[i].area,
                        },
                    );
                    assert(all@ =~= before + backdrops(mine, color).take(i + 1));
                    i += 1;
                }
                assert(backdrops(mine, color).take(i as int) =~= backdrops(mine, color));
            } else {
                assert(all@ =~= before + backdrops(mine, color));
            }
            all.append(&mut own);
            n += 1;
        }
        all
    }

    /// Which layers want no button while they have no widgets.
    fn hiding(&self) -> (hides: Vec<bool>)
        ensures
            hides@.len() == self.slots@.len(),
            forall|i: int|
                0 <= i < hides@.len() ==> self.slots@[i].layer.hides(#[trigger] hides@[i]),
    {
        let mut hides: Vec<bool> = Vec::new();
        let mut i: usize = 0;
        while i < self.slots.len()
            invariant
                i <= self.slots@.len(),
                hides@.len() == i,
                forall|j: int| 0 <= j < i ==> self.slots@[j].layer.hides(#[trigger] hides@[j]),
            decreases self.slots@.len() - i,
        {
            hides.push(self.slots[i].layer.hide_when_empty());
            i += 1;
        }
        hides
    }

    /// Whether the layer `id` has a widget.
    fn has_widgets(&self, id: LayerId) -> (b: bool)
        ensures
            b == (widgets_of(self.cached_widgets@, id).len() > 0),
    {
        let ctx = self.context(id);
        ctx.my_widgets.len() > 0
    }

    /// How many places the taskbar shows.
    fn count_places(&self) -> (total: usize)
        requires
            self.wf(),
        ensures
            total == total_places(self.slots@),
    {
        let mut total: usize = 0;
        let mut i: usize = 0;
        while i < self.slots.len()
            invariant
                self.wf(),
                i <= self.slots@.len(),
                total == total_places(self.slots@.take(i as int)),
            decreases self.slots@.len() - i,
        {
            assert(self.slots@.take(i + 1).drop_last() =~= self.slots@.take(i as int));
            let button = self.slots[i].button;
            if button >= total {
                total = button + 1;
            }
            i += 1;
        }
        assert(self.slots@.take(i as int) =~= self.slots@);
        total
    }

    /// Lays out the taskbar, where `hides` says which layers want no button
    /// while they have no widgets.
    pub fn lay_taskbar(&mut self, hides: &Vec<bool>, widgets: &mut Vec<WidgetEntry<W>>)
        requires
            old(self).wf(),
            hides@.len() == old(self).slots@.len(),
        ensures
            final(self).wf(),
            final(self).taskbar@ == buttons(
                old(self).slots@,
                old(self).cached_widgets@,
                hides@,
                old(self).terminal_area,
                old(self).slots@.len() as int,
            ),
            final(widgets)@ == old(widgets)@ + button_widgets(
                old(self).slots@,
                old(self).palette@,
                old(self).cached_widgets@,
                hides@,
                old(self).terminal_area,
                old(self).slots@.len() as int,
            ),
            *final(self) == (Display { taskbar: final(self).taskbar, ..*old(self) }),
    {
        let ghost slots = self.slots@;
        let total = self.count_places();
        proof {
            lemma_total_places_bound(slots, self.next_slot as int);
            lemma_total_places(slots, 0);
        }
        let screen = self.terminal_area;
        let row: u16 = if screen.height > 0 {
            screen.height - 1
        } else {
            0
        };
        let strip: usize = 4 * total - 1;
        let start: u16 = if (screen.width as usize) > strip {
            (screen.width - strip as u16) / 2
        } else {
            0
        };
        let mut taskbar: Vec<(LayerId, Rect)> = Vec::new();
        let mut i: usize = 0;
        while i < self.slots.len()
            invariant
                self.wf(),
                *self == *old(self),
                slots == self.slots@,
                screen == self.terminal_area,
                hides@.len() == slots.len(),
                total == total_places(slots),
                1 <= total <= MOST_BUTTONS,
                start == strip_start(screen, total as int),
                row == if screen.height > 0 {
                    screen.height - 1
                } else {
                    0
                },
                i <= slots.len(),
                taskbar@ == buttons(slots, self.cached_widgets@, hides@, screen, i as int),
                widgets@ == old(widgets)@ + button_widgets(
                    slots,
                    self.palette@,
                    self.cached_widgets@,
                    hides@,
                    screen,
                    i as int,
                ),
            decreases slots.len() - i,
        {
            let ghost so_far = widgets@;
            let slot_id = self.slots[i].id;
            if !(hides[i] && !self.has_widgets(slot_id)) {
                proof {
                    lemma_total_places(slots, i as int);
                }
                let place = self.slots[i].button as u16;
                let area = Rect { x: start + 4 * place, y: row, width: 3, height: 1 };
                let color = match self.layer_color(slot_id) {
                    Some(c) => c,
                    None => Color::DarkGray,
                };
                let bold = i == self.slots.len() - 1;
                widgets.push(
                    WidgetEntry {
                        name: WIDGET_TASKBAR,
                        widget: Content::Button { label: self.slots[i].label, color, bold },
                        area,
                    },
                );
                taskbar.push((slot_id, area));
                assert(widgets@ =~= old(widgets)@ + button_widgets(
                    slots,
                    self.palette@,
                    self.cached_widgets@,
                    hides@,
                    screen,
                    i + 1,
                ));
            }
            i += 1;
        }
        self.taskbar = taskbar;
    }
}

/// Whether `name` is one of `known`.
fn is_known(known: &Vec<&'static str>, name: &str) -> (b: bool)
    ensures
        b == knows(known@, name@),
{
    let mut i: usize = 0;
    while i < known.len()
        invariant
            i <= known@.len(),
            forall|j: int| 0 <= j < i ==> (#[trigger] known@[j])@ != name@,
        decreases known@.len() - i,
    {
        if *known[i] == *name {
            return true;
        }
        i += 1;
    }
    false
}

/// The names of the widgets.
fn names_of<W>(widgets: &Vec<WidgetEntry<W>>) -> (v: Vec<&'static str>)
    ensures
        v@ == names(widgets@),
{
    let mut v: Vec<&'static str> = Vec::new();
    let mut i: usize = 0;
    while i < widgets.len()
        invariant
            i <= widgets@.len(),
            v@ == names(widgets@).take(i as int),
        decreases widgets@.len() - i,
    {
        v.push(widgets[i].name);
        assert(names(widgets@).take(i + 1) =~= names(widgets@).take(i as int).push(
            widgets@[i as int].name,
        ));
        i += 1;
    }
    assert(names(widgets@).take(i as int) =~= names(widgets@));
    v
}

/// What a layer made of the widgets, where it wants to be, and what it is now.
pub type Turn<W> = (Seq<WidgetEntry<W>>, StackIntent, Layer<W>);

/// The widgets after the first `i` layers had their turn.
pub open spec fn widgets_after<W>(ws: Seq<WidgetEntry<W>>, turns: Seq<Turn<W>>, i: int) -> Seq<
    WidgetEntry<W>,
> {
    if i <= 0 {
        ws
    } else {
        turns[i - 1].0
    }
}

/// The owners after the first `i` layers had their turn: each claimed the
/// widgets that it added.
pub open spec fn owners_after<W>(
    slots: Seq<LayerSlot<W>>,
    owners: Seq<(&'static str, LayerId)>,
    ws: Seq<WidgetEntry<W>>,
    turns: Seq<Turn<W>>,
    i: int,
) -> Seq<(&'static str, LayerId)>
    decreases i,
{
    if i <= 0 {
        owners
    } else {
        claimed(
            owners_after(slots, owners, ws, turns, i - 1),
            names(widgets_after(ws, turns, i - 1)),
            turns[i - 1].0,
            slots[i - 1].id,
        )
    }
}

/// Where the layers want to be.
pub open spec fn intents_of<W>(turns: Seq<Turn<W>>) -> Seq<StackIntent> {
    turns.map_values(|t: Turn<W>| t.1)
}

/// The slots with the layers as they are after their turns.
pub open spec fn after_turns<W>(slots: Seq<LayerSlot<W>>, turns: Seq<Turn<W>>) -> Seq<
    LayerSlot<W>,
> {
    Seq::new(slots.len(), |i: int| LayerSlot { layer: turns[i].2, ..slots[i] })
}

/// Every layer, told about itself, did in its turn what it may do.
pub open spec fn turns_taken<W>(
    d: Display<W>,
    ws: Seq<WidgetEntry<W>>,
    turns: Seq<Turn<W>>,
) -> bool {
    forall|i: int|
        0 <= i < turns.len() ==> d.slots@[i].layer.contributes(
            told_of(d, d.slots@[i].id),
            widgets_after(ws, turns, i),
            (#[trigger] turns[i]).0,
            turns[i].1,
            turns[i].2,
        )
}

/// What a frame does, where `turns` are what the layers did from the bottom to
/// the top and `hides` says which of them want no button while they have no
/// widgets.
pub open spec fn framed<W>(
    before: Display<W>,
    ws: Seq<WidgetEntry<W>>,
    turns: Seq<Turn<W>>,
    hides: Seq<bool>,
    after: Display<W>,
    ws_after: Seq<WidgetEntry<W>>,
) -> bool {
    let n = before.slots@.len() as int;
    let known = claimed(before.owners@, Seq::empty(), ws, LayerId(0));
    let contributed = widgets_after(ws, turns, n);
    let screen = screen_of(before.terminal_area, ws);
    &&& turns.len() == n
    &&& turns_taken(Display { terminal_area: screen, ..before }, ws, turns)
    &&& hides.len() == n
    &&& forall|i: int| 0 <= i < n ==> after.slots@[i].layer.hides(#[trigger] hides[i])
    &&& top_told(
        restacked(after_turns(before.slots@, turns), intents_of(turns)),
        topped_by_another(before.slots@, intents_of(turns)),
        after.slots@,
    )
    &&& after.owners@ == owners_after(before.slots@, known, ws, turns, n)
    &&& after.cached_widgets@ == cached_from(after.owners@, contributed)
    &&& after.terminal_area == screen
    &&& after.taskbar@ == buttons(after.slots@, after.cached_widgets@, hides, screen, n)
    &&& ws_after == dressed(after.slots@, after.owners@, after.palette@, contributed, n)
        + button_widgets(after.slots@, after.palette@, after.cached_widgets@, hides, screen, n)
    &&& after.next_id == before.next_id
    &&& after.palette == before.palette
    &&& after.grabbed == before.grabbed
    &&& after.free_slots == before.free_slots
    &&& after.next_slot == before.next_slot
}

/// Restacking does not go by the priorities.
proof fn lemma_restacked_same<W>(a: Seq<LayerSlot<W>>, turns: Seq<Turn<W>>)
    requires
        a.len() == turns.len(),
        a.len() > 0,
    ensures
        restacked(after_turns(renumbered(a), turns), intents_of(turns)) == restacked(
            after_turns(a, turns),
            intents_of(turns),
        ),
        topped_by_another(after_turns(renumbered(a), turns), intents_of(turns))
            == topped_by_another(a, intents_of(turns)),
{
    let intents = intents_of(turns);
    lemma_wanted_order(intents);
    let order = wanted_order(intents);
    let (x, y) = (after_turns(renumbered(a), turns), after_turns(a, turns));
    assert forall|i: int| 0 <= i < order.len() implies #[trigger] restacked(x, intents)[i]
        == restacked(y, intents)[i] by {
        assert(0 <= order[i] < a.len());
    }
    assert(restacked(x, intents) =~= restacked(y, intents));
    let last = order.len() - 1;
    assert(0 <= order[last] < a.len());
    assert(restacked(x, intents)[last].id == restacked(a, intents)[last].id);
}

impl<W> Display<W> {
    /// Gives every layer its turn to contribute widgets, from the bottom to the
    /// top.
    fn take_turns(&mut self, widgets: &mut Vec<WidgetEntry<W>>) -> (r: (
        Vec<StackIntent>,
        Ghost<Seq<Turn<W>>>,
    ))
        requires
            old(self).wf(),
        ensures
            final(self).wf(),
            r.1@.len() == old(self).slots@.len(),
            r.0@ == intents_of(r.1@),
            turns_taken(*old(self), old(widgets)@, r.1@),
            final(self).slots@ == after_turns(old(self).slots@, r.1@),
            final(widgets)@ == widgets_after(
                old(widgets)@,
                r.1@,
                old(self).slots@.len() as int,
            ),
            final(self).owners@ == owners_after(
                old(self).slots@,
                old(self).owners@,
                old(widgets)@,
                r.1@,
                old(self).slots@.len() as int,
            ),
            *final(self) == (Display {
                slots: final(self).slots,
                owners: final(self).owners,
                ..*old(self)
            }),
    {
        let mut intents: Vec<StackIntent> = Vec::new();
        let ghost mut turns: Seq<Turn<W>> = Seq::empty();
        let ghost slots = self.slots@;
        let mut i: usize = 0;
        while i < self.slots.len()
            invariant
                self.wf(),
                slots == old(self).slots@,
                i <= slots.len(),
                turns.len() == i,
                intents@ == intents_of(turns),
                turns_taken(*old(self), old(widgets)@, turns),
                self.slots@.len() == slots.len(),
                forall|j: int| i <= j < slots.len() ==> #[trigger] self.slots@[j] == slots[j],
                forall|j: int|
                    0 <= j < i ==> #[trigger] self.slots@[j] == (LayerSlot {
                        layer: turns[j].2,
                        ..slots[j]
                    }),
                widgets@ == widgets_after(old(widgets)@, turns, i as int),
                self.owners@ == owners_after(
                    slots,
                    old(self).owners@,
                    old(widgets)@,
                    turns,
                    i as int,
                ),
                *self == (Display { slots: self.slots, owners: self.owners, ..*old(self) }),
            decreases slots.len() - i,
        {
            let known = names_of(widgets);
            let id = self.slots[i].id;
            let ctx = self.context(id);
            let ghost before = *self;
            let ghost earlier = turns;
            let intent = self.slots[i].layer.on_overlay(&ctx, widgets);
            proof {
                assert(same_but_layers(before.slots@, self.slots@));
                lemma_same_slots_wf(before, *self);
                assert(self.slots@[i as int].id == id);
                turns = turns.push((widgets@, intent, self.slots@[i as int].layer));
                lemma_owners_after_prefix(
                    slots,
                    old(self).owners@,
                    old(widgets)@,
                    earlier,
                    turns,
                    i as int,
                );
            }
            self.claim(&known, widgets, id);
            intents.push(intent);
            assert(intents@ =~= intents_of(turns));
            i += 1;
        }
        assert(self.slots@ =~= after_turns(old(self).slots@, turns));
        (intents, Ghost(turns))
    }

    /// Puts together what the screen shows from the widgets that the layers
    /// contributed, where `hides` says which layers want no button while they
    /// have no widgets.
    pub fn compose(&mut self, hides: &Vec<bool>, widgets: &mut Vec<WidgetEntry<W>>)
        requires
            old(self).wf(),
            hides@.len() == old(self).slots@.len(),
        ensures
            final(self).wf(),
            final(self).cached_widgets@ == cached_from(old(self).owners@, old(widgets)@),
            final(self).taskbar@ == buttons(
                old(self).slots@,
                final(self).cached_widgets@,
                hides@,
                old(self).terminal_area,
                old(self).slots@.len() as int,
            ),
            final(widgets)@ == dressed(
                old(self).slots@,
                old(self).owners@,
                old(self).palette@,
                old(widgets)@,
                old(self).slots@.len() as int,
            ) + button_widgets(
                old(self).slots@,
                old(self).palette@,
                final(self).cached_widgets@,
                hides@,
                old(self).terminal_area,
                old(self).slots@.len() as int,
            ),
            *final(self) == (Display {
                cached_widgets: final(self).cached_widgets,
                taskbar: final(self).taskbar,
                ..*old(self)
            }),
    {
        self.remember(widgets);
        let mut all: Vec<WidgetEntry<W>> = Vec::new();
        std::mem::swap(widgets, &mut all);
        *widgets = self.dress(all);
        self.lay_taskbar(hides, widgets);
    }

    /// Runs one frame: the layers contribute their widgets, which are brought
    /// into the order of the stack, and the taskbar is laid out. What the
    /// layers contribute, where they want to be and whether they want a button
    /// while they have no widgets is up to them.
    pub fn frame(&mut self, widgets: &mut Vec<WidgetEntry<W>>)
        requires
            old(self).wf(),
            widget_named(old(widgets)@, WIDGET_INPUT@, 0) matches Some(k) ==> old(
                widgets,
            )@[k].area.fits(),
        ensures
            final(self).wf(),
            exists|turns: Seq<Turn<W>>, hides: Seq<bool>| #[trigger]
                framed(
                    *old(self),
                    old(widgets)@,
                    turns,
                    hides,
                    *final(self),
                    final(widgets)@,
                ),
    {
        self.measure(widgets);
        let ghost measured = *self;
        self.renumber();
        proof {
            assert(self.slots.len() == self.slots@.len());
            lemma_reordered_wf(measured, *self, |i: int| i, |i: int| i);
        }
        let none: Vec<&'static str> = Vec::new();
        assert(none@ =~= Seq::empty());
        self.claim(&none, widgets, LayerId(0));
        let ghost begun = *self;
        let (intents, Ghost(turns)) = self.take_turns(widgets);
        let ghost contributed = widgets@;
        let ghost taken = *self;
        self.restack(&intents);
        proof {
            let n = old(self).slots@.len() as int;
            lemma_restacked_same(old(self).slots@, turns);
            lemma_owners_after_ids(
                old(self).slots@,
                begun.slots@,
                begun.owners@,
                old(widgets)@,
                turns,
                n,
            );
        }
        let hides = self.hiding();
        self.compose(&hides, widgets);
        proof {
            lemma_wanted_order(intents@);
            assert(framed(*old(self), old(widgets)@, turns, hides@, *self, widgets@));
        }
    }
}

proof fn lemma_owners_after_prefix<W>(
    slots: Seq<LayerSlot<W>>,
    owners: Seq<(&'static str, LayerId)>,
    ws: Seq<WidgetEntry<W>>,
    a: Seq<Turn<W>>,
    b: Seq<Turn<W>>,
    i: int,
)
    requires
        0 <= i <= a.len() <= b.len(),
        forall|j: int| 0 <= j < a.len() ==> #[trigger] a[j] == b[j],
    ensures
        owners_after(slots, owners, ws, a, i) == owners_after(slots, owners, ws, b, i),
        widgets_after(ws, a, i) == widgets_after(ws, b, i),
    decreases i,
{
    if i > 0 {
        lemma_owners_after_prefix(slots, owners, ws, a, b, i - 1);
        assert(a[i - 1] == b[i - 1]);
    }
}

proof fn lemma_owners_after_ids<W>(
    a: Seq<LayerSlot<W>>,
    b: Seq<LayerSlot<W>>,
    owners: Seq<(&'static str, LayerId)>,
    ws: Seq<WidgetEntry<W>>,
    turns: Seq<Turn<W>>,
    i: int,
)
    requires
        0 <= i <= a.len(),
        b == renumbered(a),
    ensures
        owners_after(a, owners, ws, turns, i) == owners_after(b, owners, ws, turns, i),
    decreases i,
{
    if i > 0 {
        lemma_owners_after_ids(a, b, owners, ws, turns, i - 1);
    }
}

} // verus!
