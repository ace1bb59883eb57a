//! What a frame shows, and who owns what of it, in terms of widgets and layers.

use crate::display::frame::{
    after_turns, backdrop_of, backdrops, button_area, button_widget, button_widgets, buttons,
    cached_from, claimed, dressed, framed, group, intents_of, lemma_places, lemma_wanted_order, names,
    owner_or_builtin, owners_after, restacked, strip_start, total_places, wanted_order, widget_named,
    widgets_after, Turn, WIDGET_BACKDROP, WIDGET_TASKBAR,
};
use crate::display::palette::{color_count, palette_of};
use crate::display::routing::told_of;
use crate::display::{
    added, color_of, label_for, owner, removed, Content, Display, Layer, LayerId, LayerSlot,
    StackIntent, Told, WidgetEntry, WIDGET_INPUT,
};
use crate::geometry::{Color, Rect};
use vstd::prelude::*;
use vstd::string::*;

verus! {

/// The screen reaches from the origin to the far corner of the input line, which
/// is at its bottom; without an input line it is what it was.
pub proof fn law_screen_ends_with_input_line<W>(
    before: Display<W>,
    ws: Seq<WidgetEntry<W>>,
    turns: Seq<Turn<W>>,
    hides: Seq<bool>,
    after: Display<W>,
    ws_after: Seq<WidgetEntry<W>>,
    k: int,
)
    requires
        framed(before, ws, turns, hides, after, ws_after),
    ensures
        0 <= k < ws.len() && ws[k].name@ == WIDGET_INPUT@ && (forall|j: int|
            0 <= j < k ==> (#[trigger] ws[j]).name@ != WIDGET_INPUT@) && ws[k].area.fits() ==> {
            &&& after.terminal_area.x == 0 && after.terminal_area.y == 0
            &&& after.terminal_area.width == ws[k].area.width
            &&& after.terminal_area.height == ws[k].area.y + ws[k].area.height
        },
        (forall|j: int| 0 <= j < ws.len() ==> (#[trigger] ws[j]).name@ != WIDGET_INPUT@)
            ==> after.terminal_area == before.terminal_area,
{
    if 0 <= k < ws.len() && ws[k].name@ == WIDGET_INPUT@ && (forall|j: int|
        0 <= j < k ==> (#[trigger] ws[j]).name@ != WIDGET_INPUT@) {
        lemma_widget_named(ws, WIDGET_INPUT@, 0, k);
    }
    if forall|j: int| 0 <= j < ws.len() ==> (#[trigger] ws[j]).name@ != WIDGET_INPUT@ {
        lemma_none_named(ws, WIDGET_INPUT@, 0);
    }
}

proof fn lemma_widget_named<W>(ws: Seq<WidgetEntry<W>>, name: Seq<char>, i: int, k: int)
    requires
        0 <= i <= k < ws.len(),
        ws[k].name@ == name,
        forall|j: int| i <= j < k ==> (#[trigger] ws[j]).name@ != name,
    ensures
        widget_named(ws, name, i) == Some(k),
    decreases k - i,
{
    if i < k {
        assert(ws[i].name@ != name);
        lemma_widget_named(ws, name, i + 1, k);
    }
}

proof fn lemma_none_named<W>(ws: Seq<WidgetEntry<W>>, name: Seq<char>, i: int)
    requires
        forall|j: int| 0 <= j < ws.len() ==> (#[trigger] ws[j]).name@ != name,
    ensures
        widget_named(ws, name, i) is None,
    decreases ws.len() - i,
{
    if 0 <= i < ws.len() {
        lemma_none_named(ws, name, i + 1);
    }
}

/// A layer comes to own the widgets that it has added and that nobody owned: not
/// those that were there before its turn, and not those that another layer owns.
/// What is owned stays owned.
pub proof fn law_widgets_belong_to_who_added_them<W>(
    owners: Seq<(&'static str, LayerId)>,
    known: Seq<&'static str>,
    ws: Seq<WidgetEntry<W>>,
    id: LayerId,
    name: Seq<char>,
)
    ensures
        ({
            let now = owner(claimed(owners, known, ws, id), name, 0);
            let there = exists|i: int| 0 <= i < ws.len() && (#[trigger] ws[i]).name@ == name;
            let old_one = exists|i: int| 0 <= i < known.len() && (#[trigger] known[i])@ == name;
            &&& owner(owners, name, 0) is Some ==> now == owner(owners, name, 0)
            &&& owner(owners, name, 0) is None && there && !old_one ==> now == Some(id)
            &&& owner(owners, name, 0) is None && (!there || old_one) ==> now is None
        }),
    decreases ws.len(),
{
    if ws.len() > 0 {
        let less = ws.drop_last();
        law_widgets_belong_to_who_added_them(owners, known, less, id, name);
        let rest = claimed(owners, known, less, id);
        let last = ws.last().name;
        lemma_owner_push(rest, last, id, name, 0);
        if exists|i: int| 0 <= i < less.len() && (#[trigger] less[i]).name@ == name {
            let i = choose|i: int| 0 <= i < less.len() && (#[trigger] less[i]).name@ == name;
            assert(ws[i].name@ == name);
        }
        if last@ == name {
            assert(ws[ws.len() - 1].name@ == name);
        } else if exists|i: int| 0 <= i < ws.len() && (#[trigger] ws[i]).name@ == name {
            let i = choose|i: int| 0 <= i < ws.len() && (#[trigger] ws[i]).name@ == name;
            assert(less[i].name@ == name);
        }
    }
}

proof fn lemma_owner_push(
    owners: Seq<(&'static str, LayerId)>,
    name: &'static str,
    id: LayerId,
    sought: Seq<char>,
    i: int,
)
    requires
        0 <= i,
    ensures
        owner(owners.push((name, id)), sought, i) == if owner(owners, sought, i) is Some {
            owner(owners, sought, i)
        } else if i <= owners.len() && name@ == sought {
            Some(id)
        } else {
            None
        },
    decreases owners.len() - i,
{
    let more = owners.push((name, id));
    if i < owners.len() {
        assert(more[i] == owners[i]);
        lemma_owner_push(owners, name, id, sought, i + 1);
    } else if i == owners.len() {
        assert(more[i] == (name, id));
        assert(owner(more, sought, i + 1) is None);
    }
}

/// A layer owns what its name is entered for first.
pub proof fn law_first_entry_owns(
    owners: Seq<(&'static str, LayerId)>,
    name: Seq<char>,
    k: int,
)
    requires
        0 <= k < owners.len(),
        owners[k].0@ == name,
        forall|j: int| 0 <= j < k ==> (#[trigger] owners[j]).0@ != name,
    ensures
        owner(owners, name, 0) == Some(owners[k].1),
{
    lemma_first_entry(owners, name, 0, k);
}

proof fn lemma_first_entry(owners: Seq<(&'static str, LayerId)>, name: Seq<char>, i: int, k: int)
    requires
        0 <= i <= k < owners.len(),
        owners[k].0@ == name,
        forall|j: int| i <= j < k ==> (#[trigger] owners[j]).0@ != name,
    ensures
        owner(owners, name, i) == Some(owners[k].1),
    decreases k - i,
{
    if i < k {
        assert(owners[i].0@ != name);
        lemma_first_entry(owners, name, i + 1, k);
    }
}

/// What is kept of a frame is where each owned widget was shown, with its owner:
/// every one of them, and nothing else.
pub proof fn law_frame_keeps_where_widgets_are<W>(
    owners: Seq<(&'static str, LayerId)>,
    ws: Seq<WidgetEntry<W>>,
    i: int,
    j: int,
)
    ensures
        0 <= i < ws.len() && owner(owners, ws[i].name@, 0) is Some ==> cached_from(
            owners,
            ws,
        ).contains((owner(owners, ws[i].name@, 0)->Some_0, ws[i].name, ws[i].area)),
        0 <= j < cached_from(owners, ws).len() ==> exists|w: int|
            0 <= w < ws.len() && (#[trigger] ws[w]).name == cached_from(owners, ws)[j].1
                && ws[w].area == cached_from(owners, ws)[j].2 && owner(owners, ws[w].name@, 0)
                == Some(cached_from(owners, ws)[j].0),
    decreases ws.len(),
{
    if ws.len() > 0 {
        let less = ws.drop_last();
        let (rest, all) = (cached_from(owners, less), cached_from(owners, ws));
        law_frame_keeps_where_widgets_are(owners, less, i, j);
        if 0 <= i < less.len() && owner(owners, ws[i].name@, 0) is Some {
            let entry = (owner(owners, ws[i].name@, 0)->Some_0, ws[i].name, ws[i].area);
            let at = choose|at: int| 0 <= at < rest.len() && rest[at] == entry;
            assert(all[at] == entry);
        } else if i == less.len() && owner(owners, ws[i].name@, 0) is Some {
            assert(all[all.len() - 1] == (
                owner(owners, ws[i].name@, 0)->Some_0,
                ws[i].name,
                ws[i].area,
            ));
        }
        if 0 <= j < all.len() {
            if j < rest.len() {
                let w = choose|w: int|
                    0 <= w < less.len() && (#[trigger] less[w]).name == rest[j].1 && less[w].area
                        == rest[j].2 && owner(owners, less[w].name@, 0) == Some(rest[j].0);
                assert(ws[w].name == all[j].1);
            } else {
                assert(ws[ws.len() - 1].name == all[j].1);
            }
        }
    }
}

/// Where a layer wants to be, as a height.
pub open spec fn height_wanted(intent: StackIntent) -> int {
    match intent {
        StackIntent::Bottom => 0,
        StackIntent::Keep => 1,
        StackIntent::Top => 2,
    }
}

/// Layers that want to be at the top come above all others and those that want to
/// be at the bottom below all others; layers that want the same keep their order, and
/// no layer is lost. Of two places in the new stack, tells which layers are there.
pub proof fn law_layers_go_where_they_want<W>(
    slots: Seq<LayerSlot<W>>,
    intents: Seq<StackIntent>,
    a: int,
    b: int,
) -> (r: (int, int))
    requires
        intents.len() == slots.len(),
        0 <= a < b < slots.len(),
    ensures
        restacked(slots, intents).len() == slots.len(),
        0 <= r.0 < slots.len(),
        0 <= r.1 < slots.len(),
        restacked(slots, intents)[a].id == slots[r.0].id,
        restacked(slots, intents)[a].layer == slots[r.0].layer,
        restacked(slots, intents)[b].id == slots[r.1].id,
        restacked(slots, intents)[b].layer == slots[r.1].layer,
        height_wanted(intents[r.0]) < height_wanted(intents[r.1]) || (height_wanted(intents[r.0])
            == height_wanted(intents[r.1]) && r.0 < r.1),
{
    lemma_wanted_order(intents);
    let order = wanted_order(intents);
    lemma_places(intents, StackIntent::Bottom);
    lemma_places(intents, StackIntent::Keep);
    lemma_places(intents, StackIntent::Top);
    (order[a], order[b])
}

/// A layer shows the widgets that it owns, in the order in which they were
/// contributed; what nobody owns is shown with the log.
pub proof fn law_layer_shows_its_own<W>(
    owners: Seq<(&'static str, LayerId)>,
    ws: Seq<WidgetEntry<W>>,
    id: LayerId,
)
    ensures
        group(owners, ws, id) == ws.filter(
            |w: WidgetEntry<W>|
                match owner(owners, w.name@, 0) {
                    Some(owned) => owned == id,
                    None => id == LayerId(0),
                },
        ),
    decreases ws.len(),
{
    let own = |w: WidgetEntry<W>|
        match owner(owners, w.name@, 0) {
            Some(owned) => owned == id,
            None => id == LayerId(0),
        };
    reveal(Seq::filter);
    if ws.len() > 0 {
        law_layer_shows_its_own(owners, ws.drop_last(), id);
        assert(own(ws.last()) == (owner_or_builtin(owners, ws.last().name@) == id));
    }
    assert(group(owners, ws, id) =~= ws.filter(own));
}

/// Higher layers are drawn over lower ones: what the lowest layers show comes
/// first, then the cleared cells behind each widget of the next layer, in its color,
/// and then its widgets, so that no backdrop covers a widget of its own layer.
pub proof fn law_higher_layers_are_drawn_over<W>(
    slots: Seq<LayerSlot<W>>,
    owners: Seq<(&'static str, LayerId)>,
    palette: Seq<Color>,
    ws: Seq<WidgetEntry<W>>,
    n: int,
    i: int,
)
    requires
        0 < n <= slots.len(),
        slots[n - 1].id != LayerId(0) ==> palette.len() > 0,
    ensures
        ({
            let id = slots[n - 1].id;
            let own = group(owners, ws, id);
            let below = dressed(slots, owners, palette, ws, n - 1);
            let all = dressed(slots, owners, palette, ws, n);
            let from = below.len() as int;
            let over = from + own.len();
            &&& all.len() == over + own.len()
            &&& all.take(from) == below
            &&& all.skip(over) == own
            &&& 0 <= i < own.len() ==> {
                let back = all[from + i];
                &&& back.area == own[i].area
                &&& back.name == WIDGET_BACKDROP
                &&& back.widget matches Content::Backdrop(color)
                &&& id == LayerId(0) ==> color == Color::Reset
                &&& id != LayerId(0) ==> color_of(palette, id) == Some(color)
            }
        }),
{
    let id = slots[n - 1].id;
    let own = group(owners, ws, id);
    let below = dressed(slots, owners, palette, ws, n - 1);
    let behind = backdrops(own, backdrop_of(palette, id));
    let all = dressed(slots, owners, palette, ws, n);
    let from = below.len() as int;
    assert(behind.len() == own.len());
    assert(all == below + behind + own);
    assert(all.take(from) =~= below);
    assert(all.skip(from + own.len()) =~= own);
    if 0 <= i < own.len() {
        assert(all[from + i] == behind[i]);
    }
}

/// A button is three cells in the bottom row of the screen, four cells from the
/// one of the next place; the strip of all places is in the middle of the row, as far
/// as it fits, and begins at the left where it does not.
pub proof fn law_taskbar_is_centered(screen: Rect, total: int, place: int)
    requires
        screen.x == 0 && screen.y == 0,
        0 <= place < total <= 16000,
        screen.height > 0,
    ensures
        ({
            let b = button_area(screen, total, place);
            let first = button_area(screen, total, 0);
            let end = button_area(screen, total, total - 1);
            let right = screen.width - (end.x + end.width);
            &&& b.width == 3 && b.height == 1
            &&& b.y == screen.height - 1
            &&& b.x == first.x + 4 * place
            &&& 4 * total - 1 <= screen.width ==> first.x <= right <= first.x + 1
            &&& 4 * total - 1 >= screen.width ==> first.x == 0
        }),
{
    let strip = 4 * total - 1;
    assert(0 <= strip_start(screen, total) <= screen.width);
}

/// The strip has a place for every layer and none beyond the last that is taken.
pub proof fn law_strip_ends_with_last_place<W>(slots: Seq<LayerSlot<W>>)
    ensures
        forall|i: int| 0 <= i < slots.len() ==> (#[trigger] slots[i]).button < total_places(slots),
        slots.len() > 0 ==> exists|i: int|
            0 <= i < slots.len() && (#[trigger] slots[i]).button + 1 == total_places(slots),
        slots.len() == 0 ==> total_places(slots) == 0,
    decreases slots.len(),
{
    if slots.len() > 0 {
        let rest = slots.drop_last();
        law_strip_ends_with_last_place(rest);
        assert forall|i: int| 0 <= i < slots.len() implies (#[trigger] slots[i]).button
            < total_places(slots) by {
            if i < rest.len() {
                assert(rest[i] == slots[i]);
            }
        }
        if slots.last().button < total_places(rest) {
            let i = choose|i: int|
                0 <= i < rest.len() && (#[trigger] rest[i]).button + 1 == total_places(rest);
            assert(slots[i].button + 1 == total_places(slots));
        } else {
            assert(slots[slots.len() - 1].button + 1 == total_places(slots));
        }
    }
}

/// Every layer has its button, but for one that wants none while it has no
/// widgets and has none; no other button is there. What is drawn is what can be
/// pressed.
pub proof fn law_a_button_for_every_layer<W>(
    slots: Seq<LayerSlot<W>>,
    palette: Seq<Color>,
    cached: Seq<(LayerId, &'static str, Rect)>,
    hides: Seq<bool>,
    screen: Rect,
    n: int,
    i: int,
    j: int,
)
    requires
        0 <= n <= slots.len(),
    ensures
        ({
            let bar = buttons(slots, cached, hides, screen, n);
            let drawn = button_widgets(slots, palette, cached, hides, screen, n);
            let total = total_places(slots);
            &&& drawn.len() == bar.len()
            &&& 0 <= j < bar.len() ==> drawn[j].area == bar[j].1 && drawn[j].name == WIDGET_TASKBAR
            &&& 0 <= i < n && (!hides[i] || exists|w: int|
                0 <= w < cached.len() && (#[trigger] cached[w]).0 == slots[i].id) ==> bar.contains(
                (slots[i].id, button_area(screen, total, slots[i].button as int)),
            )
            &&& 0 <= j < bar.len() ==> exists|k: int|
                0 <= k < n && (#[trigger] slots[k]).id == bar[j].0 && bar[j].1 == button_area(
                    screen,
                    total,
                    slots[k].button as int,
                ) && drawn[j] == button_widget(slots, palette, screen, k) && (hides[k] ==> exists|
                    w: int,
                |
                    0 <= w < cached.len() && (#[trigger] cached[w]).0 == slots[k].id)
        }),
    decreases n,
{
    if n > 0 {
        law_a_button_for_every_layer(slots, palette, cached, hides, screen, n - 1, i, j);
        lemma_has_widgets(cached, slots[n - 1].id);
        let bar = buttons(slots, cached, hides, screen, n);
        let rest = buttons(slots, cached, hides, screen, n - 1);
        let total = total_places(slots);
        if 0 <= i < n && (!hides[i] || exists|w: int|
            0 <= w < cached.len() && (#[trigger] cached[w]).0 == slots[i].id) {
            let entry = (slots[i].id, button_area(screen, total, slots[i].button as int));
            if i == n - 1 {
                assert(bar[bar.len() - 1] == entry);
            } else {
                let at = choose|at: int| 0 <= at < rest.len() && rest[at] == entry;
                assert(bar[at] == entry);
            }
        }
        if 0 <= j < bar.len() && j >= rest.len() {
            assert(slots[n - 1].id == bar[j].0);
        }
    }
}

proof fn lemma_has_widgets(cached: Seq<(LayerId, &'static str, Rect)>, id: LayerId)
    ensures
        crate::display::routing::widgets_of(cached, id).len() > 0 <==> exists|w: int|
            0 <= w < cached.len() && (#[trigger] cached[w]).0 == id,
    decreases cached.len(),
{
    if cached.len() > 0 {
        let rest = cached.drop_last();
        lemma_has_widgets(rest, id);
        if cached.last().0 == id {
            assert(cached[cached.len() - 1].0 == id);
        } else if exists|w: int| 0 <= w < cached.len() && (#[trigger] cached[w]).0 == id {
            let w = choose|w: int| 0 <= w < cached.len() && (#[trigger] cached[w]).0 == id;
            assert(rest[w].0 == id);
        }
        if exists|w: int| 0 <= w < rest.len() && (#[trigger] rest[w]).0 == id {
            let w = choose|w: int| 0 <= w < rest.len() && (#[trigger] rest[w]).0 == id;
            assert(cached[w].0 == id);
        }
    }
}

/// A button shows the label of its layer in the layer's color, a dark gray for the
/// log; that of the layer on top, and no other, is bold.
pub proof fn law_button_tells_its_layer<W>(
    slots: Seq<LayerSlot<W>>,
    palette: Seq<Color>,
    screen: Rect,
    i: int,
)
    requires
        0 <= i < slots.len(),
    ensures
        button_widget(slots, palette, screen, i).widget matches Content::Button {
            label,
            color,
            bold,
        } && label == slots[i].label && (bold <==> i == slots.len() - 1) && (slots[i].id
            == LayerId(0) ==> color == Color::DarkGray) && (color_of(palette, slots[i].id) matches Some(
            c,
        ) ==> color == c),
{
}

/// A layer that asks for a label has it; the others are lettered by their numbers,
/// from `a` to `z` and round again.
pub proof fn law_labels_go_round(c: char, n: int)
    requires
        n >= 1,
    ensures
        c != '\0' ==> label_for(c, n) == c,
        label_for('\0', 1) == 'a',
        label_for('\0', 26) == 'z',
        label_for('\0', n + 26) == label_for('\0', n),
        n < 26 ==> label_for('\0', n + 1) as int == label_for('\0', n) as int + 1,
{
    assert((n + 26 - 1) % 26 == (n - 1) % 26);
}

/// Layers take the colors of the palette in turn, the first layer the first, and
/// begin again where the palette ends; the log has none.
pub proof fn law_colors_go_round(palette: Seq<Color>, n: u64)
    requires
        palette.len() > 0,
        1 <= n,
        n + palette.len() <= usize::MAX,
        palette.len() <= u64::MAX,
        n + palette.len() <= u64::MAX,
    ensures
        n <= palette.len() ==> color_of(palette, LayerId(n)) == Some(palette[n - 1]),
        color_of(palette, LayerId((n + palette.len()) as u64)) == color_of(palette, LayerId(n)),
        color_of(palette, LayerId(0)) is None,
{
    let len = palette.len() as int;
    let k = n - 1;
    assert((k + len) % len == k % len) by (nonlinear_arith)
        requires
            len > 0,
            k >= 0,
    ;
    assert(k < len ==> k % len == k) by (nonlinear_arith)
        requires
            len > 0,
            k >= 0,
    ;
}

/// A layer that is added is on top, under a number that none before it had; the
/// others stay as they are, and so does who has the pointer.
pub proof fn law_added_is_on_top<W>(
    before: Display<W>,
    layer: Layer<W>,
    c: char,
    after: Display<W>,
)
    requires
        before.wf(),
        added(before, layer, c, after),
    ensures
        after.slots@.len() == before.slots@.len() + 1,
        after.slots@.drop_last() == before.slots@,
        after.slots@.last().layer == layer,
        forall|i: int|
            0 <= i < before.slots@.len() ==> (#[trigger] before.slots@[i]).id
                != after.slots@.last().id,
        after.slots@.last().id.0 == before.next_id + 1,
        c != '\0' ==> after.slots@.last().label == c,
        after.grabbed == before.grabbed,
        after.taskbar@ == before.taskbar@,
{
    assert(after.slots@.drop_last() =~= before.slots@);
}

/// Removing a layer takes it out of the stack and leaves the others as they are;
/// who else has the pointer keeps it.
pub proof fn law_removal_keeps_the_others<W>(
    before: Display<W>,
    k: int,
    after: Display<W>,
    i: int,
)
    requires
        0 <= k < before.slots@.len(),
        removed(before, k, after),
    ensures
        after.slots@.len() == before.slots@.len() - 1,
        0 <= i < k ==> after.slots@[i] == before.slots@[i],
        k <= i < after.slots@.len() ==> after.slots@[i] == before.slots@[i + 1],
        before.grabbed != Some(before.slots@[k].id) ==> after.grabbed == before.grabbed,
{
}

/// The colors of the layers differ from each other and from the terminal's own,
/// and there are eight of them.
pub proof fn law_palette_is_told_apart(count: int, i: int, j: int)
    ensures
        palette_of(count).len() == 8,
        0 <= i < j < 8 ==> palette_of(count)[i] != palette_of(count)[j],
        0 <= i < 8 ==> palette_of(count)[i] != Color::Reset,
        count <= 8 ==> palette_of(count)[6] == Color::Gray,
        count > 8 ==> palette_of(count)[6] == Color::DarkGray,
{
}

/// A terminal says how many colors it has: all of them where `COLORTERM` says so,
/// else the number in `TERM`, wherever in it that stands, else eight.
pub proof fn law_terminal_tells_its_colors(a: Seq<char>, b: Seq<char>, term: Option<Seq<char>>)
    ensures
        color_count(Some("truecolor"@), term) == 0x1000000,
        color_count(Some("24bit"@), term) == 0x1000000,
        color_count(None, Some(a + "256color"@ + b)) == 256,
        color_count(None, Some(a + "16color"@ + b)) >= 16,
        color_count(None, None) == 8,
{
    let many = "256color"@;
    let some = "16color"@;
    let (s, t) = (a + many + b, a + some + b);
    let n = a.len() as int;
    assert(s.subrange(n, n + many.len()) =~= many);
    assert(t.subrange(n, n + some.len()) =~= some);
    assert(crate::display::palette::occurs_at(many, s, n));
    assert(crate::display::palette::occurs_at(some, t, n));
}

/// `COLORTERM` is read whatever the case of its letters. Another value of it counts
/// as none, and a `TERM` that names neither 256 nor 16 colors stands for eight.
pub proof fn law_other_names_tell_no_colors(
    c: Seq<char>,
    known: Seq<char>,
    term: Option<Seq<char>>,
    t: Seq<char>,
)
    requires
        known == "truecolor"@ || known == "24bit"@,
    ensures
        c.len() == known.len() && (forall|i: int|
            0 <= i < c.len() ==> #[trigger] c[i] == known[i] || 'a' as int <= known[i] as int <= 'z'
                as int && c[i] as int + 32 == known[i] as int) ==> color_count(Some(c), term)
            == 0x1000000,
        c.len() != 9 && c.len() != 5 ==> color_count(Some(c), term) == color_count(None, term),
        (forall|i: int| 0 <= i <= t.len() - 8 ==> #[trigger] t.subrange(i, i + 8) != "256color"@)
            && (exists|i: int|
            0 <= i <= t.len() - 7 && #[trigger] t.subrange(i, i + 7) == "16color"@) ==> color_count(
            None,
            Some(t),
        ) == 16,
        (forall|i: int| 0 <= i <= t.len() - 8 ==> #[trigger] t.subrange(i, i + 8) != "256color"@)
            && (forall|i: int|
            0 <= i <= t.len() - 7 ==> #[trigger] t.subrange(i, i + 7) != "16color"@)
            ==> color_count(None, Some(t)) == 8,
{
    reveal_strlit("truecolor");
    reveal_strlit("24bit");
    reveal_strlit("256color");
    reveal_strlit("16color");
    if c.len() == known.len() && (forall|i: int|
        0 <= i < c.len() ==> #[trigger] c[i] == known[i] || 'a' as int <= known[i] as int <= 'z'
            as int && c[i] as int + 32 == known[i] as int) {
        assert(crate::display::palette::same_but_case(c, known));
    }
    if exists|i: int| 0 <= i <= t.len() - 7 && #[trigger] t.subrange(i, i + 7) == "16color"@ {
        let i = choose|i: int|
            0 <= i <= t.len() - 7 && #[trigger] t.subrange(i, i + 7) == "16color"@;
        assert(crate::display::palette::occurs_at("16color"@, t, i));
    }
}

/// A widget that nobody owned belongs to the layer that first contributed it in a
/// frame, and one that was there before any layer to the log; who owned a widget
/// before owns it after.
pub proof fn law_frame_attributes_widgets<W>(
    before: Display<W>,
    ws: Seq<WidgetEntry<W>>,
    turns: Seq<Turn<W>>,
    hides: Seq<bool>,
    after: Display<W>,
    ws_after: Seq<WidgetEntry<W>>,
    name: Seq<char>,
    i: int,
)
    requires
        framed(before, ws, turns, hides, after, ws_after),
    ensures
        owner(before.owners@, name, 0) is Some ==> owner(after.owners@, name, 0) == owner(
            before.owners@,
            name,
            0,
        ),
        owner(before.owners@, name, 0) is None && has_name(ws, name) ==> owner(
            after.owners@,
            name,
            0,
        ) == Some(LayerId(0)),
        owner(before.owners@, name, 0) is None && !has_name(ws, name) && 0 <= i < turns.len()
            && has_name(turns[i].0, name) && (forall|j: int|
            0 <= j < i ==> !has_name((#[trigger] turns[j]).0, name)) ==> owner(
            after.owners@,
            name,
            0,
        ) == Some(before.slots@[i].id),
{
    let known = claimed(before.owners@, Seq::empty(), ws, LayerId(0));
    let n = before.slots@.len() as int;
    law_widgets_belong_to_who_added_them(before.owners@, Seq::empty(), ws, LayerId(0), name);
    if owner(known, name, 0) is Some {
        lemma_owner_stays(before.slots@, known, ws, turns, name, 0, n);
    } else if 0 <= i < turns.len() && has_name(turns[i].0, name) && (forall|j: int|
        0 <= j < i ==> !has_name((#[trigger] turns[j]).0, name)) {
        lemma_unowned(before.slots@, known, ws, turns, name, i);
        let so_far = owners_after(before.slots@, known, ws, turns, i);
        let there = widgets_after(ws, turns, i);
        if i > 0 {
            assert(!has_name(turns[i - 1].0, name));
        }
        assert(!has_name(there, name));
        lemma_names(there, name);
        law_widgets_belong_to_who_added_them(
            so_far,
            names(there),
            turns[i].0,
            before.slots@[i].id,
            name,
        );
        lemma_owner_stays(before.slots@, known, ws, turns, name, i + 1, n);
    }
}

/// Whether a widget is called `name`.
pub open spec fn has_name<W>(ws: Seq<WidgetEntry<W>>, name: Seq<char>) -> bool {
    exists|i: int| 0 <= i < ws.len() && (#[trigger] ws[i]).name@ == name
}

proof fn lemma_names<W>(ws: Seq<WidgetEntry<W>>, name: Seq<char>)
    ensures
        (exists|i: int| 0 <= i < names(ws).len() && (#[trigger] names(ws)[i])@ == name) ==> has_name(
            ws,
            name,
        ),
{
    if exists|i: int| 0 <= i < names(ws).len() && (#[trigger] names(ws)[i])@ == name {
        let i = choose|i: int| 0 <= i < names(ws).len() && (#[trigger] names(ws)[i])@ == name;
        assert(ws[i].name@ == name);
    }
}

proof fn lemma_owner_stays<W>(
    slots: Seq<LayerSlot<W>>,
    owners: Seq<(&'static str, LayerId)>,
    ws: Seq<WidgetEntry<W>>,
    turns: Seq<Turn<W>>,
    name: Seq<char>,
    i: int,
    n: int,
)
    requires
        0 <= i <= n,
        owner(owners_after(slots, owners, ws, turns, i), name, 0) is Some,
    ensures
        owner(owners_after(slots, owners, ws, turns, n), name, 0) == owner(
            owners_after(slots, owners, ws, turns, i),
            name,
            0,
        ),
    decreases n - i,
{
    if i < n {
        lemma_owner_stays(slots, owners, ws, turns, name, i, n - 1);
        law_widgets_belong_to_who_added_them(
            owners_after(slots, owners, ws, turns, n - 1),
            names(widgets_after(ws, turns, n - 1)),
            turns[n - 1].0,
            slots[n - 1].id,
            name,
        );
    }
}

proof fn lemma_unowned<W>(
    slots: Seq<LayerSlot<W>>,
    owners: Seq<(&'static str, LayerId)>,
    ws: Seq<WidgetEntry<W>>,
    turns: Seq<Turn<W>>,
    name: Seq<char>,
    i: int,
)
    requires
        0 <= i <= turns.len(),
        owner(owners, name, 0) is None,
        forall|j: int| 0 <= j < i ==> !has_name((#[trigger] turns[j]).0, name),
    ensures
        owner(owners_after(slots, owners, ws, turns, i), name, 0) is None,
    decreases i,
{
    if i > 0 {
        lemma_unowned(slots, owners, ws, turns, name, i - 1);
        assert(!has_name(turns[i - 1].0, name));
        law_widgets_belong_to_who_added_them(
            owners_after(slots, owners, ws, turns, i - 1),
            names(widgets_after(ws, turns, i - 1)),
            turns[i - 1].0,
            slots[i - 1].id,
            name,
        );
    }
}

/// In a frame every layer has its turn, from the bottom of the stack to its top:
/// it is told about itself and the new screen, and adds to what the layers below it
/// left.
pub proof fn law_layers_take_turns_upwards<W>(
    before: Display<W>,
    ws: Seq<WidgetEntry<W>>,
    turns: Seq<Turn<W>>,
    hides: Seq<bool>,
    after: Display<W>,
    ws_after: Seq<WidgetEntry<W>>,
    i: int,
) -> (told: Told)
    requires
        framed(before, ws, turns, hides, after, ws_after),
        0 <= i < before.slots@.len(),
    ensures
        told.id == before.slots@[i].id,
        told.terminal_area == after.terminal_area,
        before.slots@[i].layer.contributes(
            told,
            if i == 0 {
                ws
            } else {
                turns[i - 1].0
            },
            turns[i].0,
            turns[i].1,
            turns[i].2,
        ),
{
    told_of(
        Display { terminal_area: after.terminal_area, ..before },
        before.slots@[i].id,
    )
}

/// The layer on top hears that it has come there where a frame brought it there,
/// and hears nothing where it was there already; the others hear nothing.
pub proof fn law_only_a_new_top_hears<W>(
    before: Display<W>,
    ws: Seq<WidgetEntry<W>>,
    turns: Seq<Turn<W>>,
    hides: Seq<bool>,
    after: Display<W>,
    ws_after: Seq<WidgetEntry<W>>,
    i: int,
)
    requires
        framed(before, ws, turns, hides, after, ws_after),
        0 <= i < before.slots@.len(),
        after.slots@.last().id == before.slots@[i].id,
        before.wf(),
    ensures
        i == before.slots@.len() - 1 ==> after.slots@.last().layer == turns[i].2,
        i < before.slots@.len() - 1 ==> turns[i].2.wakes(after.slots@.last().layer),
{
    let n = before.slots@.len() as int;
    let intents = intents_of(turns);
    let moved = after_turns(before.slots@, turns);
    let top = lemma_last_place(before.slots@, moved, intents);
    let up = restacked(moved, intents);
    assert(moved[top] == (LayerSlot { layer: turns[top].2, ..before.slots@[top] }));
    assert(up.len() == n);
    assert(after.slots@.last().id == up.last().id);
    if top < i {
        assert(crate::display::apart(before.slots@[top], before.slots@[i]));
    } else if i < top {
        assert(crate::display::apart(before.slots@[i], before.slots@[top]));
    }
    assert(top == i);
    assert(up.last().layer == turns[i].2);
    if i < n - 1 {
        assert(crate::display::apart(before.slots@[i], before.slots@[n - 1]));
    }
}

/// Which layer comes to the top, whatever the layers keep for themselves.
proof fn lemma_last_place<W>(
    slots: Seq<LayerSlot<W>>,
    moved: Seq<LayerSlot<W>>,
    intents: Seq<StackIntent>,
) -> (top: int)
    requires
        slots.len() > 0,
        moved.len() == slots.len(),
        intents.len() == slots.len(),
    ensures
        0 <= top < slots.len(),
        restacked(slots, intents).len() == slots.len(),
        restacked(moved, intents).len() == slots.len(),
        restacked(slots, intents).last().id == slots[top].id,
        restacked(moved, intents).last().id == moved[top].id,
        restacked(moved, intents).last().layer == moved[top].layer,
{
    lemma_wanted_order(intents);
    wanted_order(intents)[slots.len() - 1]
}

/// The layer of the log, as the display has it by itself, adds nothing, stays where
/// it is, passes every event, and keeps its button.
pub proof fn law_log_layer_is_passive<W>(
    told: Told,
    ws: Seq<WidgetEntry<W>>,
    ws_after: Seq<WidgetEntry<W>>,
    intent: StackIntent,
    ev: crate::event::Event,
    r: crate::display::EventResult,
    b: bool,
    next: Layer<W>,
)
    ensures
        Layer::<W>::Builtin.contributes(told, ws, ws_after, intent, next) ==> ws_after == ws
            && intent == StackIntent::Keep && next is Builtin,
        Layer::<W>::Builtin.may_answer(ev, told, r, next) ==> r
            == crate::display::EventResult::Pass && next is Builtin,
        Layer::<W>::Builtin.hides(b) ==> !b,
{
}

} // verus!
