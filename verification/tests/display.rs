//! The stack of layers: routing, priorities, attribution, backdrops, taskbar,
//! grab and rotation.

use servatui::display::palette::{detect_color_count, palette_for};
use servatui::display::routing::Route;
use servatui::display::{
    Content, Display, DisplayLayer, EventResult, Layer, LayerCtx, LayerId, StackIntent,
    WidgetEntry, WIDGET_INPUT, WIDGET_LOG,
};
use servatui::event::{
    Event, KeyCode, KeyEvent, KeyEventKind, Modifiers, MouseButton, MouseEvent, MouseEventKind,
};
use servatui::geometry::{Color, Rect};
use std::cell::RefCell;
use std::rc::Rc;

type Shown = &'static str;

fn key(code: KeyCode, modifiers: Modifiers) -> Event {
    Event::Key(KeyEvent::new(code, modifiers))
}

fn plain(code: KeyCode) -> Event {
    key(code, Modifiers::none())
}

fn shift(code: KeyCode) -> Event {
    let mut modifiers = Modifiers::none();
    modifiers.shift = true;
    key(code, modifiers)
}

fn mouse(kind: MouseEventKind, column: u16, row: u16) -> Event {
    Event::Mouse(MouseEvent { kind, column, row, modifiers: Modifiers::none() })
}

fn down(col: u16, row: u16) -> Event {
    mouse(MouseEventKind::Down(MouseButton::Left), col, row)
}

fn drag(col: u16, row: u16) -> Event {
    mouse(MouseEventKind::Drag(MouseButton::Left), col, row)
}

fn up(col: u16, row: u16) -> Event {
    mouse(MouseEventKind::Up(MouseButton::Left), col, row)
}

fn wheel(col: u16, row: u16) -> Event {
    mouse(MouseEventKind::ScrollUp, col, row)
}

fn rect(x: u16, y: u16, w: u16, h: u16) -> Rect {
    Rect::new(x, y, w, h)
}

fn widget(name: &'static str, area: Rect) -> WidgetEntry<Shown> {
    WidgetEntry { name, widget: Content::Own("x"), area }
}

fn builtin_frame() -> Vec<WidgetEntry<Shown>> {
    vec![widget(WIDGET_LOG, rect(0, 0, 80, 21)), widget(WIDGET_INPUT, rect(0, 21, 80, 3))]
}

struct Toy {
    widget_name: &'static str,
    area: Rect,
    keys: Vec<KeyCode>,
    swallow_mouse: bool,
    intent: StackIntent,
    hides: bool,
    label: char,
    log: Rc<RefCell<Vec<String>>>,
}

impl Toy {
    fn new(widget_name: &'static str, area: Rect) -> Self {
        Self {
            widget_name,
            area,
            keys: Vec::new(),
            swallow_mouse: false,
            intent: StackIntent::Keep,
            hides: false,
            label: '\0',
            log: Rc::new(RefCell::new(Vec::new())),
        }
    }

    fn swallow_keys(mut self, keys: &[KeyCode]) -> Self {
        self.keys = keys.to_vec();
        self
    }

    fn swallow_mouse(mut self) -> Self {
        self.swallow_mouse = true;
        self
    }
}

impl DisplayLayer<Shown> for Toy {
    fn on_overlay(
        &mut self,
        _ctx: &LayerCtx,
        widgets: &mut Vec<WidgetEntry<Shown>>,
    ) -> StackIntent {
        if self.area.width > 0 {
            widgets.push(widget(self.widget_name, self.area));
        }
        self.intent
    }

    fn on_active(&mut self) {
        self.log.borrow_mut().push("active".to_string());
    }

    fn hide_when_empty(&self) -> bool {
        self.hides
    }

    fn on_event(&mut self, ev: &Event, _ctx: &LayerCtx) -> EventResult {
        self.log.borrow_mut().push(format!("{ev:?}"));
        match ev {
            Event::Key(k) if k.kind == KeyEventKind::Press && self.keys.contains(&k.code) => {
                EventResult::Swallow
            }
            Event::Mouse(_) if self.swallow_mouse => EventResult::Swallow,
            _ => EventResult::Pass,
        }
    }

    fn tab_label(&self) -> char {
        self.label
    }
}

fn display_with(toys: Vec<Toy>) -> (Display<Shown>, Vec<LayerId>) {
    let mut display = Display::with_palette(palette_for(16));
    let ids = toys.into_iter().map(|t| display.add_layer(Layer::Own(Box::new(t)))).collect();
    (display, ids)
}

#[test]
fn palette_uses_all_colors_when_8_or_fewer() {
    let p8 = palette_for(8);
    assert_eq!(p8.len(), 8);
    assert!(p8.contains(&Color::Gray));
    assert!(!p8.contains(&Color::DarkGray));

    let p16 = palette_for(16);
    assert_eq!(p16.len(), 8);
    assert!(p16.contains(&Color::DarkGray));
    assert!(!p16.contains(&Color::Gray));
}

#[test]
fn colors_map_onto_continuous_layer_ids() {
    let palette = palette_for(16);
    let mut display = Display::with_palette(palette.clone());
    for i in 0..(palette.len() * 2) {
        let id = display.add_layer(Layer::Own(Box::new(Toy::new("x", rect(0, 0, 1, 1)))));
        assert_eq!(display.layer_color(id), Some(palette[i % palette.len()]));
    }
    let (display, _) = display_with(vec![]);
    assert_eq!(display.owner_of(WIDGET_LOG), None);
}

#[test]
fn detect_color_count_is_sane() {
    let n = detect_color_count(None, None);
    assert!(n >= 8, "fallback must be at least 8, got {n}");
    assert_eq!(detect_color_count(Some("truecolor".into()), None), 1 << 24);
    assert_eq!(detect_color_count(None, Some("xterm-256color".into())), 256);
}

#[test]
fn activation_raises_and_collapse_keeps_priorities_adjacent() {
    let (mut display, ids) = display_with(vec![
        Toy::new("a", rect(0, 0, 5, 5)),
        Toy::new("b", rect(0, 6, 5, 5)),
        Toy::new("c", rect(0, 12, 5, 5)),
    ]);
    let a = ids[0];
    let mut frame = builtin_frame();
    display.frame(&mut frame);
    assert_eq!(display.stack_order(), vec![LayerId::builtin(), ids[0], ids[1], ids[2]]);

    display.activate(a);
    display.frame(&mut frame);
    assert_eq!(display.stack_order(), vec![LayerId::builtin(), ids[1], ids[2], ids[0]]);

    for expected_top in [ids[1], ids[2], ids[0]] {
        display.activate(expected_top);
        display.frame(&mut frame);
        assert_eq!(display.topmost(), Some(expected_top));
    }
    assert_eq!(display.priorities(), vec![0, 1, 2, 3]);
}

#[test]
fn terminal_area_derived_from_input_widget() {
    let (mut display, _) = display_with(vec![Toy::new("a", rect(0, 0, 5, 5))]);
    let mut frame = builtin_frame();
    display.frame(&mut frame);
    let taskbar_y =
        frame.iter().rev().find(|w| w.name == "display.taskbar").unwrap().area.y;
    assert_eq!(taskbar_y, 23);
}

#[test]
fn key_events_fall_through_the_stack_topmost_first() {
    let (mut display, ids) = display_with(vec![
        Toy::new("top", rect(0, 0, 80, 24)).swallow_keys(&[KeyCode::Char('y')]),
        Toy::new("bottom", rect(0, 0, 80, 24)).swallow_keys(&[KeyCode::Char('x')]),
    ]);
    let mut frame = builtin_frame();
    display.frame(&mut frame);

    assert!(display.route_event(&plain(KeyCode::Char('y'))));
    assert!(display.route_event(&plain(KeyCode::Char('x'))));
    assert!(!display.route_event(&plain(KeyCode::Char('z'))));
    let _ = ids;
}

#[test]
fn swallowed_press_activates_and_grabs_drag_outside_area() {
    let (mut display, ids) =
        display_with(vec![Toy::new("pop", rect(10, 5, 10, 5)).swallow_mouse()]);
    let mut frame = builtin_frame();
    display.frame(&mut frame);

    assert!(display.route_event(&down(12, 7)));
    assert_eq!(display.topmost(), Some(ids[0]));
    assert_eq!(display.grabbed(), Some(ids[0]));

    assert!(display.route_event(&drag(70, 20)));

    assert!(display.route_event(&up(70, 20)));
    assert_eq!(display.grabbed(), None);
}

#[test]
fn wheel_over_layer_never_activates() {
    let (mut display, ids) =
        display_with(vec![Toy::new("pop", rect(10, 5, 10, 5)).swallow_mouse()]);
    let mut frame = builtin_frame();
    display.frame(&mut frame);

    let before = display.topmost();
    assert!(display.route_event(&wheel(12, 7)));
    assert_eq!(display.topmost(), before, "wheel must not change activation");
    assert_eq!(display.grabbed(), None);
    let _ = ids;
}

#[test]
fn click_outside_all_layers_falls_through() {
    let (mut display, _) =
        display_with(vec![Toy::new("pop", rect(10, 5, 10, 5)).swallow_mouse()]);
    let mut frame = builtin_frame();
    display.frame(&mut frame);

    assert!(!display.route_event(&down(60, 15)));
    assert_eq!(display.grabbed(), None);
}

#[test]
fn shift_tab_rotates_through_all_layers_including_builtin() {
    let (mut display, ids) = display_with(vec![
        Toy::new("a", rect(0, 0, 5, 5)),
        Toy::new("b", rect(0, 6, 5, 5)),
        Toy::new("c", rect(0, 12, 5, 5)),
    ]);
    let mut frame = builtin_frame();
    display.frame(&mut frame);
    assert_eq!(display.topmost(), Some(ids[2]));

    let shift_tab = shift(KeyCode::Tab);
    assert!(display.route_event(&shift_tab));
    assert_eq!(display.topmost(), Some(LayerId::builtin()));
    assert!(display.route_event(&shift_tab));
    assert_eq!(display.topmost(), Some(ids[0]));
    assert!(display.route_event(&shift_tab));
    assert_eq!(display.topmost(), Some(ids[1]));
    assert!(display.route_event(&shift_tab));
    assert_eq!(display.topmost(), Some(ids[2]));

    assert!(!display.route_event(&plain(KeyCode::Tab)));
}

#[test]
fn removing_a_layer_clears_ownership_and_grab() {
    let (mut display, ids) =
        display_with(vec![Toy::new("pop", rect(10, 5, 10, 5)).swallow_mouse()]);
    let mut frame = builtin_frame();
    display.frame(&mut frame);

    assert!(display.route_event(&down(12, 7)));
    assert_eq!(display.grabbed(), Some(ids[0]));

    assert!(display.remove_layer(ids[0]).is_some(), "layer removed");
    assert_eq!(display.grabbed(), None);
    assert_eq!(display.owner_of("pop"), None);
    assert!(!display.route_event(&down(12, 7)));
}

#[test]
fn new_layers_start_on_top() {
    let (mut display, ids) = display_with(vec![
        Toy::new("a", rect(0, 0, 5, 5)),
        Toy::new("b", rect(0, 6, 5, 5)),
    ]);
    let mut frame = builtin_frame();
    display.frame(&mut frame);
    assert_eq!(display.topmost(), Some(ids[1]));
}

/// The background of a cell once all widgets are drawn.
fn background(frame: &[WidgetEntry<Shown>], col: u16, row: u16) -> Option<Color> {
    let mut color = None;
    for entry in frame {
        if let Content::Backdrop(c) = entry.widget {
            if entry.area.contains(col, row) {
                color = Some(c);
            }
        }
    }
    color
}

#[test]
fn underlay_paints_layer_color_behind_widget() {
    let (mut display, ids) =
        display_with(vec![Toy::new("pop", rect(10, 5, 10, 10)).swallow_mouse()]);
    let mut frame = builtin_frame();
    display.frame(&mut frame);

    let color = display.layer_color(ids[0]).unwrap();
    assert_eq!(
        background(&frame, 15, 10),
        Some(color),
        "popup area must carry the layer color underlay"
    );
    assert_eq!(background(&frame, 50, 2), Some(Color::Reset));
}

#[test]
fn backdrops_come_before_the_widgets_of_a_layer() {
    let (mut display, ids) = display_with(vec![Toy::new("popup", rect(10, 5, 20, 10))]);
    let mut frame = builtin_frame();
    display.frame(&mut frame);
    assert_eq!(display.owner_of("popup"), Some(ids[0]));
    assert_eq!(display.owner_of(WIDGET_LOG), Some(LayerId::builtin()));
    let names: Vec<&str> = frame.iter().map(|w| w.name).collect();
    assert_eq!(
        names,
        vec![
            "display.backdrop",
            "display.backdrop",
            WIDGET_LOG,
            WIDGET_INPUT,
            "display.backdrop",
            "popup",
            "display.taskbar",
            "display.taskbar",
        ]
    );
    assert_eq!(frame[4].area, rect(10, 5, 20, 10));
}

#[test]
fn taskbar_buttons_are_centered_and_activate() {
    let (mut display, ids) = display_with(vec![
        Toy::new("a", rect(0, 0, 5, 5)),
        Toy::new("b", rect(0, 6, 5, 5)),
    ]);
    let mut frame = builtin_frame();
    display.frame(&mut frame);
    let buttons: Vec<(Rect, char, bool)> = frame
        .iter()
        .filter_map(|w| match w.widget {
            Content::Button { label, bold, .. } => Some((w.area, label, bold)),
            _ => None,
        })
        .collect();
    assert_eq!(
        buttons,
        vec![
            (rect(34, 23, 3, 1), '*', false),
            (rect(38, 23, 3, 1), 'a', false),
            (rect(42, 23, 3, 1), 'b', true),
        ]
    );
    assert!(display.route_event(&down(39, 23)));
    assert_eq!(display.topmost(), Some(ids[0]));
    assert!(display.route_event(&down(34, 23)));
    assert_eq!(display.topmost(), Some(LayerId::builtin()));
}

#[test]
fn keys_go_straight_to_the_input_line_when_it_is_on_top() {
    let toy = Toy::new("pop", rect(10, 5, 10, 5)).swallow_keys(&[KeyCode::Esc]);
    let log = toy.log.clone();
    let (mut display, ids) = display_with(vec![toy]);
    let mut frame = builtin_frame();
    display.frame(&mut frame);
    assert!(!display.route_event(&down(60, 15)));
    assert_eq!(display.topmost(), Some(LayerId::builtin()));
    log.borrow_mut().clear();
    assert!(!display.route_event(&plain(KeyCode::Esc)));
    assert!(log.borrow().is_empty());
    display.activate(ids[0]);
    assert_eq!(*log.borrow(), vec!["active"]);
    assert!(display.route_event(&plain(KeyCode::Esc)));
}

#[test]
fn places_in_the_taskbar_are_recycled() {
    let (mut display, ids) = display_with(vec![
        Toy::new("a", rect(0, 0, 5, 5)),
        Toy::new("b", rect(0, 6, 5, 5)),
    ]);
    display.remove_layer(ids[0]);
    let c = display.add_layer(Layer::Own(Box::new(Toy::new("c", rect(0, 0, 5, 5)))));
    let mut frame = builtin_frame();
    display.frame(&mut frame);
    let place = display.taskbar.iter().find(|t| t.0 == c).unwrap().1;
    assert_eq!(place, rect(38, 23, 3, 1));
    assert!(display.remove_layer(ids[0]).is_none());
}

#[test]
fn a_layer_without_widgets_can_do_without_a_button() {
    let mut toy = Toy::new("none", rect(0, 0, 0, 0));
    toy.hides = true;
    let (mut display, ids) = display_with(vec![toy]);
    let mut frame = builtin_frame();
    display.frame(&mut frame);
    assert!(display.taskbar.iter().all(|t| t.0 != ids[0]));
}

#[test]
fn layers_can_ask_for_the_top_and_the_bottom() {
    let mut low = Toy::new("low", rect(0, 0, 5, 5));
    low.intent = StackIntent::Bottom;
    let mut high = Toy::new("high", rect(0, 0, 5, 5));
    high.intent = StackIntent::Top;
    let (mut display, ids) = display_with(vec![high, low]);
    let mut frame = builtin_frame();
    display.frame(&mut frame);
    assert_eq!(display.stack_order(), vec![ids[1], LayerId::builtin(), ids[0]]);
}

#[test]
fn every_widget_is_drawn_once() {
    let (mut display, _) = display_with(vec![
        Toy::new("a", rect(0, 0, 5, 5)),
        Toy::new("b", rect(0, 6, 5, 5)),
    ]);
    let mut frame = builtin_frame();
    display.frame(&mut frame);
    for name in [WIDGET_LOG, WIDGET_INPUT, "a", "b"] {
        assert_eq!(frame.iter().filter(|w| w.name == name).count(), 1);
    }
}

#[test]
fn the_pointer_belongs_to_the_layer_it_is_over() {
    let (mut display, ids) = display_with(vec![
        Toy::new("a", rect(0, 0, 5, 5)),
        Toy::new("b", rect(2, 2, 5, 5)),
    ]);
    let mut frame = builtin_frame();
    display.frame(&mut frame);
    assert!(matches!(display.route(&down(3, 3)), Route::Occupant(id, true) if id == ids[1]));
    assert!(matches!(display.route(&down(0, 0)), Route::Occupant(id, true) if id == ids[0]));
}

#[test]
fn what_the_layer_answers_decides_about_the_pointer() {
    let (mut display, ids) = display_with(vec![
        Toy::new("a", rect(0, 0, 5, 5)),
        Toy::new("b", rect(0, 6, 5, 5)),
    ]);
    assert!(!display.settle(Route::Occupant(ids[0], true), EventResult::Pass));
    assert_eq!(display.topmost(), Some(ids[0]));
    assert_eq!(display.grabbed(), None);
    assert!(!display.settle(Route::Occupant(ids[1], false), EventResult::Pass));
    assert_eq!(display.topmost(), Some(ids[0]));
    assert!(display.settle(Route::Occupant(ids[1], true), EventResult::Swallow));
    assert_eq!(display.topmost(), Some(ids[1]));
    assert_eq!(display.grabbed(), Some(ids[1]));
    display.settle(Route::Grabbed(ids[1], true), EventResult::Pass);
    assert_eq!(display.grabbed(), None);
}

#[test]
fn the_screen_is_put_together_bottom_layer_first() {
    let (mut display, ids) = display_with(vec![Toy::new("a", rect(0, 0, 5, 5))]);
    let mut frame = builtin_frame();
    display.claim(&Vec::new(), &frame, LayerId::builtin());
    frame.insert(0, widget("a", rect(0, 0, 5, 5)));
    display.claim(&vec![WIDGET_LOG, WIDGET_INPUT], &frame, ids[0]);
    display.restack(&vec![StackIntent::Top, StackIntent::Keep]);
    assert_eq!(display.stack_order(), vec![ids[0], LayerId::builtin()]);
    display.compose(&vec![true, false], &mut frame);
    let drawn: Vec<&str> = frame.iter().map(|w| w.name).collect();
    assert_eq!(drawn[1], "a");
    assert_eq!(drawn[4..6], [WIDGET_LOG, WIDGET_INPUT]);
    assert_eq!(display.taskbar.len(), 2);
    assert_eq!(frame.len(), 8);
}

#[test]
fn the_layer_of_the_input_line_can_be_replaced() {
    let (mut display, ids) = display_with(vec![]);
    assert!(ids.is_empty());
    display.attach_builtin(Layer::Own(Box::new(
        Toy::new("own", rect(0, 0, 5, 5)).swallow_keys(&[KeyCode::Esc]),
    )));
    assert!(display.route_event(&plain(KeyCode::Esc)));
    assert_eq!(display.stack_order(), vec![LayerId::builtin()]);
}

#[test]
fn a_layer_knows_the_cells_of_its_widgets() {
    let ctx = LayerCtx {
        id: LayerId(1),
        color: Color::Blue,
        terminal_area: rect(0, 0, 80, 24),
        my_widgets: vec![("a", rect(2, 3, 4, 2)), ("b", rect(10, 0, 1, 1))],
    };
    assert!(ctx.hit_test(2, 3));
    assert!(ctx.hit_test(5, 4));
    assert!(!ctx.hit_test(6, 4));
    assert!(ctx.hit_test(10, 0));
    assert!(!ctx.hit_test(0, 0));
}

#[test]
fn a_layer_can_ask_for_its_label() {
    let mut named = Toy::new("named", rect(0, 0, 5, 5));
    named.label = '#';
    let (display, _) = display_with(vec![named, Toy::new("plain", rect(0, 0, 5, 5))]);
    assert_eq!(display.slots[1].label, '#');
    assert_eq!(display.slots[2].label, 'b');
}

#[test]
fn a_layer_hears_of_it_once_when_it_comes_to_the_top() {
    let (toy, log) = {
        let toy = Toy::new("a", rect(0, 0, 5, 5));
        let log = toy.log.clone();
        (toy, log)
    };
    let (mut display, ids) = display_with(vec![toy, Toy::new("b", rect(0, 6, 5, 5))]);
    assert!(log.borrow().is_empty(), "being added is no news");
    display.activate(ids[0]);
    assert_eq!(*log.borrow(), vec!["active"]);
    display.activate(LayerId(99));
    assert_eq!(log.borrow().len(), 1);
    display.restack(&vec![StackIntent::Keep, StackIntent::Keep, StackIntent::Keep]);
    assert_eq!(log.borrow().len(), 1, "it was on top before");
}

#[test]
fn keys_are_offered_from_the_top_until_one_swallows() {
    let low = Toy::new("low", rect(0, 0, 5, 5)).swallow_keys(&[KeyCode::Enter]);
    let mid = Toy::new("mid", rect(0, 0, 5, 5)).swallow_keys(&[KeyCode::Enter]);
    let top = Toy::new("top", rect(0, 0, 5, 5));
    let logs = [low.log.clone(), mid.log.clone(), top.log.clone()];
    let (mut display, _) = display_with(vec![low, mid, top]);
    assert!(display.route_event(&plain(KeyCode::Enter)));
    let seen: Vec<usize> = logs.iter().map(|l| l.borrow().len()).collect();
    assert_eq!(seen, vec![0, 1, 1]);
    assert!(!display.route_event(&Event::Paste("text".to_string())));
    let seen: Vec<usize> = logs.iter().map(|l| l.borrow().len()).collect();
    assert_eq!(seen, vec![1, 2, 2]);
}

struct EagerPollLayer {
    source: Rc<RefCell<Vec<u32>>>,
    numbers: Vec<u32>,
    seen: usize,
}

impl DisplayLayer<Shown> for EagerPollLayer {
    fn on_overlay(
        &mut self,
        _ctx: &LayerCtx,
        widgets: &mut Vec<WidgetEntry<Shown>>,
    ) -> StackIntent {
        self.numbers = self.source.borrow().clone();
        if self.numbers.len() > self.seen {
            widgets.push(widget("polling.popup", rect(40, 0, 30, 4)));
        }
        StackIntent::Keep
    }

    fn on_active(&mut self) {}

    fn hide_when_empty(&self) -> bool {
        false
    }

    fn on_event(&mut self, ev: &Event, _ctx: &LayerCtx) -> EventResult {
        if self.numbers.len() <= self.seen {
            return EventResult::Pass;
        }
        match ev {
            Event::Key(k) if k.kind == KeyEventKind::Press && k.code == KeyCode::Esc => {
                self.seen = self.numbers.len();
                EventResult::Swallow
            }
            Event::Mouse(m) if m.kind == MouseEventKind::Down(MouseButton::Left) => {
                self.seen = self.numbers.len();
                EventResult::Swallow
            }
            _ => EventResult::Pass,
        }
    }

    fn tab_label(&self) -> char {
        '\0'
    }
}

fn has_popup(frame: &[WidgetEntry<Shown>]) -> Option<Rect> {
    frame.iter().find(|w| w.name == "polling.popup").map(|w| w.area)
}

#[test]
fn poll_popup_appears_acknowledges_and_reappears() {
    let numbers = Rc::new(RefCell::new(vec![7u32]));
    let mut display: Display<Shown> = Display::with_palette(vec![Color::Blue]);
    let layer_id = display.add_layer(Layer::Own(Box::new(EagerPollLayer {
        source: numbers.clone(),
        numbers: Vec::new(),
        seen: 0,
    })));

    let mut frame = builtin_frame();
    display.frame(&mut frame);
    has_popup(&frame).expect("unseen number must open the popup");

    assert!(!display.route_event(&down(5, 15)), "click outside popup must fall through");
    let mut frame = builtin_frame();
    display.frame(&mut frame);
    assert!(has_popup(&frame).is_some(), "stray click must not acknowledge");

    let esc = plain(KeyCode::Esc);
    assert!(!display.route_event(&esc), "builtin topmost: Esc goes to the core");
    let mut frame = builtin_frame();
    display.frame(&mut frame);
    assert!(has_popup(&frame).is_some(), "Esc with builtin focused must not acknowledge");

    assert!(display.route_event(&down(41, 23)));
    assert_eq!(display.topmost(), Some(layer_id), "taskbar click reactivates the popup layer");
    assert!(display.route_event(&esc), "popup back on top: Esc reaches it again");
    let mut frame = builtin_frame();
    display.frame(&mut frame);
    assert!(has_popup(&frame).is_none(), "Esc must acknowledge");

    numbers.borrow_mut().push(42);
    let mut frame = builtin_frame();
    display.frame(&mut frame);
    let popup = has_popup(&frame).expect("new number must re-open the popup");
    assert!(
        display.route_event(&down(popup.x + 1, popup.y + 1)),
        "click inside popup must be swallowed"
    );
    let mut frame = builtin_frame();
    display.frame(&mut frame);
    assert!(has_popup(&frame).is_none(), "click must acknowledge");
}
