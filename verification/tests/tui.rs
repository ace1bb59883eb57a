//! The log view and the mouse.

use servatui::event::{Modifiers, MouseButton, MouseEvent, MouseEventKind};
use servatui::geometry::Rect;
use servatui::screen::screen_parts;
use servatui::selection::ClickMode;
use servatui::tui::{
    handle_idle, handle_mouse_event, handle_mouse_event_at, ClipboardRequest, MouseState, TuiState,
    ViewportCache,
};
use std::time::{Duration, Instant};

fn make_mouse_state() -> MouseState {
    MouseState::default()
}

fn make_state(lines: Vec<&str>) -> TuiState {
    TuiState { log_lines: lines.into_iter().map(String::from).collect(), ..TuiState::default() }
}

fn event(kind: MouseEventKind, column: u16, row: u16) -> MouseEvent {
    MouseEvent { kind, column, row, modifiers: Modifiers::none() }
}

fn click_vp() -> ViewportCache {
    ViewportCache {
        log_area: Rect::new(0, 0, 80, 10),
        log_inner: Rect::new(0, 0, 80, 10),
        viewport_start: 0,
        total_wrapped: 1,
        wrapped: vec!["hello".to_string()],
        offsets: vec![0],
    }
}

fn long_vp(viewport_start: usize) -> ViewportCache {
    ViewportCache {
        log_area: Rect::new(0, 0, 80, 10),
        log_inner: Rect::new(1, 1, 78, 8),
        viewport_start,
        total_wrapped: 100,
        wrapped: (0..100).map(|i| format!("line{i}")).collect(),
        offsets: vec![0; 100],
    }
}

#[test]
fn test_alt_click_starts_rectangular_selection() {
    let vp = click_vp();
    let mut state = make_state(vec!["hello"]);
    let mut mouse = make_mouse_state();
    let mut ev = event(MouseEventKind::Down(MouseButton::Left), 1, 0);
    ev.modifiers.alt = true;
    handle_mouse_event(ev, &mut state, &mut mouse, &vp);
    assert!(state.selection_rect, "Alt+click must start a rectangular selection");
}

#[test]
fn test_plain_click_is_not_rectangular() {
    let vp = click_vp();
    let mut state = make_state(vec!["hello"]);
    let mut mouse = make_mouse_state();
    let ev = event(MouseEventKind::Down(MouseButton::Left), 1, 0);
    handle_mouse_event(ev, &mut state, &mut mouse, &vp);
    assert!(!state.selection_rect, "plain click must not be rectangular");
}

#[test]
fn test_log_inner_area_excludes_borders() {
    let area = Rect::new(0, 0, 80, 10);
    let inner = area.inner(1, 1);
    assert_eq!(inner.y, 1, "inner should start below top border");
    assert_eq!(inner.height, 8, "inner height should exclude both borders");
    assert_eq!(inner.x, 1, "inner should start right of left border");
    assert_eq!(inner.width, 78, "inner width should exclude both borders");
}

#[test]
fn test_auto_scroll_up_on_upward_drag() {
    let mut state = make_state(vec!["line1"; 100]);
    state.scroll_up = 5;
    let vp = long_vp(87);
    let mut mouse = make_mouse_state();
    mouse.selecting = true;
    mouse.click_mode = ClickMode::Char;
    mouse.anchor = Some((90, 3));

    let scroll_before = state.scroll_up;
    let m = event(MouseEventKind::Drag(MouseButton::Left), 10, 0);
    handle_mouse_event(m, &mut state, &mut mouse, &vp);

    assert!(
        state.scroll_up > scroll_before,
        "auto-scroll up: scroll_up should increase (was {}, now {})",
        scroll_before,
        state.scroll_up
    );
    assert!(state.selection.is_some(), "selection should be extended upward");
}

#[test]
fn test_auto_scroll_down_on_downward_drag() {
    let mut state = make_state(vec!["line1"; 100]);
    state.scroll_up = 5;
    let vp = long_vp(87);
    let mut mouse = make_mouse_state();
    mouse.selecting = true;
    mouse.click_mode = ClickMode::Char;
    mouse.anchor = Some((90, 3));

    let scroll_before = state.scroll_up;
    let m = event(MouseEventKind::Drag(MouseButton::Left), 10, 10);
    handle_mouse_event(m, &mut state, &mut mouse, &vp);

    assert!(
        state.scroll_up < scroll_before,
        "auto-scroll down: scroll_up should decrease (was {}, now {})",
        scroll_before,
        state.scroll_up
    );
    assert!(state.selection.is_some(), "selection should be extended downward");
}

#[test]
fn test_scrollbar_drag_above_track_does_not_underflow() {
    let mut state = make_state(vec!["line"; 100]);
    let vp = long_vp(92);
    let mut mouse = make_mouse_state();
    let scrollbar_col = 79;

    let press = event(MouseEventKind::Down(MouseButton::Left), scrollbar_col, 5);
    handle_mouse_event(press, &mut state, &mut mouse, &vp);
    assert!(mouse.scrollbar_drag, "press on scrollbar must start a scrollbar drag");

    let drag = event(MouseEventKind::Drag(MouseButton::Left), scrollbar_col, 0);
    handle_mouse_event(drag, &mut state, &mut mouse, &vp);

    let max_scroll = vp.total_wrapped.saturating_sub(vp.log_inner.height as usize);
    assert_eq!(
        state.scroll_up as usize, max_scroll,
        "dragging the scrollbar to the top must scroll to the oldest content"
    );
}

#[test]
fn test_layout_fills_small_terminal() {
    let area = Rect::new(0, 0, 40, 10);
    let (log_area, _) = screen_parts(area);
    let log_inner = log_area.inner(1, 1);

    assert_eq!(log_area.height, 7, "log area should be height-3");
    assert_eq!(log_area.width, 40, "log area should be full width");
    assert_eq!(log_inner.width, 38, "inner width = area - 2 borders");
    assert_eq!(log_inner.height, 5, "inner height = log_area - 2 borders");
}

#[test]
fn test_layout_fills_large_terminal() {
    let area = Rect::new(0, 0, 200, 50);
    let (log_area, _) = screen_parts(area);
    let log_inner = log_area.inner(1, 1);

    assert_eq!(log_area.height, 47, "log area should be height-3");
    assert_eq!(log_area.width, 200, "log area should be full width");
    assert_eq!(log_inner.width, 198);
    assert_eq!(log_inner.height, 45);
}

#[test]
fn test_layout_adapts_between_sizes() {
    let compute = |w: u16, h: u16| {
        let area = Rect::new(0, 0, w, h);
        let (log_area, _) = screen_parts(area);
        let log_inner = log_area.inner(1, 1);
        (log_inner.width, log_inner.height)
    };

    let small = compute(40, 10);
    let large = compute(200, 50);

    assert_ne!(small, large, "layout must differ for different terminal sizes");
    assert_eq!(small, (38, 5));
    assert_eq!(large, (198, 45));
}

#[test]
fn the_input_line_is_below_the_log() {
    let (log, input) = screen_parts(Rect::new(0, 0, 40, 10));
    assert_eq!(log, Rect::new(0, 0, 40, 7));
    assert_eq!(input, Rect::new(0, 7, 40, 3));
}

#[test]
fn a_low_screen_has_rows_for_the_log_first() {
    for (height, upper) in [(0, 0), (1, 1), (2, 2), (3, 3), (4, 3), (5, 3), (6, 3), (7, 4)] {
        let (log, input) = screen_parts(Rect::new(2, 5, 40, height));
        assert_eq!(log, Rect::new(2, 5, 40, upper), "{height} rows");
        assert_eq!(input, Rect::new(2, 5 + upper, 40, height - upper), "{height} rows");
    }
}

#[test]
fn a_new_log_greets() {
    let state = TuiState::new();
    assert_eq!(state.log_lines, vec!["servatui interactive mode. Type 'help' for commands."]);
    assert_eq!(state.scroll_up, 0);
    assert!(state.selection.is_none());
}

#[test]
fn one_click_selects_a_character() {
    let vp = click_vp();
    let mut state = make_state(vec!["hello"]);
    let mut mouse = make_mouse_state();
    let ev = event(MouseEventKind::Down(MouseButton::Left), 1, 0);
    handle_mouse_event_at(ev, &mut state, &mut mouse, &vp, Instant::now(), None);
    assert_eq!(state.selection, Some((0, 1, 0, 2)));
    assert_eq!(mouse.anchor, Some((0, 1)));
    assert!(mouse.last_click_time.is_some());
}

#[test]
fn two_clicks_select_a_word_and_three_a_line() {
    let mut vp = click_vp();
    vp.wrapped = vec!["hello world".to_string()];
    let mut state = make_state(vec!["hello world"]);
    let mut mouse = make_mouse_state();
    let ev = event(MouseEventKind::Down(MouseButton::Left), 7, 0);
    let now = Instant::now();
    handle_mouse_event_at(ev, &mut state, &mut mouse, &vp, now, None);
    handle_mouse_event_at(ev, &mut state, &mut mouse, &vp, now, Some(499));
    assert_eq!(state.selection, Some((0, 6, 0, 11)));
    handle_mouse_event_at(ev, &mut state, &mut mouse, &vp, now, Some(0));
    assert_eq!(state.selection, Some((0, 0, 0, 11)));
    assert_eq!(mouse.click_count, 3);
}

#[test]
fn a_slow_click_begins_anew() {
    let vp = click_vp();
    let mut state = make_state(vec!["hello"]);
    let mut mouse = make_mouse_state();
    let ev = event(MouseEventKind::Down(MouseButton::Left), 1, 0);
    let now = Instant::now();
    handle_mouse_event_at(ev, &mut state, &mut mouse, &vp, now, None);
    handle_mouse_event_at(ev, &mut state, &mut mouse, &vp, now, Some(500));
    assert_eq!(mouse.click_count, 1);
    let beside = event(MouseEventKind::Down(MouseButton::Left), 2, 0);
    handle_mouse_event_at(beside, &mut state, &mut mouse, &vp, now, Some(10));
    assert_eq!(mouse.click_count, 1);
}

#[test]
fn press_drag_and_release_copy_once() {
    let vp = click_vp();
    let mut state = make_state(vec!["hello"]);
    let mut mouse = make_mouse_state();
    let press = event(MouseEventKind::Down(MouseButton::Left), 1, 0);
    let drag = event(MouseEventKind::Drag(MouseButton::Left), 3, 0);
    let release = event(MouseEventKind::Up(MouseButton::Left), 3, 0);
    handle_mouse_event(press, &mut state, &mut mouse, &vp);
    handle_mouse_event(drag, &mut state, &mut mouse, &vp);
    match handle_mouse_event(release, &mut state, &mut mouse, &vp) {
        ClipboardRequest::Copy(text) => assert_eq!(text, "ell"),
        _ => panic!("a release must copy"),
    }
    let again = handle_mouse_event(release, &mut state, &mut mouse, &vp);
    assert!(matches!(again, ClipboardRequest::Nothing));
    assert_eq!(state.selection, Some((0, 1, 0, 4)));
}

#[test]
fn the_right_button_extends_and_the_middle_one_pastes() {
    let vp = click_vp();
    let mut state = make_state(vec!["hello"]);
    let mut mouse = make_mouse_state();
    let press = event(MouseEventKind::Down(MouseButton::Left), 0, 0);
    handle_mouse_event(press, &mut state, &mut mouse, &vp);
    let right = event(MouseEventKind::Down(MouseButton::Right), 4, 0);
    match handle_mouse_event(right, &mut state, &mut mouse, &vp) {
        ClipboardRequest::Copy(text) => assert_eq!(text, "hello"),
        _ => panic!("a right click must copy"),
    }
    let middle = event(MouseEventKind::Down(MouseButton::Middle), 4, 0);
    let r = handle_mouse_event(middle, &mut state, &mut mouse, &vp);
    assert!(matches!(r, ClipboardRequest::Paste));
}

#[test]
fn a_click_beside_the_log_clears_the_selection() {
    let vp = long_vp(92);
    let mut state = make_state(vec!["x"]);
    state.selection = Some((1, 1, 1, 2));
    let mut mouse = make_mouse_state();
    let out = event(MouseEventKind::Down(MouseButton::Left), 0, 0);
    handle_mouse_event(out, &mut state, &mut mouse, &vp);
    assert_eq!(state.selection, None);
}

#[test]
fn the_wheel_scrolls_by_three_rows() {
    let vp = long_vp(92);
    let mut state = make_state(vec!["x"]);
    state.selection = Some((1, 1, 1, 2));
    let mut mouse = make_mouse_state();
    handle_mouse_event(event(MouseEventKind::ScrollUp, 5, 5), &mut state, &mut mouse, &vp);
    assert_eq!(state.scroll_up, 3);
    handle_mouse_event(event(MouseEventKind::ScrollDown, 5, 5), &mut state, &mut mouse, &vp);
    handle_mouse_event(event(MouseEventKind::ScrollDown, 5, 5), &mut state, &mut mouse, &vp);
    assert_eq!(state.scroll_up, 0);
    assert_eq!(state.selection, Some((1, 1, 1, 2)));
    handle_mouse_event(event(MouseEventKind::ScrollUp, 0, 0), &mut state, &mut mouse, &vp);
    assert_eq!(state.scroll_up, 0, "the wheel outside the log does nothing");
}

#[test]
fn a_press_on_the_scrollbar_jumps() {
    let vp = long_vp(92);
    let mut state = make_state(vec!["x"]);
    let mut mouse = make_mouse_state();
    let top = event(MouseEventKind::Down(MouseButton::Left), 79, 1);
    handle_mouse_event(top, &mut state, &mut mouse, &vp);
    assert_eq!(state.scroll_up, 92);
    let middle = event(MouseEventKind::Down(MouseButton::Left), 79, 5);
    handle_mouse_event(middle, &mut state, &mut mouse, &vp);
    assert_eq!(state.scroll_up, 46);
    handle_mouse_event(
        event(MouseEventKind::Up(MouseButton::Left), 79, 5),
        &mut state,
        &mut mouse,
        &vp,
    );
    assert!(!mouse.scrollbar_drag);
}

#[test]
fn a_click_stays_on_its_row_in_every_mode() {
    let vp = long_vp(40);
    let mut state = make_state(vec!["x"]);
    let mut mouse = make_mouse_state();
    let ev = event(MouseEventKind::Down(MouseButton::Left), 2, 4);
    let now = Instant::now();
    for since in [None, Some(1), Some(1), Some(1)] {
        handle_mouse_event_at(ev, &mut state, &mut mouse, &vp, now, since);
        let (sr, _, er, _) = state.selection.unwrap();
        assert_eq!((sr, er), (43, 43));
    }
}

#[test]
fn a_pointer_held_beyond_the_edge_scrolls_on() {
    let vp = long_vp(87);
    let mut state = make_state(vec!["x"]);
    state.scroll_up = 91;
    let mut mouse = make_mouse_state();
    mouse.selecting = true;
    mouse.anchor = Some((90, 3));
    mouse.auto_scroll = Some(true);
    handle_idle(&mut state, &mouse, &vp);
    assert_eq!(state.scroll_up, 92);
    assert_eq!(state.selection, Some((0, 0, 90, 4)));
    handle_idle(&mut state, &mouse, &vp);
    assert_eq!(state.scroll_up, 92, "the oldest row is the end");
    mouse.auto_scroll = None;
    handle_idle(&mut state, &mouse, &vp);
    assert_eq!(state.scroll_up, 92);
}

#[test]
fn rectangles_are_cut_off_and_shrunk() {
    let r = Rect::new(65530, 3, 10, 4);
    assert_eq!((r.width, r.height, r.bottom()), (5, 4, 7));
    assert!(r.contains(65531, 6));
    assert!(!r.contains(65531, 7));
    assert_eq!(Rect::new(4, 4, 1, 9).inner(1, 1), Rect::new(0, 0, 0, 0));
}

#[test]
fn the_top_of_the_scrollbar_is_as_far_up_as_a_position_counts() {
    let vp = ViewportCache { total_wrapped: 100_000, ..long_vp(0) };
    let mut state = make_state(vec!["line"]);
    let mut mouse = make_mouse_state();
    let press = event(MouseEventKind::Down(MouseButton::Left), 79, 1);
    handle_mouse_event(press, &mut state, &mut mouse, &vp);
    assert!(mouse.scrollbar_drag);
    assert_eq!(state.scroll_up, u16::MAX);
    let drag = event(MouseEventKind::Drag(MouseButton::Left), 79, 5);
    handle_mouse_event(drag, &mut state, &mut mouse, &vp);
    assert_eq!(state.scroll_up, 49_996);
}

#[test]
fn a_view_without_an_area_has_no_scrollbar() {
    let nowhere = Rect::new(0, 0, 0, 0);
    let vp = ViewportCache { log_area: nowhere, log_inner: nowhere, ..long_vp(0) };
    let mut state = make_state(vec!["line"]);
    let mut mouse = make_mouse_state();
    handle_mouse_event(event(MouseEventKind::ScrollUp, 0, 0), &mut state, &mut mouse, &vp);
    let press = event(MouseEventKind::Down(MouseButton::Left), u16::MAX, 3);
    handle_mouse_event(press, &mut state, &mut mouse, &vp);
    assert_eq!(state.scroll_up, 0);
    assert!(!mouse.scrollbar_drag);
    assert_eq!(state.selection, None);
}

#[test]
fn the_clock_tells_a_double_click() {
    let vp = long_vp(0);
    let mut state = make_state(vec!["line"]);
    let mut mouse = make_mouse_state();
    let press = event(MouseEventKind::Down(MouseButton::Left), 3, 1);
    handle_mouse_event(press, &mut state, &mut mouse, &vp);
    assert_eq!(mouse.click_count, 1);
    let first = mouse.last_click_time;
    assert!(first.is_some());
    mouse.last_click_time = first.map(|t| t - Duration::from_millis(600));
    handle_mouse_event(press, &mut state, &mut mouse, &vp);
    assert_eq!(mouse.click_count, 1);
    assert!(mouse.last_click_time >= first);
    handle_mouse_event(press, &mut state, &mut mouse, &vp);
    assert_eq!(mouse.click_count, 2);
}
