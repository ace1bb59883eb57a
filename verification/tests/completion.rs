//! The input line, its suggestions, and the shell's keys.

use servatui::console::{Console, InputSource};
use servatui::event::{
    Event, KeyCode, KeyEvent, KeyEventKind, Modifiers, MouseButton, MouseEvent, MouseEventKind,
};
use servatui::geometry::Rect;
use servatui::input::{
    confirm_all, esc_unconfirmed, split_confirmed, suggestions_for, tab_complete, CompletionState,
    Input,
};
use servatui::protocol::{
    ClientHead, ClientStep, Completer, FinishStep, Kit, OfflineStep, ParseStep, Plugin, Protocol,
    ServerStep, ShellAction,
};
use servatui::screen::{cursor_if_fits, cursor_position, plan_frame, usable, LogWidget};
use servatui::shell::{
    blink, handle_event, handle_key, log_result, poll_timeout, take_event, Action, EventHook, NoHook,
};
use servatui::tui::{ClipboardRequest, MouseState, TuiState};
use std::cell::RefCell;
use std::rc::Rc;

struct TestKit;

struct Silent;

struct Suggest {
    seen: Rc<RefCell<Vec<String>>>,
    endings: Vec<&'static str>,
}

impl Kit for TestKit {
    type Frame = Vec<u8>;
    type Ctx = ();
    type Parse = Silent;
    type Client = Silent;
    type Server = Silent;
    type Finish = Silent;
    type Complete = Suggest;
    type Offline = Silent;
}

impl ParseStep<Vec<u8>> for Silent {
    fn parse(&self, _args: &str) -> Result<Vec<u8>, String> {
        Ok(b"null".to_vec())
    }
}

impl ClientStep<Vec<u8>> for Silent {
    fn run<O: Console, I: InputSource>(
        &self,
        _data: &Vec<u8>,
        _out: &mut O,
        _input: &mut I,
    ) -> Result<Vec<u8>, String> {
        Ok(b"null".to_vec())
    }
}

impl ServerStep<Vec<u8>, ()> for Silent {
    fn run(&self, _data: &Vec<u8>, _ctx: &mut ()) -> Result<Vec<u8>, String> {
        Ok(b"null".to_vec())
    }
}

impl FinishStep for Silent {
    fn finish(&self) -> Result<ShellAction, String> {
        Ok(ShellAction::Continue)
    }
}

impl OfflineStep for Silent {
    fn run<O: Console>(&self, _args: &str, _out: &mut O) -> Result<(), String> {
        Ok(())
    }
}

impl Completer for Suggest {
    fn complete(&self, confirmed: &str) -> Vec<String> {
        self.seen.borrow_mut().push(confirmed.to_string());
        self.endings.iter().map(|e| format!("{confirmed}{e}")).collect()
    }
}

fn completion_protocol(name: &'static str) -> Protocol<TestKit> {
    let head: ClientHead<TestKit> = Plugin::new(name, "test cmd").parse(Silent);
    head.client(Silent).server(Silent).client(Silent).finalize(Silent)
}

fn with_completer(
    name: &'static str,
    endings: Vec<&'static str>,
) -> (Protocol<TestKit>, Rc<RefCell<Vec<String>>>) {
    let seen = Rc::new(RefCell::new(Vec::new()));
    let protocol = completion_protocol(name).complete(Suggest { seen: seen.clone(), endings });
    (protocol, seen)
}

fn confirmed(n: usize) -> CompletionState {
    CompletionState { confirmed: n, ..Default::default() }
}

#[test]
fn tab_completes_command_names_as_ghost() {
    let protocols = vec![completion_protocol("lorem"), completion_protocol("status")];
    let mut input = Input::new("lo".into());
    let mut comp = confirmed(2);
    tab_complete(&mut input, &mut comp, &protocols);
    assert_eq!(input.value(), "lorem");
    assert_eq!(comp.confirmed, 2, "a suggestion must NOT be confirmed");
    assert_eq!(input.cursor(), 2, "cursor stays at the confirmed boundary");
}

#[test]
fn tab_cycles_through_suggestions() {
    let protocols = vec![
        completion_protocol("lorem"),
        completion_protocol("logout"),
        completion_protocol("low"),
    ];
    let mut input = Input::new("lo".into());
    let mut comp = confirmed(2);
    for expected in ["lorem", "logout", "low", "lorem"] {
        tab_complete(&mut input, &mut comp, &protocols);
        assert_eq!(input.value(), expected);
        assert_eq!(comp.confirmed, 2);
    }
}

#[test]
fn plugin_completer_receives_confirmed_string_only() {
    let (protocol, seen) = with_completer("lorem", vec!["alpha", "beta"]);
    let protocols = vec![protocol];
    let mut input = Input::new("lorem a".into());
    let mut comp = confirmed(7);

    tab_complete(&mut input, &mut comp, &protocols);
    assert_eq!(input.value(), "lorem aalpha", "first suggestion applied");
    assert_eq!(comp.confirmed, 7, "applied suggestion stays unconfirmed");

    tab_complete(&mut input, &mut comp, &protocols);
    assert_eq!(input.value(), "lorem abeta", "second suggestion cycled in");
    assert_eq!(*seen.borrow(), vec!["lorem a", "lorem a"]);
}

#[test]
fn esc_trims_to_confirmed() {
    let (protocol, _) = with_completer("lorem", vec!["xyz"]);
    let protocols = vec![protocol];
    let mut input = Input::new("lorem a".into());
    let mut comp = confirmed(7);
    tab_complete(&mut input, &mut comp, &protocols);
    assert_eq!(input.value(), "lorem axyz");

    esc_unconfirmed(&mut input, &mut comp);
    assert_eq!(input.value(), "lorem a", "ESC deletes the unconfirmed part");
    assert_eq!(comp.confirmed, 7);
    assert_eq!(comp.index, None, "cycle resets after ESC");
}

#[test]
fn any_key_confirms_everything() {
    let (protocol, _) = with_completer("lorem", vec!["xyz"]);
    let protocols = vec![protocol];
    let mut input = Input::new("lorem a".into());
    let mut comp = confirmed(7);
    tab_complete(&mut input, &mut comp, &protocols);
    assert!(input.value().len() > comp.confirmed);

    confirm_all(&input, &mut comp);
    assert_eq!(comp.confirmed, input.value().chars().count());
    assert_eq!(comp.index, None, "cycle resets on confirm");

    tab_complete(&mut input, &mut comp, &protocols);
    assert_eq!(input.value(), "lorem axyzxyz");
}

#[test]
fn split_confirmed_is_char_safe() {
    let (a, b) = split_confirmed("aé你bc", 3);
    assert_eq!((a.as_str(), b.as_str()), ("aé你", "bc"));
    let (a, b) = split_confirmed("aé你bc", 5);
    assert_eq!((a.as_str(), b.as_str()), ("aé你bc", ""));
    let (a, b) = split_confirmed("aé你bc", 0);
    assert_eq!((a.as_str(), b.as_str()), ("", "aé你bc"));
}

#[test]
fn tab_without_matches_is_noop() {
    let protocols = vec![completion_protocol("lorem")];
    let mut input = Input::new("zz".into());
    let mut comp = confirmed(2);
    tab_complete(&mut input, &mut comp, &protocols);
    assert_eq!(input.value(), "zz");
    assert_eq!(comp.index, None);
}

#[test]
fn args_position_without_completer_is_noop() {
    let protocols = vec![completion_protocol("lorem")];
    let mut input = Input::new("lorem x".into());
    let mut comp = confirmed(8);
    tab_complete(&mut input, &mut comp, &protocols);
    assert_eq!(input.value(), "lorem x");
    assert_eq!(comp.index, None);
}

#[test]
fn completer_defaults_to_none() {
    assert!(completion_protocol("x").completer.is_none());
}

#[test]
fn names_are_suggested_for_a_first_word() {
    let protocols = vec![completion_protocol("lorem"), completion_protocol("low")];
    assert_eq!(suggestions_for(&protocols, "lo"), vec!["lorem", "low"]);
    assert_eq!(suggestions_for(&protocols, "lor"), vec!["lorem"]);
    assert!(suggestions_for(&protocols, "x").is_empty());
}

#[test]
fn the_line_is_edited_at_the_cursor() {
    let mut input = Input::new("ab".into());
    input.handle_key(KeyCode::Left, Modifiers::none());
    assert_eq!(input.cursor(), 1);
    input.handle_key(KeyCode::Char('é'), Modifiers::none());
    assert_eq!((input.value(), input.cursor()), ("aéb", 2));
    input.handle_key(KeyCode::Backspace, Modifiers::none());
    assert_eq!((input.value(), input.cursor()), ("ab", 1));
    input.handle_key(KeyCode::Delete, Modifiers::none());
    assert_eq!((input.value(), input.cursor()), ("a", 1));
    input.reset();
    assert_eq!((input.value(), input.cursor()), ("", 0));
}

#[test]
fn wide_characters_move_the_cursor_by_two_columns() {
    let input = Input::new("你a".into());
    assert_eq!(input.cursor(), 2);
    assert_eq!(input.visual_cursor(), 3);
    assert_eq!(Input::new("你a".into()).with_cursor(1).visual_cursor(), 2);
    assert_eq!(Input::new("ab".into()).with_cursor(9).cursor(), 2);
}

fn press(code: KeyCode) -> KeyEvent {
    KeyEvent::new(code, Modifiers::none())
}

fn control(code: KeyCode) -> KeyEvent {
    let mut key = press(code);
    key.modifiers.control = true;
    key
}

struct Desk {
    state: TuiState,
    input: Input,
    comp: CompletionState,
    protocols: Vec<Protocol<TestKit>>,
}

impl Desk {
    fn new() -> Desk {
        Desk {
            state: TuiState::new(),
            input: Input::new(String::new()),
            comp: CompletionState::new(),
            protocols: vec![completion_protocol("lorem"), completion_protocol("status")],
        }
    }

    fn key(&mut self, key: KeyEvent) -> Action {
        handle_key(key, &mut self.state, &mut self.input, &mut self.comp, &self.protocols)
    }

    fn type_line(&mut self, line: &str) {
        for c in line.chars() {
            assert!(matches!(self.key(press(KeyCode::Char(c))), Action::Continue));
        }
    }
}

#[test]
fn a_command_line_runs_its_command() {
    let mut desk = Desk::new();
    desk.state.scroll_up = 4;
    desk.state.selection = Some((0, 0, 0, 1));
    desk.type_line("status  a b");
    match desk.key(press(KeyCode::Enter)) {
        Action::Run(k, args) => assert_eq!((k, args.as_str()), (1, " a b")),
        _ => panic!("a known command must run"),
    }
    assert_eq!(desk.state.log_lines[1], "> status  a b");
    assert_eq!(desk.state.history, vec!["status  a b"]);
    assert_eq!(desk.state.scroll_up, 0);
    assert_eq!(desk.state.selection, None);
    assert_eq!(desk.input.value(), "");
}

#[test]
fn unknown_commands_and_help_are_answered_at_once() {
    let mut desk = Desk::new();
    desk.type_line("nope x");
    assert!(matches!(desk.key(press(KeyCode::Enter)), Action::Continue));
    assert_eq!(desk.state.log_lines[1..], ["> nope x", "Unknown: 'nope'"]);

    let mut desk = Desk::new();
    desk.type_line("help");
    assert!(matches!(desk.key(press(KeyCode::Enter)), Action::Continue));
    assert_eq!(
        desk.state.log_lines[1..],
        ["> help", "COMMANDS:", "  lorem        test cmd", "  status       test cmd"]
    );
    assert!(desk.state.history.is_empty());
}

#[test]
fn the_shell_is_left_by_word_or_key() {
    for word in ["exit", "quit", "  exit "] {
        let mut desk = Desk::new();
        desk.type_line(word);
        assert!(matches!(desk.key(press(KeyCode::Enter)), Action::Exit));
    }
    let mut desk = Desk::new();
    assert!(matches!(desk.key(control(KeyCode::Char('d'))), Action::Exit));
    desk.type_line("x");
    assert!(matches!(desk.key(control(KeyCode::Char('d'))), Action::Continue));
    assert!(matches!(desk.key(control(KeyCode::Char('c'))), Action::Continue));
    assert_eq!(desk.input.value(), "");
}

#[test]
fn entered_lines_are_recalled() {
    let mut desk = Desk::new();
    for line in ["lorem 1", "lorem 2"] {
        desk.type_line(line);
        desk.key(press(KeyCode::Enter));
    }
    desk.key(control(KeyCode::Up));
    assert_eq!(desk.input.value(), "lorem 2");
    desk.key(control(KeyCode::Up));
    assert_eq!(desk.input.value(), "lorem 1");
    desk.key(control(KeyCode::Up));
    assert_eq!(desk.input.value(), "lorem 1", "the oldest line is the end");
    desk.key(control(KeyCode::Down));
    assert_eq!(desk.input.value(), "lorem 2");
    desk.key(control(KeyCode::Down));
    assert_eq!(desk.input.value(), "");
}

#[test]
fn keys_scroll_the_log() {
    let mut desk = Desk::new();
    desk.key(press(KeyCode::PageUp));
    desk.key(press(KeyCode::Up));
    assert_eq!(desk.state.scroll_up, 6);
    desk.key(press(KeyCode::Down));
    desk.key(press(KeyCode::PageDown));
    assert_eq!(desk.state.scroll_up, 0);
    desk.key(press(KeyCode::Home));
    assert_eq!(desk.state.scroll_up, u16::MAX);
    desk.key(press(KeyCode::End));
    assert_eq!(desk.state.scroll_up, 0);
}

#[test]
fn tab_and_esc_work_through_the_shell() {
    let mut desk = Desk::new();
    desk.type_line("lo");
    desk.key(press(KeyCode::Tab));
    assert_eq!(desk.input.value(), "lorem");
    desk.key(press(KeyCode::Esc));
    assert_eq!(desk.input.value(), "lo");
}

#[test]
fn results_and_errors_go_to_the_log() {
    let mut state = TuiState::new();
    log_result(&mut state, Ok(vec!["a".into(), "b".into()]));
    log_result(&mut state, Err("broke".into()));
    assert_eq!(state.log_lines[1..], ["a", "b", "Error: broke"]);
}

#[test]
fn waiting_and_flashing() {
    let mut mouse = MouseState::new();
    assert_eq!(poll_timeout(&mouse), 100);
    mouse.auto_scroll = Some(false);
    assert_eq!(poll_timeout(&mouse), 30);
    assert_eq!(blink(true, 599), (true, false));
    assert_eq!(blink(true, 600), (false, true));
    assert_eq!(blink(false, 601), (true, true));
}

#[test]
fn a_frame_shows_the_end_of_the_log() {
    let mut state = TuiState::new();
    state.log_lines = (0..20).map(|i| format!("line {i}")).collect();
    let input = Input::new("lorem".into()).with_cursor(2);
    let comp = confirmed(2);
    let plan = plan_frame(&mut state, &input, &comp, Rect::new(0, 0, 40, 10));
    assert_eq!(plan.log_area, Rect::new(0, 0, 40, 7));
    assert_eq!(plan.log_inner, Rect::new(1, 1, 38, 5));
    assert_eq!(plan.title, "Log");
    assert_eq!(plan.log.lines[0], "line 15");
    assert_eq!((plan.scroll_max, plan.scroll_position), (15, 15));
    assert_eq!((plan.line.as_str(), plan.suggestion.as_str()), ("> lo", "rem"));
    assert_eq!(plan.cursor, Some((5, 8)));
    assert!(usable(&plan.viewport));

    state.scroll_up = 900;
    let plan = plan_frame(&mut state, &input, &comp, Rect::new(0, 0, 40, 10));
    assert_eq!(state.scroll_up, 15);
    assert_eq!(plan.title, "Log (↑15 rows)");
    assert_eq!(plan.log.lines[0], "line 0");
}

#[test]
fn the_cursor_has_a_cell_where_there_is_room() {
    assert_eq!(cursor_position(Rect::new(0, 7, 40, 3), 4), (7, 8));
    assert_eq!(cursor_if_fits(Rect::new(0, 7, 40, 3), 4), Some((7, 8)));
    assert_eq!(cursor_if_fits(Rect::new(65533, 7, 1, 3), 4), None);
}

fn rect_fixture() -> (Vec<String>, Vec<usize>) {
    let rows = ["hello", "↪ world", "short", "firmi", "↪ xyz"];
    (rows.iter().map(|r| r.to_string()).collect(), vec![0, 6, 0, 0, 6])
}

#[test]
fn test_rect_render_highlights_by_original_column() {
    let (wrapped, offsets) = rect_fixture();
    let widget = LogWidget {
        lines: wrapped,
        selection: Some((1, 6, 4, 9)),
        viewport_start: 0,
        rect: true,
        offsets,
    };
    let cells = widget.cells(Rect::new(0, 0, 20, 5));
    let rev = |x: u16, y: u16| cells.iter().any(|c| c.x == x && c.y == y && c.selected);
    assert!(rev(2, 1) && rev(4, 1));
    assert!(!rev(5, 1) && !rev(6, 1));
    assert!(rev(2, 4) && rev(4, 4));
    assert!(!rev(0, 0) && !rev(0, 2) && !rev(0, 3));
}

#[test]
fn highlighting_follows_the_rows() {
    let (wrapped, offsets) = rect_fixture();
    let shown = |start: usize| {
        let widget = LogWidget {
            lines: wrapped[start..].to_vec(),
            selection: Some((1, 3, 2, 2)),
            viewport_start: start,
            rect: false,
            offsets: offsets.clone(),
        };
        widget.cells(Rect::new(0, 0, 20, 5))
    };
    let text = |cells: Vec<servatui::screen::LogCell>| {
        cells.iter().filter(|c| c.selected).map(|c| c.ch).collect::<String>()
    };
    assert_eq!(text(shown(0)), "orldsh");
    assert_eq!(text(shown(1)), "orldsh");
    let marks: Vec<(u16, u16)> =
        shown(0).iter().filter(|c| c.dim).map(|c| (c.x, c.y)).collect();
    assert_eq!(marks, vec![(0, 1), (1, 1), (0, 4), (1, 4)]);
}

#[test]
fn only_what_is_not_swallowed_is_handled() {
    let mut desk = Desk::new();
    let mut mouse = MouseState::new();
    let vp = plan_frame(&mut desk.state, &desk.input, &desk.comp, Rect::new(0, 0, 40, 12)).viewport;
    let mut handle = |desk: &mut Desk, ev: Event, swallowed: bool| {
        handle_event(
            ev,
            swallowed,
            &mut desk.state,
            &mut desk.input,
            &mut desk.comp,
            &mut mouse,
            &vp,
            &desk.protocols,
        )
    };
    let typed = Event::Key(press(KeyCode::Char('x')));
    handle(&mut desk, typed.clone(), true);
    assert_eq!(desk.input.value(), "");
    let mut released = press(KeyCode::Char('x'));
    released.kind = KeyEventKind::Release;
    handle(&mut desk, Event::Key(released), false);
    handle(&mut desk, Event::Paste("y".to_string()), false);
    assert_eq!(desk.input.value(), "");
    handle(&mut desk, typed, false);
    assert_eq!(desk.input.value(), "x");

    let click = |kind| {
        Event::Mouse(MouseEvent { kind, column: 3, row: 1, modifiers: Modifiers::none() })
    };
    handle(&mut desk, click(MouseEventKind::Down(MouseButton::Left)), true);
    assert_eq!(desk.state.selection, None);
    handle(&mut desk, click(MouseEventKind::Down(MouseButton::Left)), false);
    assert_eq!(desk.state.selection, Some((0, 2, 0, 3)));
    match handle(&mut desk, click(MouseEventKind::Up(MouseButton::Left)), false) {
        (Action::Continue, ClipboardRequest::Copy(text)) => assert_eq!(text, "r"),
        _ => panic!("a release must copy"),
    }
    desk.input.reset();
    let end = KeyEvent { modifiers: control(KeyCode::Char('d')).modifiers, ..press(KeyCode::Char('d')) };
    assert!(matches!(handle(&mut desk, Event::Key(end), false).0, Action::Exit));
}

/// Swallows every other event, and keeps what it was asked about.
struct EveryOther {
    asked: Vec<Event>,
}

impl EventHook for EveryOther {
    fn on_event(&mut self, ev: &Event) -> bool {
        self.asked.push(ev.clone());
        self.asked.len() % 2 == 1
    }
}

#[test]
fn a_hook_is_asked_once_about_every_event() {
    fn take<H: EventHook>(desk: &mut Desk, ev: Event, hook: &mut H) {
        let vp = plan_frame(&mut desk.state, &desk.input, &desk.comp, Rect::new(0, 0, 40, 12))
            .viewport;
        let mut mouse = MouseState::new();
        take_event(
            ev,
            hook,
            &mut desk.state,
            &mut desk.input,
            &mut desk.comp,
            &mut mouse,
            &vp,
            &desk.protocols,
        );
    }
    let typed = |c| Event::Key(press(KeyCode::Char(c)));
    let mut desk = Desk::new();
    let mut hook = EveryOther { asked: Vec::new() };
    for c in ['a', 'b', 'c', 'd'] {
        take(&mut desk, typed(c), &mut hook);
    }
    take(&mut desk, Event::Paste("e".to_string()), &mut hook);
    assert_eq!(desk.input.value(), "bd");
    assert_eq!(hook.asked.len(), 5);
    assert!(matches!(&hook.asked[0], Event::Key(k) if k.code == KeyCode::Char('a')));

    let mut plain = Desk::new();
    for c in ['a', 'b'] {
        take(&mut plain, typed(c), &mut NoHook);
    }
    assert_eq!(plain.input.value(), "ab");
}
