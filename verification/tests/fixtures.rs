//! The fixture protocols and the sessions with the mouse.

use servatui::event::{Modifiers, MouseButton, MouseEvent, MouseEventKind};
use servatui::fixtures::cases::{sends_before_recv, CaseSpec};
use servatui::fixtures::conversations::{
    run_client_case, run_server_case, ClientCase, RoundTripCase, ServerCase,
};
use servatui::fixtures::pointer::{
    mouse_event, rebuild_viewport, run_mouse_case, run_render_case, FuzzButton, FuzzEv, MouseCase,
    RenderCase,
};
use servatui::fixtures::handlers::FixtureServer;
use servatui::fixtures::wire::{
    Answer, BoomArgs, Confirm, CtxResponse, Done, EchoResult, Msg, Query, RichArgs, RichEnum,
    RichResult,
};
use servatui::fixtures::{sprout, CtxState, FixtureId, Io};
use servatui::mouse::MouseTracker;
use servatui::geometry::{Color, Rect};
use servatui::protocol::ServerStep;
use servatui::tui::TuiState;
use std::time::Instant;

fn spec(fixture: FixtureId, args: &str) -> CaseSpec {
    CaseSpec { fixture, args_raw: args.to_string(), salt: 2, pre_seed: 3, fail: false }
}

const ALL: [FixtureId; 6] = [
    FixtureId::Ping,
    FixtureId::Echo,
    FixtureId::Multi,
    FixtureId::Ctx,
    FixtureId::Boom,
    FixtureId::Rich,
];

fn server_case(fixture: FixtureId, args: &str, feed: u8) -> ServerCase {
    ServerCase {
        fixture,
        args_raw: args.to_string(),
        salt: 0,
        pre_seed: 3,
        feed,
        fail: false,
        via_dispatch: false,
        unknown_cmd: false,
    }
}

#[test]
fn short_arguments_are_replaced() {
    assert_eq!(sprout("ab", 2), "ab");
    assert_eq!(sprout("x", 2), "héllo");
    assert_eq!(sprout("", 13), "日本語");
    assert_eq!(sprout("", 9).chars().count(), 200);
}

#[test]
fn arguments_make_frames() {
    assert_eq!(
        spec(FixtureId::Multi, " ab ").client_frames(),
        vec![
            Msg::Query(Query { text: "ab".into(), n: 4 }),
            Msg::Confirm(Confirm { ok: true }),
            Msg::Null,
            Msg::Null,
        ]
    );
    assert_eq!(
        spec(FixtureId::Multi, "é b").server_frames(),
        vec![Msg::Answer(Answer { n: 4 }), Msg::Done(Done { text: "done".into() })]
    );
    assert_eq!(
        spec(FixtureId::Ctx, "text").server_frames(),
        vec![Msg::CtxResponse(CtxResponse { total: 4, text: "text".into() })]
    );
    assert_eq!(
        spec(FixtureId::Ping, "text").server_frames(),
        vec![Msg::EchoResult(EchoResult { text: "pong".into() })]
    );
    assert_eq!(
        spec(FixtureId::Rich, "a,bcd,").server_frames(),
        vec![Msg::RichResult(RichResult { echo: "a,bcd,".into(), count: 9 })]
    );
}

#[test]
fn rich_arguments_are_taken_apart() {
    assert_eq!(
        spec(FixtureId::Rich, "|b,é").rich_args(),
        RichArgs {
            opt: Some("|b,é".into()),
            e: RichEnum::Pair { k: 5 },
            v: vec![2, 2],
            big: 5,
        }
    );
    let mut empty = spec(FixtureId::Rich, "");
    empty.salt = 0;
    assert_eq!(
        empty.rich_args(),
        RichArgs { opt: None, e: RichEnum::Empty, v: vec![0], big: 0 }
    );
    assert_eq!(empty.expected_render(), vec!["|1"]);
}

#[test]
fn a_mark_makes_boom_fail() {
    let mut boom = spec(FixtureId::Boom, "!bang");
    assert_eq!(boom.boom_args(), BoomArgs { trigger: 1, text: "bang".into() });
    assert_eq!(boom.server_error(), Some("boom: bang".into()));
    boom.args_raw = "quiet".into();
    assert_eq!(boom.server_error(), None);
    boom.fail = true;
    assert_eq!(boom.args(), "!quiet");
    assert_eq!(boom.server_error(), Some("boom: quiet".into()));
    assert_eq!(spec(FixtureId::Echo, "!bang").server_error(), None);
}

#[test]
fn an_empty_query_cannot_be_parsed() {
    let mut multi = spec(FixtureId::Multi, "  ");
    assert_eq!(multi.parse_error(), Some("empty query".into()));
    multi.args_raw = " a".into();
    assert_eq!(multi.parse_error(), None);
    assert_eq!(spec(FixtureId::Echo, "  ").parse_error(), None);
}

#[test]
fn lines_are_rendered() {
    assert_eq!(spec(FixtureId::Multi, "abc").expected_render(), vec!["a=3", "done"]);
    assert_eq!(spec(FixtureId::Ctx, "abc").expected_render(), vec!["total=4 abc"]);
    assert_eq!(spec(FixtureId::Rich, "a,b").expected_render(), vec!["a,b|5"]);
    let multi = spec(FixtureId::Multi, "abc");
    assert_eq!(FixtureId::Multi.expected_render_prefix(&multi, 1), vec!["a=3"]);
    assert!(FixtureId::Multi.expected_render_prefix(&multi, 0).is_empty());
    assert_eq!(FixtureId::Multi.expected_render_prefix(&multi, 2), vec!["a=3", "done"]);
    assert_eq!(FixtureId::Echo.expected_render_prefix(&multi, 1), FixtureId::Echo.expected_render(&multi));
    assert!(FixtureId::Echo.expected_render_prefix(&multi, 0).is_empty());
    let ping = spec(FixtureId::Ping, "hi");
    assert_eq!(FixtureId::Ping.expected_render_prefix(&ping, 1), vec!["pong"]);
}

#[test]
fn steps_and_layouts_are_counted() {
    assert_eq!(FixtureId::Multi.server_steps(), 2);
    assert_eq!(FixtureId::Rich.server_steps(), 1);
    assert_eq!(FixtureId::Multi.server_steps_after(5), 2);
    assert_eq!(FixtureId::Multi.server_steps_after(1), 1);
    assert_eq!(FixtureId::Boom.server_steps_after(0), 0);
    let layout = FixtureId::Multi.io_layout();
    assert_eq!(layout, vec![Io::S, Io::R, Io::S, Io::R, Io::S, Io::S]);
    assert_eq!(sends_before_recv(&layout, 0), 1);
    assert_eq!(sends_before_recv(&layout, 1), 2);
    assert_eq!(sends_before_recv(&layout, 2), 4);
    let names: Vec<&str> = FixtureId::all_protocols().iter().map(|p| p.name).collect();
    assert_eq!(names, vec!["ping", "echo", "multi", "ctx", "boom", "rich"]);
    for f in ALL {
        assert_eq!(f.protocol().name, f.name());
    }
}

#[test]
fn a_server_answers_a_whole_conversation() {
    for f in ALL {
        for dispatch in [false, true] {
            let mut case = server_case(f, "ab,c", 255);
            case.via_dispatch = dispatch;
            let report = run_server_case(&case).unwrap();
            assert_eq!(report.result, Ok(()));
            assert_eq!(report.sent.len(), f.server_steps());
            assert_eq!(report.sent, spec(f, "ab,c").server_frames());
            assert_eq!(report.left, 0);
            let more = if f == FixtureId::Ctx { 1 } else { 0 };
            assert_eq!(report.entries.len(), 3 + more);
        }
    }
}

#[test]
fn a_server_notices_that_the_client_is_gone() {
    for f in ALL {
        for feed in 0..2 {
            let report = run_server_case(&server_case(f, "abc", feed)).unwrap();
            assert_eq!(report.result, Err("no data".into()));
            assert_eq!(report.sent.len(), f.server_steps_after(feed as usize));
        }
    }
}

#[test]
fn a_failing_step_is_reported_once() {
    let mut case = server_case(FixtureId::Boom, "abc", 255);
    case.fail = true;
    let report = run_server_case(&case).unwrap();
    assert_eq!(report.result, Err("boom: abc".into()));
    assert_eq!(report.sent, vec![Msg::Failure("boom: abc".into())]);
    assert_eq!(report.left, 2);
    case.feed = 0;
    let report = run_server_case(&case).unwrap();
    assert_eq!(report.result, Err("no data".into()));
    assert!(report.sent.is_empty());
}

#[test]
fn an_unknown_name_is_not_answered() {
    let mut case = server_case(FixtureId::Echo, "abc", 2);
    case.unknown_cmd = true;
    let report = run_server_case(&case).unwrap();
    assert_eq!(report.result, Err("Unknown command: nope".into()));
    assert!(report.sent.is_empty());
    assert_eq!(report.left, 2);
    assert!(run_server_case(&server_case(FixtureId::Multi, "  ", 2)).is_none());
}

fn client_case(fixture: FixtureId, args: &str, feed: u8, err_at: u8) -> ClientCase {
    ClientCase { fixture, args_raw: args.to_string(), salt: 2, pre_seed: 3, feed, err_at }
}

#[test]
fn a_client_holds_a_whole_conversation() {
    for f in ALL {
        let s = spec(f, "ab,c");
        let report = run_client_case(&client_case(f, "ab,c", 255, 255));
        assert_eq!(report.result, Ok(s.server_frames().pop().unwrap()));
        assert_eq!(report.lines, s.expected_render());
        assert_eq!(report.sent, s.client_frames());
        assert_eq!(report.left, 0);
    }
}

#[test]
fn a_client_notices_that_the_server_is_gone() {
    let report = run_client_case(&client_case(FixtureId::Multi, "abc", 1, 255));
    assert_eq!(report.result, Err("no data".into()));
    assert_eq!(report.lines, vec!["a=3"]);
    assert_eq!(report.sent.len(), 2);
    let report = run_client_case(&client_case(FixtureId::Echo, "abc", 0, 255));
    assert_eq!(report.result, Err("no data".into()));
    assert_eq!(report.sent.len(), 1);
}

#[test]
fn a_client_hears_of_a_failing_step() {
    let report = run_client_case(&client_case(FixtureId::Multi, "abc", 2, 1));
    assert_eq!(report.result, Err("srvfail-1".into()));
    assert_eq!(report.lines, vec!["a=3"]);
    assert_eq!(report.left, 0);
    let report = run_client_case(&client_case(FixtureId::Multi, "abc", 2, 0));
    assert_eq!(report.result, Err("srvfail-0".into()));
    assert_eq!(report.left, 1);
    let report = run_client_case(&client_case(FixtureId::Multi, "  ", 2, 0));
    assert_eq!(report.result, Err("empty query".into()));
    assert_eq!((report.sent.len(), report.left), (0, 1));
}

#[test]
fn both_sides_agree() {
    let mut case = RoundTripCase {
        fixture: FixtureId::Ctx,
        args_raw: "abc".into(),
        salt: 0,
        pre_seed: 3,
        fail: false,
    };
    let frame = case.spec().server_frames().pop().unwrap();
    let lines = vec!["total=4 abc".to_string()];
    assert!(case.agrees(&Ok(frame), &lines, &Ok(()), 4));
    assert!(!case.agrees(&Ok(Msg::Null), &lines, &Ok(()), 3));
    assert!(!case.agrees(&Ok(Msg::Null), &vec![], &Ok(()), 4));
    assert!(!case.agrees(&Ok(Msg::Null), &lines, &Err("x".into()), 4));
    case.fixture = FixtureId::Boom;
    case.fail = true;
    let failed = || "boom: abc".to_string();
    assert!(case.agrees(&Err(failed()), &vec![], &Err(failed()), 3));
    assert!(!case.agrees(&Err("other".into()), &vec![], &Err(failed()), 3));
    assert!(!case.agrees(&Ok(Msg::Null), &vec![], &Ok(()), 3));
}

#[test]
fn a_state_begins_with_its_entries() {
    assert_eq!(CtxState::new(2).entries, vec!["pre0", "pre1"]);
    assert_eq!(CtxState::new(2).len(), 2);
    assert_eq!(CtxState::default().len(), 0);
}

#[test]
fn events_happen_on_the_screen() {
    let ev = FuzzEv::Drag { button: FuzzButton::Right, col: 130, row: 9, ctrl: true };
    let m = mouse_event(&ev, 100, 8).unwrap();
    assert_eq!(m.kind, MouseEventKind::Drag(MouseButton::Right));
    assert_eq!((m.column, m.row), (30, 1));
    assert!(m.modifiers.control && !m.modifiers.alt);
    let ev = FuzzEv::Up { button: FuzzButton::Middle, col: 1, row: 2 };
    assert_eq!(mouse_event(&ev, 9, 9).unwrap().kind, MouseEventKind::Up(MouseButton::Middle));
    assert!(mouse_event(&FuzzEv::AppendLine { salt: 1 }, 9, 9).is_none());
    assert!(mouse_event(&FuzzEv::Resize { w: 1, h: 1 }, 9, 9).is_none());
}

#[test]
fn the_view_is_rebuilt_within_the_log() {
    let mut state = TuiState::new();
    state.log_lines = (0..50).map(|i| format!("line {i}")).collect();
    state.scroll_up = 900;
    let vp = rebuild_viewport(&mut state, 80, 24);
    assert_eq!(vp.log_area, Rect::new(0, 0, 80, 21));
    assert_eq!(vp.log_inner, Rect::new(1, 1, 78, 19));
    assert_eq!(state.scroll_up, 31);
    assert_eq!(vp.viewport_start, 0);
    state.scroll_up = 0;
    assert_eq!(rebuild_viewport(&mut state, 80, 24).viewport_start, 31);
    assert_eq!(rebuild_viewport(&mut state, 80, 2).log_area.height, 4);
}

#[test]
fn a_session_is_played() {
    let click = FuzzEv::Down { button: FuzzButton::Left, col: 3, row: 2, ctrl: false };
    let mut case = MouseCase {
        lines: vec!["first line".into(), "second line".into()],
        term_w: 60,
        term_h: 16,
        scroll0: 7,
        events: vec![click],
    };
    let desk = run_mouse_case(&case);
    assert_eq!((desk.w, desk.h), (80, 24));
    assert_eq!(desk.state.scroll_up, 0);
    assert_eq!(desk.state.selection, Some((1, 2, 1, 3)));

    case.events.push(FuzzEv::AppendLine { salt: 9 });
    case.events.push(FuzzEv::Resize { w: 0, h: 0 });
    let desk = run_mouse_case(&case);
    assert_eq!(desk.state.log_lines[2], "new 9");
    assert_eq!(desk.state.selection, None);
    assert_eq!((desk.w, desk.h), (20, 8));
    assert_eq!(desk.vp.total_wrapped, 3);

    case.lines.clear();
    case.events.clear();
    assert_eq!(run_mouse_case(&case).state.log_lines, vec!["seed line"]);
}

#[test]
fn a_frame_is_drawn_in_its_area() {
    let case = RenderCase {
        lines: vec!["hello".into(), "world".into(), "again".into()],
        has_sel: true,
        sr: 5,
        sc: 1,
        er: 6,
        ec: 2,
        viewport_start: 5,
        rect: false,
        area_x: 85,
        area_y: 3,
        area_w: 4,
        area_h: 2,
    };
    let cells = run_render_case(&case);
    assert_eq!(cells.len(), 8);
    assert_eq!((cells[0].x, cells[0].y, cells[0].ch), (5, 3, 'h'));
    let selected: String = cells.iter().filter(|c| c.selected).map(|c| c.ch).collect();
    assert_eq!(selected, "ellwo");
}

#[test]
fn the_mouse_is_tracked() {
    let mut t = MouseTracker::default();
    let at = |kind, column, row| MouseEvent { kind, column, row, modifiers: Modifiers::none() };
    let now = Instant::now();
    t.process_at(&at(MouseEventKind::Down(MouseButton::Left), 3, 4), now, None);
    assert!(t.any_down() && t.left);
    assert_eq!(t.pos, (3, 4));
    t.process_at(&at(MouseEventKind::Drag(MouseButton::Left), 5, 4), now, None);
    assert!(t.moved_since_press);
    t.process_at(&at(MouseEventKind::Up(MouseButton::Left), 5, 4), now, None);
    assert!(!t.any_down());
    t.process_at(&at(MouseEventKind::Down(MouseButton::Right), 5, 4), now, None);
    assert!(t.any_down() && !t.moved_since_press);
    assert!(!t.is_double_click(), "the presses were at different places");
    assert_eq!(t.status_string(), "L:○ R:● M:○ (5,4)");
    t.reset();
    assert!(!t.any_down());
}

#[test]
fn the_pointer_is_shown_in_its_area() {
    let mut t = MouseTracker::new();
    let mut m = MouseEvent {
        kind: MouseEventKind::Moved,
        column: 3,
        row: 4,
        modifiers: Modifiers::none(),
    };
    t.process(&m);
    let area = Rect::new(0, 0, 10, 10);
    assert_eq!(t.highlight(area), Some((3, 4, Color::DarkGray)));
    m.column = 30;
    t.process(&m);
    assert_eq!(t.highlight(area), None);
    assert!(!t.is_double_click());
}

#[test]
fn a_double_click_takes_two_presses() {
    let mut t = MouseTracker::new();
    let press = MouseEvent {
        kind: MouseEventKind::Down(MouseButton::Left),
        column: 3,
        row: 4,
        modifiers: Modifiers::none(),
    };
    t.process(&press);
    assert!(!t.is_double_click());
    t.process(&MouseEvent { kind: MouseEventKind::Up(MouseButton::Left), ..press });
    assert!(!t.is_double_click());
    t.process(&press);
    assert!(t.is_double_click());
    let now = Instant::now();
    t.process_at(&press, now, Some(499));
    assert!(t.is_double_click());
    t.process_at(&press, now, Some(500));
    assert!(!t.is_double_click());
    t.process(&MouseEvent { column: 5, ..press });
    assert!(!t.is_double_click());
}

#[test]
fn the_help_of_a_fixture_names_it() {
    assert_eq!(FixtureId::Ping.protocol().help, "fuzz ping");
    assert_eq!(FixtureId::Rich.protocol().help, "fuzz rich");
}

#[test]
fn a_step_reads_the_members_that_it_needs() {
    let mut ctx = CtxState::new(1);
    let query = Msg::Query(Query { text: "hi".to_string(), n: 7 });
    let step = |fixture| FixtureServer { fixture, step: 0 };
    assert_eq!(
        step(FixtureId::Echo).run(&query, &mut ctx),
        Ok(Msg::EchoResult(EchoResult { text: "hi".to_string() }))
    );
    assert_eq!(
        step(FixtureId::Ctx).run(&Msg::Done(Done { text: "more".to_string() }), &mut ctx),
        Ok(Msg::CtxResponse(CtxResponse { total: 2, text: "more".to_string() }))
    );
    assert_eq!(ctx.entries, vec!["pre0", "more"]);
    for frame in [Msg::Null, Msg::Answer(Answer { n: 7 }), Msg::Confirm(Confirm { ok: true })] {
        assert_eq!(
            step(FixtureId::Echo).run(&frame, &mut ctx),
            Err("unexpected message".to_string())
        );
    }
    assert_eq!(query.n_member(), Some(7));
    assert_eq!(Msg::Answer(Answer { n: 8 }).n_member(), Some(8));
    assert_eq!(Msg::Null.text_member(), None);
}
