//! Conversations: steps, both sides, dispatch, and applications.

use servatui::connection::{RawConnection, TestEndpoint, Wire};
use servatui::console::{BufferConsole, Console, InputSource, NoInput};
use servatui::protocol::{
    ClientHead, ClientStep, Completer, FinishStep, Kit, OfflineStep, ParseStep, Plugin, Protocol,
    ServerStep, ShellAction,
};
use servatui::server::{execute_command, find_command, find_protocol, App, ServerHandle};
use std::cell::RefCell;
use std::collections::VecDeque;
use std::rc::Rc;

type Bytes = Vec<u8>;

struct JsonKit;

struct Parse(Box<dyn Fn(&str) -> Result<Bytes, String>>);

trait Say {
    fn say(&mut self, text: &str);
}

impl<O: Console> Say for O {
    fn say(&mut self, text: &str) {
        self.print_line(text);
    }
}

trait Ask {
    fn ask(&mut self, prompt: &str) -> Result<String, String>;
}

impl<I: InputSource> Ask for I {
    fn ask(&mut self, prompt: &str) -> Result<String, String> {
        self.read_line(prompt)
    }
}

type ClientFn = dyn Fn(&Bytes, &mut dyn Say, &mut dyn Ask) -> Result<Bytes, String>;

struct OnClient(Box<ClientFn>);

struct OnServer(Box<dyn Fn(&Bytes, &mut u32) -> Result<Bytes, String>>);

struct End(Result<ShellAction, String>);

struct Off(&'static str);

struct NoCompleter;

impl Kit for JsonKit {
    type Frame = Bytes;
    type Ctx = u32;
    type Parse = Parse;
    type Client = OnClient;
    type Server = OnServer;
    type Finish = End;
    type Complete = NoCompleter;
    type Offline = Off;
}

impl ParseStep<Bytes> for Parse {
    fn parse(&self, args: &str) -> Result<Bytes, String> {
        (self.0)(args)
    }
}

impl ClientStep<Bytes> for OnClient {
    fn run<O: Console, I: InputSource>(
        &self,
        data: &Bytes,
        out: &mut O,
        input: &mut I,
    ) -> Result<Bytes, String> {
        (self.0)(data, out, input)
    }
}

impl ServerStep<Bytes, u32> for OnServer {
    fn run(&self, data: &Bytes, ctx: &mut u32) -> Result<Bytes, String> {
        (self.0)(data, ctx)
    }
}

impl FinishStep for End {
    fn finish(&self) -> Result<ShellAction, String> {
        self.0.clone()
    }
}

impl OfflineStep for Off {
    fn run<O: Console>(&self, args: &str, out: &mut O) -> Result<(), String> {
        if args == "fail" {
            return Err("offline broke".to_string());
        }
        out.print_line(self.0);
        out.print_error(args);
        Ok(())
    }
}

impl Completer for NoCompleter {
    fn complete(&self, _confirmed: &str) -> Vec<String> {
        Vec::new()
    }
}

fn json(text: &str) -> Bytes {
    serde_json::to_vec(text).unwrap()
}

fn unjson(frame: &Bytes) -> Result<String, String> {
    serde_json::from_slice(frame).map_err(|e| e.to_string())
}

fn pass() -> OnClient {
    OnClient(Box::new(|data, _, _| Ok(data.clone())))
}

fn render() -> OnClient {
    OnClient(Box::new(|data, out, _| {
        out.say(&unjson(data)?);
        Ok(b"null".to_vec())
    }))
}

fn make(
    name: &'static str,
    help: &'static str,
    server: impl Fn(&Bytes, &mut u32) -> Result<Bytes, String> + 'static,
) -> Protocol<JsonKit> {
    let head: ClientHead<JsonKit> =
        Plugin::new(name, help).parse(Parse(Box::new(|args| Ok(json(args)))));
    head.client(pass())
        .server(OnServer(Box::new(server)))
        .client(render())
        .finalize(End(Ok(ShellAction::Continue)))
}

fn make_echo_protocol() -> Protocol<JsonKit> {
    make("echo", "Echo text back", |data, _| Ok(data.clone()))
}

fn make_ping_protocol() -> Protocol<JsonKit> {
    make("ping", "Ping the server", |_, _| Ok(json("pong")))
}

fn make_count_protocol() -> Protocol<JsonKit> {
    make("count", "Count", |_, ctx| {
        *ctx += 1;
        Ok(json(&format!("count={ctx}")))
    })
}

fn make_fail_protocol() -> Protocol<JsonKit> {
    make("fail", "Always fails", |_, _| Err("something went wrong".into()))
}

/// The client's end of a server that answers as the frames come in.
struct Attached {
    protocols: Rc<Vec<Protocol<JsonKit>>>,
    ctx: Rc<RefCell<u32>>,
    sent: Vec<Bytes>,
    heard: usize,
}

impl Attached {
    fn answers(&self) -> VecDeque<Bytes> {
        let mut ep = TestEndpoint::new(self.sent.clone());
        let mut ctx = *self.ctx.borrow();
        let _ = ServerHandle::handle_connection(&self.protocols, &mut ep, &mut ctx);
        ep.outgoing
    }

    fn close(self) -> Result<(), String> {
        let mut ep = TestEndpoint::new(self.sent);
        let mut ctx = self.ctx.borrow_mut();
        ServerHandle::handle_connection(&self.protocols, &mut ep, &mut ctx)
    }
}

impl RawConnection<Bytes> for &mut Attached {
    fn send_bytes(&mut self, data: &Bytes) -> Result<(), String> {
        self.sent.push(data.clone());
        Ok(())
    }

    fn recv_bytes(&mut self) -> Result<Bytes, String> {
        match self.answers().get(self.heard) {
            Some(frame) => {
                self.heard += 1;
                Ok(frame.clone())
            }
            None => Err("connection closed".to_string()),
        }
    }
}

struct Site {
    protocols: Rc<Vec<Protocol<JsonKit>>>,
    ctx: Rc<RefCell<u32>>,
}

impl Site {
    fn new(protocols: Vec<Protocol<JsonKit>>, ctx: u32) -> Site {
        Site { protocols: Rc::new(protocols), ctx: Rc::new(RefCell::new(ctx)) }
    }

    fn run(&self, name: &str, args: &str) -> (Result<Vec<String>, String>, Result<(), String>) {
        let mut line = Attached {
            protocols: self.protocols.clone(),
            ctx: self.ctx.clone(),
            sent: Vec::new(),
            heard: 0,
        };
        let k = match find_command(&self.protocols, name) {
            Ok(k) => k,
            Err(e) => return (Err(e.clone()), Err(e)),
        };
        let lines = execute_command(&self.protocols[k], args, Ok(&mut line));
        (lines, line.close())
    }
}

#[test]
fn test_commands_listing() {
    let app: App<JsonKit> = App::builder("/tmp/dummy.sock")
        .protocol(make_echo_protocol())
        .protocol(make_ping_protocol())
        .build();

    let cmds = app.commands();
    assert_eq!(cmds.len(), 2);
    assert!(cmds.iter().any(|(n, _)| *n == "echo"));
    assert!(cmds.iter().any(|(n, _)| *n == "ping"));
    assert_eq!(cmds[0], ("echo", "Echo text back"));
}

#[test]
fn an_application_keeps_what_it_was_built_with() {
    let plain: App<JsonKit> = App::builder("/tmp/a.sock").build();
    assert_eq!((plain.socket.as_str(), plain.version.as_str()), ("/tmp/a.sock", "0.1.0"));
    assert_eq!(plain.log_path, "");
    let app: App<JsonKit> = App::builder("/tmp/a.sock").version("2.0").log_path("/tmp/l").build();
    assert_eq!((app.version.as_str(), app.log_path.as_str()), ("2.0", "/tmp/l"));
}

#[test]
fn commands_run_end_to_end() {
    let site = Site::new(vec![make_echo_protocol(), make_ping_protocol()], 0);
    let (lines, server) = site.run("echo", "hello world");
    assert_eq!(lines.unwrap(), vec!["hello world"]);
    assert_eq!(server, Ok(()));
    let (lines, _) = site.run("ping", "");
    assert_eq!(lines.unwrap(), vec!["pong"]);
}

#[test]
fn an_unknown_command_is_an_error_on_both_sides() {
    let site = Site::new(vec![make_echo_protocol()], 0);
    let (lines, _) = site.run("nonexistent", "");
    assert_eq!(lines.unwrap_err(), "Unknown command: nonexistent");

    let mut ep = TestEndpoint::new(vec![json("nope"), json("unread")]);
    let mut ctx = 5u32;
    let r = ServerHandle::handle_connection(&site.protocols, &mut ep, &mut ctx);
    assert_eq!(r.unwrap_err(), "Unknown command: nope");
    assert!(ep.outgoing.is_empty());
    assert_eq!(ep.incoming.len(), 1);
    assert_eq!(ctx, 5);
    assert_eq!(find_protocol(&site.protocols, "nope"), None);
}

#[test]
fn the_failure_of_a_server_step_reaches_the_client() {
    let site = Site::new(vec![make_fail_protocol()], 0);
    let (lines, server) = site.run("fail", "");
    assert_eq!(lines.unwrap_err(), "something went wrong");
    assert_eq!(server.unwrap_err(), "something went wrong");
}

#[test]
fn state_persists_across_connections() {
    let site = Site::new(vec![make_count_protocol(), make_echo_protocol()], 100);
    assert_eq!(site.run("count", "").0.unwrap(), vec!["count=101"]);
    assert_eq!(site.run("echo", "x").0.unwrap(), vec!["x"]);
    assert_eq!(site.run("count", "").0.unwrap(), vec!["count=102"]);
    assert_eq!(*site.ctx.borrow(), 102);
}

#[test]
fn of_two_commands_with_one_name_the_first_answers() {
    let protocols = vec![
        make("x", "first", |_, _| Ok(json("one"))),
        make("x", "second", |_, _| Ok(json("two"))),
    ];
    assert_eq!(find_protocol(&protocols, "x"), Some(0));
    let site = Site::new(protocols, 0);
    assert_eq!(site.run("x", "").0.unwrap(), vec!["one"]);
}

#[test]
fn arguments_that_cannot_be_parsed_send_nothing() {
    let head: ClientHead<JsonKit> =
        Plugin::new("add", "Add").parse(Parse(Box::new(|_| Err("Usage: add A B".into()))));
    let protocol = head.client(pass()).finalize(End(Ok(ShellAction::Exit)));
    let mut ep = TestEndpoint::new(vec![json("unread")]);
    let mut out = BufferConsole::default();
    let r = protocol.run_client("42", &mut ep, &mut out, &mut NoInput);
    assert_eq!(r.unwrap_err(), "Usage: add A B");
    assert!(ep.outgoing.is_empty());
    assert_eq!(ep.incoming.len(), 1);
    assert!(out.lines.is_empty());
}

#[test]
fn the_client_sends_a_frame_for_each_step_and_the_sentinel() {
    let protocol = make_echo_protocol();
    let mut ep = TestEndpoint::new(vec![json("answer")]);
    let mut out = BufferConsole::new();
    let last = protocol.run_client("q", &mut ep, &mut out, &mut NoInput).unwrap();
    assert_eq!(last, json("answer"), "the last frame of the server comes back");
    assert_eq!(ep.outgoing, VecDeque::from(vec![json("q"), b"null".to_vec(), b"null".to_vec()]));
    assert_eq!(out.lines, vec!["answer"]);
}

#[test]
fn the_server_answers_each_of_its_steps_once() {
    let protocol = make_echo_protocol();
    let mut ctx = 0;
    let mut ep = TestEndpoint::new(vec![json("q"), b"null".to_vec(), b"null".to_vec()]);
    assert_eq!(protocol.run_server(&mut ep, &mut ctx), Ok(()));
    assert_eq!(ep.outgoing, VecDeque::from(vec![json("q")]));

    let mut ep = TestEndpoint::new(vec![json("q")]);
    assert_eq!(protocol.run_server(&mut ep, &mut ctx).unwrap_err(), "no data");
    assert_eq!(ep.outgoing.len(), 1);

    let mut ep = TestEndpoint::new(vec![json("q"), b"null".to_vec(), json("no sentinel")]);
    assert!(protocol.run_server(&mut ep, &mut ctx).is_err());
}

#[test]
fn a_failing_client_step_ends_the_conversation() {
    let head: ClientHead<JsonKit> =
        Plugin::new("x", "x").parse(Parse(Box::new(|args| Ok(json(args)))));
    let protocol = head
        .client(OnClient(Box::new(|_, _, input| Ok(json(&input.ask("name? ")?)))))
        .server(OnServer(Box::new(|data, _| Ok(data.clone()))))
        .finalize(End(Ok(ShellAction::Continue)));
    let mut ep = TestEndpoint::new(vec![]);
    let mut out = BufferConsole::new();
    let r = protocol.run_client("", &mut ep, &mut out, &mut NoInput);
    assert_eq!(r.unwrap_err(), "no input available");
    assert!(ep.outgoing.is_empty());
}

#[test]
fn a_failing_end_sends_no_sentinel() {
    let head: ClientHead<JsonKit> =
        Plugin::new("x", "x").parse(Parse(Box::new(|args| Ok(json(args)))));
    let protocol = head.client(pass()).finalize(End(Err("no end".into())));
    let mut ep = TestEndpoint::new(vec![]);
    let r = protocol.run_client("a", &mut ep, &mut BufferConsole::new(), &mut NoInput);
    assert_eq!(r.unwrap_err(), "no end");
    assert_eq!(ep.outgoing.len(), 1);
}

#[test]
fn without_a_server_the_offline_step_runs() {
    let failed = || -> Result<TestEndpoint<Bytes>, String> { Err("no server".to_string()) };
    let plain = make_echo_protocol();
    assert_eq!(execute_command(&plain, "a", failed()).unwrap_err(), "no server");
    let offline = make_echo_protocol().offline(Off("offline"));
    assert_eq!(
        execute_command(&offline, "arg", failed()).unwrap(),
        vec!["offline", "Error: arg"]
    );
    assert_eq!(execute_command(&offline, "fail", failed()).unwrap_err(), "offline broke");
}

#[test]
fn a_command_is_named_before_its_conversation() {
    let protocol = make_echo_protocol();
    let mut ep = TestEndpoint::new(vec![json("a")]);
    ep.send_bytes(&<Bytes as Wire>::command(protocol.name)).unwrap();
    assert_eq!(ep.outgoing[0], json("echo"));
}

#[test]
fn a_console_keeps_lines_and_errors() {
    let mut out = BufferConsole::new();
    out.print_line("a");
    out.print_error("b");
    assert_eq!(out.lines, vec!["a", "Error: b"]);
}
