//! Conversations of the fixture protocols over a transport in memory.
//!
//! A case says what comes in on one side; running it tells what went out, what
//! was printed, and how it ended.

use crate::connection::{values, RawConnection, TestEndpoint};
use crate::console::{done, outcome, BufferConsole, NoInput};
use crate::fixtures::cases::{arguments, sends_before, CaseSpec};
use crate::fixtures::handlers::{
    fixture_at, fixture_steps, is_protocol_of, FixtureClient, FixtureKit,
};
use crate::fixtures::walks::{
    client_computes, client_finishes, client_receives, server_computes, server_finishes,
    server_receives,
};
use crate::fixtures::wire::{Message, Msg};
use crate::fixtures::{
    client_messages, client_of, failure, fixture_name, layout, parse_of, rendered, rendered_after,
    seeded, server_messages, sprouted, steps_after, CtxState, FixtureId,
};
use crate::protocol::{
    client_ran, client_run, client_walk, happened, server_walk, ClientStep, Exchange, Protocol,
};
use crate::server::{
    dispatched, law_first_command_answers, lemma_not_named, named, served, unknown_command,
    ServerHandle,
};
use crate::text::{decimal, decimal_text, joined, texts};
use vstd::prelude::*;
use vstd::string::*;

verus! {

/// How a server ends when `fed` frames of a client have come in.
pub open spec fn server_end(f: FixtureId, args: Seq<char>, fed: int) -> Result<(), Seq<char>> {
    match failure(f, args) {
        Some(error) if fed >= 1 => Err(error),
        _ => if fed < client_messages(f, args).len() {
            Err("no data"@)
        } else {
            Ok(())
        },
    }
}

/// The frames that a server with `seed` entries sends when `fed` frames of a
/// client have come in.
pub open spec fn server_answers(f: FixtureId, args: Seq<char>, seed: int, fed: int) -> Seq<Message> {
    match failure(f, args) {
        Some(error) if fed >= 1 => seq![Message::Failure(error)],
        _ => server_messages(f, args, seed).take(steps_after(f, fed)),
    }
}

/// How many of `fed` frames a server leaves unread: those after the one that it
/// fails on.
pub open spec fn server_leaves(f: FixtureId, args: Seq<char>, fed: int) -> int {
    match failure(f, args) {
        Some(_) if fed >= 1 => fed - 1,
        _ => 0,
    }
}

/// The entries of a server that had `entries` before `fed` frames came in.
pub open spec fn entries_after(
    f: FixtureId,
    args: Seq<char>,
    fed: int,
    entries: Seq<Seq<char>>,
) -> Seq<Seq<char>> {
    if f == FixtureId::Ctx && fed >= 1 {
        entries.push(args)
    } else {
        entries
    }
}

/// A server that the first `fed` frames of a client come in at.
proof fn lemma_server_conversation(
    f: FixtureId,
    args: Seq<char>,
    fed: int,
    conn: TestEndpoint<Msg>,
    ctx: CtxState,
    conn_after: TestEndpoint<Msg>,
    ctx_after: CtxState,
    r: Result<(), Seq<char>>,
)
    requires
        server_walk::<FixtureKit, TestEndpoint<Msg>>(
            fixture_steps(f),
            0,
            Message::Empty,
            conn,
            ctx,
            conn_after,
            ctx_after,
            r,
        ),
        parse_of(f, args) is Ok,
        0 <= fed <= client_messages(f, args).len(),
        conn.inbox() == client_messages(f, args).take(fed),
        conn.outbox() == Seq::<Message>::empty(),
    ensures
        r == server_end(f, args, fed),
        conn_after.outbox() =~= server_answers(f, args, ctx.entries@.len() as int, fed),
        conn_after.inbox().len() == server_leaves(f, args, fed),
        texts(ctx_after.entries@) == entries_after(f, args, fed, texts(ctx.entries@)),
{
    let steps = fixture_steps(f);
    let all = client_messages(f, args);
    let given = conn.inbox();
    let c0 = server_receives(steps, 0, Message::Empty, conn, ctx, conn_after, ctx_after, r);
    if fed >= 1 {
        let (c1, x1, g1) = server_computes(
            steps,
            1,
            given[0],
            c0,
            ctx,
            conn_after,
            ctx_after,
            r,
        );
        assert(given[0] == all[0]);
        if g1 is Ok {
            let c2 = server_receives(steps, 2, g1->Ok_0, c1, x1, conn_after, ctx_after, r);
            if fed >= 2 {
                assert(c1.inbox()[0] == all[1]);
                if f == FixtureId::Multi {
                    let (c3, x3, g3) = server_computes(
                        steps,
                        3,
                        all[1],
                        c2,
                        x1,
                        conn_after,
                        ctx_after,
                        r,
                    );
                    let c4 = server_receives(steps, 4, g3->Ok_0, c3, x3, conn_after, ctx_after, r);
                    if fed >= 3 {
                        assert(c3.inbox()[0] == all[2]);
                        server_finishes(steps, 5, all[2], c4, x3, conn_after, ctx_after, r);
                    }
                } else {
                    server_finishes(steps, 3, all[1], c2, x1, conn_after, ctx_after, r);
                }
            }
        }
    }
}

/// The places of the fixtures among all of them.
spec fn place_of(f: FixtureId) -> int {
    match f {
        FixtureId::Ping => 0,
        FixtureId::Echo => 1,
        FixtureId::Multi => 2,
        FixtureId::Ctx => 3,
        FixtureId::Boom => 4,
        FixtureId::Rich => 5,
    }
}

/// The fixtures have different names, and none is called `nope`.
proof fn lemma_names_differ(f: FixtureId, g: FixtureId)
    ensures
        f != g ==> fixture_name(f) != fixture_name(g),
        fixture_name(f) != "nope"@,
{
    reveal_strlit("ping");
    reveal_strlit("echo");
    reveal_strlit("multi");
    reveal_strlit("ctx");
    reveal_strlit("boom");
    reveal_strlit("rich");
    reveal_strlit("nope");
    assert(fixture_name(f)[0] == "nope"@[0] ==> false);
    assert(fixture_name(f)[0] == fixture_name(g)[0] ==> f == g);
}

/// Whether `protocols` holds the fixtures in order.
pub open spec fn all_fixtures(protocols: Seq<Protocol<FixtureKit>>) -> bool {
    &&& protocols.len() == 6
    &&& forall|i: int| 0 <= i < 6 ==> is_protocol_of(#[trigger] protocols[i], fixture_at(i))
}

/// Each fixture is found by its name, and nothing by the name `nope`.
proof fn lemma_fixture_named(protocols: Seq<Protocol<FixtureKit>>, f: FixtureId)
    requires
        all_fixtures(protocols),
    ensures
        named(protocols, fixture_name(f), 0) == Some(place_of(f)),
        protocols[place_of(f)].steps@ == fixture_steps(f),
        named(protocols, "nope"@, 0) is None,
{
    let k = place_of(f);
    assert(fixture_at(k) == f);
    assert(is_protocol_of(protocols[k], f));
    assert forall|j: int| 0 <= j < k implies (#[trigger] protocols[j]).name@ != fixture_name(f) by {
        assert(is_protocol_of(protocols[j], fixture_at(j)));
        lemma_names_differ(f, fixture_at(j));
    }
    law_first_command_answers(protocols, fixture_name(f), k);
    assert forall|j: int| 0 <= j < protocols.len() implies (#[trigger] protocols[j]).name@
        != "nope"@ by {
        assert(is_protocol_of(protocols[j], fixture_at(j)));
        lemma_names_differ(fixture_at(j), f);
    }
    lemma_not_named(protocols, "nope"@, 0);
}

/// The first `n` frames, `n` capped at their number.
fn first_frames(frames: Vec<Msg>, n: usize) -> (r: (Vec<Msg>, usize))
    ensures
        r.1 == if n <= frames@.len() {
            n as int
        } else {
            frames@.len() as int
        },
        r.0@.len() == r.1,
        values(r.0@) == values(frames@).take(r.1 as int),
{
    let mut kept = frames;
    let fed = if n <= kept.len() {
        n
    } else {
        kept.len()
    };
    kept.truncate(fed);
    assert(values(kept@) =~= values(frames@).take(fed as int));
    (kept, fed)
}

/// The frames that went out.
fn outgoing_frames(ep: TestEndpoint<Msg>) -> (v: Vec<Msg>)
    ensures
        values(v@) == ep.outbox(),
{
    let mut out = ep.outgoing;
    let ghost all = out@;
    let mut v: Vec<Msg> = Vec::new();
    while out.len() > 0
        invariant
            v@ + out@ =~= all,
        decreases out@.len(),
    {
        let ghost before = out@;
        match out.pop_front() {
            Some(frame) => {
                v.push(frame);
                assert(seq![before[0]] + out@ =~= before);
            },
            None => {},
        }
    }
    assert(v@ =~= all);
    v
}

/// What comes in at a server.
pub struct ServerCase {
    pub fixture: FixtureId,
    pub args_raw: String,
    pub salt: u8,
    pub pre_seed: u8,
    /// How many frames of the conversation come in, at most all of them.
    pub feed: u8,
    /// Makes the server of `boom` fail.
    pub fail: bool,
    /// Names the command first.
    pub via_dispatch: bool,
    /// Names a command that there is not.
    pub unknown_cmd: bool,
}

impl ServerCase {
    /// The arguments of the conversation.
    pub open spec fn text(&self) -> Seq<char> {
        arguments(self.fixture, self.args_raw@, self.salt, self.fail)
    }

    /// How many frames of the conversation come in.
    pub open spec fn fed(&self) -> int {
        let n = client_messages(self.fixture, self.text()).len();
        if self.feed <= n {
            self.feed as int
        } else {
            n as int
        }
    }

    fn spec(&self) -> (c: CaseSpec)
        ensures
            c.fixture == self.fixture,
            c.pre_seed == self.pre_seed,
            c.text() == self.text(),
    {
        CaseSpec {
            fixture: self.fixture,
            args_raw: self.args_raw.clone(),
            salt: self.salt,
            pre_seed: self.pre_seed,
            fail: self.fail,
        }
    }
}

/// What came of a [`ServerCase`].
pub struct ServerReport {
    pub result: Result<(), String>,
    /// The frames that went out.
    pub sent: Vec<Msg>,
    /// How many frames were left unread.
    pub left: usize,
    /// The entries in the end.
    pub entries: Vec<String>,
}

/// Runs the server's side of a conversation. There is no conversation, and no
/// report, where a client cannot parse the arguments.
///
/// The server answers an unknown command with nothing and reads no further. It
/// reports the failure of a step to the client and ends with it. Where the
/// client breaks off, it has answered the steps whose frames came in.
pub fn run_server_case(c: &ServerCase) -> (r: Option<ServerReport>)
    ensures
        r is None <==> parse_of(c.fixture, c.text()) is Err,
        r matches Some(report) ==> {
            let (f, args, seed) = (c.fixture, c.text(), c.pre_seed as nat);
            if c.unknown_cmd {
                &&& done(report.result) == Err::<(), Seq<char>>(unknown_command("nope"@))
                &&& report.sent@.len() == 0
                &&& report.left == c.fed()
                &&& texts(report.entries@) == seeded(seed)
            } else {
                &&& done(report.result) == server_end(f, args, c.fed())
                &&& values(report.sent@) == server_answers(f, args, seed as int, c.fed())
                &&& report.left == server_leaves(f, args, c.fed())
                &&& texts(report.entries@) == entries_after(f, args, c.fed(), seeded(seed))
            }
        },
{
    let spec = c.spec();
    if spec.parse_error().is_some() {
        return None;
    }
    let ghost (f, args) = (c.fixture, c.text());
    let (mut frames, fed) = first_frames(spec.client_frames(), c.feed as usize);
    let ghost fed_frames = values(frames@);
    let mut ctx = CtxState::new(c.pre_seed as usize);
    let ghost before = ctx;
    assert(texts(ctx.entries@).len() == ctx.entries@.len());
    if c.via_dispatch || c.unknown_cmd {
        let command = if c.unknown_cmd {
            "nope"
        } else {
            spec.fixture.name()
        };
        let mut incoming: Vec<Msg> = Vec::new();
        incoming.push(Msg::Command(command.to_owned()));
        incoming.append(&mut frames);
        let mut ep = TestEndpoint::new(incoming);
        let ghost conn = ep;
        assert(conn.inbox() =~= seq![Message::Command(command@)] + fed_frames);
        assert(conn.inbox().drop_first() =~= fed_frames);
        let protocols = FixtureId::all_protocols();
        let result = ServerHandle::handle_connection(&protocols, &mut ep, &mut ctx);
        proof {
            lemma_fixture_named(protocols@, f);
            let (c1, got) = choose|c1: TestEndpoint<Msg>, got: Result<Message, Seq<char>>|
                #[trigger] conn.receives(&c1, got) && dispatched(
                    protocols@,
                    got,
                    c1,
                    before,
                    ep,
                    ctx,
                    done(result),
                );
            if !c.unknown_cmd {
                lemma_server_conversation(f, args, fed as int, c1, before, ep, ctx, done(result));
            }
        }
        let left = ep.incoming.len();
        Some(ServerReport { result, sent: outgoing_frames(ep), left, entries: ctx.entries })
    } else {
        let mut ep = TestEndpoint::new(frames);
        let ghost conn = ep;
        let result = spec.fixture.protocol().run_server(&mut ep, &mut ctx);
        proof {
            lemma_server_conversation(f, args, fed as int, conn, before, ep, ctx, done(result));
        }
        let left = ep.incoming.len();
        Some(ServerReport { result, sent: outgoing_frames(ep), left, entries: ctx.entries })
    }
}

/// The failure in place of the `k`-th frame of a server.
pub open spec fn failure_at(k: int) -> Seq<char> {
    "srvfail-"@ + decimal_text(k as nat)
}

/// The frames that come in at a client: the first `fed` ones, the one at
/// `err_at` replaced by a failure.
pub open spec fn responses(
    f: FixtureId,
    args: Seq<char>,
    seed: int,
    fed: int,
    err_at: Option<int>,
) -> Seq<Message> {
    let sent = server_messages(f, args, seed).take(fed);
    match err_at {
        Some(k) => sent.update(k, Message::Failure(failure_at(k))),
        None => sent,
    }
}

/// How a client ends: with the last frame of the server, or the failure that
/// came in, or the loss of the server.
pub open spec fn client_end(
    f: FixtureId,
    args: Seq<char>,
    seed: int,
    fed: int,
    err_at: Option<int>,
) -> Result<Message, Seq<char>> {
    let all = server_messages(f, args, seed);
    match err_at {
        Some(k) => Err(failure_at(k)),
        None => if fed < all.len() {
            Err("no data"@)
        } else {
            Ok(all.last())
        },
    }
}

/// How many frames a client receives before it breaks off; it does not break
/// off where this is all of them.
pub open spec fn heard(fed: int, err_at: Option<int>) -> int {
    match err_at {
        Some(k) => k,
        None => fed,
    }
}

/// The frames that a client sends.
pub open spec fn client_answers(
    f: FixtureId,
    args: Seq<char>,
    seed: int,
    fed: int,
    err_at: Option<int>,
) -> Seq<Message> {
    let all = client_messages(f, args);
    let k = heard(fed, err_at);
    if k < server_messages(f, args, seed).len() {
        all.take(sends_before(layout(f), k, 0, 0))
    } else {
        all
    }
}

/// The lines that a client prints.
pub open spec fn client_lines(
    f: FixtureId,
    args: Seq<char>,
    seed: int,
    fed: int,
    err_at: Option<int>,
) -> Seq<Seq<char>> {
    rendered_after(f, args, seed, heard(fed, err_at))
}

/// How many of the frames that come in a client leaves unread.
pub open spec fn client_leaves(fed: int, err_at: Option<int>) -> int {
    match err_at {
        Some(k) => fed - k - 1,
        None => 0,
    }
}

/// What a client step of a fixture prints and gives.
proof fn lemma_fixture_client_ran(
    step: FixtureClient,
    data: Message,
    out: BufferConsole,
    input: NoInput,
    out_after: BufferConsole,
    input_after: NoInput,
    r: Result<Message, Seq<char>>,
)
    requires
        client_ran::<Msg, FixtureClient, BufferConsole, NoInput>(
            step,
            data,
            out,
            input,
            out_after,
            input_after,
            r,
        ),
    ensures
        r == client_of(step.fixture, step.step as int, data).1,
        out_after@ == match client_of(step.fixture, step.step as int, data).0 {
            Some(line) => out@.push(line),
            None => out@,
        },
{
    let session = choose|session: Seq<Exchange>| #[trigger]
        step.gives(data, session, r) && happened(out, input, session, out_after, input_after);
    reveal_with_fuel(happened, 2);
    if session.len() > 0 {
        assert(session.drop_first().len() == 0);
    }
}

/// A client that the given frames come in at.
proof fn lemma_client_conversation(
    f: FixtureId,
    args: Seq<char>,
    seed: int,
    fed: int,
    err_at: Option<int>,
    conn: TestEndpoint<Msg>,
    out: BufferConsole,
    conn_after: TestEndpoint<Msg>,
    out_after: BufferConsole,
    r: Result<Message, Seq<char>>,
)
    requires
        parse_of(f, args) is Ok,
        client_walk::<FixtureKit, TestEndpoint<Msg>, BufferConsole, NoInput>(
            fixture_steps(f),
            0,
            parse_of(f, args)->Ok_0,
            Message::Empty,
            conn,
            out,
            NoInput,
            conn_after,
            out_after,
            NoInput,
            r,
        ),
        0 <= fed <= server_messages(f, args, seed).len(),
        err_at matches Some(k) ==> 0 <= k < fed,
        conn.inbox() == responses(f, args, seed, fed, err_at),
        conn.outbox() == Seq::<Message>::empty(),
        out@ == Seq::<Seq<char>>::empty(),
    ensures
        r == client_end(f, args, seed, fed, err_at),
        conn_after.outbox() =~= client_answers(f, args, seed, fed, err_at),
        out_after@ =~= client_lines(f, args, seed, fed, err_at),
        conn_after.inbox().len() == client_leaves(fed, err_at),
{
    let steps = fixture_steps(f);
    let first = parse_of(f, args)->Ok_0;
    let empty = Message::Empty;
    let all = server_messages(f, args, seed);
    let given = conn.inbox();
    let n = NoInput;
    reveal_with_fuel(sends_before, 7);
    let (c0, o0, p0, g0) = client_computes(
        steps,
        0,
        first,
        empty,
        conn,
        out,
        n,
        conn_after,
        out_after,
        n,
        r,
    );
    lemma_fixture_client_ran(steps[0]->Client_0, first, out, n, o0, p0, g0);
    let c1 = client_receives(
        steps,
        1,
        first,
        empty,
        c0,
        o0,
        p0,
        conn_after,
        out_after,
        n,
        r,
    );
    if fed >= 1 && err_at != Some(0int) {
        assert(given[0] == all[0]);
        let (c2, o2, p2, g2) = client_computes(
            steps,
            2,
            all[0],
            all[0],
            c1,
            o0,
            p0,
            conn_after,
            out_after,
            n,
            r,
        );
        lemma_fixture_client_ran(steps[2]->Client_0, all[0], o0, p0, o2, p2, g2);
        if f == FixtureId::Multi {
            let c3 = client_receives(
                steps,
                3,
                g2->Ok_0,
                all[0],
                c2,
                o2,
                p2,
                conn_after,
                out_after,
                n,
                r,
            );
            if fed >= 2 {
                assert(c2.inbox()[0] == given[1]);
                if err_at is None {
                    assert(given[1] == all[1]);
                    let (c4, o4, p4, g4) = client_computes(
                        steps,
                        4,
                        all[1],
                        all[1],
                        c3,
                        o2,
                        p2,
                        conn_after,
                        out_after,
                        n,
                        r,
                    );
                    lemma_fixture_client_ran(steps[4]->Client_0, all[1], o2, p2, o4, p4, g4);
                    client_finishes(
                        steps,
                        5,
                        g4->Ok_0,
                        all[1],
                        c4,
                        o4,
                        p4,
                        conn_after,
                        out_after,
                        n,
                        r,
                    );
                }
            }
        } else {
            client_finishes(
                steps,
                3,
                g2->Ok_0,
                all[0],
                c2,
                o2,
                p2,
                conn_after,
                out_after,
                n,
                r,
            );
        }
    }
}

/// What comes in at a client.
pub struct ClientCase {
    pub fixture: FixtureId,
    pub args_raw: String,
    pub salt: u8,
    pub pre_seed: u8,
    /// How many frames of the conversation come in, at most all of them.
    pub feed: u8,
    /// Which of the frames that come in is a failure; none where it is not
    /// among them.
    pub err_at: u8,
}

impl ClientCase {
    /// The arguments of the conversation.
    pub open spec fn text(&self) -> Seq<char> {
        sprouted(self.args_raw@, self.salt)
    }

    /// How many frames of the conversation come in.
    pub open spec fn fed(&self) -> int {
        let n = server_messages(self.fixture, self.text(), self.pre_seed as int).len();
        if self.feed <= n {
            self.feed as int
        } else {
            n as int
        }
    }

    /// Which of them is a failure.
    pub open spec fn failing(&self) -> Option<int> {
        if self.err_at < self.fed() {
            Some(self.err_at as int)
        } else {
            None
        }
    }
}

/// What came of a [`ClientCase`].
pub struct ClientReport {
    pub result: Result<Msg, String>,
    /// The lines that were printed.
    pub lines: Vec<String>,
    /// The frames that went out.
    pub sent: Vec<Msg>,
    /// How many frames were left unread.
    pub left: usize,
}

/// Runs the client's side of a conversation.
///
/// Where the arguments cannot be parsed, the client sends, receives and prints
/// nothing. The failure of a server step reaches the caller as it came, and so
/// does the loss of the server; what was printed before is kept.
pub fn run_client_case(c: &ClientCase) -> (report: ClientReport)
    ensures
        ({
            let (f, args, seed) = (c.fixture, c.text(), c.pre_seed as int);
            match parse_of(f, args) {
                Err(error) => {
                    &&& outcome(report.result) == Err::<Message, Seq<char>>(error)
                    &&& report.lines@.len() == 0
                    &&& report.sent@.len() == 0
                    &&& report.left == 1
                },
                Ok(_) => {
                    &&& outcome(report.result) == client_end(f, args, seed, c.fed(), c.failing())
                    &&& texts(report.lines@) == client_lines(f, args, seed, c.fed(), c.failing())
                    &&& values(report.sent@) == client_answers(
                        f,
                        args,
                        seed,
                        c.fed(),
                        c.failing(),
                    )
                    &&& report.left == client_leaves(c.fed(), c.failing())
                },
            }
        }),
{
    let spec = CaseSpec {
        fixture: c.fixture,
        args_raw: c.args_raw.clone(),
        salt: c.salt,
        pre_seed: c.pre_seed,
        fail: false,
    };
    let args = spec.args();
    let ghost seed = c.pre_seed as int;
    let incoming = if spec.parse_error().is_some() {
        let mut unread: Vec<Msg> = Vec::new();
        unread.push(Msg::Command("never read".to_owned()));
        unread
    } else {
        let (mut frames, fed) = first_frames(spec.server_frames(), c.feed as usize);
        let ghost before = values(frames@);
        let k = c.err_at as usize;
        if k < fed {
            frames.set(k, Msg::Failure(joined("srvfail-", decimal(k as u64).as_str())));
            assert(values(frames@) =~= before.update(k as int, Message::Failure(failure_at(k as int))));
        }
        frames
    };
    let mut ep = TestEndpoint::new(incoming);
    let ghost conn = ep;
    let mut console = BufferConsole::new();
    let ghost out = console;
    let mut input = NoInput;
    let protocol = spec.fixture.protocol();
    let result = protocol.run_client(args.as_str(), &mut ep, &mut console, &mut input);
    proof {
        if parse_of(c.fixture, c.text()) is Ok {
            assert(conn.inbox() =~= responses(c.fixture, c.text(), seed, c.fed(), c.failing()));
            lemma_client_conversation(
                c.fixture,
                c.text(),
                seed,
                c.fed(),
                c.failing(),
                conn,
                out,
                ep,
                console,
                outcome(result),
            );
        }
        assert(console@.len() == console.lines@.len());
    }
    let left = ep.incoming.len();
    ClientReport { result, lines: console.lines, sent: outgoing_frames(ep), left }
}

/// A whole conversation.
pub struct RoundTripCase {
    pub fixture: FixtureId,
    pub args_raw: String,
    pub salt: u8,
    pub pre_seed: u8,
    /// Makes the server of `boom` fail.
    pub fail: bool,
}

/// Whether the two lists hold the same texts.
fn same_texts(a: &Vec<String>, b: &Vec<String>) -> (same: bool)
    ensures
        same == (texts(a@) == texts(b@)),
{
    assert(texts(a@).len() == a@.len() && texts(b@).len() == b@.len());
    if a.len() != b.len() {
        return false;
    }
    let mut i: usize = 0;
    while i < a.len()
        invariant
            i <= a@.len(),
            a@.len() == b@.len(),
            forall|j: int| 0 <= j < i ==> texts(a@)[j] == texts(b@)[j],
        decreases a@.len() - i,
    {
        assert(texts(a@)[i as int] == a@[i as int]@ && texts(b@)[i as int] == b@[i as int]@);
        if *a[i].as_str() != *b[i].as_str() {
            return false;
        }
        i += 1;
    }
    assert(texts(a@) =~= texts(b@));
    true
}

/// Whether a result is this failure.
fn failed_with<T>(r: &Result<T, String>, error: &str) -> (b: bool)
    ensures
        b == (r matches Err(e) && e@ == error@),
{
    match r {
        Ok(_) => false,
        Err(e) => *e.as_str() == *error,
    }
}

impl RoundTripCase {
    /// The conversation.
    pub fn spec(&self) -> (c: CaseSpec)
        ensures
            c.fixture == self.fixture,
            c.pre_seed == self.pre_seed,
            c.text() == self.text(),
    {
        CaseSpec {
            fixture: self.fixture,
            args_raw: self.args_raw.clone(),
            salt: self.salt,
            pre_seed: self.pre_seed,
            fail: self.fail,
        }
    }

    /// The arguments of the conversation.
    pub open spec fn text(&self) -> Seq<char> {
        arguments(self.fixture, self.args_raw@, self.salt, self.fail)
    }

    /// Whether both sides have come to the end that the conversation has: the
    /// failure of a server step on both sides, or success on both, with all the
    /// lines printed and one entry more where an entry is added.
    pub fn agrees(
        &self,
        client: &Result<Msg, String>,
        lines: &Vec<String>,
        server: &Result<(), String>,
        entries: usize,
    ) -> (b: bool)
        ensures
            b == match failure(self.fixture, self.text()) {
                Some(error) => outcome(*client) == Err::<Message, Seq<char>>(error) && done(
                    *server,
                ) == Err::<(), Seq<char>>(error),
                None => {
                    &&& client is Ok
                    &&& server is Ok
                    &&& texts(lines@) == rendered(self.fixture, self.text(), self.pre_seed as int)
                    &&& self.fixture == FixtureId::Ctx ==> entries == self.pre_seed + 1
                },
            },
    {
        let spec = self.spec();
        match spec.server_error() {
            Some(error) => failed_with(client, error.as_str()) && failed_with(
                server,
                error.as_str(),
            ),
            None => client.is_ok() && server.is_ok() && same_texts(lines, &spec.expected_render())
                && (self.fixture != FixtureId::Ctx || entries == self.pre_seed as usize + 1),
        }
    }
}

/// What a client sends step by step, whatever comes in: its first frame at
/// once, and each further one on the server's frame before it.
proof fn lemma_client_stages(
    f: FixtureId,
    args: Seq<char>,
    seed: int,
    conn: TestEndpoint<Msg>,
    out: BufferConsole,
    conn_after: TestEndpoint<Msg>,
    out_after: BufferConsole,
    r: Result<Message, Seq<char>>,
)
    requires
        parse_of(f, args) is Ok,
        client_walk::<FixtureKit, TestEndpoint<Msg>, BufferConsole, NoInput>(
            fixture_steps(f),
            0,
            parse_of(f, args)->Ok_0,
            Message::Empty,
            conn,
            out,
            NoInput,
            conn_after,
            out_after,
            NoInput,
            r,
        ),
        conn.outbox() == Seq::<Message>::empty(),
        out@ == Seq::<Seq<char>>::empty(),
    ensures
        ({
            let sent = conn_after.outbox();
            let got = conn.inbox();
            let (ours, theirs) = (client_messages(f, args), server_messages(f, args, seed));
            &&& sent.len() >= 1 && sent[0] == ours[0]
            &&& got.len() >= 1 ==> (got[0] matches Message::Failure(error) ==> r == Err::<
                Message,
                Seq<char>,
            >(error))
            &&& got.len() >= 1 && got[0] == theirs[0] ==> sent.len() >= 2 && sent[1] == ours[1]
            &&& got.len() >= theirs.len() && got.take(theirs.len() as int) == theirs ==> {
                &&& sent == ours
                &&& r == Ok::<Message, Seq<char>>(theirs.last())
                &&& out_after@ == rendered(f, args, seed)
            }
        }),
{
    let steps = fixture_steps(f);
    let first = parse_of(f, args)->Ok_0;
    let empty = Message::Empty;
    let got = conn.inbox();
    let ours = client_messages(f, args);
    let theirs = server_messages(f, args, seed);
    let n = NoInput;
    if got.len() >= theirs.len() && got.take(theirs.len() as int) == theirs {
        assert forall|j: int| 0 <= j < theirs.len() implies got[j] == theirs[j] by {
            assert(got.take(theirs.len() as int)[j] == got[j]);
        }
    }
    let (c0, o0, p0, g0) = client_computes(
        steps,
        0,
        first,
        empty,
        conn,
        out,
        n,
        conn_after,
        out_after,
        n,
        r,
    );
    lemma_fixture_client_ran(steps[0]->Client_0, first, out, n, o0, p0, g0);
    let c1 = client_receives(
        steps,
        1,
        first,
        empty,
        c0,
        o0,
        p0,
        conn_after,
        out_after,
        n,
        r,
    );
    if got.len() >= 1 && !(got[0] is Failure) {
        let (c2, o2, p2, g2) = client_computes(
            steps,
            2,
            got[0],
            got[0],
            c1,
            o0,
            p0,
            conn_after,
            out_after,
            n,
            r,
        );
        lemma_fixture_client_ran(steps[2]->Client_0, got[0], o0, p0, o2, p2, g2);
        if g2 is Ok {
            if f == FixtureId::Multi {
                let c3 = client_receives(
                    steps,
                    3,
                    g2->Ok_0,
                    got[0],
                    c2,
                    o2,
                    p2,
                    conn_after,
                    out_after,
                    n,
                    r,
                );
                if got.len() >= 2 {
                    assert(c2.inbox()[0] == got[1]);
                    if !(got[1] is Failure) {
                        let (c4, o4, p4, g4) = client_computes(
                            steps,
                            4,
                            got[1],
                            got[1],
                            c3,
                            o2,
                            p2,
                            conn_after,
                            out_after,
                            n,
                            r,
                        );
                        lemma_fixture_client_ran(steps[4]->Client_0, got[1], o2, p2, o4, p4, g4);
                        if g4 is Ok {
                            client_finishes(
                                steps,
                                5,
                                g4->Ok_0,
                                got[1],
                                c4,
                                o4,
                                p4,
                                conn_after,
                                out_after,
                                n,
                                r,
                            );
                            if got[0] == theirs[0] && got[1] == theirs[1] {
                                assert(conn_after.outbox() =~= ours);
                                assert(out_after@ =~= rendered(f, args, seed));
                            }
                        }
                    }
                }
            } else {
                client_finishes(
                    steps,
                    3,
                    g2->Ok_0,
                    got[0],
                    c2,
                    o2,
                    p2,
                    conn_after,
                    out_after,
                    n,
                    r,
                );
                if got[0] == theirs[0] {
                    assert(conn_after.outbox() =~= ours);
                    assert(out_after@ =~= rendered(f, args, seed));
                }
            }
        }
    }
}

/// What a server sends step by step, whatever comes in: its first frame on the
/// client's first one, and so on.
proof fn lemma_server_stages(
    f: FixtureId,
    args: Seq<char>,
    conn: TestEndpoint<Msg>,
    ctx: CtxState,
    conn_after: TestEndpoint<Msg>,
    ctx_after: CtxState,
    r: Result<(), Seq<char>>,
)
    requires
        server_walk::<FixtureKit, TestEndpoint<Msg>>(
            fixture_steps(f),
            0,
            Message::Empty,
            conn,
            ctx,
            conn_after,
            ctx_after,
            r,
        ),
        parse_of(f, args) is Ok,
        conn.outbox() == Seq::<Message>::empty(),
    ensures
        ({
            let sent = conn_after.outbox();
            let got = conn.inbox();
            let theirs = client_messages(f, args);
            let ours = server_messages(f, args, ctx.entries@.len() as int);
            &&& got.len() >= 1 && got[0] == theirs[0] ==> match failure(f, args) {
                Some(error) => {
                    &&& r == Err::<(), Seq<char>>(error)
                    &&& sent == seq![Message::Failure(error)]
                },
                None => sent.len() >= 1 && sent[0] == ours[0],
            }
            &&& got.len() >= 2 && got[0] == theirs[0] && got[1] == theirs[1] && failure(f, args)
                is None ==> sent.len() >= ours.len() && sent.take(ours.len() as int) == ours
        }),
{
    let steps = fixture_steps(f);
    let got = conn.inbox();
    let theirs = client_messages(f, args);
    let ours = server_messages(f, args, ctx.entries@.len() as int);
    let c0 = server_receives(steps, 0, Message::Empty, conn, ctx, conn_after, ctx_after, r);
    if got.len() >= 1 && got[0] == theirs[0] {
        let (c1, x1, g1) = server_computes(steps, 1, got[0], c0, ctx, conn_after, ctx_after, r);
        if g1 is Ok {
            let c2 = server_receives(steps, 2, g1->Ok_0, c1, x1, conn_after, ctx_after, r);
            if got.len() >= 2 {
                assert(c1.inbox()[0] == got[1]);
                if f == FixtureId::Multi {
                    let (c3, x3, g3) = server_computes(
                        steps,
                        3,
                        got[1],
                        c2,
                        x1,
                        conn_after,
                        ctx_after,
                        r,
                    );
                    if g3 is Ok {
                        let c4 = server_receives(
                            steps,
                            4,
                            g3->Ok_0,
                            c3,
                            x3,
                            conn_after,
                            ctx_after,
                            r,
                        );
                        if got.len() >= 3 {
                            server_finishes(
                                steps,
                                5,
                                c3.inbox()[0],
                                c4,
                                x3,
                                conn_after,
                                ctx_after,
                                r,
                            );
                        }
                    }
                } else {
                    server_finishes(steps, 3, got[1], c2, x1, conn_after, ctx_after, r);
                }
                if got[1] == theirs[1] {
                    assert(conn_after.outbox().take(ours.len() as int) =~= ours);
                }
            }
        } else {
            assert(conn_after.outbox() =~= seq![Message::Failure(g1->Err_0)]);
        }
    }
}

/// Both sides of a conversation agree on how it ends.
///
/// The client runs a fixture's command and the server knows all the fixtures;
/// what the one sends, after the command's name, is what comes in at the other.
/// Where no step fails, both succeed, and the client has printed all its lines.
/// Where a server step fails, both end with its failure.
pub proof fn law_round_trip(
    f: FixtureId,
    args: Seq<char>,
    protocol: Protocol<FixtureKit>,
    client: TestEndpoint<Msg>,
    out: BufferConsole,
    client_after: TestEndpoint<Msg>,
    out_after: BufferConsole,
    ended: Result<Message, Seq<char>>,
    protocols: Seq<Protocol<FixtureKit>>,
    server: TestEndpoint<Msg>,
    ctx: CtxState,
    server_after: TestEndpoint<Msg>,
    ctx_after: CtxState,
    r: Result<(), Seq<char>>,
)
    requires
        parse_of(f, args) is Ok,
        is_protocol_of(protocol, f),
        client_run(
            protocol,
            args,
            client,
            out,
            NoInput,
            client_after,
            out_after,
            NoInput,
            ended,
        ),
        client.outbox() == Seq::<Message>::empty(),
        out@ == Seq::<Seq<char>>::empty(),
        all_fixtures(protocols),
        served(protocols, server, ctx, server_after, ctx_after, r),
        server.outbox() == Seq::<Message>::empty(),
        server.inbox() == seq![Message::Command(fixture_name(f))] + client_after.outbox(),
        client.inbox() == server_after.outbox(),
    ensures
        match failure(f, args) {
            Some(error) => {
                &&& ended == Err::<Message, Seq<char>>(error)
                &&& r == Err::<(), Seq<char>>(error)
            },
            None => {
                let seed = ctx.entries@.len() as int;
                &&& ended == Ok::<Message, Seq<char>>(server_messages(f, args, seed).last())
                &&& r is Ok
                &&& out_after@ == rendered(f, args, seed)
                &&& f == FixtureId::Ctx ==> ctx_after.entries@.len() == seed + 1
            },
        },
{
    let seed = ctx.entries@.len() as int;
    let all = client_messages(f, args);
    lemma_fixture_named(protocols, f);
    let (c1, got) = choose|c1: TestEndpoint<Msg>, got: Result<Message, Seq<char>>| #[trigger]
        server.receives(&c1, got) && dispatched(
            protocols,
            got,
            c1,
            ctx,
            server_after,
            ctx_after,
            r,
        );
    assert(c1.inbox() =~= client_after.outbox());
    lemma_client_stages(f, args, seed, client, out, client_after, out_after, ended);
    lemma_server_stages(f, args, c1, ctx, server_after, ctx_after, r);
    if failure(f, args) is None {
        assert(client_after.outbox() == all);
        assert(all.take(all.len() as int) =~= all);
        lemma_server_conversation(
            f,
            args,
            all.len() as int,
            c1,
            ctx,
            server_after,
            ctx_after,
            r,
        );
        assert(texts(ctx.entries@).len() == seed);
        assert(texts(ctx_after.entries@).len() == ctx_after.entries@.len());
    }
}

} // verus!
