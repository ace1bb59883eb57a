//! Applications: a set of protocols, on the server and on the client.

use crate::connection::{RawConnection, TestEndpoint, Wire};
use crate::console::{done, outcome, BufferConsole, NoInput};
use crate::protocol::{
    client_run, offline_ran, server_walk, FrameOf, Kit, OfflineStep, Protocol,
};
use crate::text::{joined, texts};
use vstd::prelude::*;
use vstd::string::*;

verus! {

/// The index of the first protocol from `i` on that is called `name`.
pub open spec fn named<K: Kit>(protocols: Seq<Protocol<K>>, name: Seq<char>, i: int) -> Option<int>
    decreases protocols.len() - i,
{
    if i < 0 || i >= protocols.len() {
        None
    } else if protocols[i].name@ == name {
        Some(i)
    } else {
        named(protocols, name, i + 1)
    }
}

/// What is said of a command that does not exist.
pub open spec fn unknown_command(name: Seq<char>) -> Seq<char> {
    "Unknown command: "@ + name
}

/// Finds the first protocol that is called `name`.
pub fn find_protocol<K: Kit>(protocols: &Vec<Protocol<K>>, name: &str) -> (r: Option<usize>)
    ensures
        match r {
            Some(k) => named(protocols@, name@, 0) == Some(k as int) && k < protocols@.len()
                && protocols@[k as int].name@ == name@,
            None => named(protocols@, name@, 0) is None,
        },
{
    let mut i: usize = 0;
    while i < protocols.len()
        invariant
            i <= protocols@.len(),
            named(protocols@, name@, 0) == named(protocols@, name@, i as int),
        decreases protocols@.len() - i,
    {
        if *protocols[i].name == *name {
            return Some(i);
        }
        i += 1;
    }
    None
}

/// Finds the first protocol that is called `name`; there being none is an
/// error.
pub fn find_command<K: Kit>(protocols: &Vec<Protocol<K>>, name: &str) -> (r: Result<usize, String>)
    ensures
        match r {
            Ok(k) => named(protocols@, name@, 0) == Some(k as int) && k < protocols@.len()
                && protocols@[k as int].name@ == name@,
            Err(error) => named(protocols@, name@, 0) is None && error@ == unknown_command(name@),
        },
{
    match find_protocol(protocols, name) {
        Some(k) => Ok(k),
        None => Err(joined("Unknown command: ", name)),
    }
}

/// How a server that got `got` for the name of a command goes on: it runs the
/// command, or fails without a word to the client.
pub open spec fn dispatched<K: Kit, C: RawConnection<K::Frame>>(
    protocols: Seq<Protocol<K>>,
    got: Result<FrameOf<K>, Seq<char>>,
    conn: C,
    ctx: K::Ctx,
    conn_after: C,
    ctx_after: K::Ctx,
    r: Result<(), Seq<char>>,
) -> bool {
    let command = match got {
        Ok(frame) => <K::Frame as Wire>::command_in(frame),
        Err(error) => Err(error),
    };
    match command {
        Err(error) => {
            &&& r == Err::<(), Seq<char>>(error)
            &&& conn_after == conn
            &&& ctx_after == ctx
        },
        Ok(name) => match named(protocols, name, 0) {
            None => {
                &&& r == Err::<(), Seq<char>>(unknown_command(name))
                &&& conn_after == conn
                &&& ctx_after == ctx
            },
            Some(k) => server_walk(
                protocols[k].steps@,
                0,
                <K::Frame as Wire>::empty_view(),
                conn,
                ctx,
                conn_after,
                ctx_after,
                r,
            ),
        },
    }
}

/// How a server serves one connection.
pub open spec fn served<K: Kit, C: RawConnection<K::Frame>>(
    protocols: Seq<Protocol<K>>,
    conn: C,
    ctx: K::Ctx,
    conn_after: C,
    ctx_after: K::Ctx,
    r: Result<(), Seq<char>>,
) -> bool {
    exists|c: C, got: Result<FrameOf<K>, Seq<char>>| #[trigger]
        conn.receives(&c, got) && dispatched(protocols, got, c, ctx, conn_after, ctx_after, r)
}

/// A server: where it listens, and the commands it knows.
pub struct ServerHandle<K: Kit> {
    pub socket: String,
    pub protocols: Vec<Protocol<K>>,
}

impl<K: Kit> ServerHandle<K> {
    /// Serves one connection: receives the name of a command and runs the
    /// command's conversation.
    pub fn handle_connection<C: RawConnection<K::Frame>>(
        protocols: &Vec<Protocol<K>>,
        conn: &mut C,
        ctx: &mut K::Ctx,
    ) -> (r: Result<(), String>)
        ensures
            served(
                protocols@,
                *old(conn),
                *old(ctx),
                *final(conn),
                *final(ctx),
                done(r),
            ),
    {
        let ghost c = *conn;
        let got = conn.recv_bytes();
        assert(c.receives(conn, outcome(got)));
        match got {
            Err(error) => Err(error),
            Ok(frame) => match frame.read_command() {
                Err(error) => Err(error),
                Ok(name) => match find_command(protocols, name.as_str()) {
                    Err(error) => Err(error),
                    Ok(k) => protocols[k].run_server(conn, ctx),
                },
            },
        }
    }
}

/// How a client runs a command without a server: `offline` where the protocol
/// has such a step, else the failure to connect stands.
pub open spec fn executed_offline<K: Kit>(
    protocol: Protocol<K>,
    args: Seq<char>,
    failure: Seq<char>,
    r: Result<Seq<Seq<char>>, Seq<char>>,
) -> bool {
    match protocol.offline {
        None => r == Err::<Seq<Seq<char>>, Seq<char>>(failure),
        Some(offline) => exists|
            empty: BufferConsole,
            out: BufferConsole,
            ended: Result<(), Seq<char>>,
        | #[trigger]
            offline_ran(offline, args, empty, out, ended) && empty@.len() == 0 && r == match ended {
                Ok(()) => Ok(out@),
                Err(error) => Err(error),
            },
    }
}

/// How a client that has sent the name of a command goes on: it holds the
/// command's conversation and gives back the lines that were printed.
pub open spec fn conversed<K: Kit, C: RawConnection<K::Frame>>(
    protocol: Protocol<K>,
    args: Seq<char>,
    sent: Result<(), Seq<char>>,
    conn: C,
    r: Result<Seq<Seq<char>>, Seq<char>>,
) -> bool {
    match sent {
        Err(error) => r == Err::<Seq<Seq<char>>, Seq<char>>(error),
        Ok(()) => exists|
            empty: BufferConsole,
            conn_after: C,
            out: BufferConsole,
            ended: Result<FrameOf<K>, Seq<char>>,
        | #[trigger]
            client_run(protocol, args, conn, empty, NoInput, conn_after, out, NoInput, ended)
                && empty@.len() == 0 && r == match ended {
                Ok(_) => Ok(out@),
                Err(error) => Err(error),
            },
    }
}

/// How a client runs a command, where `conn` is what came of connecting.
pub open spec fn executed<K: Kit, C: RawConnection<K::Frame>>(
    protocol: Protocol<K>,
    args: Seq<char>,
    conn: Result<C, String>,
    r: Result<Seq<Seq<char>>, Seq<char>>,
) -> bool {
    match conn {
        Err(failure) => executed_offline(protocol, args, failure@, r),
        Ok(c0) => exists|c: C, sent: Result<(), Seq<char>>| #[trigger]
            c0.sends(<K::Frame as Wire>::command_view(protocol.name@), &c, sent) && conversed(
                protocol,
                args,
                sent,
                c,
                r,
            ),
    }
}

/// A list of lines with their texts, or the text of an error.
pub open spec fn lines_outcome(r: Result<Vec<String>, String>) -> Result<
    Seq<Seq<char>>,
    Seq<char>,
> {
    match r {
        Ok(lines) => Ok(texts(lines@)),
        Err(error) => Err(error@),
    }
}

/// Runs a command and gives back the lines that it printed. `conn` is what came
/// of connecting to the server.
pub fn execute_command<K: Kit, C: RawConnection<K::Frame>>(
    protocol: &Protocol<K>,
    args: &str,
    conn: Result<C, String>,
) -> (r: Result<Vec<String>, String>)
    ensures
        executed(*protocol, args@, conn, lines_outcome(r)),
{
    let mut console = BufferConsole::new();
    let ghost empty = console;
    match conn {
        Err(failure) => match &protocol.offline {
            None => Err(failure),
            Some(offline) => {
                let ended = offline.run(args, &mut console);
                assert(offline_ran(*offline, args@, empty, console, done(ended)));
                match ended {
                    Ok(()) => Ok(console.lines),
                    Err(error) => Err(error),
                }
            },
        },
        Ok(connected) => {
            let mut conn1 = connected;
            let ghost c0 = conn1;
            let command = <K::Frame as Wire>::command(protocol.name);
            let sent = conn1.send_bytes(&command);
            assert(c0.sends(
                <K::Frame as Wire>::command_view(protocol.name@),
                &conn1,
                done(sent),
            ));
            let ghost (c, sent_text) = (conn1, done(sent));
            let r = match sent {
                Err(error) => Err(error),
                Ok(()) => {
                    let mut input = NoInput;
                    let ended = protocol.run_client(args, &mut conn1, &mut console, &mut input);
                    assert(client_run(
                        *protocol,
                        args@,
                        c,
                        empty,
                        NoInput,
                        conn1,
                        console,
                        NoInput,
                        outcome(ended),
                    ));
                    match ended {
                        Ok(_) => Ok(console.lines),
                        Err(error) => Err(error),
                    }
                },
            };
            assert(conversed(*protocol, args@, sent_text, c, lines_outcome(r)));
            r
        },
    }
}

/// Assembles an [`App`].
pub struct AppBuilder<K: Kit> {
    pub socket: String,
    pub version: String,
    pub log_path: String,
    pub protocols: Vec<Protocol<K>>,
}

impl<K: Kit> AppBuilder<K> {
    /// An application at `socket`, in version 0.1.0, without a log and without
    /// commands.
    pub fn new(socket: &str) -> (b: AppBuilder<K>)
        ensures
            b.socket@ == socket@,
            b.version@ == "0.1.0"@,
            b.log_path@ == ""@,
            b.protocols@.len() == 0,
    {
        AppBuilder {
            socket: socket.to_owned(),
            version: "0.1.0".to_owned(),
            log_path: "".to_owned(),
            protocols: Vec::new(),
        }
    }

    pub fn version(self, v: &str) -> (b: AppBuilder<K>)
        ensures
            b.version@ == v@,
            b.socket == self.socket,
            b.log_path == self.log_path,
            b.protocols == self.protocols,
    {
        let AppBuilder { socket, version: _, log_path, protocols } = self;
        AppBuilder { socket, version: v.to_owned(), log_path, protocols }
    }

    pub fn log_path(self, p: &str) -> (b: AppBuilder<K>)
        ensures
            b.log_path@ == p@,
            b.socket == self.socket,
            b.version == self.version,
            b.protocols == self.protocols,
    {
        let AppBuilder { socket, version, log_path: _, protocols } = self;
        AppBuilder { socket, version, log_path: p.to_owned(), protocols }
    }

    /// Adds a command after those there are.
    pub fn protocol(self, p: Protocol<K>) -> (b: AppBuilder<K>)
        ensures
            b.protocols@ == self.protocols@.push(p),
            b.socket == self.socket,
            b.version == self.version,
            b.log_path == self.log_path,
    {
        let AppBuilder { socket, version, log_path, mut protocols } = self;
        protocols.push(p);
        AppBuilder { socket, version, log_path, protocols }
    }

    pub fn build(self) -> (a: App<K>)
        ensures
            a.socket == self.socket,
            a.version == self.version,
            a.log_path == self.log_path,
            a.protocols == self.protocols,
    {
        App {
            socket: self.socket,
            version: self.version,
            log_path: self.log_path,
            protocols: self.protocols,
        }
    }
}

/// An application: its socket and its commands.
pub struct App<K: Kit> {
    pub socket: String,
    pub version: String,
    pub log_path: String,
    pub protocols: Vec<Protocol<K>>,
}

impl<K: Kit> App<K> {
    pub fn builder(socket: &str) -> (b: AppBuilder<K>)
        ensures
            b.socket@ == socket@,
            b.version@ == "0.1.0"@,
            b.log_path@ == ""@,
            b.protocols@.len() == 0,
    {
        AppBuilder::new(socket)
    }

    /// The names of the commands, each with its line of help, in the order in
    /// which they were added.
    pub fn commands(&self) -> (v: Vec<(&'static str, &'static str)>)
        ensures
            v@ == self.protocols@.map_values(|p: Protocol<K>| (p.name, p.help)),
    {
        let mut v: Vec<(&'static str, &'static str)> = Vec::new();
        let ghost listed = self.protocols@.map_values(|p: Protocol<K>| (p.name, p.help));
        let mut i: usize = 0;
        while i < self.protocols.len()
            invariant
                i <= self.protocols@.len(),
                listed == self.protocols@.map_values(|p: Protocol<K>| (p.name, p.help)),
                v@ == listed.take(i as int),
            decreases self.protocols@.len() - i,
        {
            v.push((self.protocols[i].name, self.protocols[i].help));
            assert(listed.take(i + 1) =~= listed.take(i as int).push(listed[i as int]));
            i += 1;
        }
        assert(listed.take(i as int) =~= listed);
        v
    }
}

/// An unknown command costs the client its connection and nothing else: the
/// server reads the name, answers nothing and leaves the shared context alone.
pub proof fn law_unknown_command_unanswered<K: Kit>(
    protocols: Seq<Protocol<K>>,
    conn: TestEndpoint<K::Frame>,
    ctx: K::Ctx,
    conn_after: TestEndpoint<K::Frame>,
    ctx_after: K::Ctx,
    r: Result<(), Seq<char>>,
    name: Seq<char>,
)
    requires
        served(protocols, conn, ctx, conn_after, ctx_after, r),
        conn.inbox().len() > 0,
        <K::Frame as Wire>::command_in(conn.inbox()[0]) == Ok::<Seq<char>, Seq<char>>(name),
        forall|k: int| 0 <= k < protocols.len() ==> (#[trigger] protocols[k]).name@ != name,
    ensures
        r == Err::<(), Seq<char>>(unknown_command(name)),
        conn_after.outbox() == conn.outbox(),
        conn_after.inbox() == conn.inbox().drop_first(),
        ctx_after == ctx,
{
    lemma_not_named(protocols, name, 0);
}

pub(crate) proof fn lemma_not_named<K: Kit>(protocols: Seq<Protocol<K>>, name: Seq<char>, i: int)
    requires
        forall|k: int| 0 <= k < protocols.len() ==> (#[trigger] protocols[k]).name@ != name,
    ensures
        named(protocols, name, i) is None,
    decreases protocols.len() - i,
{
    if 0 <= i < protocols.len() {
        lemma_not_named(protocols, name, i + 1);
    }
}

/// Of two commands with one name the first answers.
pub proof fn law_first_command_answers<K: Kit>(
    protocols: Seq<Protocol<K>>,
    name: Seq<char>,
    k: int,
)
    requires
        0 <= k < protocols.len(),
        protocols[k].name@ == name,
        forall|j: int| 0 <= j < k ==> (#[trigger] protocols[j]).name@ != name,
    ensures
        named(protocols, name, 0) == Some(k),
{
    lemma_first_named(protocols, name, 0, k);
}

proof fn lemma_first_named<K: Kit>(protocols: Seq<Protocol<K>>, name: Seq<char>, i: int, k: int)
    requires
        0 <= i <= k < protocols.len(),
        protocols[k].name@ == name,
        forall|j: int| 0 <= j < k ==> (#[trigger] protocols[j]).name@ != name,
    ensures
        named(protocols, name, i) == Some(k),
    decreases k - i,
{
    if i < k {
        assert(protocols[i].name@ != name);
        lemma_first_named(protocols, name, i + 1, k);
    }
}

/// A server takes the first frame for the name of a command and runs the command
/// of that name on the rest of the connection.
pub proof fn law_named_command_is_served<K: Kit>(
    protocols: Seq<Protocol<K>>,
    conn: TestEndpoint<K::Frame>,
    ctx: K::Ctx,
    conn_after: TestEndpoint<K::Frame>,
    ctx_after: K::Ctx,
    r: Result<(), Seq<char>>,
    k: int,
) -> (c: TestEndpoint<K::Frame>)
    requires
        served(protocols, conn, ctx, conn_after, ctx_after, r),
        conn.inbox().len() > 0,
        0 <= k < protocols.len(),
        <K::Frame as Wire>::command_in(conn.inbox()[0]) == Ok::<Seq<char>, Seq<char>>(
            protocols[k].name@,
        ),
        forall|j: int| 0 <= j < k ==> (#[trigger] protocols[j]).name@ != protocols[k].name@,
    ensures
        c.inbox() == conn.inbox().drop_first(),
        c.outbox() == conn.outbox(),
        server_walk(
            protocols[k].steps@,
            0,
            <K::Frame as Wire>::empty_view(),
            c,
            ctx,
            conn_after,
            ctx_after,
            r,
        ),
{
    law_first_command_answers(protocols, protocols[k].name@, k);
    let (c, got) = choose|c: TestEndpoint<K::Frame>, got: Result<FrameOf<K>, Seq<char>>| #[trigger]
        conn.receives(&c, got) && dispatched(protocols, got, c, ctx, conn_after, ctx_after, r);
    c
}

/// A connection on which nothing comes, or no name of a command, is not answered
/// and leaves the shared context alone.
pub proof fn law_nameless_connection_unanswered<K: Kit>(
    protocols: Seq<Protocol<K>>,
    conn: TestEndpoint<K::Frame>,
    ctx: K::Ctx,
    conn_after: TestEndpoint<K::Frame>,
    ctx_after: K::Ctx,
    r: Result<(), Seq<char>>,
)
    requires
        served(protocols, conn, ctx, conn_after, ctx_after, r),
        conn.inbox().len() == 0 || <K::Frame as Wire>::command_in(conn.inbox()[0]) is Err,
    ensures
        r is Err,
        conn.inbox().len() > 0 ==> r->Err_0 == <K::Frame as Wire>::command_in(
            conn.inbox()[0],
        )->Err_0,
        conn_after.outbox() == conn.outbox(),
        ctx_after == ctx,
{
}

/// A command that runs on a connection first sends its name, and then holds its
/// conversation with the arguments it was given; what comes of it is what the
/// conversation printed, or its failure.
pub proof fn law_command_is_named_first<K: Kit>(
    protocol: Protocol<K>,
    args: Seq<char>,
    conn: TestEndpoint<K::Frame>,
    r: Result<Seq<Seq<char>>, Seq<char>>,
) -> (w: (
    TestEndpoint<K::Frame>,
    BufferConsole,
    TestEndpoint<K::Frame>,
    BufferConsole,
    Result<FrameOf<K>, Seq<char>>,
))
    requires
        executed(protocol, args, Ok::<TestEndpoint<K::Frame>, String>(conn), r),
    ensures
        w.0.outbox() == conn.outbox().push(<K::Frame as Wire>::command_view(protocol.name@)),
        w.0.inbox() == conn.inbox(),
        w.1@.len() == 0,
        client_run(protocol, args, w.0, w.1, NoInput, w.2, w.3, NoInput, w.4),
        w.4 is Ok ==> r == Ok::<Seq<Seq<char>>, Seq<char>>(w.3@),
        w.4 matches Err(error) ==> r == Err::<Seq<Seq<char>>, Seq<char>>(error),
{
    let (c, sent) = choose|c: TestEndpoint<K::Frame>, sent: Result<(), Seq<char>>| #[trigger]
        conn.sends(<K::Frame as Wire>::command_view(protocol.name@), &c, sent) && conversed(
            protocol,
            args,
            sent,
            c,
            r,
        );
    let (empty, conn_after, out, ended) = choose|
        empty: BufferConsole,
        conn_after: TestEndpoint<K::Frame>,
        out: BufferConsole,
        ended: Result<FrameOf<K>, Seq<char>>,
    | #[trigger]
        client_run(protocol, args, c, empty, NoInput, conn_after, out, NoInput, ended)
            && empty@.len() == 0 && r == match ended {
            Ok(_) => Ok(out@),
            Err(error) => Err(error),
        };
    (c, empty, conn_after, out, ended)
}

/// Where there is no connection, a command that can do without a server runs its
/// offline step with the arguments it was given, and gives back what that printed, or
/// its failure; any other command fails with the reason why there is no connection.
pub proof fn law_offline_stands_in<K: Kit>(
    protocol: Protocol<K>,
    args: Seq<char>,
    failure: String,
    r: Result<Seq<Seq<char>>, Seq<char>>,
)
    requires
        executed(protocol, args, Err::<TestEndpoint<K::Frame>, String>(failure), r),
    ensures
        protocol.offline is None ==> r == Err::<Seq<Seq<char>>, Seq<char>>(failure@),
        protocol.offline matches Some(offline) ==> exists|
            empty: BufferConsole,
            out: BufferConsole,
            ended: Result<(), Seq<char>>,
        | #[trigger]
            offline_ran(offline, args, empty, out, ended) && empty@.len() == 0 && (ended is Ok ==> r
                == Ok::<Seq<Seq<char>>, Seq<char>>(out@)) && (ended matches Err(error) ==> r
                == Err::<Seq<Seq<char>>, Seq<char>>(error)),
{
    if let Some(offline) = protocol.offline {
        let (empty, out, ended) = choose|
            empty: BufferConsole,
            out: BufferConsole,
            ended: Result<(), Seq<char>>,
        | #[trigger]
            offline_ran(offline, args, empty, out, ended) && empty@.len() == 0 && r == match ended {
                Ok(()) => Ok(out@),
                Err(error) => Err(error),
            };
        assert(offline_ran(offline, args, empty, out, ended));
    }
}

/// What is said of an unknown command names it.
pub proof fn law_unknown_command_is_named(name: Seq<char>)
    ensures
        unknown_command(name).len() == "Unknown command: "@.len() + name.len(),
        unknown_command(name).take("Unknown command: "@.len() as int) == "Unknown command: "@,
        unknown_command(name).skip("Unknown command: "@.len() as int) == name,
{
    let said = "Unknown command: "@;
    assert(unknown_command(name).take(said.len() as int) =~= said);
    assert(unknown_command(name).skip(said.len() as int) =~= name);
}

/// A command whose name cannot be sent fails with what sending failed with. One that
/// succeeds gives exactly the lines that its conversation printed, and one whose
/// conversation fails gives the failure and none of them.
pub proof fn law_command_gives_lines_or_failure<K: Kit, C: RawConnection<K::Frame>>(
    protocol: Protocol<K>,
    args: Seq<char>,
    sent: Result<(), Seq<char>>,
    conn: C,
    r: Result<Seq<Seq<char>>, Seq<char>>,
)
    requires
        conversed(protocol, args, sent, conn, r),
    ensures
        sent matches Err(error) ==> r == Err::<Seq<Seq<char>>, Seq<char>>(error),
        sent is Ok ==> exists|
            empty: BufferConsole,
            after: C,
            out: BufferConsole,
            ended: Result<FrameOf<K>, Seq<char>>,
        | #[trigger]
            client_run(protocol, args, conn, empty, NoInput, after, out, NoInput, ended)
                && empty@.len() == 0 && (ended is Ok <==> r is Ok) && (r matches Ok(lines) ==> lines
                == out@) && (ended is Err ==> r->Err_0 == ended->Err_0),
{
    if sent is Ok {
        let (empty, after, out, ended) = choose|
            empty: BufferConsole,
            after: C,
            out: BufferConsole,
            ended: Result<FrameOf<K>, Seq<char>>,
        | #[trigger]
            client_run(protocol, args, conn, empty, NoInput, after, out, NoInput, ended)
                && empty@.len() == 0 && r == match ended {
                Ok(_) => Ok(out@),
                Err(error) => Err(error),
            };
        assert(client_run(protocol, args, conn, empty, NoInput, after, out, NoInput, ended));
    }
}

} // verus!
