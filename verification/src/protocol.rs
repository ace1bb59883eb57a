//! Conversations between a client and a server, step by step.
//!
//! On the wire, client and server take turns:
//!
//! - client to server: the name of the command,
//! - client to server: what the first client step gives,
//! - server to client: what the first server step gives,
//! - client to server: what the second client step gives, and so on,
//! - client to server: the sentinel.
//!
//! What a step does is up to it, and each kind of step has a relation for saying
//! it. A step that says nothing may do anything.

pub mod laws;

use crate::connection::{RawConnection, TestEndpoint, Wire};
use crate::console::{done, outcome, Console, InputSource, NoInput};
use crate::text::texts;
use vstd::prelude::*;
use vstd::string::*;

verus! {

/// What the shell does once a command has ended.
#[derive(Clone, Copy, Debug, PartialEq, Eq, Structural)]
pub enum ShellAction {
    Continue,
    Exit,
}

/// Turns the arguments of a command into the first frame.
pub trait ParseStep<F: Wire> {
    open spec fn parses(&self, args: Seq<char>, r: Result<F::V, Seq<char>>) -> bool {
        true
    }

    fn parse(&self, args: &str) -> (r: Result<F, String>)
        ensures
            self.parses(args@, outcome(r)),
    ;
}

/// What a step has to do with the user.
pub enum Exchange {
    /// It prints a line.
    Printed(Seq<char>),
    /// It prints an error.
    Complained(Seq<char>),
    /// It asks with a prompt and gets an answer, or none.
    Asked(Seq<char>, Result<Seq<char>, Seq<char>>),
}

/// What becomes of a console and an input source in the course of a session.
pub open spec fn happened<O: Console, I: InputSource>(
    out: O,
    input: I,
    session: Seq<Exchange>,
    out_after: O,
    input_after: I,
) -> bool
    decreases session.len(),
{
    if session.len() == 0 {
        out_after == out && input_after == input
    } else {
        let rest = session.drop_first();
        match session[0] {
            Exchange::Printed(text) => exists|o: O| #[trigger]
                out.printed(text, &o) && happened(o, input, rest, out_after, input_after),
            Exchange::Complained(text) => exists|o: O| #[trigger]
                out.complained(text, &o) && happened(o, input, rest, out_after, input_after),
            Exchange::Asked(prompt, answer) => exists|p: I| #[trigger]
                input.answered(prompt, &p, answer) && happened(out, p, rest, out_after, input_after),
        }
    }
}

/// A step on the client, which may print lines and ask the user. `gives`
/// relates the frame that it gets to its session with the user and to its
/// result.
pub trait ClientStep<F: Wire>: Sized {
    open spec fn gives(
        &self,
        data: F::V,
        session: Seq<Exchange>,
        r: Result<F::V, Seq<char>>,
    ) -> bool {
        true
    }

    fn run<O: Console, I: InputSource>(&self, data: &F, out: &mut O, input: &mut I) -> (r: Result<
        F,
        String,
    >)
        ensures
            exists|session: Seq<Exchange>| #[trigger]
                self.gives(data@, session, outcome(r)) && happened(
                    *old(out),
                    *old(input),
                    session,
                    *final(out),
                    *final(input),
                ),
    ;
}

/// What a client step does to a console and an input source, and its result.
pub open spec fn client_ran<F: Wire, S: ClientStep<F>, O: Console, I: InputSource>(
    step: S,
    data: F::V,
    out: O,
    input: I,
    out_after: O,
    input_after: I,
    r: Result<F::V, Seq<char>>,
) -> bool {
    exists|session: Seq<Exchange>| #[trigger]
        step.gives(data, session, r) && happened(out, input, session, out_after, input_after)
}

/// A step on the server, which sees the state that its connections share.
pub trait ServerStep<F: Wire, X> {
    open spec fn runs(&self, data: F::V, ctx: &X, ctx_after: &X, r: Result<F::V, Seq<char>>) -> bool {
        true
    }

    fn run(&self, data: &F, ctx: &mut X) -> (r: Result<F, String>)
        ensures
            self.runs(data@, old(ctx), final(ctx), outcome(r)),
    ;
}

/// The end of a conversation on the client.
pub trait FinishStep {
    open spec fn finishes(&self, r: Result<ShellAction, Seq<char>>) -> bool {
        true
    }

    fn finish(&self) -> (r: Result<ShellAction, String>)
        ensures
            self.finishes(action_outcome(r)),
    ;
}

/// Suggestions for a line whose first word is the command's name.
pub trait Completer {
    open spec fn completes(&self, confirmed: Seq<char>, r: Seq<Seq<char>>) -> bool {
        true
    }

    fn complete(&self, confirmed: &str) -> (r: Vec<String>)
        ensures
            self.completes(confirmed@, texts(r@)),
    ;
}

/// What a command does where no server can be reached; it cannot ask the user.
pub trait OfflineStep: Sized {
    open spec fn gives(&self, args: Seq<char>, session: Seq<Exchange>, r: Result<(), Seq<char>>) -> bool {
        true
    }

    fn run<O: Console>(&self, args: &str, out: &mut O) -> (r: Result<(), String>)
        ensures
            exists|session: Seq<Exchange>| #[trigger]
                self.gives(args@, session, done(r)) && happened(
                    *old(out),
                    NoInput,
                    session,
                    *final(out),
                    NoInput,
                ),
    ;
}

/// What an offline step does to a console, and its result.
pub open spec fn offline_ran<S: OfflineStep, O: Console>(
    step: S,
    args: Seq<char>,
    out: O,
    out_after: O,
    r: Result<(), Seq<char>>,
) -> bool {
    exists|session: Seq<Exchange>| #[trigger]
        step.gives(args, session, r) && happened(out, NoInput, session, out_after, NoInput)
}

/// The kinds of steps that a family of protocols is made of.
pub trait Kit: Sized {
    type Frame: Wire;

    type Ctx;

    type Parse: ParseStep<Self::Frame>;

    type Client: ClientStep<Self::Frame>;

    type Server: ServerStep<Self::Frame, Self::Ctx>;

    type Finish: FinishStep;

    type Complete: Completer;

    type Offline: OfflineStep;
}

/// The value of a frame of `K`.
pub type FrameOf<K> = <<K as Kit>::Frame as View>::V;

/// The result of a finish step with the text of its error.
pub open spec fn action_outcome(r: Result<ShellAction, String>) -> Result<ShellAction, Seq<char>> {
    match r {
        Ok(action) => Ok(action),
        Err(error) => Err(error@),
    }
}

/// One step of a conversation.
pub enum Step<K: Kit> {
    Client(K::Client),
    Server(K::Server),
    Finalize(K::Finish),
}

/// A command and the conversation behind it.
pub struct Protocol<K: Kit> {
    pub name: &'static str,
    pub help: &'static str,
    pub parse: K::Parse,
    pub steps: Vec<Step<K>>,
    pub completer: Option<K::Complete>,
    pub offline: Option<K::Offline>,
}

/// The last thing a client does: it sends the sentinel, and gives back the
/// last frame of the server, `last`.
pub open spec fn client_ends<K: Kit, C: RawConnection<K::Frame>>(
    last: FrameOf<K>,
    conn: C,
    conn_after: C,
    r: Result<FrameOf<K>, Seq<char>>,
) -> bool {
    exists|sent: Result<(), Seq<char>>| #[trigger]
        conn.sends(<K::Frame as Wire>::sentinel_view(), &conn_after, sent) && r == match sent {
            Ok(()) => Ok(last),
            Err(error) => Err(error),
        }
}

/// How a client goes on from step `i` of a conversation, where `data` is the
/// last frame that was computed or received and `last` the last one that was
/// received: what becomes of its connection, its console and its input source,
/// and the result `r`.
pub open spec fn client_walk<K: Kit, C: RawConnection<K::Frame>, O: Console, I: InputSource>(
    steps: Seq<Step<K>>,
    i: int,
    data: FrameOf<K>,
    last: FrameOf<K>,
    conn: C,
    out: O,
    input: I,
    conn_after: C,
    out_after: O,
    input_after: I,
    r: Result<FrameOf<K>, Seq<char>>,
) -> bool
    decreases steps.len() - i, 3int,
{
    if i < 0 || i >= steps.len() {
        &&& client_ends::<K, C>(last, conn, conn_after, r)
        &&& out_after == out
        &&& input_after == input
    } else {
        match steps[i] {
            Step::Client(step) => exists|o: O, p: I, given: Result<FrameOf<K>, Seq<char>>|
                #[trigger] client_ran(step, data, out, input, o, p, given) && client_given(
                    steps,
                    i,
                    given,
                    last,
                    conn,
                    o,
                    p,
                    conn_after,
                    out_after,
                    input_after,
                    r,
                ),
            Step::Server(_) => exists|c: C, got: Result<FrameOf<K>, Seq<char>>| #[trigger]
                conn.receives(&c, got) && client_got(
                    steps,
                    i,
                    got,
                    c,
                    out,
                    input,
                    conn_after,
                    out_after,
                    input_after,
                    r,
                ),
            Step::Finalize(step) => exists|action: Result<ShellAction, Seq<char>>| #[trigger]
                step.finishes(action) && out_after == out && input_after == input && match action {
                    Err(error) => {
                        &&& r == Err::<FrameOf<K>, Seq<char>>(error)
                        &&& conn_after == conn
                    },
                    Ok(_) => client_ends::<K, C>(last, conn, conn_after, r),
                },
        }
    }
}

/// How a client goes on whose step `i` gave `given`: it sends the frame, or
/// fails.
pub open spec fn client_given<K: Kit, C: RawConnection<K::Frame>, O: Console, I: InputSource>(
    steps: Seq<Step<K>>,
    i: int,
    given: Result<FrameOf<K>, Seq<char>>,
    last: FrameOf<K>,
    conn: C,
    out: O,
    input: I,
    conn_after: C,
    out_after: O,
    input_after: I,
    r: Result<FrameOf<K>, Seq<char>>,
) -> bool
    decreases steps.len() - i, 2int,
{
    match given {
        Err(error) => {
            &&& r == Err::<FrameOf<K>, Seq<char>>(error)
            &&& conn_after == conn
            &&& out_after == out
            &&& input_after == input
        },
        Ok(frame) => exists|c: C, sent: Result<(), Seq<char>>| #[trigger]
            conn.sends(frame, &c, sent) && client_sent(
                steps,
                i,
                frame,
                sent,
                last,
                c,
                out,
                input,
                conn_after,
                out_after,
                input_after,
                r,
            ),
    }
}

/// How a client goes on that tried to send the frame of its step `i`: it takes
/// the next step, or fails.
pub open spec fn client_sent<K: Kit, C: RawConnection<K::Frame>, O: Console, I: InputSource>(
    steps: Seq<Step<K>>,
    i: int,
    frame: FrameOf<K>,
    sent: Result<(), Seq<char>>,
    last: FrameOf<K>,
    conn: C,
    out: O,
    input: I,
    conn_after: C,
    out_after: O,
    input_after: I,
    r: Result<FrameOf<K>, Seq<char>>,
) -> bool
    decreases steps.len() - i, 1int,
{
    match sent {
        Err(error) => {
            &&& r == Err::<FrameOf<K>, Seq<char>>(error)
            &&& conn_after == conn
            &&& out_after == out
            &&& input_after == input
        },
        Ok(()) => 0 <= i < steps.len() && client_walk(
            steps,
            i + 1,
            frame,
            last,
            conn,
            out,
            input,
            conn_after,
            out_after,
            input_after,
            r,
        ),
    }
}

/// How a client goes on that got `got` in place of step `i`, a step of the
/// server: it takes the next step, or fails, with the server's own words where
/// these came.
pub open spec fn client_got<K: Kit, C: RawConnection<K::Frame>, O: Console, I: InputSource>(
    steps: Seq<Step<K>>,
    i: int,
    got: Result<FrameOf<K>, Seq<char>>,
    conn: C,
    out: O,
    input: I,
    conn_after: C,
    out_after: O,
    input_after: I,
    r: Result<FrameOf<K>, Seq<char>>,
) -> bool
    decreases steps.len() - i, 2int,
{
    let failure = match got {
        Err(error) => Some(error),
        Ok(frame) => <K::Frame as Wire>::error_in(frame),
    };
    match failure {
        Some(error) => {
            &&& r == Err::<FrameOf<K>, Seq<char>>(error)
            &&& conn_after == conn
            &&& out_after == out
            &&& input_after == input
        },
        None => 0 <= i < steps.len() && client_walk(
            steps,
            i + 1,
            got->Ok_0,
            got->Ok_0,
            conn,
            out,
            input,
            conn_after,
            out_after,
            input_after,
            r,
        ),
    }
}

/// How a client runs a conversation from the arguments `args`: where they
/// cannot be parsed, nothing is sent, received or printed.
pub open spec fn client_run<K: Kit, C: RawConnection<K::Frame>, O: Console, I: InputSource>(
    protocol: Protocol<K>,
    args: Seq<char>,
    conn: C,
    out: O,
    input: I,
    conn_after: C,
    out_after: O,
    input_after: I,
    r: Result<FrameOf<K>, Seq<char>>,
) -> bool {
    exists|parsed: Result<FrameOf<K>, Seq<char>>| #[trigger]
        protocol.parse.parses(args, parsed) && match parsed {
            Err(error) => {
                &&& r == Err::<FrameOf<K>, Seq<char>>(error)
                &&& conn_after == conn
                &&& out_after == out
                &&& input_after == input
            },
            Ok(data) => client_walk(
                protocol.steps@,
                0,
                data,
                <K::Frame as Wire>::empty_view(),
                conn,
                out,
                input,
                conn_after,
                out_after,
                input_after,
                r,
            ),
        }
}

/// The last thing a server does: it waits for the sentinel.
pub open spec fn server_ends<K: Kit, C: RawConnection<K::Frame>>(
    conn: C,
    conn_after: C,
    r: Result<(), Seq<char>>,
) -> bool {
    exists|got: Result<FrameOf<K>, Seq<char>>| #[trigger]
        conn.receives(&conn_after, got) && r == match got {
            Ok(frame) => <K::Frame as Wire>::sentinel_in(frame),
            Err(error) => Err(error),
        }
}

/// How a server reports the failure `error` of a step: it sends one frame that
/// reads as this failure, whether or not the frame arrives.
pub open spec fn server_fails<K: Kit, C: RawConnection<K::Frame>>(
    error: Seq<char>,
    conn: C,
    conn_after: C,
) -> bool {
    let frame = <K::Frame as Wire>::error_view(error);
    &&& <K::Frame as Wire>::error_in(frame) == Some(error)
    &&& exists|sent: Result<(), Seq<char>>| #[trigger] conn.sends(frame, &conn_after, sent)
}

/// How a server goes on from step `i` of a conversation, where `data` is the
/// last frame that was computed or received: what becomes of its connection and
/// of the shared context, and the result `r`.
pub open spec fn server_walk<K: Kit, C: RawConnection<K::Frame>>(
    steps: Seq<Step<K>>,
    i: int,
    data: FrameOf<K>,
    conn: C,
    ctx: K::Ctx,
    conn_after: C,
    ctx_after: K::Ctx,
    r: Result<(), Seq<char>>,
) -> bool
    decreases steps.len() - i, 3int,
{
    if i < 0 || i >= steps.len() {
        server_ends::<K, C>(conn, conn_after, r) && ctx_after == ctx
    } else {
        match steps[i] {
            Step::Client(_) => exists|c: C, got: Result<FrameOf<K>, Seq<char>>| #[trigger]
                conn.receives(&c, got) && server_got(
                    steps,
                    i,
                    got,
                    c,
                    ctx,
                    conn_after,
                    ctx_after,
                    r,
                ),
            Step::Server(step) => exists|x: K::Ctx, given: Result<FrameOf<K>, Seq<char>>|
                #[trigger] step.runs(data, &ctx, &x, given) && server_given(
                    steps,
                    i,
                    given,
                    conn,
                    x,
                    conn_after,
                    ctx_after,
                    r,
                ),
            Step::Finalize(_) => server_ends::<K, C>(conn, conn_after, r) && ctx_after == ctx,
        }
    }
}

/// How a server goes on that got `got` in place of step `i`, a step of the
/// client: it takes the next step, or fails.
pub open spec fn server_got<K: Kit, C: RawConnection<K::Frame>>(
    steps: Seq<Step<K>>,
    i: int,
    got: Result<FrameOf<K>, Seq<char>>,
    conn: C,
    ctx: K::Ctx,
    conn_after: C,
    ctx_after: K::Ctx,
    r: Result<(), Seq<char>>,
) -> bool
    decreases steps.len() - i, 2int,
{
    match got {
        Err(error) => {
            &&& r == Err::<(), Seq<char>>(error)
            &&& conn_after == conn
            &&& ctx_after == ctx
        },
        Ok(frame) => 0 <= i < steps.len() && server_walk(
            steps,
            i + 1,
            frame,
            conn,
            ctx,
            conn_after,
            ctx_after,
            r,
        ),
    }
}

/// How a server goes on whose step `i` gave `given`: it sends the frame, or
/// reports the failure and fails.
pub open spec fn server_given<K: Kit, C: RawConnection<K::Frame>>(
    steps: Seq<Step<K>>,
    i: int,
    given: Result<FrameOf<K>, Seq<char>>,
    conn: C,
    ctx: K::Ctx,
    conn_after: C,
    ctx_after: K::Ctx,
    r: Result<(), Seq<char>>,
) -> bool
    decreases steps.len() - i, 2int,
{
    match given {
        Err(error) => {
            &&& r == Err::<(), Seq<char>>(error)
            &&& ctx_after == ctx
            &&& server_fails::<K, C>(error, conn, conn_after)
        },
        Ok(frame) => exists|c: C, sent: Result<(), Seq<char>>| #[trigger]
            conn.sends(frame, &c, sent) && server_sent(
                steps,
                i,
                frame,
                sent,
                c,
                ctx,
                conn_after,
                ctx_after,
                r,
            ),
    }
}

/// How a server goes on that tried to send the frame of its step `i`: it takes
/// the next step, or fails.
pub open spec fn server_sent<K: Kit, C: RawConnection<K::Frame>>(
    steps: Seq<Step<K>>,
    i: int,
    frame: FrameOf<K>,
    sent: Result<(), Seq<char>>,
    conn: C,
    ctx: K::Ctx,
    conn_after: C,
    ctx_after: K::Ctx,
    r: Result<(), Seq<char>>,
) -> bool
    decreases steps.len() - i, 1int,
{
    match sent {
        Err(error) => {
            &&& r == Err::<(), Seq<char>>(error)
            &&& conn_after == conn
            &&& ctx_after == ctx
        },
        Ok(()) => 0 <= i < steps.len() && server_walk(
            steps,
            i + 1,
            frame,
            conn,
            ctx,
            conn_after,
            ctx_after,
            r,
        ),
    }
}

impl<K: Kit> Protocol<K> {
    /// Runs the conversation on the client. Gives back the last frame of the
    /// server as it came, an empty one where none came.
    pub fn run_client<C: RawConnection<K::Frame>, O: Console, I: InputSource>(
        &self,
        args: &str,
        conn: &mut C,
        out: &mut O,
        input: &mut I,
    ) -> (r: Result<K::Frame, String>)
        ensures
            client_run(
                *self,
                args@,
                *old(conn),
                *old(out),
                *old(input),
                *final(conn),
                *final(out),
                *final(input),
                outcome(r),
            ),
    {
        match self.parse.parse(args) {
            Err(error) => Err(error),
            Ok(data) => self.walk_client(0, data, <K::Frame as Wire>::empty(), conn, out, input),
        }
    }

    /// Sends the sentinel.
    fn end_client<C: RawConnection<K::Frame>>(last: K::Frame, conn: &mut C) -> (r: Result<
        K::Frame,
        String,
    >)
        ensures
            client_ends::<K, C>(last@, *old(conn), *final(conn), outcome(r)),
    {
        let sentinel = <K::Frame as Wire>::sentinel();
        match conn.send_bytes(&sentinel) {
            Ok(()) => Ok(last),
            Err(error) => Err(error),
        }
    }

    fn walk_client<C: RawConnection<K::Frame>, O: Console, I: InputSource>(
        &self,
        i: usize,
        data: K::Frame,
        last: K::Frame,
        conn: &mut C,
        out: &mut O,
        input: &mut I,
    ) -> (r: Result<K::Frame, String>)
        requires
            i <= self.steps@.len(),
        ensures
            client_walk(
                self.steps@,
                i as int,
                data@,
                last@,
                *old(conn),
                *old(out),
                *old(input),
                *final(conn),
                *final(out),
                *final(input),
                outcome(r),
            ),
        decreases self.steps@.len() - i, 1int,
    {
        if i >= self.steps.len() {
            return Self::end_client(last, conn);
        }
        match &self.steps[i] {
            Step::Client(step) => {
                let ghost (o, p) = (*out, *input);
                let given = step.run(&data, out, input);
                assert(client_ran(*step, data@, o, p, *out, *input, outcome(given)));
                match given {
                    Err(error) => Err(error),
                    Ok(frame) => self.send_client(i, frame, last, conn, out, input),
                }
            },
            Step::Server(_) => {
                let ghost c = *conn;
                let got = conn.recv_bytes();
                assert(c.receives(conn, outcome(got)));
                match got {
                    Err(error) => Err(error),
                    Ok(frame) => match frame.error_text() {
                        Some(error) => Err(error),
                        None => {
                            let received = frame.duplicate();
                            self.walk_client(i + 1, frame, received, conn, out, input)
                        },
                    },
                }
            },
            Step::Finalize(step) => {
                let action = step.finish();
                assert(step.finishes(action_outcome(action)));
                match action {
                    Err(error) => Err(error),
                    Ok(_) => Self::end_client(last, conn),
                }
            },
        }
    }

    fn send_client<C: RawConnection<K::Frame>, O: Console, I: InputSource>(
        &self,
        i: usize,
        frame: K::Frame,
        last: K::Frame,
        conn: &mut C,
        out: &mut O,
        input: &mut I,
    ) -> (r: Result<K::Frame, String>)
        requires
            i < self.steps@.len(),
        ensures
            client_given(
                self.steps@,
                i as int,
                Ok(frame@),
                last@,
                *old(conn),
                *old(out),
                *old(input),
                *final(conn),
                *final(out),
                *final(input),
                outcome(r),
            ),
        decreases self.steps@.len() - i, 0int,
    {
        let ghost c = *conn;
        let ghost given = Ok::<FrameOf<K>, Seq<char>>(frame@);
        let sent = conn.send_bytes(&frame);
        assert(c.sends(given->Ok_0, conn, done(sent)));
        assert(i < self.steps.len());
        match sent {
            Err(error) => Err(error),
            Ok(()) => self.walk_client(i + 1, frame, last, conn, out, input),
        }
    }

    /// Runs the conversation on the server. A failing step is reported to the
    /// client before the conversation ends.
    pub fn run_server<C: RawConnection<K::Frame>>(&self, conn: &mut C, ctx: &mut K::Ctx) -> (r:
        Result<(), String>)
        ensures
            server_walk(
                self.steps@,
                0,
                <K::Frame as Wire>::empty_view(),
                *old(conn),
                *old(ctx),
                *final(conn),
                *final(ctx),
                done(r),
            ),
    {
        self.walk_server(0, <K::Frame as Wire>::empty(), conn, ctx)
    }

    /// Waits for the sentinel.
    fn end_server<C: RawConnection<K::Frame>>(conn: &mut C) -> (r: Result<(), String>)
        ensures
            server_ends::<K, C>(*old(conn), *final(conn), done(r)),
    {
        match conn.recv_bytes() {
            Ok(frame) => frame.read_sentinel(),
            Err(error) => Err(error),
        }
    }

    fn walk_server<C: RawConnection<K::Frame>>(
        &self,
        i: usize,
        data: K::Frame,
        conn: &mut C,
        ctx: &mut K::Ctx,
    ) -> (r: Result<(), String>)
        requires
            i <= self.steps@.len(),
        ensures
            server_walk(
                self.steps@,
                i as int,
                data@,
                *old(conn),
                *old(ctx),
                *final(conn),
                *final(ctx),
                done(r),
            ),
        decreases self.steps@.len() - i, 1int,
    {
        if i >= self.steps.len() {
            return Self::end_server(conn);
        }
        match &self.steps[i] {
            Step::Client(_) => {
                let ghost c = *conn;
                let got = conn.recv_bytes();
                assert(c.receives(conn, outcome(got)));
                match got {
                    Err(error) => Err(error),
                    Ok(frame) => self.walk_server(i + 1, frame, conn, ctx),
                }
            },
            Step::Server(step) => {
                let ghost x = *ctx;
                let given = step.run(&data, ctx);
                assert(step.runs(data@, &x, ctx, outcome(given)));
                match given {
                    Err(error) => {
                        let frame = <K::Frame as Wire>::error_frame(error.as_str());
                        let _ = conn.send_bytes(&frame);
                        Err(error)
                    },
                    Ok(frame) => self.send_server(i, frame, conn, ctx),
                }
            },
            Step::Finalize(_) => Self::end_server(conn),
        }
    }

    fn send_server<C: RawConnection<K::Frame>>(
        &self,
        i: usize,
        frame: K::Frame,
        conn: &mut C,
        ctx: &mut K::Ctx,
    ) -> (r: Result<(), String>)
        requires
            i < self.steps@.len(),
        ensures
            server_given(
                self.steps@,
                i as int,
                Ok(frame@),
                *old(conn),
                *old(ctx),
                *final(conn),
                *final(ctx),
                done(r),
            ),
        decreases self.steps@.len() - i, 0int,
    {
        let ghost c = *conn;
        let ghost given = Ok::<FrameOf<K>, Seq<char>>(frame@);
        let sent = conn.send_bytes(&frame);
        assert(c.sends(given->Ok_0, conn, done(sent)));
        assert(i < self.steps.len());
        match sent {
            Err(error) => Err(error),
            Ok(()) => self.walk_server(i + 1, frame, conn, ctx),
        }
    }
}

/// The steps of a conversation alternate, beginning with a client step.
pub open spec fn alternates<K: Kit>(steps: Seq<Step<K>>) -> bool {
    forall|i: int|
        0 <= i < steps.len() ==> if i % 2 == 0 {
            #[trigger] steps[i] is Client
        } else {
            steps[i] is Server
        }
}

/// The beginning of a protocol: a name and a line of help.
pub struct Plugin;

impl Plugin {
    pub fn new(name: &'static str, help: &'static str) -> (b: ParseBuilder)
        ensures
            b.name == name,
            b.help == help,
    {
        ParseBuilder { name, help }
    }
}

/// A protocol that needs its parse step.
pub struct ParseBuilder {
    pub name: &'static str,
    pub help: &'static str,
}

impl ParseBuilder {
    pub fn parse<K: Kit>(self, parse: K::Parse) -> (b: ClientHead<K>)
        ensures
            b.name == self.name,
            b.help == self.help,
            b.parse == parse,
            b.steps@.len() == 0,
            b.wf(),
    {
        Client { name: self.name, help: self.help, parse, steps: Vec::new() }
    }
}

/// A protocol whose next step is one of the client, or the end.
pub struct Client<K: Kit> {
    pub name: &'static str,
    pub help: &'static str,
    pub parse: K::Parse,
    pub steps: Vec<Step<K>>,
}

pub type ClientHead<K> = Client<K>;

pub type ClientBuilder<K> = Client<K>;

impl<K: Kit> Client<K> {
    pub open spec fn wf(&self) -> bool {
        alternates(self.steps@) && self.steps@.len() % 2 == 0
    }

    pub fn client(self, step: K::Client) -> (b: Server<K>)
        requires
            self.wf(),
        ensures
            b.name == self.name,
            b.help == self.help,
            b.parse == self.parse,
            b.steps@ == self.steps@.push(Step::Client(step)),
            b.wf(),
    {
        let Client { name, help, parse, mut steps } = self;
        steps.push(Step::Client(step));
        Server { name, help, parse, steps }
    }

    pub fn finalize(self, finish: K::Finish) -> (p: Protocol<K>)
        requires
            self.wf(),
        ensures
            p.name == self.name,
            p.help == self.help,
            p.parse == self.parse,
            p.steps@ == self.steps@.push(Step::Finalize(finish)),
            p.completer is None,
            p.offline is None,
            p.wf(),
    {
        let Client { name, help, parse, mut steps } = self;
        steps.push(Step::Finalize(finish));
        assert(steps@.drop_last() =~= self.steps@);
        Protocol { name, help, parse, steps, completer: None, offline: None }
    }
}

/// A protocol whose next step is one of the server, or the end.
pub struct Server<K: Kit> {
    pub name: &'static str,
    pub help: &'static str,
    pub parse: K::Parse,
    pub steps: Vec<Step<K>>,
}

pub type ServerBuilder<K> = Server<K>;

impl<K: Kit> Server<K> {
    pub open spec fn wf(&self) -> bool {
        alternates(self.steps@) && self.steps@.len() % 2 == 1
    }

    pub fn server(self, step: K::Server) -> (b: Client<K>)
        requires
            self.wf(),
        ensures
            b.name == self.name,
            b.help == self.help,
            b.parse == self.parse,
            b.steps@ == self.steps@.push(Step::Server(step)),
            b.wf(),
    {
        let Server { name, help, parse, mut steps } = self;
        steps.push(Step::Server(step));
        Client { name, help, parse, steps }
    }

    pub fn finalize(self, finish: K::Finish) -> (p: Protocol<K>)
        requires
            self.wf(),
        ensures
            p.name == self.name,
            p.help == self.help,
            p.parse == self.parse,
            p.steps@ == self.steps@.push(Step::Finalize(finish)),
            p.completer is None,
            p.offline is None,
            p.wf(),
    {
        let Server { name, help, parse, mut steps } = self;
        steps.push(Step::Finalize(finish));
        assert(steps@.drop_last() =~= self.steps@);
        Protocol { name, help, parse, steps, completer: None, offline: None }
    }
}

impl<K: Kit> Protocol<K> {
    /// The protocol was built to its end: its last step finalizes, the others
    /// alternate.
    pub open spec fn wf(&self) -> bool {
        &&& self.steps@.len() >= 1
        &&& self.steps@.last() is Finalize
        &&& alternates(self.steps@.drop_last())
    }

    /// Adds a completer for the arguments.
    pub fn complete(self, completer: K::Complete) -> (p: Protocol<K>)
        ensures
            p == (Protocol { completer: Some(completer), ..self }),
    {
        let Protocol { name, help, parse, steps, completer: _, offline } = self;
        Protocol { name, help, parse, steps, completer: Some(completer), offline }
    }

    /// Adds what the command does where no server can be reached.
    pub fn offline(self, offline: K::Offline) -> (p: Protocol<K>)
        ensures
            p == (Protocol { offline: Some(offline), ..self }),
    {
        let Protocol { name, help, parse, steps, completer, offline: _ } = self;
        Protocol { name, help, parse, steps, completer, offline: Some(offline) }
    }
}

/// How many client steps there are from step `i` to the end.
pub open spec fn client_steps<K: Kit>(steps: Seq<Step<K>>, i: int) -> nat
    decreases steps.len() - i,
{
    if i < 0 || i >= steps.len() || steps[i] is Finalize {
        0
    } else {
        (if steps[i] is Client {
            1nat
        } else {
            0
        }) + client_steps(steps, i + 1)
    }
}

/// How many server steps there are from step `i` to the end.
pub open spec fn server_steps<K: Kit>(steps: Seq<Step<K>>, i: int) -> nat
    decreases steps.len() - i,
{
    if i < 0 || i >= steps.len() || steps[i] is Finalize {
        0
    } else {
        (if steps[i] is Server {
            1nat
        } else {
            0
        }) + server_steps(steps, i + 1)
    }
}

/// A client that succeeds has sent one frame for each of its steps and the
/// sentinel after them, and has received one frame for each step of the server,
/// none of which reports a failure. So where fewer frames come in, it fails.
pub proof fn law_client_success<K: Kit, O: Console, I: InputSource>(
    steps: Seq<Step<K>>,
    i: int,
    data: FrameOf<K>,
    last: FrameOf<K>,
    conn: TestEndpoint<K::Frame>,
    out: O,
    input: I,
    conn_after: TestEndpoint<K::Frame>,
    out_after: O,
    input_after: I,
    r: Result<FrameOf<K>, Seq<char>>,
)
    requires
        client_walk(
            steps,
            i,
            data,
            last,
            conn,
            out,
            input,
            conn_after,
            out_after,
            input_after,
            r,
        ),
        r is Ok,
    ensures
        conn.inbox().len() >= server_steps(steps, i),
        conn_after.inbox() == conn.inbox().skip(server_steps(steps, i) as int),
        forall|j: int|
            0 <= j < server_steps(steps, i) ==> <K::Frame as Wire>::error_in(
                #[trigger] conn.inbox()[j],
            ) is None,
        conn_after.outbox().len() == conn.outbox().len() + client_steps(steps, i) + 1,
        conn_after.outbox().take(conn.outbox().len() as int) == conn.outbox(),
        conn_after.outbox().last() == <K::Frame as Wire>::sentinel_view(),
        r == Ok::<FrameOf<K>, Seq<char>>(
            if server_steps(steps, i) == 0 {
                last
            } else {
                conn.inbox()[server_steps(steps, i) - 1]
            },
        ),
    decreases steps.len() - i,
{
    if 0 <= i < steps.len() {
        match steps[i] {
            Step::Client(step) => {
                let (o, p, given) = choose|o: O, p: I, given: Result<FrameOf<K>, Seq<char>>|
                    #[trigger] client_ran(step, data, out, input, o, p, given) && client_given(
                        steps,
                        i,
                        given,
                        last,
                        conn,
                        o,
                        p,
                        conn_after,
                        out_after,
                        input_after,
                        r,
                    );
                let frame = given->Ok_0;
                let (c, sent) = choose|c: TestEndpoint<K::Frame>, sent: Result<(), Seq<char>>|
                    #[trigger] conn.sends(frame, &c, sent) && client_sent(
                        steps,
                        i,
                        frame,
                        sent,
                        last,
                        c,
                        o,
                        p,
                        conn_after,
                        out_after,
                        input_after,
                        r,
                    );
                law_client_success(
                    steps,
                    i + 1,
                    frame,
                    last,
                    c,
                    o,
                    p,
                    conn_after,
                    out_after,
                    input_after,
                    r,
                );
                assert(conn_after.outbox().take(conn.outbox().len() as int)
                    =~= conn_after.outbox().take(c.outbox().len() as int).take(
                    conn.outbox().len() as int,
                ));
                assert(c.outbox().take(conn.outbox().len() as int) =~= conn.outbox());
            },
            Step::Server(_) => {
                let (c, got) = choose|
                    c: TestEndpoint<K::Frame>,
                    got: Result<FrameOf<K>, Seq<char>>,
                | #[trigger]
                    conn.receives(&c, got) && client_got(
                        steps,
                        i,
                        got,
                        c,
                        out,
                        input,
                        conn_after,
                        out_after,
                        input_after,
                        r,
                    );
                let frame = got->Ok_0;
                law_client_success(
                    steps,
                    i + 1,
                    frame,
                    frame,
                    c,
                    out,
                    input,
                    conn_after,
                    out_after,
                    input_after,
                    r,
                );
                let n = server_steps(steps, i + 1) as int;
                assert(conn.inbox().drop_first().skip(n) =~= conn.inbox().skip(n + 1));
                assert forall|j: int| 0 <= j < n + 1 implies <K::Frame as Wire>::error_in(
                    #[trigger] conn.inbox()[j],
                ) is None by {
                    if j > 0 {
                        assert(c.inbox()[j - 1] == conn.inbox()[j]);
                    }
                }
            },
            Step::Finalize(_) => {
                assert(conn.inbox().skip(0) =~= conn.inbox());
                assert(conn_after.outbox().take(conn.outbox().len() as int) =~= conn.outbox());
            },
        }
    } else {
        assert(conn.inbox().skip(0) =~= conn.inbox());
        assert(conn_after.outbox().take(conn.outbox().len() as int) =~= conn.outbox());
    }
}

/// A server that succeeds has received one frame for each step of the client
/// and the sentinel after them, and has sent one frame for each of its own
/// steps. So where fewer frames come in, it fails.
pub proof fn law_server_success<K: Kit>(
    steps: Seq<Step<K>>,
    i: int,
    data: FrameOf<K>,
    conn: TestEndpoint<K::Frame>,
    ctx: K::Ctx,
    conn_after: TestEndpoint<K::Frame>,
    ctx_after: K::Ctx,
    r: Result<(), Seq<char>>,
)
    requires
        server_walk(steps, i, data, conn, ctx, conn_after, ctx_after, r),
        r is Ok,
    ensures
        conn.inbox().len() >= client_steps(steps, i) + 1,
        conn_after.inbox() == conn.inbox().skip(client_steps(steps, i) as int + 1),
        <K::Frame as Wire>::sentinel_in(conn.inbox()[client_steps(steps, i) as int]) is Ok,
        conn_after.outbox().len() == conn.outbox().len() + server_steps(steps, i),
        conn_after.outbox().take(conn.outbox().len() as int) == conn.outbox(),
    decreases steps.len() - i,
{
    if 0 <= i < steps.len() && steps[i] !is Finalize {
        match steps[i] {
            Step::Client(_) => {
                let (c, got) = choose|
                    c: TestEndpoint<K::Frame>,
                    got: Result<FrameOf<K>, Seq<char>>,
                | #[trigger]
                    conn.receives(&c, got) && server_got(
                        steps,
                        i,
                        got,
                        c,
                        ctx,
                        conn_after,
                        ctx_after,
                        r,
                    );
                law_server_success(
                    steps,
                    i + 1,
                    got->Ok_0,
                    c,
                    ctx,
                    conn_after,
                    ctx_after,
                    r,
                );
                let n = client_steps(steps, i + 1) as int;
                assert(conn.inbox().drop_first().skip(n + 1) =~= conn.inbox().skip(n + 2));
            },
            Step::Server(step) => {
                let (x, given) = choose|x: K::Ctx, given: Result<FrameOf<K>, Seq<char>>| #[trigger]
                    step.runs(data, &ctx, &x, given) && server_given(
                        steps,
                        i,
                        given,
                        conn,
                        x,
                        conn_after,
                        ctx_after,
                        r,
                    );
                let frame = given->Ok_0;
                let (c, sent) = choose|c: TestEndpoint<K::Frame>, sent: Result<(), Seq<char>>|
                    #[trigger] conn.sends(frame, &c, sent) && server_sent(
                        steps,
                        i,
                        frame,
                        sent,
                        c,
                        x,
                        conn_after,
                        ctx_after,
                        r,
                    );
                law_server_success(steps, i + 1, frame, c, x, conn_after, ctx_after, r);
                assert(conn_after.outbox().take(conn.outbox().len() as int)
                    =~= conn_after.outbox().take(c.outbox().len() as int).take(
                    conn.outbox().len() as int,
                ));
                assert(c.outbox().take(conn.outbox().len() as int) =~= conn.outbox());
            },
            Step::Finalize(_) => {},
        }
    } else {
        assert(conn.inbox().drop_first() =~= conn.inbox().skip(1));
        assert(conn.outbox().take(conn.outbox().len() as int) =~= conn.outbox());
    }
}

/// A server that fails, though all the frames that it waits for come in and the
/// last of them is the sentinel, has told the client: the last frame it sent
/// reports its error word for word. It has sent at most one frame for each of
/// its steps.
pub proof fn law_server_failure<K: Kit>(
    steps: Seq<Step<K>>,
    i: int,
    data: FrameOf<K>,
    conn: TestEndpoint<K::Frame>,
    ctx: K::Ctx,
    conn_after: TestEndpoint<K::Frame>,
    ctx_after: K::Ctx,
    error: Seq<char>,
)
    requires
        server_walk(
            steps,
            i,
            data,
            conn,
            ctx,
            conn_after,
            ctx_after,
            Err::<(), Seq<char>>(error),
        ),
        conn.inbox().len() > client_steps(steps, i),
        <K::Frame as Wire>::sentinel_in(conn.inbox()[client_steps(steps, i) as int]) is Ok,
    ensures
        conn.outbox().len() < conn_after.outbox().len() <= conn.outbox().len() + server_steps(
            steps,
            i,
        ),
        <K::Frame as Wire>::error_in(conn_after.outbox().last()) == Some(error),
    decreases steps.len() - i,
{
    let r = Err::<(), Seq<char>>(error);
    if 0 <= i < steps.len() && steps[i] !is Finalize {
        match steps[i] {
            Step::Client(_) => {
                let (c, got) = choose|
                    c: TestEndpoint<K::Frame>,
                    got: Result<FrameOf<K>, Seq<char>>,
                | #[trigger]
                    conn.receives(&c, got) && server_got(
                        steps,
                        i,
                        got,
                        c,
                        ctx,
                        conn_after,
                        ctx_after,
                        r,
                    );
                law_server_failure(
                    steps,
                    i + 1,
                    got->Ok_0,
                    c,
                    ctx,
                    conn_after,
                    ctx_after,
                    error,
                );
            },
            Step::Server(step) => {
                let (x, given) = choose|x: K::Ctx, given: Result<FrameOf<K>, Seq<char>>| #[trigger]
                    step.runs(data, &ctx, &x, given) && server_given(
                        steps,
                        i,
                        given,
                        conn,
                        x,
                        conn_after,
                        ctx_after,
                        r,
                    );
                if given is Ok {
                    let frame = given->Ok_0;
                    let (c, sent) = choose|c: TestEndpoint<K::Frame>, sent: Result<(), Seq<char>>|
                        #[trigger] conn.sends(frame, &c, sent) && server_sent(
                            steps,
                            i,
                            frame,
                            sent,
                            c,
                            x,
                            conn_after,
                            ctx_after,
                            r,
                        );
                    law_server_failure(steps, i + 1, frame, c, x, conn_after, ctx_after, error);
                }
            },
            Step::Finalize(_) => {},
        }
    }
}

/// Where the next frame reports a failure, the client fails with the very same
/// words, and neither sends nor prints anything more.
pub proof fn law_client_hears_failure<K: Kit, O: Console, I: InputSource>(
    steps: Seq<Step<K>>,
    i: int,
    data: FrameOf<K>,
    last: FrameOf<K>,
    conn: TestEndpoint<K::Frame>,
    out: O,
    input: I,
    conn_after: TestEndpoint<K::Frame>,
    out_after: O,
    input_after: I,
    r: Result<FrameOf<K>, Seq<char>>,
    error: Seq<char>,
)
    requires
        client_walk(
            steps,
            i,
            data,
            last,
            conn,
            out,
            input,
            conn_after,
            out_after,
            input_after,
            r,
        ),
        0 <= i < steps.len(),
        steps[i] is Server,
        conn.inbox().len() > 0,
        <K::Frame as Wire>::error_in(conn.inbox()[0]) == Some(error),
    ensures
        r == Err::<FrameOf<K>, Seq<char>>(error),
        conn_after.outbox() == conn.outbox(),
        out_after == out,
        input_after == input,
{
}

/// Two conversations that are the same for a client from step `i` on: their steps
/// are of the same kinds, and those that a client runs are the same.
pub open spec fn same_for_client<K: Kit>(a: Seq<Step<K>>, b: Seq<Step<K>>, i: int) -> bool {
    &&& a.len() == b.len()
    &&& forall|j: int|
        0 <= j < a.len() && i <= j ==> if (#[trigger] a[j]) is Server {
            b[j] is Server
        } else {
            b[j] == a[j]
        }
}

/// Two conversations that are the same for a server from step `i` on: their steps
/// are of the same kinds, and those that a server runs are the same.
pub open spec fn same_for_server<K: Kit>(a: Seq<Step<K>>, b: Seq<Step<K>>, i: int) -> bool {
    &&& a.len() == b.len()
    &&& forall|j: int|
        0 <= j < a.len() && i <= j ==> match #[trigger] a[j] {
            Step::Server(_) => b[j] == a[j],
            Step::Client(_) => b[j] is Client,
            Step::Finalize(_) => b[j] is Finalize,
        }
}

/// A client runs none of the server's steps, and each of its own at most once:
/// what it does from a step on is the same whatever the server's steps are, and
/// whatever the steps before it are.
pub proof fn law_client_runs_its_own_steps<
    K: Kit,
    C: RawConnection<K::Frame>,
    O: Console,
    I: InputSource,
>(
    a: Seq<Step<K>>,
    b: Seq<Step<K>>,
    i: int,
    data: FrameOf<K>,
    last: FrameOf<K>,
    conn: C,
    out: O,
    input: I,
    conn_after: C,
    out_after: O,
    input_after: I,
    r: Result<FrameOf<K>, Seq<char>>,
)
    requires
        same_for_client(a, b, i),
        client_walk(a, i, data, last, conn, out, input, conn_after, out_after, input_after, r),
    ensures
        client_walk(b, i, data, last, conn, out, input, conn_after, out_after, input_after, r),
    decreases a.len() - i,
{
    if 0 <= i < a.len() {
        match a[i] {
            Step::Client(step) => {
                let (o, p, given) = choose|o: O, p: I, given: Result<FrameOf<K>, Seq<char>>|
                    #[trigger] client_ran(step, data, out, input, o, p, given) && client_given(
                        a,
                        i,
                        given,
                        last,
                        conn,
                        o,
                        p,
                        conn_after,
                        out_after,
                        input_after,
                        r,
                    );
                if let Ok(frame) = given {
                    let (c, sent) = choose|c: C, sent: Result<(), Seq<char>>| #[trigger]
                        conn.sends(frame, &c, sent) && client_sent(
                            a,
                            i,
                            frame,
                            sent,
                            last,
                            c,
                            o,
                            p,
                            conn_after,
                            out_after,
                            input_after,
                            r,
                        );
                    if sent is Ok {
                        law_client_runs_its_own_steps(
                            a,
                            b,
                            i + 1,
                            frame,
                            last,
                            c,
                            o,
                            p,
                            conn_after,
                            out_after,
                            input_after,
                            r,
                        );
                    }
                    assert(conn.sends(frame, &c, sent) && client_sent(
                        b,
                        i,
                        frame,
                        sent,
                        last,
                        c,
                        o,
                        p,
                        conn_after,
                        out_after,
                        input_after,
                        r,
                    ));
                }
                assert(client_ran(step, data, out, input, o, p, given) && client_given(
                    b,
                    i,
                    given,
                    last,
                    conn,
                    o,
                    p,
                    conn_after,
                    out_after,
                    input_after,
                    r,
                ));
            },
            Step::Server(_) => {
                let (c, got) = choose|c: C, got: Result<FrameOf<K>, Seq<char>>| #[trigger]
                    conn.receives(&c, got) && client_got(
                        a,
                        i,
                        got,
                        c,
                        out,
                        input,
                        conn_after,
                        out_after,
                        input_after,
                        r,
                    );
                if got matches Ok(frame) && <K::Frame as Wire>::error_in(frame) is None {
                    law_client_runs_its_own_steps(
                        a,
                        b,
                        i + 1,
                        got->Ok_0,
                        got->Ok_0,
                        c,
                        out,
                        input,
                        conn_after,
                        out_after,
                        input_after,
                        r,
                    );
                }
                assert(conn.receives(&c, got) && client_got(
                    b,
                    i,
                    got,
                    c,
                    out,
                    input,
                    conn_after,
                    out_after,
                    input_after,
                    r,
                ));
            },
            Step::Finalize(_) => {},
        }
    }
}

/// A server runs none of the client's steps, nor the one that finalizes, and each
/// of its own at most once: what it does from a step on is the same whatever those
/// are, and whatever the steps before it are.
pub proof fn law_server_runs_its_own_steps<K: Kit, C: RawConnection<K::Frame>>(
    a: Seq<Step<K>>,
    b: Seq<Step<K>>,
    i: int,
    data: FrameOf<K>,
    conn: C,
    ctx: K::Ctx,
    conn_after: C,
    ctx_after: K::Ctx,
    r: Result<(), Seq<char>>,
)
    requires
        same_for_server(a, b, i),
        server_walk(a, i, data, conn, ctx, conn_after, ctx_after, r),
    ensures
        server_walk(b, i, data, conn, ctx, conn_after, ctx_after, r),
    decreases a.len() - i,
{
    if 0 <= i < a.len() {
        match a[i] {
            Step::Client(_) => {
                let (c, got) = choose|c: C, got: Result<FrameOf<K>, Seq<char>>| #[trigger]
                    conn.receives(&c, got) && server_got(
                        a,
                        i,
                        got,
                        c,
                        ctx,
                        conn_after,
                        ctx_after,
                        r,
                    );
                if let Ok(frame) = got {
                    law_server_runs_its_own_steps(
                        a,
                        b,
                        i + 1,
                        frame,
                        c,
                        ctx,
                        conn_after,
                        ctx_after,
                        r,
                    );
                }
                assert(conn.receives(&c, got) && server_got(
                    b,
                    i,
                    got,
                    c,
                    ctx,
                    conn_after,
                    ctx_after,
                    r,
                ));
            },
            Step::Server(step) => {
                let (x, given) = choose|x: K::Ctx, given: Result<FrameOf<K>, Seq<char>>|
                    #[trigger] step.runs(data, &ctx, &x, given) && server_given(
                        a,
                        i,
                        given,
                        conn,
                        x,
                        conn_after,
                        ctx_after,
                        r,
                    );
                if let Ok(frame) = given {
                    let (c, sent) = choose|c: C, sent: Result<(), Seq<char>>| #[trigger]
                        conn.sends(frame, &c, sent) && server_sent(
                            a,
                            i,
                            frame,
                            sent,
                            c,
                            x,
                            conn_after,
                            ctx_after,
                            r,
                        );
                    if sent is Ok {
                        law_server_runs_its_own_steps(
                            a,
                            b,
                            i + 1,
                            frame,
                            c,
                            x,
                            conn_after,
                            ctx_after,
                            r,
                        );
                    }
                    assert(conn.sends(frame, &c, sent) && server_sent(
                        b,
                        i,
                        frame,
                        sent,
                        c,
                        x,
                        conn_after,
                        ctx_after,
                        r,
                    ));
                }
                assert(step.runs(data, &ctx, &x, given) && server_given(
                    b,
                    i,
                    given,
                    conn,
                    x,
                    conn_after,
                    ctx_after,
                    r,
                ));
            },
            Step::Finalize(_) => {},
        }
    }
}

} // verus!
