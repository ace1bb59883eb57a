//! What travels between the steps of a conversation, step by step.

use crate::connection::{RawConnection, TestEndpoint, Wire};
use crate::console::{BufferConsole, Console, InputSource, NoInput};
use crate::protocol::{
    client_ends, client_given, client_got, client_ran, client_run, client_sent, client_walk, happened,
    offline_ran, server_given, server_got, server_sent, server_walk, ClientStep, Exchange, FinishStep,
    FrameOf, Kit, OfflineStep, ParseStep, Protocol, ServerStep, ShellAction, Step,
};
use vstd::prelude::*;
use vstd::string::*;

verus! {

/// A frame more has gone out, behind those that went out before, and nothing has
/// come in.
pub open spec fn sent_more<F: Wire>(
    conn: TestEndpoint<F>,
    frame: F::V,
    after: TestEndpoint<F>,
) -> bool {
    after.outbox() == conn.outbox().push(frame) && after.inbox() == conn.inbox()
}

/// The first frame that was to come in has come in, and nothing has gone out.
pub open spec fn took_one<F: Wire>(conn: TestEndpoint<F>, after: TestEndpoint<F>) -> bool {
    after.outbox() == conn.outbox() && after.inbox() == conn.inbox().drop_first()
}

/// A client step is handed the frame before it, computed or received, and what it
/// gives is sent as it is and handed to the next step. Where it fails, the
/// conversation ends with its failure, and nothing is sent.
pub proof fn law_client_step_hands_on<K: Kit, O: Console, I: InputSource>(
    steps: Seq<Step<K>>,
    i: int,
    data: FrameOf<K>,
    last: FrameOf<K>,
    conn: TestEndpoint<K::Frame>,
    out: O,
    input: I,
    conn_after: TestEndpoint<K::Frame>,
    out_after: O,
    input_after: I,
    r: Result<FrameOf<K>, Seq<char>>,
    step: K::Client,
) -> (w: (O, I, Result<FrameOf<K>, Seq<char>>, TestEndpoint<K::Frame>))
    requires
        client_walk(
            steps,
            i,
            data,
            last,
            conn,
            out,
            input,
            conn_after,
            out_after,
            input_after,
            r,
        ),
        0 <= i < steps.len(),
        steps[i] == Step::<K>::Client(step),
    ensures
        client_ran(step, data, out, input, w.0, w.1, w.2),
        w.2 matches Err(error) ==> r == Err::<FrameOf<K>, Seq<char>>(error) && conn_after.outbox()
            == conn.outbox() && conn_after.inbox() == conn.inbox() && out_after == w.0
            && input_after == w.1,
        w.2 matches Ok(frame) ==> sent_more(conn, frame, w.3) && client_walk(
            steps,
            i + 1,
            frame,
            last,
            w.3,
            w.0,
            w.1,
            conn_after,
            out_after,
            input_after,
            r,
        ),
{
    let (o, p, given) = choose|o: O, p: I, given: Result<FrameOf<K>, Seq<char>>|
        #[trigger] client_ran(step, data, out, input, o, p, given) && client_given(
            steps,
            i,
            given,
            last,
            conn,
            o,
            p,
            conn_after,
            out_after,
            input_after,
            r,
        );
    match given {
        Err(_) => (o, p, given, conn),
        Ok(frame) => {
            let (c, sent) = choose|c: TestEndpoint<K::Frame>, sent: Result<(), Seq<char>>|
                #[trigger] conn.sends(frame, &c, sent) && client_sent(
                    steps,
                    i,
                    frame,
                    sent,
                    last,
                    c,
                    o,
                    p,
                    conn_after,
                    out_after,
                    input_after,
                    r,
                );
            (o, p, given, c)
        },
    }
}

/// In place of a server step a client takes the next frame that comes in and hands
/// it to the next step as it is; it runs nothing and prints nothing meanwhile.
pub proof fn law_client_hands_on_what_came_in<K: Kit, O: Console, I: InputSource>(
    steps: Seq<Step<K>>,
    i: int,
    data: FrameOf<K>,
    last: FrameOf<K>,
    conn: TestEndpoint<K::Frame>,
    out: O,
    input: I,
    conn_after: TestEndpoint<K::Frame>,
    out_after: O,
    input_after: I,
    r: Result<FrameOf<K>, Seq<char>>,
) -> (c: TestEndpoint<K::Frame>)
    requires
        client_walk(
            steps,
            i,
            data,
            last,
            conn,
            out,
            input,
            conn_after,
            out_after,
            input_after,
            r,
        ),
        0 <= i < steps.len(),
        steps[i] is Server,
        conn.inbox().len() > 0,
        <K::Frame as Wire>::error_in(conn.inbox()[0]) is None,
    ensures
        took_one(conn, c),
        client_walk(
            steps,
            i + 1,
            conn.inbox()[0],
            conn.inbox()[0],
            c,
            out,
            input,
            conn_after,
            out_after,
            input_after,
            r,
        ),
{
    let (c, got) = choose|c: TestEndpoint<K::Frame>, got: Result<FrameOf<K>, Seq<char>>| #[trigger]
        conn.receives(&c, got) && client_got(
            steps,
            i,
            got,
            c,
            out,
            input,
            conn_after,
            out_after,
            input_after,
            r,
        );
    c
}

/// A client ends with the sentinel and gives back the last frame that came in; a
/// step that finalizes comes before, and where it fails, its failure is what comes of
/// the conversation, and the sentinel is not sent.
pub proof fn law_client_finalizes<K: Kit, O: Console, I: InputSource>(
    steps: Seq<Step<K>>,
    i: int,
    data: FrameOf<K>,
    last: FrameOf<K>,
    conn: TestEndpoint<K::Frame>,
    out: O,
    input: I,
    conn_after: TestEndpoint<K::Frame>,
    out_after: O,
    input_after: I,
    r: Result<FrameOf<K>, Seq<char>>,
)
    requires
        client_walk(
            steps,
            i,
            data,
            last,
            conn,
            out,
            input,
            conn_after,
            out_after,
            input_after,
            r,
        ),
        0 <= i,
        i < steps.len() ==> steps[i] is Finalize,
    ensures
        out_after == out,
        input_after == input,
        r matches Ok(frame) ==> frame == last && sent_more(
            conn,
            <K::Frame as Wire>::sentinel_view(),
            conn_after,
        ),
        i == steps.len() ==> r is Ok,
        i < steps.len() ==> exists|action: Result<ShellAction, Seq<char>>| #[trigger]
            steps[i]->Finalize_0.finishes(action) && (action is Ok <==> r is Ok) && (
            action matches Err(error) ==> r == Err::<FrameOf<K>, Seq<char>>(error)
                && conn_after.outbox() == conn.outbox()),
{
    if i < steps.len() {
        let step = steps[i]->Finalize_0;
        let action = choose|action: Result<ShellAction, Seq<char>>| #[trigger]
            step.finishes(action) && out_after == out && input_after == input && match action {
                Err(error) => {
                    &&& r == Err::<FrameOf<K>, Seq<char>>(error)
                    &&& conn_after == conn
                },
                Ok(_) => client_ends::<K, TestEndpoint<K::Frame>>(last, conn, conn_after, r),
            };
        assert(step.finishes(action));
    }
}

/// A server step is handed the frame before it and the shared state, and what it
/// gives is sent as it is and handed on; the state is as the step leaves it.
pub proof fn law_server_step_hands_on<K: Kit>(
    steps: Seq<Step<K>>,
    i: int,
    data: FrameOf<K>,
    conn: TestEndpoint<K::Frame>,
    ctx: K::Ctx,
    conn_after: TestEndpoint<K::Frame>,
    ctx_after: K::Ctx,
    r: Result<(), Seq<char>>,
    step: K::Server,
) -> (w: (K::Ctx, Result<FrameOf<K>, Seq<char>>, TestEndpoint<K::Frame>))
    requires
        server_walk(steps, i, data, conn, ctx, conn_after, ctx_after, r),
        0 <= i < steps.len(),
        steps[i] == Step::<K>::Server(step),
    ensures
        step.runs(data, &ctx, &w.0, w.1),
        w.1 matches Err(error) ==> r == Err::<(), Seq<char>>(error) && ctx_after == w.0 && sent_more(
            conn,
            <K::Frame as Wire>::error_view(error),
            conn_after,
        ),
        w.1 matches Ok(frame) ==> sent_more(conn, frame, w.2) && server_walk(
            steps,
            i + 1,
            frame,
            w.2,
            w.0,
            conn_after,
            ctx_after,
            r,
        ),
{
    let (x, given) = choose|x: K::Ctx, given: Result<FrameOf<K>, Seq<char>>|
        #[trigger] step.runs(data, &ctx, &x, given) && server_given(
            steps,
            i,
            given,
            conn,
            x,
            conn_after,
            ctx_after,
            r,
        );
    match given {
        Err(_) => (x, given, conn),
        Ok(frame) => {
            let (c, sent) = choose|c: TestEndpoint<K::Frame>, sent: Result<(), Seq<char>>|
                #[trigger] conn.sends(frame, &c, sent) && server_sent(
                    steps,
                    i,
                    frame,
                    sent,
                    c,
                    x,
                    conn_after,
                    ctx_after,
                    r,
                );
            (x, given, c)
        },
    }
}

/// In place of a client step a server takes the next frame that comes in and hands
/// it to the next step as it is; the shared state stays.
pub proof fn law_server_hands_on_what_came_in<K: Kit>(
    steps: Seq<Step<K>>,
    i: int,
    data: FrameOf<K>,
    conn: TestEndpoint<K::Frame>,
    ctx: K::Ctx,
    conn_after: TestEndpoint<K::Frame>,
    ctx_after: K::Ctx,
    r: Result<(), Seq<char>>,
) -> (c: TestEndpoint<K::Frame>)
    requires
        server_walk(steps, i, data, conn, ctx, conn_after, ctx_after, r),
        0 <= i < steps.len(),
        steps[i] is Client,
        conn.inbox().len() > 0,
    ensures
        took_one(conn, c),
        server_walk(steps, i + 1, conn.inbox()[0], c, ctx, conn_after, ctx_after, r),
{
    let (c, got) = choose|c: TestEndpoint<K::Frame>, got: Result<FrameOf<K>, Seq<char>>| #[trigger]
        conn.receives(&c, got) && server_got(steps, i, got, c, ctx, conn_after, ctx_after, r);
    c
}

/// A server that has taken all its steps waits for one more frame, which must read
/// as the sentinel; it sends nothing more, and the shared state stays.
pub proof fn law_server_waits_for_sentinel<K: Kit>(
    steps: Seq<Step<K>>,
    i: int,
    data: FrameOf<K>,
    conn: TestEndpoint<K::Frame>,
    ctx: K::Ctx,
    conn_after: TestEndpoint<K::Frame>,
    ctx_after: K::Ctx,
    r: Result<(), Seq<char>>,
)
    requires
        server_walk(steps, i, data, conn, ctx, conn_after, ctx_after, r),
        0 <= i,
        i < steps.len() ==> steps[i] is Finalize,
    ensures
        ctx_after == ctx,
        conn_after.outbox() == conn.outbox(),
        conn.inbox().len() > 0 ==> r == <K::Frame as Wire>::sentinel_in(conn.inbox()[0]) && took_one(
            conn,
            conn_after,
        ),
        conn.inbox().len() == 0 ==> r is Err,
{
}

/// Arguments that cannot be parsed go nowhere: nothing is sent, received or
/// printed, and the failure to parse is what comes of the command. What can be parsed
/// is handed to the first step.
pub proof fn law_parsing_comes_first<K: Kit, O: Console, I: InputSource>(
    protocol: Protocol<K>,
    args: Seq<char>,
    conn: TestEndpoint<K::Frame>,
    out: O,
    input: I,
    conn_after: TestEndpoint<K::Frame>,
    out_after: O,
    input_after: I,
    r: Result<FrameOf<K>, Seq<char>>,
) -> (parsed: Result<FrameOf<K>, Seq<char>>)
    requires
        client_run(
            protocol,
            args,
            conn,
            out,
            input,
            conn_after,
            out_after,
            input_after,
            r,
        ),
    ensures
        protocol.parse.parses(args, parsed),
        parsed matches Err(error) ==> r == Err::<FrameOf<K>, Seq<char>>(error) && conn_after == conn
            && out_after == out && input_after == input,
        parsed matches Ok(data) ==> client_walk(
            protocol.steps@,
            0,
            data,
            <K::Frame as Wire>::empty_view(),
            conn,
            out,
            input,
            conn_after,
            out_after,
            input_after,
            r,
        ),
{
    choose|parsed: Result<FrameOf<K>, Seq<char>>| #[trigger]
        protocol.parse.parses(args, parsed) && match parsed {
            Err(error) => {
                &&& r == Err::<FrameOf<K>, Seq<char>>(error)
                &&& conn_after == conn
                &&& out_after == out
                &&& input_after == input
            },
            Ok(data) => client_walk(
                protocol.steps@,
                0,
                data,
                <K::Frame as Wire>::empty_view(),
                conn,
                out,
                input,
                conn_after,
                out_after,
                input_after,
                r,
            ),
        }
}

/// What a step prints is kept line by line, in order, behind what was printed
/// before; errors are marked as such.
pub proof fn law_printed_lines_are_kept(
    out: BufferConsole,
    session: Seq<Exchange>,
    lines: Seq<Seq<char>>,
    out_after: BufferConsole,
)
    requires
        happened(out, NoInput, session, out_after, NoInput),
        lines.len() == session.len(),
        forall|i: int|
            0 <= i < session.len() ==> match #[trigger] session[i] {
                Exchange::Printed(text) => lines[i] == text,
                Exchange::Complained(text) => lines[i] == "Error: "@ + text,
                Exchange::Asked(..) => false,
            },
    ensures
        out_after@ == out@ + lines,
    decreases session.len(),
{
    if session.len() == 0 {
        assert(out@ + lines =~= out@);
    } else {
        let rest = session.drop_first();
        let o = match session[0] {
            Exchange::Printed(text) => choose|o: BufferConsole| #[trigger]
                out.printed(text, &o) && happened(o, NoInput, rest, out_after, NoInput),
            Exchange::Complained(text) => choose|o: BufferConsole| #[trigger]
                out.complained(text, &o) && happened(o, NoInput, rest, out_after, NoInput),
            Exchange::Asked(..) => out,
        };
        assert forall|i: int| 0 <= i < rest.len() implies match #[trigger] rest[i] {
            Exchange::Printed(text) => lines.drop_first()[i] == text,
            Exchange::Complained(text) => lines.drop_first()[i] == "Error: "@ + text,
            Exchange::Asked(..) => false,
        } by {
            assert(rest[i] == session[i + 1]);
        }
        law_printed_lines_are_kept(o, rest, lines.drop_first(), out_after);
        assert(o@ == out@.push(lines[0]));
        assert(o@ + lines.drop_first() =~= out@ + lines);
    }
}

/// A step that prints adds lines to those that were printed before, and changes none
/// of them; so does what stands in for a server that cannot be reached.
pub proof fn law_output_is_only_added<F: Wire, S: ClientStep<F>, T: OfflineStep>(
    step: S,
    data: F::V,
    given: Result<F::V, Seq<char>>,
    offline: T,
    args: Seq<char>,
    ended: Result<(), Seq<char>>,
    out: BufferConsole,
    printed: BufferConsole,
    stood_in: BufferConsole,
)
    requires
        client_ran(step, data, out, NoInput, printed, NoInput, given),
        offline_ran(offline, args, out, stood_in, ended),
    ensures
        out@.is_prefix_of(printed@),
        out@.is_prefix_of(stood_in@),
{
    let session = choose|session: Seq<Exchange>| #[trigger]
        step.gives(data, session, given) && happened(out, NoInput, session, printed, NoInput);
    lemma_lines_are_added(out, session, printed);
    let session = choose|session: Seq<Exchange>| #[trigger]
        offline.gives(args, session, ended) && happened(out, NoInput, session, stood_in, NoInput);
    lemma_lines_are_added(out, session, stood_in);
}

proof fn lemma_lines_are_added(out: BufferConsole, session: Seq<Exchange>, out_after: BufferConsole)
    requires
        happened(out, NoInput, session, out_after, NoInput),
    ensures
        out@.is_prefix_of(out_after@),
    decreases session.len(),
{
    if session.len() > 0 {
        let rest = session.drop_first();
        match session[0] {
            Exchange::Printed(text) => {
                let o = choose|o: BufferConsole| #[trigger]
                    out.printed(text, &o) && happened(o, NoInput, rest, out_after, NoInput);
                lemma_lines_are_added(o, rest, out_after);
                assert(out@ =~= o@.take(out@.len() as int));
                assert(out@ =~= out_after@.take(out@.len() as int));
            },
            Exchange::Complained(text) => {
                let o = choose|o: BufferConsole| #[trigger]
                    out.complained(text, &o) && happened(o, NoInput, rest, out_after, NoInput);
                lemma_lines_are_added(o, rest, out_after);
                assert(out@ =~= o@.take(out@.len() as int));
                assert(out@ =~= out_after@.take(out@.len() as int));
            },
            Exchange::Asked(..) => {
                lemma_lines_are_added(out, rest, out_after);
            },
        }
    }
}

} // verus!
