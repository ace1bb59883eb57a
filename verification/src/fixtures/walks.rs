//! Conversations over a transport in memory, one step at a time.

use crate::connection::{RawConnection, TestEndpoint, Wire};
use crate::console::{Console, InputSource};
use crate::protocol::{
    client_given, client_got, client_ran, client_sent, client_walk, server_given, server_got,
    server_sent, server_walk, FinishStep, FrameOf, Kit, ServerStep, ShellAction, Step,
};
use vstd::prelude::*;

verus! {

/// A server that waits for a frame gets the next one, or fails.
pub(crate) proof fn server_receives<K: Kit>(
    steps: Seq<Step<K>>,
    i: int,
    data: FrameOf<K>,
    conn: TestEndpoint<K::Frame>,
    ctx: K::Ctx,
    conn_after: TestEndpoint<K::Frame>,
    ctx_after: K::Ctx,
    r: Result<(), Seq<char>>,
) -> (c: TestEndpoint<K::Frame>)
    requires
        server_walk(steps, i, data, conn, ctx, conn_after, ctx_after, r),
        0 <= i < steps.len(),
        steps[i] is Client,
    ensures
        conn.inbox().len() == 0 ==> {
            &&& r == Err::<(), Seq<char>>("no data"@)
            &&& conn_after.inbox() == conn.inbox()
            &&& conn_after.outbox() == conn.outbox()
            &&& ctx_after == ctx
        },
        conn.inbox().len() > 0 ==> {
            &&& c.inbox() == conn.inbox().drop_first()
            &&& c.outbox() == conn.outbox()
            &&& server_walk(steps, i + 1, conn.inbox()[0], c, ctx, conn_after, ctx_after, r)
        },
{
    let (c, got) = choose|c: TestEndpoint<K::Frame>, got: Result<FrameOf<K>, Seq<char>>| #[trigger]
        conn.receives(&c, got) && server_got(steps, i, got, c, ctx, conn_after, ctx_after, r);
    c
}

/// A server sends what its step gives, or reports that it fails.
pub(crate) proof fn server_computes<K: Kit>(
    steps: Seq<Step<K>>,
    i: int,
    data: FrameOf<K>,
    conn: TestEndpoint<K::Frame>,
    ctx: K::Ctx,
    conn_after: TestEndpoint<K::Frame>,
    ctx_after: K::Ctx,
    r: Result<(), Seq<char>>,
) -> (w: (TestEndpoint<K::Frame>, K::Ctx, Result<FrameOf<K>, Seq<char>>))
    requires
        server_walk(steps, i, data, conn, ctx, conn_after, ctx_after, r),
        0 <= i < steps.len(),
        steps[i] is Server,
    ensures
        steps[i]->Server_0.runs(data, &ctx, &w.1, w.2),
        match w.2 {
            Err(error) => {
                &&& r == Err::<(), Seq<char>>(error)
                &&& ctx_after == w.1
                &&& conn_after.inbox() == conn.inbox()
                &&& conn_after.outbox() == conn.outbox().push(<K::Frame as Wire>::error_view(error))
            },
            Ok(frame) => {
                &&& w.0.inbox() == conn.inbox()
                &&& w.0.outbox() == conn.outbox().push(frame)
                &&& server_walk(steps, i + 1, frame, w.0, w.1, conn_after, ctx_after, r)
            },
        },
{
    let step = steps[i]->Server_0;
    let (x, given) = choose|x: K::Ctx, given: Result<FrameOf<K>, Seq<char>>| #[trigger]
        step.runs(data, &ctx, &x, given) && server_given(
            steps,
            i,
            given,
            conn,
            x,
            conn_after,
            ctx_after,
            r,
        );
    match given {
        Err(_) => (conn, x, given),
        Ok(frame) => {
            let (c, sent) = choose|c: TestEndpoint<K::Frame>, sent: Result<(), Seq<char>>|
                #[trigger] conn.sends(frame, &c, sent) && server_sent(
                    steps,
                    i,
                    frame,
                    sent,
                    c,
                    x,
                    conn_after,
                    ctx_after,
                    r,
                );
            (c, x, given)
        },
    }
}

/// A server ends with the sentinel.
pub(crate) proof fn server_finishes<K: Kit>(
    steps: Seq<Step<K>>,
    i: int,
    data: FrameOf<K>,
    conn: TestEndpoint<K::Frame>,
    ctx: K::Ctx,
    conn_after: TestEndpoint<K::Frame>,
    ctx_after: K::Ctx,
    r: Result<(), Seq<char>>,
)
    requires
        server_walk(steps, i, data, conn, ctx, conn_after, ctx_after, r),
        0 <= i < steps.len(),
        steps[i] is Finalize,
    ensures
        ctx_after == ctx,
        conn_after.outbox() == conn.outbox(),
        conn.inbox().len() == 0 ==> {
            &&& r == Err::<(), Seq<char>>("no data"@)
            &&& conn_after.inbox() == conn.inbox()
        },
        conn.inbox().len() > 0 ==> {
            &&& r == <K::Frame as Wire>::sentinel_in(conn.inbox()[0])
            &&& conn_after.inbox() == conn.inbox().drop_first()
        },
{
}

/// A client sends what its step gives, or fails.
pub(crate) proof fn client_computes<K: Kit, O: Console, I: InputSource>(
    steps: Seq<Step<K>>,
    i: int,
    data: FrameOf<K>,
    last: FrameOf<K>,
    conn: TestEndpoint<K::Frame>,
    out: O,
    input: I,
    conn_after: TestEndpoint<K::Frame>,
    out_after: O,
    input_after: I,
    r: Result<FrameOf<K>, Seq<char>>,
) -> (w: (TestEndpoint<K::Frame>, O, I, Result<FrameOf<K>, Seq<char>>))
    requires
        client_walk(
            steps,
            i,
            data,
            last,
            conn,
            out,
            input,
            conn_after,
            out_after,
            input_after,
            r,
        ),
        0 <= i < steps.len(),
        steps[i] is Client,
    ensures
        client_ran(steps[i]->Client_0, data, out, input, w.1, w.2, w.3),
        match w.3 {
            Err(error) => {
                &&& r == Err::<FrameOf<K>, Seq<char>>(error)
                &&& conn_after == conn
                &&& out_after == w.1
                &&& input_after == w.2
            },
            Ok(frame) => {
                &&& w.0.inbox() == conn.inbox()
                &&& w.0.outbox() == conn.outbox().push(frame)
                &&& client_walk(
                    steps,
                    i + 1,
                    frame,
                    last,
                    w.0,
                    w.1,
                    w.2,
                    conn_after,
                    out_after,
                    input_after,
                    r,
                )
            },
        },
{
    let step = steps[i]->Client_0;
    let (o, p, given) = choose|o: O, p: I, given: Result<FrameOf<K>, Seq<char>>| #[trigger]
        client_ran(step, data, out, input, o, p, given) && client_given(
            steps,
            i,
            given,
            last,
            conn,
            o,
            p,
            conn_after,
            out_after,
            input_after,
            r,
        );
    match given {
        Err(_) => (conn, o, p, given),
        Ok(frame) => {
            let (c, sent) = choose|c: TestEndpoint<K::Frame>, sent: Result<(), Seq<char>>|
                #[trigger] conn.sends(frame, &c, sent) && client_sent(
                    steps,
                    i,
                    frame,
                    sent,
                    last,
                    c,
                    o,
                    p,
                    conn_after,
                    out_after,
                    input_after,
                    r,
                );
            (c, o, p, given)
        },
    }
}

/// A client that waits for a frame gets the next one; it fails where there is
/// none or it reports a failure.
pub(crate) proof fn client_receives<K: Kit, O: Console, I: InputSource>(
    steps: Seq<Step<K>>,
    i: int,
    data: FrameOf<K>,
    last: FrameOf<K>,
    conn: TestEndpoint<K::Frame>,
    out: O,
    input: I,
    conn_after: TestEndpoint<K::Frame>,
    out_after: O,
    input_after: I,
    r: Result<FrameOf<K>, Seq<char>>,
) -> (c: TestEndpoint<K::Frame>)
    requires
        client_walk(
            steps,
            i,
            data,
            last,
            conn,
            out,
            input,
            conn_after,
            out_after,
            input_after,
            r,
        ),
        0 <= i < steps.len(),
        steps[i] is Server,
    ensures
        conn.inbox().len() == 0 ==> {
            &&& r == Err::<FrameOf<K>, Seq<char>>("no data"@)
            &&& conn_after.inbox() == conn.inbox()
            &&& conn_after.outbox() == conn.outbox()
            &&& out_after == out
            &&& input_after == input
        },
        conn.inbox().len() > 0 ==> match <K::Frame as Wire>::error_in(conn.inbox()[0]) {
            Some(error) => {
                &&& r == Err::<FrameOf<K>, Seq<char>>(error)
                &&& conn_after.inbox() == conn.inbox().drop_first()
                &&& conn_after.outbox() == conn.outbox()
                &&& out_after == out
                &&& input_after == input
            },
            None => {
                &&& c.inbox() == conn.inbox().drop_first()
                &&& c.outbox() == conn.outbox()
                &&& client_walk(
                    steps,
                    i + 1,
                    conn.inbox()[0],
                    conn.inbox()[0],
                    c,
                    out,
                    input,
                    conn_after,
                    out_after,
                    input_after,
                    r,
                )
            },
        },
{
    let (c, got) = choose|c: TestEndpoint<K::Frame>, got: Result<FrameOf<K>, Seq<char>>| #[trigger]
        conn.receives(&c, got) && client_got(
            steps,
            i,
            got,
            c,
            out,
            input,
            conn_after,
            out_after,
            input_after,
            r,
        );
    c
}

/// A client ends by sending the sentinel, where its last step lets it.
pub(crate) proof fn client_finishes<K: Kit, O: Console, I: InputSource>(
    steps: Seq<Step<K>>,
    i: int,
    data: FrameOf<K>,
    last: FrameOf<K>,
    conn: TestEndpoint<K::Frame>,
    out: O,
    input: I,
    conn_after: TestEndpoint<K::Frame>,
    out_after: O,
    input_after: I,
    r: Result<FrameOf<K>, Seq<char>>,
)
    requires
        client_walk(
            steps,
            i,
            data,
            last,
            conn,
            out,
            input,
            conn_after,
            out_after,
            input_after,
            r,
        ),
        0 <= i < steps.len(),
        steps[i] is Finalize,
        forall|action: Result<ShellAction, Seq<char>>| #[trigger]
            steps[i]->Finalize_0.finishes(action) ==> action is Ok,
    ensures
        r == Ok::<FrameOf<K>, Seq<char>>(last),
        conn_after.inbox() == conn.inbox(),
        conn_after.outbox() == conn.outbox().push(<K::Frame as Wire>::sentinel_view()),
        out_after == out,
        input_after == input,
{
}

} // verus!
