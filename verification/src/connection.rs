//! Frames and the transports that carry them.

use crate::console::{done, outcome};
use std::collections::VecDeque;
use vstd::prelude::*;
use vstd::string::*;

verus! {

/// One message on the wire.
///
/// Besides what the steps of a conversation exchange, a frame can hold the
/// name of a command, the failure of a server step, and the sentinel that ends
/// a conversation.
pub trait Wire: View + Sized {
    /// The frame that nothing was received in.
    spec fn empty_view() -> Self::V;

    /// The frame that reports the failure `message`.
    spec fn error_view(message: Seq<char>) -> Self::V;

    /// The failure that a frame reports, if it reports one.
    spec fn error_in(frame: Self::V) -> Option<Seq<char>>;

    /// The sentinel.
    spec fn sentinel_view() -> Self::V;

    /// What comes of reading a frame as the sentinel.
    spec fn sentinel_in(frame: Self::V) -> Result<(), Seq<char>>;

    /// The frame that names the command `name`.
    spec fn command_view(name: Seq<char>) -> Self::V;

    /// The command that a frame names.
    spec fn command_in(frame: Self::V) -> Result<Seq<char>, Seq<char>>;

    fn empty() -> (f: Self)
        ensures
            f@ == Self::empty_view(),
    ;

    fn duplicate(&self) -> (f: Self)
        ensures
            f@ == self@,
    ;

    fn error_frame(message: &str) -> (f: Self)
        ensures
            f@ == Self::error_view(message@),
            Self::error_in(f@) == Some(message@),
    ;

    fn error_text(&self) -> (r: Option<String>)
        ensures
            match r {
                Some(text) => Self::error_in(self@) == Some(text@),
                None => Self::error_in(self@) is None,
            },
    ;

    fn sentinel() -> (f: Self)
        ensures
            f@ == Self::sentinel_view(),
            Self::sentinel_in(f@) is Ok,
    ;

    fn read_sentinel(&self) -> (r: Result<(), String>)
        ensures
            done(r) == Self::sentinel_in(self@),
    ;

    fn command(name: &str) -> (f: Self)
        ensures
            f@ == Self::command_view(name@),
            Self::command_in(f@) == Ok::<Seq<char>, Seq<char>>(name@),
    ;

    fn read_command(&self) -> (r: Result<String, String>)
        ensures
            outcome(r) == Self::command_in(self@),
    ;
}

/// The values of a sequence of frames.
pub open spec fn values<F: Wire>(frames: Seq<F>) -> Seq<F::V> {
    frames.map_values(|f: F| f@)
}

/// A transport of frames.
///
/// What sending and receiving do is up to the transport: `sends` and
/// `receives` relate the transport before to the one after and to the result.
/// One that says nothing may do anything.
pub trait RawConnection<F: Wire>: Sized {
    open spec fn sends(&self, data: F::V, after: &Self, r: Result<(), Seq<char>>) -> bool {
        true
    }

    open spec fn receives(&self, after: &Self, r: Result<F::V, Seq<char>>) -> bool {
        true
    }

    fn send_bytes(&mut self, data: &F) -> (r: Result<(), String>)
        ensures
            old(self).sends(data@, final(self), done(r)),
    ;

    fn recv_bytes(&mut self) -> (r: Result<F, String>)
        ensures
            old(self).receives(final(self), outcome(r)),
    ;
}

/// A transport in memory: what comes in is there from the start, what goes out
/// is kept.
pub struct TestEndpoint<F> {
    pub incoming: VecDeque<F>,
    pub outgoing: VecDeque<F>,
}

impl<F: Wire> TestEndpoint<F> {
    /// An endpoint that the given frames come in at.
    pub fn new(frames: Vec<F>) -> (e: Self)
        ensures
            e.inbox() == values(frames@),
            e.outbox() == Seq::<F::V>::empty(),
    {
        let mut incoming: VecDeque<F> = VecDeque::new();
        let ghost all = frames@;
        for frame in it: frames
            invariant
                it.seq() == all,
                incoming@ == all.take(it.index() as int),
        {
            incoming.push_back(frame);
        }
        assert(all.take(all.len() as int) =~= all);
        let e = TestEndpoint { incoming, outgoing: VecDeque::new() };
        assert(e.outbox() =~= Seq::empty());
        e
    }

    /// The frames still to come in.
    pub open spec fn inbox(&self) -> Seq<F::V> {
        values(self.incoming@)
    }

    /// The frames that went out.
    pub open spec fn outbox(&self) -> Seq<F::V> {
        values(self.outgoing@)
    }
}

impl<F: Wire> RawConnection<F> for TestEndpoint<F> {
    open spec fn sends(&self, data: F::V, after: &Self, r: Result<(), Seq<char>>) -> bool {
        &&& r == Ok::<(), Seq<char>>(())
        &&& after.inbox() == self.inbox()
        &&& after.outbox() == self.outbox().push(data)
    }

    open spec fn receives(&self, after: &Self, r: Result<F::V, Seq<char>>) -> bool {
        &&& after.outbox() == self.outbox()
        &&& if self.inbox().len() == 0 {
            &&& r == Err::<F::V, Seq<char>>("no data"@)
            &&& after.inbox() == self.inbox()
        } else {
            &&& r == Ok::<F::V, Seq<char>>(self.inbox()[0])
            &&& after.inbox() == self.inbox().drop_first()
        }
    }

    fn send_bytes(&mut self, data: &F) -> (r: Result<(), String>) {
        self.outgoing.push_back(data.duplicate());
        assert(self.outbox() =~= old(self).outbox().push(data@));
        Ok(())
    }

    fn recv_bytes(&mut self) -> (r: Result<F, String>) {
        match self.incoming.pop_front() {
            Some(frame) => {
                assert(self.inbox() =~= old(self).inbox().drop_first());
                Ok(frame)
            },
            None => Err("no data".to_owned()),
        }
    }
}

/// A failure of the operating system.
#[verifier::external_type_specification]
#[verifier::external_body]
pub struct ExIoError(std::io::Error);

/// The kinds of failures that are explained in words of their own.
#[derive(Clone, Copy, Debug, PartialEq, Eq, Structural)]
pub enum FailureKind {
    NotFound,
    ConnectionRefused,
    PermissionDenied,
    BrokenPipe,
    ConnectionReset,
    ConnectionAborted,
    Other,
}

/// `std::io::Error::kind` classifies a failure. Nothing is said of the class of
/// a given failure: it is the operating system's.
#[verifier::external_body]
fn failure_kind(error: &std::io::Error) -> (kind: FailureKind) {
    match error.kind() {
        std::io::ErrorKind::NotFound => FailureKind::NotFound,
        std::io::ErrorKind::ConnectionRefused => FailureKind::ConnectionRefused,
        std::io::ErrorKind::PermissionDenied => FailureKind::PermissionDenied,
        std::io::ErrorKind::BrokenPipe => FailureKind::BrokenPipe,
        std::io::ErrorKind::ConnectionReset => FailureKind::ConnectionReset,
        std::io::ErrorKind::ConnectionAborted => FailureKind::ConnectionAborted,
        _ => FailureKind::Other,
    }
}

/// Whether the operating system may class a failure so.
pub closed spec fn classed(error: &std::io::Error, kind: FailureKind) -> bool {
    call_ensures(failure_kind, (error,), kind)
}

/// What to tell the user of a failure to connect to the server at `path`, where
/// the program is called `bin` and the failure describes itself as `text`.
pub open spec fn connect_text(
    path: Seq<char>,
    bin: Seq<char>,
    kind: FailureKind,
    text: Seq<char>,
) -> Seq<char> {
    match kind {
        FailureKind::NotFound => "no server is running at `"@ + path + "` — start one with `"@ + bin
            + " serve "@ + path + "`"@,
        FailureKind::ConnectionRefused => "server at `"@ + path
            + "` is not accepting connections — a crashed server leaves a stale socket file behind; remove it (`rm "@
            + path + "`) and restart"@,
        FailureKind::PermissionDenied => "permission denied connecting to `"@ + path + "`"@,
        _ => text,
    }
}

/// Computes [`connect_text`].
pub fn connect_message(path: &str, bin: &str, kind: FailureKind, text: String) -> (m: String)
    ensures
        m@ == connect_text(path@, bin@, kind, text@),
{
    match kind {
        FailureKind::NotFound => {
            let mut m = "no server is running at `".to_owned();
            m.append(path);
            m.append("` — start one with `");
            m.append(bin);
            m.append(" serve ");
            m.append(path);
            m.append("`");
            m
        },
        FailureKind::ConnectionRefused => {
            let mut m = "server at `".to_owned();
            m.append(path);
            m.append(
                "` is not accepting connections — a crashed server leaves a stale socket file behind; remove it (`rm ",
            );
            m.append(path);
            m.append("`) and restart");
            m
        },
        FailureKind::PermissionDenied => {
            let mut m = "permission denied connecting to `".to_owned();
            m.append(path);
            m.append("`");
            m
        },
        _ => text,
    }
}

/// What to tell the user of a failure to connect to the server at `path`. The
/// class of the failure is the operating system's.
pub fn explain_connect_error(path: &str, bin: &str, error: &std::io::Error) -> (m: String)
    ensures
        exists|kind: FailureKind, text: String| #[trigger]
            connect_text(path@, bin@, kind, text@) == m@ && classed(error, kind)
                && to_string_from_display_ensures::<std::io::Error>(error, text),
{
    let kind = failure_kind(error);
    let text = error.to_string();
    let ghost own = text;
    let m = connect_message(path, bin, kind, text);
    assert(connect_text(path@, bin@, kind, own@) == m@);
    m
}

/// What to tell the user of a failure in the middle of a conversation that
/// describes itself as `text`.
pub open spec fn io_text(kind: FailureKind, text: Seq<char>) -> Seq<char> {
    match kind {
        FailureKind::BrokenPipe | FailureKind::ConnectionReset | FailureKind::ConnectionAborted =>
            "server closed the connection"@,
        _ => text,
    }
}

/// Computes [`io_text`].
pub fn io_message(kind: FailureKind, text: String) -> (m: String)
    ensures
        m@ == io_text(kind, text@),
{
    match kind {
        FailureKind::BrokenPipe | FailureKind::ConnectionReset | FailureKind::ConnectionAborted =>
            "server closed the connection".to_owned(),
        _ => text,
    }
}

/// What to tell the user of a failure in the middle of a conversation. The class
/// of the failure is the operating system's.
pub fn explain_io_error(error: &std::io::Error) -> (m: String)
    ensures
        exists|kind: FailureKind, text: String| #[trigger]
            io_text(kind, text@) == m@ && classed(error, kind)
                && to_string_from_display_ensures::<std::io::Error>(error, text),
{
    let kind = failure_kind(error);
    let text = error.to_string();
    let ghost own = text;
    let m = io_message(kind, text);
    assert(io_text(kind, own@) == m@);
    m
}

/// What to tell a user who names no socket to connect to.
pub open spec fn empty_path_text(bin: Seq<char>) -> Seq<char> {
    "socket path is empty (start a server with `"@ + bin + " serve <socket>`)"@
}

/// Whether a socket path can be connected to at all: an empty one is an error.
pub fn check_socket_path(path: &str, bin: &str) -> (r: Result<(), String>)
    ensures
        r is Ok <==> path@.len() > 0,
        r matches Err(m) ==> m@ == empty_path_text(bin@),
{
    if path.is_empty() {
        let mut m = "socket path is empty (start a server with `".to_owned();
        m.append(bin);
        m.append(" serve <socket>`)");
        Err(m)
    } else {
        Ok(())
    }
}

/// What the user is told of a failure to connect: where there is no server, or
/// one that does not listen or may not be talked to, the words name the socket; where
/// there is none, they name the program that starts one. Any other failure speaks for
/// itself.
pub proof fn law_connect_failures_are_explained(
    path: Seq<char>,
    bin: Seq<char>,
    kind: FailureKind,
    text: Seq<char>,
) -> (at: (int, int))
    ensures
        ({
            let said = connect_text(path, bin, kind, text);
            let known = kind == FailureKind::NotFound || kind == FailureKind::ConnectionRefused
                || kind == FailureKind::PermissionDenied;
            &&& known ==> 0 <= at.0 && at.0 + path.len() <= said.len() && said.subrange(
                at.0,
                at.0 + path.len(),
            ) == path
            &&& kind == FailureKind::NotFound ==> 0 <= at.1 && at.1 + bin.len() <= said.len()
                && said.subrange(at.1, at.1 + bin.len()) == bin
            &&& !known ==> said == text
        }),
{
    let said = connect_text(path, bin, kind, text);
    match kind {
        FailureKind::NotFound => {
            let a = "no server is running at `"@.len() as int;
            let b = a + path.len() + "` — start one with `"@.len();
            assert(said.subrange(a, a + path.len()) =~= path);
            assert(said.subrange(b, b + bin.len()) =~= bin);
            (a, b)
        },
        FailureKind::ConnectionRefused => {
            let a = "server at `"@.len() as int;
            assert(said.subrange(a, a + path.len()) =~= path);
            (a, 0)
        },
        FailureKind::PermissionDenied => {
            let a = "permission denied connecting to `"@.len() as int;
            assert(said.subrange(a, a + path.len()) =~= path);
            (a, 0)
        },
        _ => (0, 0),
    }
}

/// A connection that breaks, is reset or is given up is one that the server has
/// closed, in whichever way; any other failure speaks for itself.
pub proof fn law_closed_connections_are_explained(
    a: FailureKind,
    text: Seq<char>,
    other: Seq<char>,
)
    ensures
        a == FailureKind::BrokenPipe || a == FailureKind::ConnectionReset || a
            == FailureKind::ConnectionAborted ==> io_text(a, text) == io_text(
            FailureKind::BrokenPipe,
            other,
        ) && io_text(a, text) == "server closed the connection"@,
        a == FailureKind::NotFound || a == FailureKind::ConnectionRefused || a
            == FailureKind::PermissionDenied || a == FailureKind::Other ==> io_text(a, text)
            == text,
{
}

} // verus!
