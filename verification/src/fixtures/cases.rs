//! What the fixture protocols exchange and show for given arguments.

use crate::connection::values;
use crate::fixtures::handlers::{echo_of, fixture_steps, make_rich, split_boom};
use crate::fixtures::wire::{
    Answer, BoomArgs, BoomResult, Confirm, CtxRequest, CtxResponse, Done, EchoArgs, EchoResult,
    Message, Msg, Query, RichArgs, RichResult,
};
use crate::fixtures::{
    boom_text, byte_len, client_messages, failure, layout, parse_of, piece_lens, rendered,
    rendered_after, rich_choice, rich_option, server_messages, sprout, sprouted,
    starts_with_char, steps_after, FixtureId, Io,
};
use crate::protocol::server_steps;
use crate::text::{decimal, joined, texts, trim_text};
use vstd::prelude::*;
use vstd::string::*;

verus! {

/// A conversation: a fixture and its arguments.
pub struct CaseSpec {
    pub fixture: FixtureId,
    pub args_raw: String,
    /// Picks an uncommon text in place of short arguments.
    pub salt: u8,
    /// The entries that the server has before.
    pub pre_seed: u8,
    /// Makes the server of `boom` fail.
    pub fail: bool,
}

/// The arguments of a conversation, where `fail` makes the server of `boom` fail.
pub open spec fn arguments(f: FixtureId, raw: Seq<char>, salt: u8, fail: bool) -> Seq<char> {
    let base = sprouted(raw, salt);
    if fail && f == FixtureId::Boom {
        "!"@ + base
    } else {
        base
    }
}

impl CaseSpec {
    /// The arguments of the conversation.
    pub open spec fn text(&self) -> Seq<char> {
        arguments(self.fixture, self.args_raw@, self.salt, self.fail)
    }

    /// The arguments of the conversation.
    pub fn args(&self) -> (s: String)
        ensures
            s@ == self.text(),
    {
        let base = sprout(self.args_raw.as_str(), self.salt);
        if self.fail && self.fixture == FixtureId::Boom {
            joined("!", base.as_str())
        } else {
            base
        }
    }

    /// Why the arguments cannot be parsed, if they cannot.
    pub fn parse_error(&self) -> (r: Option<String>)
        ensures
            match r {
                Some(error) => parse_of(self.fixture, self.text()) == Err::<Message, Seq<char>>(
                    error@,
                ),
                None => parse_of(self.fixture, self.text()) is Ok,
            },
    {
        if self.fixture == FixtureId::Multi && trim_text(self.args().as_str()).as_str().is_empty() {
            Some("empty query".to_owned())
        } else {
            None
        }
    }

    /// What a failing server step says, if one fails.
    pub fn server_error(&self) -> (r: Option<String>)
        ensures
            match r {
                Some(error) => failure(self.fixture, self.text()) == Some(error@),
                None => failure(self.fixture, self.text()) is None,
            },
    {
        if self.fixture == FixtureId::Boom {
            let (trigger, text) = split_boom(self.args().as_str());
            if trigger == 1 {
                return Some(joined("boom: ", text.as_str()));
            }
        }
        None
    }

    /// The arguments as those of `boom`.
    pub fn boom_args(&self) -> (a: BoomArgs)
        ensures
            a.trigger == if starts_with_char(self.text(), '!') {
                1int
            } else {
                0
            },
            a.text@ == boom_text(self.text()),
    {
        let (trigger, text) = split_boom(self.args().as_str());
        BoomArgs { trigger, text }
    }

    /// The arguments as those of `rich`.
    pub fn rich_args(&self) -> (a: RichArgs)
        ensures
            Msg::RichArgs(a)@ == Message::RichArgs(
                rich_option(self.text()),
                rich_choice(self.text()),
                piece_lens(self.text(), 0),
                byte_len(self.text()) as u64,
            ),
    {
        make_rich(self.args().as_str())
    }

    /// The frames that the client sends.
    pub fn client_frames(&self) -> (v: Vec<Msg>)
        ensures
            values(v@) == client_messages(self.fixture, self.text()),
    {
        self.fixture.client_frames(self)
    }

    /// The frames that the server sends.
    pub fn server_frames(&self) -> (v: Vec<Msg>)
        ensures
            values(v@) == server_messages(self.fixture, self.text(), self.pre_seed as int),
    {
        self.fixture.server_frames(self)
    }

    /// The lines that the client prints.
    pub fn expected_render(&self) -> (v: Vec<String>)
        ensures
            texts(v@) == rendered(self.fixture, self.text(), self.pre_seed as int),
    {
        self.fixture.expected_render(self)
    }
}

impl FixtureId {
    /// How many server steps there are.
    pub fn server_steps(self) -> (n: usize)
        ensures
            n == server_steps(fixture_steps(self), 0),
    {
        proof {
            reveal_with_fuel(server_steps, 7);
        }
        match self {
            FixtureId::Multi => 2,
            _ => 1,
        }
    }

    /// The frames that the client sends, in order.
    pub fn client_frames(self, spec: &CaseSpec) -> (v: Vec<Msg>)
        ensures
            values(v@) == client_messages(self, spec.text()),
    {
        let args = spec.args();
        let mut v: Vec<Msg> = Vec::new();
        match self {
            FixtureId::Ping => {
                v.push(Msg::Null);
            },
            FixtureId::Echo => {
                v.push(Msg::EchoArgs(EchoArgs { text: args }));
            },
            FixtureId::Multi => {
                let n = args.as_str().len() as u64;
                v.push(Msg::Query(Query { text: trim_text(args.as_str()), n }));
                v.push(Msg::Confirm(Confirm { ok: true }));
            },
            FixtureId::Ctx => {
                v.push(Msg::CtxRequest(CtxRequest { text: args }));
            },
            FixtureId::Boom => {
                v.push(Msg::BoomArgs(spec.boom_args()));
            },
            FixtureId::Rich => {
                v.push(Msg::RichArgs(spec.rich_args()));
            },
        }
        v.push(Msg::Null);
        v.push(Msg::Null);
        assert(values(v@) =~= client_messages(self, spec.text()));
        v
    }

    /// The frames that the server sends, in order.
    pub fn server_frames(self, spec: &CaseSpec) -> (v: Vec<Msg>)
        ensures
            values(v@) == server_messages(self, spec.text(), spec.pre_seed as int),
    {
        let args = spec.args();
        let mut v: Vec<Msg> = Vec::new();
        match self {
            FixtureId::Ping => {
                v.push(Msg::EchoResult(EchoResult { text: "pong".to_owned() }));
            },
            FixtureId::Echo => {
                v.push(Msg::EchoResult(EchoResult { text: args }));
            },
            FixtureId::Multi => {
                v.push(Msg::Answer(Answer { n: args.as_str().len() as u64 }));
                v.push(Msg::Done(Done { text: "done".to_owned() }));
            },
            FixtureId::Ctx => {
                v.push(
                    Msg::CtxResponse(CtxResponse { total: spec.pre_seed as u64 + 1, text: args }),
                );
            },
            FixtureId::Boom => {
                v.push(Msg::BoomResult(BoomResult { text: spec.boom_args().text }));
            },
            FixtureId::Rich => {
                let a = spec.rich_args();
                let count = (a.v.len() as u64).wrapping_add(a.big % 7);
                v.push(Msg::RichResult(RichResult { echo: echo_of(&a), count }));
            },
        }
        assert(values(v@) =~= server_messages(self, spec.text(), spec.pre_seed as int));
        v
    }

    /// The lines that the client prints.
    pub fn expected_render(self, spec: &CaseSpec) -> (v: Vec<String>)
        ensures
            texts(v@) == rendered(self, spec.text(), spec.pre_seed as int),
    {
        let args = spec.args();
        let mut v: Vec<String> = Vec::new();
        match self {
            FixtureId::Ping => {
                v.push("pong".to_owned());
            },
            FixtureId::Echo => {
                v.push(args);
            },
            FixtureId::Multi => {
                v.push(joined("a=", decimal(args.as_str().len() as u64).as_str()));
                v.push("done".to_owned());
            },
            FixtureId::Ctx => {
                let mut line = joined("total=", decimal(spec.pre_seed as u64 + 1).as_str());
                line.append(" ");
                line.append(args.as_str());
                v.push(line);
            },
            FixtureId::Boom => {
                v.push(spec.boom_args().text);
            },
            FixtureId::Rich => {
                let a = spec.rich_args();
                let count = (a.v.len() as u64).wrapping_add(a.big % 7);
                let mut line = joined(echo_of(&a).as_str(), "|");
                line.append(decimal(count).as_str());
                v.push(line);
            },
        }
        assert(texts(v@) =~= rendered(self, spec.text(), spec.pre_seed as int));
        v
    }

    /// The lines that the client has printed once the first `k` responses have
    /// come.
    pub fn expected_render_prefix(self, spec: &CaseSpec, k: usize) -> (v: Vec<String>)
        ensures
            texts(v@) == rendered_after(self, spec.text(), spec.pre_seed as int, k as int),
    {
        let ghost all = rendered(self, spec.text(), spec.pre_seed as int);
        let mut v = self.expected_render(spec);
        assert(v@.len() == texts(v@).len());
        if k == 0 {
            v.clear();
            assert(texts(v@) =~= Seq::empty());
        } else if self == FixtureId::Multi && k == 1 {
            v.truncate(1);
            assert(texts(v@) =~= all.take(1));
        }
        v
    }

    /// The order in which the client sends and receives.
    pub fn io_layout(self) -> (v: Vec<Io>)
        ensures
            v@ == layout(self),
    {
        let mut v: Vec<Io> = Vec::new();
        v.push(Io::S);
        v.push(Io::R);
        v.push(Io::S);
        if self == FixtureId::Multi {
            v.push(Io::R);
            v.push(Io::S);
        }
        v.push(Io::S);
        assert(v@ =~= layout(self));
        v
    }

    /// How many server steps have run when `fed` frames have come in.
    pub fn server_steps_after(self, fed: usize) -> (n: usize)
        ensures
            n == steps_after(self, fed as int),
    {
        if fed == 0 {
            0
        } else if self == FixtureId::Multi && fed >= 2 {
            2
        } else {
            1
        }
    }
}

/// How many frames are sent before the `k`-th one is received, with `sent`
/// already sent before place `i` of the layout.
pub open spec fn sends_before(layout: Seq<Io>, k: int, i: int, sent: int) -> int
    decreases layout.len() - i,
{
    if i < 0 || i >= layout.len() {
        sent
    } else {
        match layout[i] {
            Io::S => sends_before(layout, k, i + 1, sent + 1),
            Io::R => if k == 0 {
                sent
            } else {
                sends_before(layout, k - 1, i + 1, sent)
            },
        }
    }
}

/// How many frames a client sends before it receives the `k`-th one.
pub fn sends_before_recv(layout: &Vec<Io>, k: usize) -> (n: usize)
    ensures
        n == sends_before(layout@, k as int, 0, 0),
{
    let mut left: usize = k;
    let mut sends: usize = 0;
    let mut i: usize = 0;
    while i < layout.len()
        invariant
            sends <= i <= layout@.len(),
            sends_before(layout@, k as int, 0, 0) == sends_before(
                layout@,
                left as int,
                i as int,
                sends as int,
            ),
        decreases layout@.len() - i,
    {
        match layout[i] {
            Io::S => {
                sends += 1;
            },
            Io::R => {
                if left == 0 {
                    return sends;
                }
                left -= 1;
            },
        }
        i += 1;
    }
    sends
}

} // verus!
