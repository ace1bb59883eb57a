//! The steps of the fixture protocols.

use crate::connection::Wire;
use crate::console::{done, outcome, Console, InputSource};
use crate::fixtures::wire::{
    Answer, BoomArgs, BoomResult, Confirm, CtxRequest, CtxResponse, Done, EchoArgs, EchoResult,
    Message, Msg, Query, RichArgs, RichEnum, RichResult,
};
use crate::fixtures::{
    boom_text, byte_len, client_of, fixture_name, parse_of, piece_lens, rich_choice, rich_count,
    rich_echo, rich_option, says_text, server_of, starts_with_char, unexpected, until_comma, CtxState,
    FixtureId,
};
use crate::protocol::{
    happened, Client, ClientStep, Completer, Exchange, FinishStep, Kit, OfflineStep, ParseStep,
    Plugin, Protocol, ServerStep, ShellAction, Step,
};
use crate::text::{chars_of, decimal, joined, text_range, texts, trim_text};
use vstd::prelude::*;
use vstd::string::*;

verus! {

/// The kinds of steps of the fixture protocols.
pub struct FixtureKit;

impl Kit for FixtureKit {
    type Frame = Msg;

    type Ctx = CtxState;

    type Parse = FixtureParse;

    type Client = FixtureClient;

    type Server = FixtureServer;

    type Finish = FixtureFinish;

    type Complete = FixtureSilence;

    type Offline = FixtureSilence;
}

/// The parse step of a fixture.
pub struct FixtureParse {
    pub fixture: FixtureId,
}

/// The client step of a fixture at a place among its client steps.
pub struct FixtureClient {
    pub fixture: FixtureId,
    pub step: usize,
}

/// The server step of a fixture at a place among its server steps.
pub struct FixtureServer {
    pub fixture: FixtureId,
    pub step: usize,
}

/// The end of a fixture: the shell goes on.
pub struct FixtureFinish;

/// No suggestions, and nothing to do without a server.
pub struct FixtureSilence;

/// `args` without a leading `!`, and whether it has one.
pub fn split_boom(args: &str) -> (r: (u8, String))
    ensures
        r.0 == if starts_with_char(args@, '!') {
            1int
        } else {
            0
        },
        r.1@ == boom_text(args@),
{
    let chars = chars_of(args);
    if chars.len() > 0 && chars[0] == '!' {
        let text = text_range(&chars, 1, chars.len());
        assert(text@ =~= args@.drop_first());
        (1, text)
    } else {
        (0, args.to_owned())
    }
}

/// Finds the first comma from `i` on.
fn find_comma(s: &Vec<char>, i: usize) -> (k: usize)
    requires
        i <= s@.len(),
    ensures
        k == until_comma(s@, i as int),
        i <= k <= s@.len(),
{
    let mut k: usize = i;
    while k < s.len() && s[k] != ','
        invariant
            i <= k <= s@.len(),
            until_comma(s@, i as int) == until_comma(s@, k as int),
        decreases s@.len() - k,
    {
        k += 1;
    }
    k
}

/// The numbers of bytes of the pieces between commas.
fn lens_between_commas(args: &str) -> (v: Vec<i64>)
    ensures
        v@ == piece_lens(args@, 0),
{
    let chars = chars_of(args);
    let mut v: Vec<i64> = Vec::new();
    let mut i: usize = 0;
    loop
        invariant_except_break
            v@ + piece_lens(args@, i as int) == piece_lens(args@, 0),
        invariant
            chars@ == args@,
            i <= chars@.len(),
        ensures
            v@ == piece_lens(args@, 0),
        decreases chars@.len() - i,
    {
        let k = find_comma(&chars, i);
        let piece = text_range(&chars, i, k);
        let ghost before = v@;
        #[verifier::truncate]
        let n = piece.as_str().len() as i64;
        v.push(n);
        assert(piece@ =~= args@.subrange(i as int, k as int));
        if k < chars.len() {
            assert(v@ + piece_lens(args@, k + 1) =~= before + (seq![n] + piece_lens(
                args@,
                k + 1,
            )));
            i = k + 1;
        } else {
            assert(args@.subrange(i as int, k as int) =~= args@.skip(i as int));
            assert(v@ =~= before + seq![n]);
            break;
        }
    }
    v
}

/// The `rich` arguments for a text.
pub fn make_rich(args: &str) -> (a: RichArgs)
    ensures
        Msg::RichArgs(a)@ == Message::RichArgs(
            rich_option(args@),
            rich_choice(args@),
            piece_lens(args@, 0),
            byte_len(args@) as u64,
        ),
{
    let chars = chars_of(args);
    let n = args.len();
    let e = if chars.len() == 0 {
        RichEnum::Empty
    } else if chars[0] == '|' {
        #[verifier::truncate]
        let k = n as i64;
        RichEnum::Pair { k }
    } else {
        RichEnum::Word(args.to_owned())
    };
    let opt = if chars.len() == 0 {
        None
    } else {
        Some(args.to_owned())
    };
    RichArgs { opt, e, v: lens_between_commas(args), big: n as u64 }
}

impl ParseStep<Msg> for FixtureParse {
    open spec fn parses(&self, args: Seq<char>, r: Result<Message, Seq<char>>) -> bool {
        r == parse_of(self.fixture, args)
    }

    fn parse(&self, args: &str) -> (r: Result<Msg, String>) {
        match self.fixture {
            FixtureId::Ping => Ok(Msg::Null),
            FixtureId::Echo => Ok(Msg::EchoArgs(EchoArgs { text: args.to_owned() })),
            FixtureId::Multi => {
                let text = trim_text(args);
                if text.as_str().is_empty() {
                    Err("empty query".to_owned())
                } else {
                    Ok(Msg::Query(Query { text, n: args.len() as u64 }))
                }
            },
            FixtureId::Ctx => Ok(Msg::CtxRequest(CtxRequest { text: args.to_owned() })),
            FixtureId::Boom => {
                let (trigger, text) = split_boom(args);
                Ok(Msg::BoomArgs(BoomArgs { trigger, text }))
            },
            FixtureId::Rich => Ok(Msg::RichArgs(make_rich(args))),
        }
    }
}

impl FixtureClient {
    /// What the step prints and gives.
    fn compute(&self, data: &Msg) -> (r: (Option<String>, Result<Msg, String>))
        ensures
            ({
                let (line, given) = client_of(self.fixture, self.step as int, data@);
                &&& outcome(r.1) == given
                &&& match r.0 {
                    Some(text) => line == Some(text@),
                    None => line is None,
                }
            }),
    {
        match (self.fixture, data) {
            (FixtureId::Ping, Msg::Null) if self.step == 0 => (None, Ok(data.duplicate())),
            (FixtureId::Multi, Msg::Query(_)) if self.step == 0 => (None, Ok(data.duplicate())),
            (FixtureId::Boom, Msg::BoomArgs(_)) if self.step == 0 => (None, Ok(data.duplicate())),
            (FixtureId::Rich, Msg::RichArgs(_)) if self.step == 0 => (None, Ok(data.duplicate())),
            (FixtureId::Ctx, Msg::CtxResponse(a)) if self.step == 1 => {
                let mut line = joined("total=", decimal(a.total).as_str());
                line.append(" ");
                line.append(a.text.as_str());
                (Some(line), Ok(Msg::Null))
            },
            (FixtureId::Rich, Msg::RichResult(a)) if self.step == 1 => {
                let mut line = joined(a.echo.as_str(), "|");
                line.append(decimal(a.count).as_str());
                (Some(line), Ok(Msg::Null))
            },
            (FixtureId::Multi, _) if self.step == 1 => match data.n_member() {
                Some(n) => (
                    Some(joined("a=", decimal(n).as_str())),
                    Ok(Msg::Confirm(Confirm { ok: true })),
                ),
                None => (None, Err("unexpected message".to_owned())),
            },
            _ => self.pass_text(data.text_member()),
        }
    }

    /// What a step that reads nothing but a text prints and gives.
    fn pass_text(&self, text: Option<String>) -> (r: (Option<String>, Result<Msg, String>))
        ensures
            ({
                let k = self.step as int;
                let f = self.fixture;
                match text {
                    Some(text) if k == 0 && f == FixtureId::Echo => r.0 is None && outcome(r.1)
                        == Ok::<Message, Seq<char>>(Message::EchoArgs(text@)),
                    Some(text) if k == 0 && f == FixtureId::Ctx => r.0 is None && outcome(r.1)
                        == Ok::<Message, Seq<char>>(Message::CtxRequest(text@)),
                    Some(text) if says_text(f, k) => r.0 == Some(text) && outcome(r.1) == Ok::<
                        Message,
                        Seq<char>,
                    >(Message::Null),
                    _ => r.0 is None && outcome(r.1) == Err::<Message, Seq<char>>(unexpected()),
                }
            }),
    {
        match (self.fixture, self.step, text) {
            (FixtureId::Echo, 0, Some(text)) => (None, Ok(Msg::EchoArgs(EchoArgs { text }))),
            (FixtureId::Ctx, 0, Some(text)) => (None, Ok(Msg::CtxRequest(CtxRequest { text }))),
            (FixtureId::Ping, 1, Some(text)) => (Some(text), Ok(Msg::Null)),
            (FixtureId::Echo, 1, Some(text)) => (Some(text), Ok(Msg::Null)),
            (FixtureId::Boom, 1, Some(text)) => (Some(text), Ok(Msg::Null)),
            (FixtureId::Multi, 2, Some(text)) => (Some(text), Ok(Msg::Null)),
            _ => (None, Err("unexpected message".to_owned())),
        }
    }
}

impl ClientStep<Msg> for FixtureClient {
    open spec fn gives(
        &self,
        data: Message,
        session: Seq<Exchange>,
        r: Result<Message, Seq<char>>,
    ) -> bool {
        let (line, given) = client_of(self.fixture, self.step as int, data);
        &&& r == given
        &&& session == match line {
            Some(text) => seq![Exchange::Printed(text)],
            None => Seq::empty(),
        }
    }

    fn run<O: Console, I: InputSource>(&self, data: &Msg, out: &mut O, input: &mut I) -> (r: Result<
        Msg,
        String,
    >) {
        let ghost before = *out;
        let (line, given) = self.compute(data);
        match line {
            Some(text) => {
                out.print_line(text.as_str());
                proof {
                    let session = seq![Exchange::Printed(text@)];
                    assert(session.drop_first() =~= Seq::<Exchange>::empty());
                    assert(before.printed(session[0]->Printed_0, out));
                    assert(happened(*out, *input, session.drop_first(), *out, *input));
                    assert(happened(before, *input, session, *out, *input));
                    assert(self.gives(data@, session, outcome(given)));
                }
            },
            None => {
                assert(self.gives(data@, Seq::empty(), outcome(given)));
            },
        }
        given
    }
}

/// What the server of `rich` makes of the text and the choice.
pub(crate) fn echo_of(a: &RichArgs) -> (s: String)
    ensures
        Msg::RichArgs(*a)@ matches Message::RichArgs(opt, e, _, _) && s@ == rich_echo(opt, e),
{
    match &a.opt {
        Some(text) => text.clone(),
        None => match &a.e {
            RichEnum::Word(word) => word.clone(),
            _ => "".to_owned(),
        },
    }
}

/// What the server of `rich` makes of the numbers.
fn count_of(n: usize, big: u64) -> (c: u64)
    ensures
        c == rich_count(n as int, big),
{
    (n as u64).wrapping_add(big % 7)
}

impl FixtureServer {
    /// What a step gives that leaves the entries alone.
    fn compute(&self, data: &Msg) -> (r: Result<Msg, String>)
        requires
            self.fixture != FixtureId::Ctx,
        ensures
            forall|entries: Seq<Seq<char>>|
                (entries, outcome(r)) == #[trigger] server_of(
                    self.fixture,
                    self.step as int,
                    data@,
                    entries,
                ),
    {
        match (self.fixture, data) {
            (FixtureId::Ping, Msg::Null) if self.step == 0 => Ok(
                Msg::EchoResult(EchoResult { text: "pong".to_owned() }),
            ),
            (FixtureId::Multi, Msg::Query(a)) if self.step == 0 => Ok(
                Msg::Answer(Answer { n: a.n }),
            ),
            (FixtureId::Multi, Msg::Confirm(a)) if self.step == 1 => {
                let text = if a.ok {
                    "done".to_owned()
                } else {
                    "not-done".to_owned()
                };
                Ok(Msg::Done(Done { text }))
            },
            (FixtureId::Boom, Msg::BoomArgs(a)) if self.step == 0 => {
                if a.trigger == 1 {
                    Err(joined("boom: ", a.text.as_str()))
                } else {
                    Ok(Msg::BoomResult(BoomResult { text: a.text.clone() }))
                }
            },
            (FixtureId::Rich, Msg::RichArgs(a)) if self.step == 0 => {
                let echo = echo_of(a);
                Ok(Msg::RichResult(RichResult { echo, count: count_of(a.v.len(), a.big) }))
            },
            (FixtureId::Echo, _) if self.step == 0 => match data.text_member() {
                Some(text) => Ok(Msg::EchoResult(EchoResult { text })),
                None => Err("unexpected message".to_owned()),
            },
            _ => Err("unexpected message".to_owned()),
        }
    }

    /// Adds an entry.
    fn add_entry(&self, data: &Msg, ctx: &mut CtxState) -> (r: Result<Msg, String>)
        requires
            self.fixture == FixtureId::Ctx,
        ensures
            (texts(final(ctx).entries@), outcome(r)) == server_of(
                self.fixture,
                self.step as int,
                data@,
                texts(old(ctx).entries@),
            ),
    {
        if self.step != 0 {
            return Err("unexpected message".to_owned());
        }
        match data.text_member() {
            Some(text) => {
                let ghost before = texts(ctx.entries@);
                ctx.entries.push(text.clone());
                assert(texts(ctx.entries@) =~= before.push(text@));
                assert(ctx.entries.len() == before.len() + 1);
                Ok(Msg::CtxResponse(CtxResponse { total: ctx.entries.len() as u64, text }))
            },
            None => Err("unexpected message".to_owned()),
        }
    }
}

impl ServerStep<Msg, CtxState> for FixtureServer {
    open spec fn runs(
        &self,
        data: Message,
        ctx: &CtxState,
        ctx_after: &CtxState,
        r: Result<Message, Seq<char>>,
    ) -> bool {
        (texts(ctx_after.entries@), r) == server_of(
            self.fixture,
            self.step as int,
            data,
            texts(ctx.entries@),
        )
    }

    fn run(&self, data: &Msg, ctx: &mut CtxState) -> (r: Result<Msg, String>) {
        if self.fixture == FixtureId::Ctx {
            self.add_entry(data, ctx)
        } else {
            self.compute(data)
        }
    }
}

impl FinishStep for FixtureFinish {
    open spec fn finishes(&self, r: Result<ShellAction, Seq<char>>) -> bool {
        r == Ok::<ShellAction, Seq<char>>(ShellAction::Continue)
    }

    fn finish(&self) -> (r: Result<ShellAction, String>) {
        Ok(ShellAction::Continue)
    }
}

impl Completer for FixtureSilence {
    open spec fn completes(&self, confirmed: Seq<char>, r: Seq<Seq<char>>) -> bool {
        r.len() == 0
    }

    fn complete(&self, confirmed: &str) -> (r: Vec<String>) {
        Vec::new()
    }
}

impl OfflineStep for FixtureSilence {
    open spec fn gives(&self, args: Seq<char>, session: Seq<Exchange>, r: Result<(), Seq<char>>) -> bool {
        r is Ok && session.len() == 0
    }

    fn run<O: Console>(&self, args: &str, out: &mut O) -> (r: Result<(), String>) {
        assert(self.gives(args@, Seq::empty(), done(Ok(()))));
        Ok(())
    }
}

/// The steps of a fixture.
pub open spec fn fixture_steps(f: FixtureId) -> Seq<Step<FixtureKit>> {
    match f {
        FixtureId::Multi => seq![
            Step::Client(FixtureClient { fixture: f, step: 0 }),
            Step::Server(FixtureServer { fixture: f, step: 0 }),
            Step::Client(FixtureClient { fixture: f, step: 1 }),
            Step::Server(FixtureServer { fixture: f, step: 1 }),
            Step::Client(FixtureClient { fixture: f, step: 2 }),
            Step::Finalize(FixtureFinish),
        ],
        _ => seq![
            Step::Client(FixtureClient { fixture: f, step: 0 }),
            Step::Server(FixtureServer { fixture: f, step: 0 }),
            Step::Client(FixtureClient { fixture: f, step: 1 }),
            Step::Finalize(FixtureFinish),
        ],
    }
}

/// Whether `p` is the protocol of a fixture.
pub open spec fn is_protocol_of(p: Protocol<FixtureKit>, f: FixtureId) -> bool {
    &&& p.name@ == fixture_name(f)
    &&& p.help@ == "fuzz "@ + fixture_name(f)
    &&& p.parse == (FixtureParse { fixture: f })
    &&& p.steps@ == fixture_steps(f)
    &&& p.completer is None
    &&& p.offline is None
    &&& p.wf()
}

impl FixtureId {
    /// The name of the command.
    pub fn name(self) -> (s: &'static str)
        ensures
            s@ == fixture_name(self),
    {
        match self {
            FixtureId::Ping => "ping",
            FixtureId::Echo => "echo",
            FixtureId::Multi => "multi",
            FixtureId::Ctx => "ctx",
            FixtureId::Boom => "boom",
            FixtureId::Rich => "rich",
        }
    }

    /// The line of help of the command.
    fn help(self) -> (s: &'static str)
        ensures
            s@ == "fuzz "@ + fixture_name(self),
    {
        proof {
            reveal_strlit("fuzz ");
            reveal_strlit("ping");
            reveal_strlit("echo");
            reveal_strlit("multi");
            reveal_strlit("ctx");
            reveal_strlit("boom");
            reveal_strlit("rich");
            reveal_strlit("fuzz ping");
            reveal_strlit("fuzz echo");
            reveal_strlit("fuzz multi");
            reveal_strlit("fuzz ctx");
            reveal_strlit("fuzz boom");
            reveal_strlit("fuzz rich");
        }
        match self {
            FixtureId::Ping => "fuzz ping",
            FixtureId::Echo => "fuzz echo",
            FixtureId::Multi => "fuzz multi",
            FixtureId::Ctx => "fuzz ctx",
            FixtureId::Boom => "fuzz boom",
            FixtureId::Rich => "fuzz rich",
        }
    }

    /// The protocol.
    pub fn protocol(self) -> (p: Protocol<FixtureKit>)
        ensures
            is_protocol_of(p, self),
    {
        let head: Client<FixtureKit> = Plugin::new(self.name(), self.help()).parse(
            FixtureParse { fixture: self },
        );
        let once = head.client(FixtureClient { fixture: self, step: 0 }).server(
            FixtureServer { fixture: self, step: 0 },
        ).client(FixtureClient { fixture: self, step: 1 });
        let p = match self {
            FixtureId::Multi => once.server(FixtureServer { fixture: self, step: 1 }).client(
                FixtureClient { fixture: self, step: 2 },
            ).finalize(FixtureFinish),
            _ => once.finalize(FixtureFinish),
        };
        assert(p.steps@ =~= fixture_steps(self));
        p
    }

    /// All the protocols.
    pub fn all_protocols() -> (v: Vec<Protocol<FixtureKit>>)
        ensures
            v@.len() == 6,
            forall|i: int| 0 <= i < 6 ==> is_protocol_of(#[trigger] v@[i], fixture_at(i)),
    {
        let mut v: Vec<Protocol<FixtureKit>> = Vec::new();
        v.push(FixtureId::Ping.protocol());
        v.push(FixtureId::Echo.protocol());
        v.push(FixtureId::Multi.protocol());
        v.push(FixtureId::Ctx.protocol());
        v.push(FixtureId::Boom.protocol());
        v.push(FixtureId::Rich.protocol());
        v
    }
}

/// The fixtures in order.
pub open spec fn fixture_at(i: int) -> FixtureId {
    if i == 0 {
        FixtureId::Ping
    } else if i == 1 {
        FixtureId::Echo
    } else if i == 2 {
        FixtureId::Multi
    } else if i == 3 {
        FixtureId::Ctx
    } else if i == 4 {
        FixtureId::Boom
    } else {
        FixtureId::Rich
    }
}

} // verus!
