//! Protocols for exercising both sides of a conversation, with what each of
//! them sends and shows worked out beside it.

pub mod cases;
pub mod conversations;
pub mod handlers;
pub mod laws;
pub mod pointer;
pub mod session_laws;
pub mod walks;
pub mod wire;

use crate::fixtures::wire::{Message, RichValue};
use crate::text::{chars_of, decimal, decimal_text, joined, texts, trimmed};
use vstd::prelude::*;
use vstd::string::*;
use vstd::utf8::encode_utf8;

verus! {

/// Uncommon but sensible texts.
pub open spec fn probe_texts() -> Seq<Seq<char>> {
    seq![
        ""@,
        " "@,
        "héllo"@,
        "日本語"@,
        "↪ continuation"@,
        "a\nb"@,
        "\t"@,
        "\u{1F600} ok"@,
        "lineachar"@,
        Seq::new(200, |i: int| '-'),
    ]
}

/// `n` dashes.
fn dashes(n: usize) -> (s: String)
    ensures
        s@ == Seq::new(n as nat, |i: int| '-'),
{
    let mut s = "".to_owned();
    proof {
        reveal_strlit("");
    }
    let mut i: usize = 0;
    assert(s@ =~= Seq::new(0, |i: int| '-'));
    while i < n
        invariant
            i <= n,
            s@ == Seq::new(i as nat, |i: int| '-'),
        decreases n - i,
    {
        s.push('-');
        assert(s@ =~= Seq::new((i + 1) as nat, |i: int| '-'));
        i += 1;
    }
    s
}

/// Computes [`probe_texts`].
fn probes() -> (v: Vec<String>)
    ensures
        texts(v@) == probe_texts(),
{
    let mut v: Vec<String> = Vec::new();
    v.push("".to_owned());
    v.push(" ".to_owned());
    v.push("héllo".to_owned());
    v.push("日本語".to_owned());
    v.push("↪ continuation".to_owned());
    v.push("a\nb".to_owned());
    v.push("\t".to_owned());
    v.push("\u{1F600} ok".to_owned());
    v.push("lineachar".to_owned());
    v.push(dashes(200));
    assert(texts(v@) =~= probe_texts());
    v
}

/// A text of two characters or more as it is, and an uncommon one, picked by
/// `salt`, in place of a shorter one.
pub open spec fn sprouted(s: Seq<char>, salt: u8) -> Seq<char> {
    if s.len() < 2 {
        probe_texts()[salt as int % 10]
    } else {
        s
    }
}

/// Computes [`sprouted`].
pub fn sprout(s: &str, salt: u8) -> (r: String)
    ensures
        r@ == sprouted(s@, salt),
{
    if chars_of(s).len() < 2 {
        let probes = probes();
        let k = (salt % 10) as usize;
        assert(probe_texts().len() == 10);
        assert(texts(probes@).len() == probes@.len());
        assert(texts(probes@)[k as int] == probes@[k as int]@);
        probes[k].clone()
    } else {
        s.to_owned()
    }
}

/// The number of bytes of a text.
pub open spec fn byte_len(s: Seq<char>) -> usize {
    encode_utf8(s).len() as usize
}

/// State that the connections to one server share.
pub struct CtxState {
    pub entries: Vec<String>,
}

impl Default for CtxState {
    fn default() -> (c: CtxState)
        ensures
            c.entries@.len() == 0,
    {
        CtxState { entries: Vec::new() }
    }
}

/// The entries that a server begins with.
pub open spec fn seeded(n: nat) -> Seq<Seq<char>> {
    Seq::new(n, |i: int| "pre"@ + decimal_text(i as nat))
}

impl CtxState {
    /// A state with `pre_seed` entries.
    pub fn new(pre_seed: usize) -> (c: CtxState)
        ensures
            texts(c.entries@) == seeded(pre_seed as nat),
    {
        let mut entries: Vec<String> = Vec::new();
        let mut i: usize = 0;
        assert(texts(entries@) =~= seeded(0));
        while i < pre_seed
            invariant
                i <= pre_seed,
                texts(entries@) == seeded(i as nat),
            decreases pre_seed - i,
        {
            let ghost before = entries@;
            entries.push(joined("pre", decimal(i as u64).as_str()));
            assert(texts(entries@) =~= texts(before).push("pre"@ + decimal_text(i as nat)));
            assert(texts(entries@) =~= seeded((i + 1) as nat));
            i += 1;
        }
        CtxState { entries }
    }

    /// The number of entries.
    pub fn len(&self) -> (n: usize)
        ensures
            n == self.entries@.len(),
    {
        self.entries.len()
    }
}

/// One of the protocols.
#[derive(Debug, Clone, Copy, PartialEq, Eq, Structural)]
pub enum FixtureId {
    Ping,
    Echo,
    Multi,
    Ctx,
    Boom,
    Rich,
}

/// A client sends a frame, or receives one.
#[derive(Debug, Clone, Copy, PartialEq, Eq, Structural)]
pub enum Io {
    S,
    R,
}

/// The name of a protocol's command.
pub open spec fn fixture_name(f: FixtureId) -> Seq<char> {
    match f {
        FixtureId::Ping => "ping"@,
        FixtureId::Echo => "echo"@,
        FixtureId::Multi => "multi"@,
        FixtureId::Ctx => "ctx"@,
        FixtureId::Boom => "boom"@,
        FixtureId::Rich => "rich"@,
    }
}

/// Whether a text begins with `c`.
pub open spec fn starts_with_char(s: Seq<char>, c: char) -> bool {
    s.len() > 0 && s[0] == c
}

/// The text of `boom` arguments: a leading `!`, which makes the server fail, is
/// not part of it.
pub open spec fn boom_text(args: Seq<char>) -> Seq<char> {
    if starts_with_char(args, '!') {
        args.drop_first()
    } else {
        args
    }
}

/// The position of the first comma of `s` from `i` on, or the end of `s`.
pub open spec fn until_comma(s: Seq<char>, i: int) -> int
    decreases s.len() - i,
{
    if i < 0 || i >= s.len() || s[i] == ',' {
        i
    } else {
        until_comma(s, i + 1)
    }
}

/// The numbers of bytes of the pieces between commas, of `s` from `i` on.
pub open spec fn piece_lens(s: Seq<char>, i: int) -> Seq<i64>
    decreases s.len() + 1 - i,
{
    if i < 0 || i > s.len() {
        Seq::empty()
    } else {
        let k = until_comma(s, i);
        if i <= k < s.len() {
            seq![byte_len(s.subrange(i, k)) as i64] + piece_lens(s, k + 1)
        } else {
            seq![byte_len(s.skip(i)) as i64]
        }
    }
}

/// The choice in `rich` arguments.
pub open spec fn rich_choice(args: Seq<char>) -> RichValue {
    if args.len() == 0 {
        RichValue::Empty
    } else if starts_with_char(args, '|') {
        RichValue::Pair(byte_len(args) as i64)
    } else {
        RichValue::Word(args)
    }
}

/// The optional text in `rich` arguments.
pub open spec fn rich_option(args: Seq<char>) -> Option<Seq<char>> {
    if args.len() == 0 {
        None
    } else {
        Some(args)
    }
}

/// What the server of `rich` makes of the text and the choice.
pub open spec fn rich_echo(opt: Option<Seq<char>>, e: RichValue) -> Seq<char> {
    match opt {
        Some(text) => text,
        None => match e {
            RichValue::Word(word) => word,
            _ => ""@,
        },
    }
}

/// What the server of `rich` makes of the numbers.
pub open spec fn rich_count(n: int, big: u64) -> u64 {
    ((n + big % 7) % 0x1_0000_0000_0000_0000) as u64
}

/// The first frame for given arguments.
pub open spec fn parse_of(f: FixtureId, args: Seq<char>) -> Result<Message, Seq<char>> {
    match f {
        FixtureId::Ping => Ok(Message::Null),
        FixtureId::Echo => Ok(Message::EchoArgs(args)),
        FixtureId::Multi => if trimmed(args).len() == 0 {
            Err("empty query"@)
        } else {
            Ok(Message::Query(trimmed(args), byte_len(args) as u64))
        },
        FixtureId::Ctx => Ok(Message::CtxRequest(args)),
        FixtureId::Boom => Ok(
            Message::BoomArgs(
                if starts_with_char(args, '!') {
                    1
                } else {
                    0
                },
                boom_text(args),
            ),
        ),
        FixtureId::Rich => Ok(
            Message::RichArgs(
                rich_option(args),
                rich_choice(args),
                piece_lens(args, 0),
                byte_len(args) as u64,
            ),
        ),
    }
}

/// What is said of a frame that a step cannot read.
pub open spec fn unexpected() -> Seq<char> {
    "unexpected message"@
}

/// Whether the `k`-th client step prints the text that it is given.
pub open spec fn says_text(f: FixtureId, k: int) -> bool {
    match f {
        FixtureId::Ping | FixtureId::Echo | FixtureId::Boom => k == 1,
        FixtureId::Multi => k == 2,
        _ => false,
    }
}

/// The line that the `k`-th client step prints and the frame that it gives.
pub open spec fn client_of(f: FixtureId, k: int, data: Message) -> (
    Option<Seq<char>>,
    Result<Message, Seq<char>>,
) {
    match (f, data) {
        (FixtureId::Ping, Message::Null) if k == 0 => (None, Ok(data)),
        (FixtureId::Multi, Message::Query(_, _)) if k == 0 => (None, Ok(data)),
        (FixtureId::Boom, Message::BoomArgs(_, _)) if k == 0 => (None, Ok(data)),
        (FixtureId::Rich, Message::RichArgs(_, _, _, _)) if k == 0 => (None, Ok(data)),
        (FixtureId::Ctx, Message::CtxResponse(total, text)) if k == 1 => (
            Some("total="@ + decimal_text(total as nat) + " "@ + text),
            Ok(Message::Null),
        ),
        (FixtureId::Rich, Message::RichResult(echo, count)) if k == 1 => (
            Some(echo + "|"@ + decimal_text(count as nat)),
            Ok(Message::Null),
        ),
        (FixtureId::Multi, _) if k == 1 && data.n_member() is Some => (
            Some("a="@ + decimal_text(data.n_member()->0 as nat)),
            Ok(Message::Confirm(true)),
        ),
        _ => match data.text_member() {
            Some(text) if k == 0 && f == FixtureId::Echo => (None, Ok(Message::EchoArgs(text))),
            Some(text) if k == 0 && f == FixtureId::Ctx => (None, Ok(Message::CtxRequest(text))),
            Some(text) if says_text(f, k) => (Some(text), Ok(Message::Null)),
            _ => (None, Err(unexpected())),
        },
    }
}

/// The entries that the `k`-th server step leaves and the frame that it gives.
pub open spec fn server_of(f: FixtureId, k: int, data: Message, entries: Seq<Seq<char>>) -> (
    Seq<Seq<char>>,
    Result<Message, Seq<char>>,
) {
    match (f, data) {
        (FixtureId::Ping, Message::Null) if k == 0 => (entries, Ok(Message::EchoResult("pong"@))),
        (FixtureId::Multi, Message::Query(_, n)) if k == 0 => (entries, Ok(Message::Answer(n))),
        (FixtureId::Multi, Message::Confirm(ok)) if k == 1 => (
            entries,
            Ok(
                Message::Done(
                    if ok {
                        "done"@
                    } else {
                        "not-done"@
                    },
                ),
            ),
        ),
        (FixtureId::Boom, Message::BoomArgs(trigger, text)) if k == 0 => (
            entries,
            if trigger == 1 {
                Err("boom: "@ + text)
            } else {
                Ok(Message::BoomResult(text))
            },
        ),
        (FixtureId::Rich, Message::RichArgs(opt, e, v, big)) if k == 0 => (
            entries,
            Ok(Message::RichResult(rich_echo(opt, e), rich_count(v.len() as int, big))),
        ),
        _ => match data.text_member() {
            Some(text) if k == 0 && f == FixtureId::Echo => (entries, Ok(Message::EchoResult(text))),
            Some(text) if k == 0 && f == FixtureId::Ctx => (
                entries.push(text),
                Ok(Message::CtxResponse(((entries.len() + 1) as usize) as u64, text)),
            ),
            _ => (entries, Err(unexpected())),
        },
    }
}

/// The frames that a client sends, where `args` can be parsed.
pub open spec fn client_messages(f: FixtureId, args: Seq<char>) -> Seq<Message> {
    let first = match parse_of(f, args) {
        Ok(message) => message,
        Err(_) => Message::Query(trimmed(args), byte_len(args) as u64),
    };
    match f {
        FixtureId::Multi => seq![first, Message::Confirm(true), Message::Null, Message::Null],
        _ => seq![first, Message::Null, Message::Null],
    }
}

/// The frames that a server sends, where no step fails; it has `seed` entries
/// before.
pub open spec fn server_messages(f: FixtureId, args: Seq<char>, seed: int) -> Seq<Message> {
    match f {
        FixtureId::Ping => seq![Message::EchoResult("pong"@)],
        FixtureId::Echo => seq![Message::EchoResult(args)],
        FixtureId::Multi => seq![
            Message::Answer(byte_len(args) as u64),
            Message::Done("done"@),
        ],
        FixtureId::Ctx => seq![Message::CtxResponse(((seed + 1) as usize) as u64, args)],
        FixtureId::Boom => seq![Message::BoomResult(boom_text(args))],
        FixtureId::Rich => seq![
            Message::RichResult(
                rich_echo(rich_option(args), rich_choice(args)),
                rich_count(piece_lens(args, 0).len() as int, byte_len(args) as u64),
            ),
        ],
    }
}

/// The lines that a client prints, where no step fails.
pub open spec fn rendered(f: FixtureId, args: Seq<char>, seed: int) -> Seq<Seq<char>> {
    match f {
        FixtureId::Ping => seq!["pong"@],
        FixtureId::Echo => seq![args],
        FixtureId::Multi => seq!["a="@ + decimal_text(byte_len(args) as nat), "done"@],
        FixtureId::Ctx => seq![
            "total="@ + decimal_text(((seed + 1) as usize) as nat) + " "@ + args,
        ],
        FixtureId::Boom => seq![boom_text(args)],
        FixtureId::Rich => seq![
            rich_echo(rich_option(args), rich_choice(args)) + "|"@ + decimal_text(
                rich_count(piece_lens(args, 0).len() as int, byte_len(args) as u64) as nat,
            ),
        ],
    }
}

/// The lines that a client has printed once the first `k` responses have come:
/// all of them after the last response.
pub open spec fn rendered_after(f: FixtureId, args: Seq<char>, seed: int, k: int) -> Seq<
    Seq<char>,
> {
    if k <= 0 {
        Seq::empty()
    } else if k < server_messages(f, args, seed).len() {
        rendered(f, args, seed).take(k)
    } else {
        rendered(f, args, seed)
    }
}

/// How many server steps have run when `fed` frames have come in.
pub open spec fn steps_after(f: FixtureId, fed: int) -> int {
    if fed <= 0 {
        0
    } else if f == FixtureId::Multi && fed >= 2 {
        2
    } else {
        1
    }
}

/// The order in which a client sends and receives.
pub open spec fn layout(f: FixtureId) -> Seq<Io> {
    if f == FixtureId::Multi {
        seq![Io::S, Io::R, Io::S, Io::R, Io::S, Io::S]
    } else {
        seq![Io::S, Io::R, Io::S, Io::S]
    }
}

/// What a failing server step says.
pub open spec fn failure(f: FixtureId, args: Seq<char>) -> Option<Seq<char>> {
    if f == FixtureId::Boom && starts_with_char(args, '!') {
        Some("boom: "@ + boom_text(args))
    } else {
        None
    }
}

} // verus!
