//! The frames of the fixture protocols.

use crate::connection::Wire;
use crate::fixtures::unexpected;
use vstd::prelude::*;
use vstd::string::*;

verus! {

#[derive(Debug, PartialEq)]
pub struct EchoArgs {
    pub text: String,
}

#[derive(Debug, PartialEq)]
pub struct EchoResult {
    pub text: String,
}

#[derive(Debug, PartialEq)]
pub struct Query {
    pub text: String,
    pub n: u64,
}

#[derive(Debug, PartialEq)]
pub struct Answer {
    pub n: u64,
}

#[derive(Debug, PartialEq)]
pub struct Confirm {
    pub ok: bool,
}

#[derive(Debug, PartialEq)]
pub struct Done {
    pub text: String,
}

#[derive(Debug, PartialEq)]
pub struct CtxRequest {
    pub text: String,
}

#[derive(Debug, PartialEq)]
pub struct CtxResponse {
    pub total: u64,
    pub text: String,
}

#[derive(Debug, PartialEq)]
pub struct BoomArgs {
    pub trigger: u8,
    pub text: String,
}

#[derive(Debug, PartialEq)]
pub struct BoomResult {
    pub text: String,
}

#[derive(Debug, PartialEq)]
pub enum RichEnum {
    Empty,
    Word(String),
    Pair { k: i64 },
}

#[derive(Debug, PartialEq)]
pub struct RichArgs {
    pub opt: Option<String>,
    pub e: RichEnum,
    pub v: Vec<i64>,
    pub big: u64,
}

#[derive(Debug, PartialEq)]
pub struct RichResult {
    pub echo: String,
    pub count: u64,
}

/// A frame.
#[derive(Debug, PartialEq)]
pub enum Msg {
    /// No frame.
    Empty,
    /// A step without a result, and the sentinel.
    Null,
    EchoArgs(EchoArgs),
    EchoResult(EchoResult),
    Query(Query),
    Answer(Answer),
    Confirm(Confirm),
    Done(Done),
    CtxRequest(CtxRequest),
    CtxResponse(CtxResponse),
    BoomArgs(BoomArgs),
    BoomResult(BoomResult),
    RichArgs(RichArgs),
    RichResult(RichResult),
    /// The name of a command.
    Command(String),
    /// The failure of a server step.
    Failure(String),
}

/// A [`RichEnum`] with its text.
pub enum RichValue {
    Empty,
    Word(Seq<char>),
    Pair(i64),
}

/// A [`Msg`] with its texts.
#[verifier::ext_equal]
pub enum Message {
    Empty,
    Null,
    EchoArgs(Seq<char>),
    EchoResult(Seq<char>),
    Query(Seq<char>, u64),
    Answer(u64),
    Confirm(bool),
    Done(Seq<char>),
    CtxRequest(Seq<char>),
    CtxResponse(u64, Seq<char>),
    BoomArgs(u8, Seq<char>),
    BoomResult(Seq<char>),
    RichArgs(Option<Seq<char>>, RichValue, Seq<i64>, u64),
    RichResult(Seq<char>, u64),
    Command(Seq<char>),
    Failure(Seq<char>),
}

impl View for RichEnum {
    type V = RichValue;

    open spec fn view(&self) -> RichValue {
        match self {
            RichEnum::Empty => RichValue::Empty,
            RichEnum::Word(word) => RichValue::Word(word@),
            RichEnum::Pair { k } => RichValue::Pair(*k),
        }
    }
}

impl View for Msg {
    type V = Message;

    open spec fn view(&self) -> Message {
        match self {
            Msg::Empty => Message::Empty,
            Msg::Null => Message::Null,
            Msg::EchoArgs(a) => Message::EchoArgs(a.text@),
            Msg::EchoResult(a) => Message::EchoResult(a.text@),
            Msg::Query(a) => Message::Query(a.text@, a.n),
            Msg::Answer(a) => Message::Answer(a.n),
            Msg::Confirm(a) => Message::Confirm(a.ok),
            Msg::Done(a) => Message::Done(a.text@),
            Msg::CtxRequest(a) => Message::CtxRequest(a.text@),
            Msg::CtxResponse(a) => Message::CtxResponse(a.total, a.text@),
            Msg::BoomArgs(a) => Message::BoomArgs(a.trigger, a.text@),
            Msg::BoomResult(a) => Message::BoomResult(a.text@),
            Msg::RichArgs(a) => Message::RichArgs(
                match a.opt {
                    Some(text) => Some(text@),
                    None => None,
                },
                a.e@,
                a.v@,
                a.big,
            ),
            Msg::RichResult(a) => Message::RichResult(a.echo@, a.count),
            Msg::Command(name) => Message::Command(name@),
            Msg::Failure(message) => Message::Failure(message@),
        }
    }
}

impl Message {
    /// The member `text` of a frame. A step reads from a frame the members that it
    /// needs, whatever else is in it.
    pub open spec fn text_member(self) -> Option<Seq<char>> {
        match self {
            Message::EchoArgs(text) => Some(text),
            Message::EchoResult(text) => Some(text),
            Message::Query(text, _) => Some(text),
            Message::Done(text) => Some(text),
            Message::CtxRequest(text) => Some(text),
            Message::CtxResponse(_, text) => Some(text),
            Message::BoomArgs(_, text) => Some(text),
            Message::BoomResult(text) => Some(text),
            _ => None,
        }
    }

    /// The member `n` of a frame.
    pub open spec fn n_member(self) -> Option<u64> {
        match self {
            Message::Query(_, n) => Some(n),
            Message::Answer(n) => Some(n),
            _ => None,
        }
    }
}

impl Msg {
    /// The member `text`.
    pub fn text_member(&self) -> (r: Option<String>)
        ensures
            match r {
                Some(text) => self@.text_member() == Some(text@),
                None => self@.text_member() is None,
            },
    {
        match self {
            Msg::EchoArgs(a) => Some(a.text.clone()),
            Msg::EchoResult(a) => Some(a.text.clone()),
            Msg::Query(a) => Some(a.text.clone()),
            Msg::Done(a) => Some(a.text.clone()),
            Msg::CtxRequest(a) => Some(a.text.clone()),
            Msg::CtxResponse(a) => Some(a.text.clone()),
            Msg::BoomArgs(a) => Some(a.text.clone()),
            Msg::BoomResult(a) => Some(a.text.clone()),
            _ => None,
        }
    }

    /// The member `n`.
    pub fn n_member(&self) -> (r: Option<u64>)
        ensures
            r == self@.n_member(),
    {
        match self {
            Msg::Query(a) => Some(a.n),
            Msg::Answer(a) => Some(a.n),
            _ => None,
        }
    }
}

/// The same numbers.
fn copy_numbers(v: &Vec<i64>) -> (r: Vec<i64>)
    ensures
        r@ == v@,
{
    let mut r: Vec<i64> = Vec::new();
    let mut i: usize = 0;
    while i < v.len()
        invariant
            i <= v@.len(),
            r@ == v@.take(i as int),
        decreases v@.len() - i,
    {
        r.push(v[i]);
        assert(v@.take(i + 1) =~= v@.take(i as int).push(v@[i as int]));
        i += 1;
    }
    assert(v@.take(i as int) =~= v@);
    r
}

impl Wire for Msg {
    open spec fn empty_view() -> Message {
        Message::Empty
    }

    open spec fn error_view(message: Seq<char>) -> Message {
        Message::Failure(message)
    }

    open spec fn error_in(frame: Message) -> Option<Seq<char>> {
        match frame {
            Message::Failure(message) => Some(message),
            _ => None,
        }
    }

    open spec fn sentinel_view() -> Message {
        Message::Null
    }

    open spec fn sentinel_in(frame: Message) -> Result<(), Seq<char>> {
        match frame {
            Message::Null => Ok(()),
            _ => Err(unexpected()),
        }
    }

    open spec fn command_view(name: Seq<char>) -> Message {
        Message::Command(name)
    }

    open spec fn command_in(frame: Message) -> Result<Seq<char>, Seq<char>> {
        match frame {
            Message::Command(name) => Ok(name),
            _ => Err(unexpected()),
        }
    }

    fn empty() -> (f: Self) {
        Msg::Empty
    }

    fn duplicate(&self) -> (f: Self) {
        match self {
            Msg::Empty => Msg::Empty,
            Msg::Null => Msg::Null,
            Msg::EchoArgs(a) => Msg::EchoArgs(EchoArgs { text: a.text.clone() }),
            Msg::EchoResult(a) => Msg::EchoResult(EchoResult { text: a.text.clone() }),
            Msg::Query(a) => Msg::Query(Query { text: a.text.clone(), n: a.n }),
            Msg::Answer(a) => Msg::Answer(Answer { n: a.n }),
            Msg::Confirm(a) => Msg::Confirm(Confirm { ok: a.ok }),
            Msg::Done(a) => Msg::Done(Done { text: a.text.clone() }),
            Msg::CtxRequest(a) => Msg::CtxRequest(CtxRequest { text: a.text.clone() }),
            Msg::CtxResponse(a) => Msg::CtxResponse(
                CtxResponse { total: a.total, text: a.text.clone() },
            ),
            Msg::BoomArgs(a) => Msg::BoomArgs(
                BoomArgs { trigger: a.trigger, text: a.text.clone() },
            ),
            Msg::BoomResult(a) => Msg::BoomResult(BoomResult { text: a.text.clone() }),
            Msg::RichArgs(a) => {
                let opt = match &a.opt {
                    Some(text) => Some(text.clone()),
                    None => None,
                };
                let e = match &a.e {
                    RichEnum::Empty => RichEnum::Empty,
                    RichEnum::Word(word) => RichEnum::Word(word.clone()),
                    RichEnum::Pair { k } => RichEnum::Pair { k: *k },
                };
                Msg::RichArgs(RichArgs { opt, e, v: copy_numbers(&a.v), big: a.big })
            },
            Msg::RichResult(a) => Msg::RichResult(
                RichResult { echo: a.echo.clone(), count: a.count },
            ),
            Msg::Command(name) => Msg::Command(name.clone()),
            Msg::Failure(message) => Msg::Failure(message.clone()),
        }
    }

    fn error_frame(message: &str) -> (f: Self) {
        Msg::Failure(message.to_owned())
    }

    fn error_text(&self) -> (r: Option<String>) {
        match self {
            Msg::Failure(message) => Some(message.clone()),
            _ => None,
        }
    }

    fn sentinel() -> (f: Self) {
        Msg::Null
    }

    fn read_sentinel(&self) -> (r: Result<(), String>) {
        match self {
            Msg::Null => Ok(()),
            _ => Err("unexpected message".to_owned()),
        }
    }

    fn command(name: &str) -> (f: Self) {
        Msg::Command(name.to_owned())
    }

    fn read_command(&self) -> (r: Result<String, String>) {
        match self {
            Msg::Command(name) => Ok(name.clone()),
            _ => Err("unexpected message".to_owned()),
        }
    }
}

} // verus!
