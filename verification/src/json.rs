//! Frames in JSON.
//!
//! A frame is the JSON text of a value. The failure of a server step travels as
//! an object with the single member `__error__`, a command as its name, and the
//! sentinel as `null`. On a stream each frame is a line.

use crate::connection::Wire;
use crate::console::{done, outcome};
use crate::text::{lemma_trimmed_push, trim_text, trimmed};
use vstd::prelude::*;
use vstd::string::*;
use vstd::utf8::{
    decode_utf8, decode_utf8_split, is_char_boundary_iff_not_is_continuation_byte, valid_utf8,
    valid_utf8_concat, valid_utf8_split,
};

verus! {

/// What can go wrong in reading or writing JSON.
#[verifier::external_type_specification]
#[verifier::external_body]
pub struct ExJsonError(serde_json::Error);

/// The string member `key` of the JSON object that `bytes` hold, `None` where
/// they hold no object or the object has no such member.
pub uninterp spec fn json_member(bytes: Seq<u8>, key: Seq<char>) -> Option<Seq<char>>;

/// The JSON text of an object with the single member `key`, the string `text`.
pub uninterp spec fn json_object(key: Seq<char>, text: Seq<char>) -> Seq<u8>;

/// The JSON text of the string `text`.
pub uninterp spec fn json_string(text: Seq<char>) -> Seq<u8>;

/// The string whose JSON text is `text`, or why it is none.
pub uninterp spec fn json_string_value(text: Seq<char>) -> Result<Seq<char>, Seq<char>>;

/// Whether `text` is the JSON text of the unit value, or why it is not.
pub uninterp spec fn json_unit_value(text: Seq<char>) -> Result<(), Seq<char>>;

/// `serde_json::from_slice` into a `Value`, then `Value::get` and
/// `Value::as_str`: the member `key` of an object, where it is a string.
#[verifier::external_body]
fn member(bytes: &Vec<u8>, key: &str) -> (r: Option<String>)
    ensures
        match r {
            Some(text) => json_member(bytes@, key@) == Some(text@),
            None => json_member(bytes@, key@) is None,
        },
{
    let value: serde_json::Value = serde_json::from_slice(bytes).ok()?;
    let text = value.get(key)?.as_str()?;
    Some(text.to_string())
}

/// `serde_json::to_vec` of an object with one member, a string. Writing to
/// memory does not fail, and the member reads back as it was written, with the
/// end of a line behind the object too.
#[verifier::external_body]
fn object_bytes(key: &str, text: &str) -> (r: Result<Vec<u8>, serde_json::Error>)
    ensures
        r is Ok,
        r->Ok_0@ == json_object(key@, text@),
        json_member(r->Ok_0@, key@) == Some(text@),
        json_member(line(r->Ok_0@), key@) == Some(text@),
{
    let mut members = serde_json::Map::new();
    members.insert(key.to_string(), serde_json::Value::String(text.to_string()));
    serde_json::to_vec(&serde_json::Value::Object(members))
}

/// `serde_json::to_vec` of a string. Writing to memory does not fail. The
/// result is UTF-8 and, as it begins and ends with a quotation mark, reads back
/// as it was written even after trimming.
#[verifier::external_body]
fn string_bytes(text: &str) -> (r: Result<Vec<u8>, serde_json::Error>)
    ensures
        r is Ok,
        r->Ok_0@ == json_string(text@),
        valid_utf8(r->Ok_0@),
        json_string_value(trimmed(decode_utf8(r->Ok_0@))) is Ok,
        json_string_value(trimmed(decode_utf8(r->Ok_0@)))->Ok_0 == text@,
{
    serde_json::to_vec(text)
}

/// `serde_json::from_str` into a string.
#[verifier::external_body]
fn parse_string(text: &str) -> (r: Result<String, String>)
    ensures
        outcome(r) == json_string_value(text@),
{
    serde_json::from_str::<String>(text).map_err(|e| e.to_string())
}

/// `serde_json::to_vec` of the unit value writes `null`, which reads back.
#[verifier::external_body]
fn unit_bytes() -> (r: Result<Vec<u8>, serde_json::Error>)
    ensures
        r is Ok,
        r->Ok_0@ == seq![110u8, 117u8, 108u8, 108u8],
        valid_utf8(r->Ok_0@),
        json_unit_value(trimmed(decode_utf8(r->Ok_0@))) is Ok,
{
    serde_json::to_vec(&())
}

/// `serde_json::from_str` into the unit value.
#[verifier::external_body]
fn parse_unit(text: &str) -> (r: Result<(), String>)
    ensures
        done(r) == json_unit_value(text@),
{
    serde_json::from_str::<()>(text).map_err(|e| e.to_string())
}

/// `std::str::from_utf8` decodes UTF-8.
#[verifier::external_body]
pub(crate) fn utf8_text(bytes: &Vec<u8>) -> (r: Option<String>)
    ensures
        match r {
            Some(text) => valid_utf8(bytes@) && text@ == decode_utf8(bytes@),
            None => !valid_utf8(bytes@),
        },
{
    match std::str::from_utf8(bytes) {
        Ok(text) => Some(text.to_string()),
        Err(_) => None,
    }
}

/// The text of a received frame: without white space around it, and empty where
/// it is not UTF-8.
pub open spec fn received_text(frame: Seq<u8>) -> Seq<char> {
    trimmed(
        if valid_utf8(frame) {
            decode_utf8(frame)
        } else {
            ""@
        },
    )
}

/// Computes [`received_text`].
pub fn frame_text(frame: &Vec<u8>) -> (text: String)
    ensures
        text@ == received_text(frame@),
{
    match utf8_text(frame) {
        Some(text) => trim_text(text.as_str()),
        None => trim_text(""),
    }
}

impl Wire for Vec<u8> {
    open spec fn empty_view() -> Seq<u8> {
        Seq::empty()
    }

    open spec fn error_view(message: Seq<char>) -> Seq<u8> {
        json_object("__error__"@, message)
    }

    open spec fn error_in(frame: Seq<u8>) -> Option<Seq<char>> {
        json_member(frame, "__error__"@)
    }

    open spec fn sentinel_view() -> Seq<u8> {
        seq![110u8, 117u8, 108u8, 108u8]
    }

    open spec fn sentinel_in(frame: Seq<u8>) -> Result<(), Seq<char>> {
        json_unit_value(received_text(frame))
    }

    open spec fn command_view(name: Seq<char>) -> Seq<u8> {
        json_string(name)
    }

    open spec fn command_in(frame: Seq<u8>) -> Result<Seq<char>, Seq<char>> {
        json_string_value(received_text(frame))
    }

    fn empty() -> (f: Self) {
        Vec::new()
    }

    fn duplicate(&self) -> (f: Self) {
        let f = self.clone();
        assert(f@ =~= self@);
        f
    }

    fn error_frame(message: &str) -> (f: Self)
        ensures
            Self::error_in(line(f@)) == Some(message@),
    {
        match object_bytes("__error__", message) {
            Ok(f) => f,
            Err(_) => Vec::new(),
        }
    }

    fn error_text(&self) -> (r: Option<String>) {
        member(self, "__error__")
    }

    fn sentinel() -> (f: Self)
        ensures
            Self::sentinel_in(line(f@)) is Ok,
    {
        match unit_bytes() {
            Ok(f) => {
                proof {
                    lemma_line_text(f@);
                }
                f
            },
            Err(_) => Vec::new(),
        }
    }

    fn read_sentinel(&self) -> (r: Result<(), String>) {
        parse_unit(frame_text(self).as_str())
    }

    fn command(name: &str) -> (f: Self)
        ensures
            Self::command_in(line(f@)) == Ok::<Seq<char>, Seq<char>>(name@),
    {
        match string_bytes(name) {
            Ok(f) => {
                proof {
                    lemma_line_text(f@);
                }
                f
            },
            Err(_) => Vec::new(),
        }
    }

    fn read_command(&self) -> (r: Result<String, String>) {
        parse_string(frame_text(self).as_str())
    }
}

/// The byte that ends a line.
pub const LINE_END: u8 = 10;

/// The line that carries a frame.
pub open spec fn line(frame: Seq<u8>) -> Seq<u8> {
    frame.push(LINE_END)
}

/// What ends a line is no part of the text of a received frame.
proof fn lemma_line_text(frame: Seq<u8>)
    ensures
        received_text(line(frame)) == received_text(frame),
{
    let end = seq![LINE_END];
    let all = line(frame);
    let n = frame.len() as int;
    assert(all =~= frame + end);
    assert(all.subrange(0, n) =~= frame);
    assert(all.subrange(n, all.len() as int) =~= end);
    assert(valid_utf8(end) && decode_utf8(end) =~= seq!['\n']) by {
        reveal_with_fuel(valid_utf8, 2);
        reveal_with_fuel(decode_utf8, 2);
        assert(LINE_END & 0x80 == 0 && LINE_END & 0x7f == LINE_END) by (bit_vector)
            requires
                LINE_END == 10,
        ;
    }
    if valid_utf8(frame) {
        valid_utf8_concat(frame, end);
    }
    if valid_utf8(all) {
        is_char_boundary_iff_not_is_continuation_byte(all, n);
        valid_utf8_split(all, n);
        decode_utf8_split(all, n);
        assert(decode_utf8(all) =~= decode_utf8(frame).push('\n'));
        lemma_trimmed_push(decode_utf8(frame), '\n');
    }
}

/// Computes [`line`]: the other side reads from it what it would read from the
/// frame.
pub fn line_of(frame: &Vec<u8>) -> (r: Vec<u8>)
    ensures
        r@ == line(frame@),
        received_text(r@) == received_text(frame@),
{
    proof {
        lemma_line_text(frame@);
    }
    let mut r = frame.duplicate();
    r.push(LINE_END);
    r
}

/// The frame that was read from a stream: the next line, unless the stream has
/// ended.
pub fn frame_of_line(read: Vec<u8>) -> (r: Result<Vec<u8>, String>)
    ensures
        outcome(r) == if read@.len() == 0 {
            Err::<Seq<u8>, Seq<char>>("connection closed"@)
        } else {
            Ok(read@)
        },
{
    if read.len() == 0 {
        Err("connection closed".to_owned())
    } else {
        Ok(read)
    }
}

/// Where the first line of a stream ends.
pub open spec fn first_end(stream: Seq<u8>, i: int) -> int
    decreases stream.len() - i,
{
    if i < 0 || i >= stream.len() || stream[i] == LINE_END {
        i
    } else {
        first_end(stream, i + 1)
    }
}

/// A frame that holds no end of a line comes in as the first line of the stream
/// that it was sent on, and what was sent after it comes in after it.
pub proof fn law_frames_stay_apart(frame: Seq<u8>, rest: Seq<u8>)
    requires
        forall|i: int| 0 <= i < frame.len() ==> #[trigger] frame[i] != LINE_END,
    ensures
        ({
            let stream = line(frame) + rest;
            let end = first_end(stream, 0);
            &&& stream.take(end + 1) == line(frame)
            &&& stream.skip(end + 1) == rest
        }),
{
    let stream = line(frame) + rest;
    lemma_first_end(frame, rest, 0);
    assert(stream.take(frame.len() as int + 1) =~= line(frame));
    assert(stream.skip(frame.len() as int + 1) =~= rest);
}

proof fn lemma_first_end(frame: Seq<u8>, rest: Seq<u8>, i: int)
    requires
        0 <= i <= frame.len(),
        forall|j: int| 0 <= j < frame.len() ==> #[trigger] frame[j] != LINE_END,
    ensures
        first_end(line(frame) + rest, i) == frame.len(),
    decreases frame.len() - i,
{
    let stream = line(frame) + rest;
    if i < frame.len() {
        assert(stream[i] == frame[i]);
        lemma_first_end(frame, rest, i + 1);
    } else {
        assert(stream[i] == LINE_END);
    }
}

} // verus!
