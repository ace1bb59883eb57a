//! What the fixture protocols are for, in terms of their arguments and frames.

use crate::event::{MouseButton, MouseEventKind};
use crate::fixtures::cases::{arguments, sends_before};
use crate::fixtures::handlers::fixture_steps;
use crate::fixtures::pointer::{button_of, event_of, height_of, shown_area, width_of, FuzzButton, FuzzEv};
use crate::fixtures::wire::{Message, RichValue};
use crate::fixtures::{
    boom_text, byte_len, client_messages, client_of, failure, layout, parse_of, piece_lens, rendered,
    rich_choice, rich_count, rich_echo, rich_option, seeded, server_messages, server_of, sprouted,
    until_comma, FixtureId, Io,
};
use crate::text::{decimal_text, trimmed};
use vstd::prelude::*;
use vstd::string::*;

verus! {

/// What a fixture gives for its arguments: `echo` the text back, `ctx` the text
/// back with how many entries there now are, `boom` the text without the mark of a
/// failure, `multi` how many bytes the arguments had.
pub proof fn law_fixtures_answer(args: Seq<char>, entries: Seq<Seq<char>>)
    requires
        entries.len() < usize::MAX,
        entries.len() < u64::MAX,
    ensures
        ({
            let echo = server_of(FixtureId::Echo, 0, Message::EchoArgs(args), entries);
            let ctx = server_of(FixtureId::Ctx, 0, Message::CtxRequest(args), entries);
            let boom = server_of(FixtureId::Boom, 0, Message::BoomArgs(0, args), entries);
            let burst = server_of(FixtureId::Boom, 0, Message::BoomArgs(1, args), entries);
            let ping = server_of(FixtureId::Ping, 0, Message::Null, entries);
            &&& echo.1 == Ok::<Message, Seq<char>>(Message::EchoResult(args)) && echo.0 == entries
            &&& ctx.1 == Ok::<Message, Seq<char>>(
                Message::CtxResponse((entries.len() + 1) as u64, args),
            )
            &&& ctx.0 == entries.push(args)
            &&& boom.1 == Ok::<Message, Seq<char>>(Message::BoomResult(args)) && boom.0 == entries
            &&& burst.1 == Err::<Message, Seq<char>>("boom: "@ + args) && burst.0 == entries
            &&& ping.1 == Ok::<Message, Seq<char>>(Message::EchoResult("pong"@)) && ping.0 == entries
        }),
{
}

/// The answers of `multi`: the number that it was sent, and then whether it was
/// confirmed.
pub proof fn law_multi_answers(text: Seq<char>, n: u64, ok: bool, entries: Seq<Seq<char>>)
    ensures
        server_of(FixtureId::Multi, 0, Message::Query(text, n), entries) == (
            entries,
            Ok::<Message, Seq<char>>(Message::Answer(n)),
        ),
        server_of(FixtureId::Multi, 1, Message::Confirm(true), entries).1 == Ok::<
            Message,
            Seq<char>,
        >(Message::Done("done"@)),
        server_of(FixtureId::Multi, 1, Message::Confirm(false), entries).1 == Ok::<
            Message,
            Seq<char>,
        >(Message::Done("not-done"@)),
{
}

/// What the server of a fixture sends for what its client sends is what is worked
/// out beside it, and so is what the client prints of that.
pub proof fn law_fixtures_are_worked_out(
    f: FixtureId,
    args: Seq<char>,
    entries: Seq<Seq<char>>,
    k: int,
)
    requires
        parse_of(f, args) is Ok,
        failure(f, args) is None,
        0 <= k < server_messages(f, args, entries.len() as int).len(),
        entries.len() < usize::MAX,
    ensures
        ({
            let (asked, answered) = (
                client_messages(f, args),
                server_messages(f, args, entries.len() as int),
            );
            &&& parse_of(f, args) == Ok::<Message, Seq<char>>(asked[0])
            &&& client_of(f, 0, asked[0]) == (
                None::<Seq<char>>,
                Ok::<Message, Seq<char>>(asked[0]),
            )
            &&& server_of(f, k, asked[k], entries).1 == Ok::<Message, Seq<char>>(answered[k])
            &&& client_of(f, k + 1, answered[k]) == (
                Some(rendered(f, args, entries.len() as int)[k]),
                Ok::<Message, Seq<char>>(asked[k + 1]),
            )
            &&& rendered(f, args, entries.len() as int).len() == answered.len()
        }),
{
}

/// A leading `!` makes `boom` fail with the text behind it; nothing else fails on
/// the server.
pub proof fn law_bang_makes_boom_fail(f: FixtureId, text: Seq<char>)
    ensures
        failure(FixtureId::Boom, seq!['!'] + text) == Some("boom: "@ + text),
        text.len() == 0 || text[0] != '!' ==> failure(f, text) is None && boom_text(text) == text,
        f != FixtureId::Boom ==> failure(f, text) is None,
        boom_text(seq!['!'] + text) == text,
        parse_of(FixtureId::Boom, seq!['!'] + text) == Ok::<Message, Seq<char>>(
            Message::BoomArgs(1, text),
        ),
        text.len() == 0 || text[0] != '!' ==> parse_of(FixtureId::Boom, text) == Ok::<
            Message,
            Seq<char>,
        >(Message::BoomArgs(0, text)),
{
    assert((seq!['!'] + text).drop_first() =~= text);
}

/// `multi` refuses arguments of white space alone, and sends the others without
/// the white space around them; nothing else refuses its arguments.
pub proof fn law_only_multi_refuses(f: FixtureId, args: Seq<char>)
    ensures
        trimmed(args).len() == 0 ==> parse_of(FixtureId::Multi, args) == Err::<Message, Seq<char>>(
            "empty query"@,
        ),
        trimmed(args).len() > 0 ==> parse_of(FixtureId::Multi, args) == Ok::<Message, Seq<char>>(
            Message::Query(trimmed(args), byte_len(args) as u64),
        ),
        f != FixtureId::Multi ==> parse_of(f, args) is Ok,
{
}

/// `rich` gives its arguments back as they were, whatever they begin with, and a
/// number made of how many pieces and how many bytes they have.
pub proof fn law_rich_gives_back(args: Seq<char>)
    ensures
        rich_echo(rich_option(args), rich_choice(args)) == args,
        args.len() == 0 ==> rich_choice(args) == RichValue::Empty && rich_option(args) is None,
        args.len() > 0 ==> rich_option(args) == Some(args),
        args.len() > 0 && args[0] == '|' ==> rich_choice(args) is Pair,
        args.len() > 0 && args[0] != '|' ==> rich_choice(args) == RichValue::Word(args),
        piece_lens(args, 0).len() < 1000 ==> rich_count(
            piece_lens(args, 0).len() as int,
            byte_len(args) as u64,
        ) == piece_lens(args, 0).len() + byte_len(args) as u64 % 7,
{
    reveal_strlit("");
    assert(""@ =~= Seq::<char>::empty());
}

/// The pieces of a text are what its commas leave between them: a piece without a
/// comma is counted in bytes, and the pieces behind its comma follow.
pub proof fn law_commas_make_pieces(piece: Seq<char>, rest: Seq<char>)
    requires
        forall|i: int| 0 <= i < piece.len() ==> #[trigger] piece[i] != ',',
    ensures
        piece_lens(piece, 0) == seq![byte_len(piece) as i64],
        piece_lens(piece.push(',') + rest, 0) == seq![byte_len(piece) as i64] + piece_lens(rest, 0),
{
    let n = piece.len() as int;
    lemma_until_comma(piece, 0, n);
    assert(piece.skip(0) =~= piece);
    let all = piece.push(',') + rest;
    assert forall|i: int| 0 <= i < n implies #[trigger] all[i] != ',' by {
        assert(all[i] == piece[i]);
    }
    assert(all[n] == ',');
    lemma_until_comma(all, 0, n);
    assert(all.subrange(0, n) =~= piece);
    lemma_pieces_shift(all, n + 1);
    assert(all.skip(n + 1) =~= rest);
}

proof fn lemma_until_comma(s: Seq<char>, i: int, at: int)
    requires
        0 <= i <= at <= s.len(),
        at < s.len() ==> s[at] == ',',
        forall|j: int| i <= j < at ==> #[trigger] s[j] != ',',
    ensures
        until_comma(s, i) == at,
    decreases at - i,
{
    if i < at {
        assert(s[i] != ',');
        lemma_until_comma(s, i + 1, at);
    }
}

proof fn lemma_comma_shift(s: Seq<char>, k: int, i: int)
    requires
        0 <= k <= s.len(),
        0 <= i <= s.len() - k,
    ensures
        until_comma(s, k + i) == k + until_comma(s.skip(k), i),
        i <= until_comma(s.skip(k), i) <= s.len() - k,
    decreases s.len() - k - i,
{
    if k + i < s.len() {
        assert(s.skip(k)[i] == s[k + i]);
        if s[k + i] != ',' {
            lemma_comma_shift(s, k, i + 1);
        }
    }
}

proof fn lemma_pieces_shift(s: Seq<char>, k: int)
    requires
        0 <= k <= s.len(),
    ensures
        piece_lens(s, k) == piece_lens(s.skip(k), 0),
    decreases s.len() - k,
{
    lemma_pieces_from(s, k, 0);
}

proof fn lemma_pieces_from(s: Seq<char>, k: int, i: int)
    requires
        0 <= k <= s.len(),
        0 <= i <= s.len() - k,
    ensures
        piece_lens(s, k + i) == piece_lens(s.skip(k), i),
    decreases s.len() - k - i,
{
    let t = s.skip(k);
    lemma_comma_shift(s, k, i);
    let e = until_comma(t, i);
    if e < t.len() {
        lemma_pieces_from(s, k, e + 1);
        assert(s.subrange(k + i, k + e) =~= t.subrange(i, e));
    } else {
        assert(s.skip(k + i) =~= t.skip(i));
    }
}

/// A client sends as often and receives as often as there are frames for it, in
/// the order of the steps: it has sent one frame more than it has received when it
/// waits for the next.
pub proof fn law_client_and_server_take_turns(f: FixtureId, args: Seq<char>, seed: int, k: int)
    requires
        0 <= k < server_messages(f, args, seed).len(),
    ensures
        layout(f).len() == client_messages(f, args).len() + server_messages(f, args, seed).len(),
        sends_before(layout(f), k, 0, 0) == k + 1,
        forall|i: int|
            0 <= i < fixture_steps(f).len() ==> (#[trigger] fixture_steps(f)[i] is Server
                <==> layout(f)[i] == Io::R),
{
    reveal_with_fuel(sends_before, 7);
}

/// Arguments of two characters or more stay as they are; in place of shorter ones
/// one of ten texts stands, by turns. Only `boom` can be made to fail, by a mark in
/// front of its arguments.
pub proof fn law_arguments_are_made(f: FixtureId, raw: Seq<char>, salt: u8, fail: bool)
    ensures
        raw.len() >= 2 ==> sprouted(raw, salt) == raw,
        raw.len() < 2 && salt < 246 ==> sprouted(raw, salt) == sprouted(raw, (salt + 10) as u8),
        f == FixtureId::Boom && fail ==> arguments(f, raw, salt, fail) == seq!['!'] + sprouted(
            raw,
            salt,
        ),
        f != FixtureId::Boom || !fail ==> arguments(f, raw, salt, fail) == sprouted(raw, salt),
{
    reveal_strlit("!");
    assert("!"@ =~= seq!['!']);
}

/// The entries that a server begins with are numbered from zero.
pub proof fn law_entries_are_numbered(n: nat, i: int)
    requires
        0 <= i < n,
    ensures
        seeded(n).len() == n,
        seeded(n)[i] == "pre"@ + decimal_text(i as nat),
{
}

/// A made-up mouse event is what it says it is, and on the screen; lines that are
/// added and changes of size are none.
pub proof fn law_made_up_events_are_on_screen(ev: FuzzEv, w: u16, h: u16)
    requires
        w > 0,
        h > 0,
    ensures
        event_of(ev, w, h) is None <==> ev is AppendLine || ev is Resize,
        event_of(ev, w, h) matches Some(m) ==> {
            &&& m.column < w && m.row < h
            &&& ev is Down <==> m.kind is Down
            &&& ev is Up <==> m.kind is Up
            &&& ev is Drag <==> m.kind is Drag
            &&& ev is ScrollUp <==> m.kind is ScrollUp
            &&& ev is ScrollDown <==> m.kind is ScrollDown
            &&& ev is Moved <==> m.kind is Moved
            &&& !m.modifiers.alt && !m.modifiers.shift
        },
        ev matches FuzzEv::Down { button, col, row, ctrl } ==> event_of(ev, w, h) matches Some(m)
            && m.kind == MouseEventKind::Down(button_of(button)) && m.modifiers.control == ctrl && (
        col < w ==> m.column == col) && (row < h ==> m.row == row),
        button_of(FuzzButton::Left) == MouseButton::Left,
        button_of(FuzzButton::Right) == MouseButton::Right,
        button_of(FuzzButton::Middle) == MouseButton::Middle,
{
    if let FuzzEv::Down { col, row, .. } = ev {
        lemma_small_stays(col, w);
        lemma_small_stays(row, h);
    }
}

proof fn lemma_small_stays(n: u8, size: u16)
    requires
        size > 0,
    ensures
        n < size ==> n as u16 % size == n,
{
    if n < size {
        let (a, b) = (n as int, size as int);
        assert(a % b == a) by (nonlinear_arith)
            requires
                0 <= a < b,
        ;
    }
}

/// A made-up screen has from 20 to 119 columns and from 8 to 49 rows, and its log
/// leaves three rows below it.
pub proof fn law_made_up_screens_are_sensible(w: u8, h: u8)
    ensures
        20 <= width_of(w) < 120,
        8 <= height_of(h) < 50,
        w < 100 ==> width_of(w) == 20 + w,
        h < 42 ==> height_of(h) == 8 + h,
        shown_area(width_of(w), height_of(h)).width == width_of(w),
        shown_area(width_of(w), height_of(h)).height + 3 == height_of(h),
        shown_area(width_of(w), height_of(h)).x == 0,
        shown_area(width_of(w), height_of(h)).y == 0,
{
}

} // verus!
