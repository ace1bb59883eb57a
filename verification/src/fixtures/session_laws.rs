//! What holds of the fixtures' conversations and sessions, however they go.

use crate::fixtures::conversations::{
    client_answers, client_end, client_leaves, client_lines, entries_after, failure_at, heard,
    responses, server_answers, server_end, server_leaves, ClientCase, ServerCase,
};
use crate::fixtures::handlers::{FixtureClient, FixtureParse, FixtureServer};
use crate::fixtures::pointer::{
    event_of, frame_area, framed_log, grown, height_of, opened, turned, width_of, FuzzEv, MouseCase,
    MouseDesk, RenderCase,
};
use crate::fixtures::wire::Message;
use crate::fixtures::{
    client_messages, failure, rendered, server_messages, CtxState, FixtureId,
};
use crate::protocol::{ClientStep, Exchange, ParseStep, ServerStep};
use crate::screen::LogWidget;
use crate::text::{decimal_text, texts};
use vstd::prelude::*;
use vstd::string::*;

verus! {

/// `echo` and `ctx` send their arguments as they are, and `ping` sends nothing of
/// them. What a server then answers, the client prints, and it sends nothing more
/// than an empty frame.
pub proof fn law_fixture_steps_pass_text(
    parse: FixtureParse,
    args: Seq<char>,
    parsed: Result<Message, Seq<char>>,
    client: FixtureClient,
    text: Seq<char>,
    session: Seq<Exchange>,
    given: Result<Message, Seq<char>>,
)
    requires
        parse.parses(args, parsed),
        client.gives(Message::EchoResult(text), session, given),
        client.step == 1,
        client.fixture == FixtureId::Echo || client.fixture == FixtureId::Ping,
    ensures
        parse.fixture == FixtureId::Ping ==> parsed == Ok::<Message, Seq<char>>(Message::Null),
        parse.fixture == FixtureId::Echo ==> parsed == Ok::<Message, Seq<char>>(
            Message::EchoArgs(args),
        ),
        parse.fixture == FixtureId::Ctx ==> parsed == Ok::<Message, Seq<char>>(
            Message::CtxRequest(args),
        ),
        parsed is Err ==> parse.fixture == FixtureId::Multi,
        session == seq![Exchange::Printed(text)],
        given == Ok::<Message, Seq<char>>(Message::Null),
{
}

/// The server of `ctx` keeps every text behind those that it has, in order, and
/// tells how many there are; no other server keeps anything.
pub proof fn law_server_keeps_entries(
    step: FixtureServer,
    data: Message,
    before: CtxState,
    after: CtxState,
    r: Result<Message, Seq<char>>,
    text: Seq<char>,
)
    requires
        step.runs(data, &before, &after, r),
        before.entries@.len() < u32::MAX,
    ensures
        step.fixture != FixtureId::Ctx ==> texts(after.entries@) == texts(before.entries@),
        step.fixture == FixtureId::Ctx && step.step == 0 && data == Message::CtxRequest(text) ==> {
            &&& texts(after.entries@) == texts(before.entries@).push(text)
            &&& r == Ok::<Message, Seq<char>>(
                Message::CtxResponse((before.entries@.len() + 1) as u64, text),
            )
        },
{
    assert(texts(before.entries@).len() == before.entries@.len());
}

/// A server that does not fail answers each frame that it has a step for, in order,
/// and comes to its end when all frames have come in, and not before. One that fails
/// does so on the first frame: it answers with the failure alone and leaves the rest
/// unread.
pub proof fn law_server_answers_what_comes_in(
    f: FixtureId,
    args: Seq<char>,
    seed: int,
    fed: int,
    entries: Seq<Seq<char>>,
)
    requires
        0 <= fed <= client_messages(f, args).len(),
    ensures
        ({
            let all = server_messages(f, args, seed);
            let answers = server_answers(f, args, seed, fed);
            let end = server_end(f, args, fed);
            &&& end is Ok <==> failure(f, args) is None && fed == client_messages(f, args).len()
            &&& fed == 0 ==> answers.len() == 0 && end is Err && entries_after(f, args, fed, entries)
                == entries
            &&& server_leaves(f, args, 0) == 0
            &&& failure(f, args) is None ==> {
                &&& answers.is_prefix_of(all)
                &&& fed <= all.len() ==> answers.len() == fed
                &&& fed >= all.len() ==> answers == all
                &&& server_leaves(f, args, fed) == 0
            }
            &&& failure(f, args) matches Some(error) ==> (fed >= 1 ==> {
                &&& answers == seq![Message::Failure(error)]
                &&& end == Err::<(), Seq<char>>(error)
                &&& server_leaves(f, args, fed) + 1 == fed
            })
        }),
{
    let all = server_messages(f, args, seed);
    assert(all.take(all.len() as int) =~= all);
}

/// Entries are added by `ctx` alone, one for a conversation that has begun.
pub proof fn law_conversation_adds_one_entry(
    f: FixtureId,
    args: Seq<char>,
    fed: int,
    entries: Seq<Seq<char>>,
)
    requires
        fed >= 1,
    ensures
        ({
            let after = entries_after(f, args, fed, entries);
            &&& f == FixtureId::Ctx ==> after.len() == entries.len() + 1 && after.last() == args
                && after.drop_last() == entries
            &&& f != FixtureId::Ctx ==> after == entries
        }),
{
    assert(entries.push(args).drop_last() =~= entries);
}

/// A client that is told of no failure and hears all frames ends with the last of
/// them; it ends with a failure otherwise, and with the one that came in where one
/// did. It prints a line for each frame that it takes for an answer, sends one frame
/// more than it has heard, and reads nothing behind a failure.
pub proof fn law_client_hears_what_comes_in(
    f: FixtureId,
    args: Seq<char>,
    seed: int,
    fed: int,
    err_at: Option<int>,
)
    requires
        0 <= fed <= server_messages(f, args, seed).len(),
        err_at matches Some(k) ==> 0 <= k < fed,
    ensures
        ({
            let all = server_messages(f, args, seed);
            let mine = client_messages(f, args);
            let end = client_end(f, args, seed, fed, err_at);
            let sent = client_answers(f, args, seed, fed, err_at);
            let lines = client_lines(f, args, seed, fed, err_at);
            let came = responses(f, args, seed, fed, err_at);
            let unbroken = err_at is None && fed == all.len();
            &&& end is Ok <==> unbroken
            &&& unbroken ==> end == Ok::<Message, Seq<char>>(all[all.len() - 1]) && sent == mine
                && lines == rendered(f, args, seed)
            &&& sent.is_prefix_of(mine)
            &&& lines.is_prefix_of(rendered(f, args, seed))
            &&& came.len() == fed
            &&& err_at matches Some(k) ==> {
                &&& came[k] == Message::Failure(failure_at(k))
                &&& end == Err::<Message, Seq<char>>("srvfail-"@ + decimal_text(k as nat))
                &&& sent.len() == k + 1
                &&& lines.len() == k
                &&& k + 1 + client_leaves(fed, err_at) == fed
                &&& forall|i: int| 0 <= i < fed && i != k ==> #[trigger] came[i] == all[i]
            }
            &&& err_at is None ==> {
                &&& came == all.take(fed)
                &&& lines.len() == fed
                &&& client_leaves(fed, err_at) == 0
                &&& fed < all.len() ==> sent.len() == fed + 1
            }
        }),
{
    reveal_with_fuel(crate::fixtures::cases::sends_before, 7);
    let k = heard(fed, err_at);
    assert(rendered(f, args, seed).len() == server_messages(f, args, seed).len());
    assert(client_messages(f, args).len() >= server_messages(f, args, seed).len() + 2);
}

/// No more frames are fed than there are, and as many as the case says where there
/// are so many; a failure comes only in place of a frame that is fed.
pub proof fn law_cases_feed_what_there_is(s: ServerCase, c: ClientCase)
    ensures
        ({
            let mine = client_messages(s.fixture, s.text()).len();
            let theirs = server_messages(c.fixture, c.text(), c.pre_seed as int).len();
            &&& s.feed < mine ==> s.fed() == s.feed
            &&& s.feed >= mine ==> s.fed() == mine
            &&& c.feed < theirs ==> c.fed() == c.feed
            &&& c.feed >= theirs ==> c.fed() == theirs
            &&& c.failing() is Some <==> c.err_at < c.feed && c.err_at < theirs
            &&& c.failing() matches Some(k) ==> k == c.err_at
        }),
{
}

/// A line that is added comes last and takes the view to the end of the log; the
/// lines before it stay, and nothing stays selected.
pub proof fn law_added_line_is_shown(a: MouseDesk, salt: u8, b: MouseDesk)
    requires
        turned(a, FuzzEv::AppendLine { salt }, b),
    ensures
        texts(b.state.log_lines@).drop_last() == texts(a.state.log_lines@),
        texts(b.state.log_lines@).last() == "new "@ + decimal_text(salt as nat),
        b.state.scroll_up == 0,
        b.state.selection is None,
        b.mouse == a.mouse,
        texts(b.vp.wrapped@) == texts(b.state.log_lines@),
        b.vp.viewport_start + b.vp.log_inner.height >= b.vp.total_wrapped,
        b.w == a.w && b.h == a.h,
{
    let lines = texts(a.state.log_lines@);
    assert(lines.push(texts(b.state.log_lines@).last()).drop_last() =~= lines);
}

/// A change of size keeps the lines, the selection and what the mouse does, and
/// scrolls only where the view would go beyond the first line.
pub proof fn law_resized_log_keeps_its_lines(a: MouseDesk, w: u8, h: u8, b: MouseDesk)
    requires
        turned(a, FuzzEv::Resize { w, h }, b),
    ensures
        texts(b.state.log_lines@) == texts(a.state.log_lines@),
        b.state.selection == a.state.selection,
        b.mouse == a.mouse,
        b.w == width_of(w),
        b.h == height_of(h),
        b.state.scroll_up <= a.state.scroll_up,
        b.state.scroll_up < a.state.scroll_up ==> b.vp.viewport_start == 0,
        b.vp.log_area.width == b.w,
        texts(b.vp.wrapped@) == texts(a.state.log_lines@),
{
}

/// What the mouse does leaves the lines and the size of the screen alone, and a mere
/// movement changes nothing that is selected or scrolled.
pub proof fn law_mouse_session_keeps_lines(a: MouseDesk, ev: FuzzEv, b: MouseDesk)
    requires
        turned(a, ev, b),
        event_of(ev, a.w, a.h) is Some,
    ensures
        texts(b.state.log_lines@) == texts(a.state.log_lines@),
        b.w == a.w,
        b.h == a.h,
        b.vp == a.vp,
        ev is Moved ==> b.state.selection == a.state.selection && b.state.scroll_up
            == a.state.scroll_up,
{
}

/// A session begins with nothing selected and no button held, at the scroll position
/// that it is to have where the log goes up so far; it shows as many lines as it is
/// given, and those of two characters or more as they are.
pub proof fn law_session_begins(c: MouseCase, d: MouseDesk, i: int)
    requires
        opened(c, d),
        0 <= i < c.lines@.len(),
    ensures
        d.state.selection is None,
        !d.mouse.selecting,
        !d.mouse.scrollbar_drag,
        d.mouse.click_count == 0,
        d.state.log_lines@.len() == c.lines@.len(),
        c.lines@[i]@.len() >= 2 ==> texts(d.state.log_lines@)[i] == c.lines@[i]@,
        d.w == width_of(c.term_w),
        d.h == height_of(c.term_h),
        d.state.scroll_up <= c.scroll0,
        d.state.scroll_up < c.scroll0 ==> d.vp.viewport_start == 0,
{
    assert(texts(d.state.log_lines@).len() == d.state.log_lines@.len());
    assert(texts(c.lines@)[i] == c.lines@[i]@);
}

/// Short lines are grown from ten texts by turns: ten lines on, the same text stands,
/// as long as their numbers fit in a byte.
pub proof fn law_short_lines_take_turns(lines: Seq<Seq<char>>, i: int)
    requires
        0 <= i < lines.len() - 10,
        i + 10 < 256,
        lines[i].len() < 2,
        lines[i + 10] == lines[i],
    ensures
        grown(lines)[i + 10] == grown(lines)[i],
{
    crate::fixtures::laws::law_arguments_are_made(FixtureId::Echo, lines[i], i as u8, false);
}

/// A frame is drawn where the case says, within 80 columns and 40 rows, with its
/// selection where it has one.
pub proof fn law_made_up_frames_are_sensible(c: RenderCase, log: LogWidget)
    requires
        framed_log(c, log),
    ensures
        c.area_x < 80 ==> frame_area(c).x == c.area_x,
        c.area_y < 40 ==> frame_area(c).y == c.area_y,
        c.area_w < 80 ==> frame_area(c).width == c.area_w,
        c.area_h < 40 ==> frame_area(c).height == c.area_h,
        frame_area(c).x < 80 && frame_area(c).width < 80,
        frame_area(c).y < 40 && frame_area(c).height < 40,
        log.lines@.len() == c.lines@.len(),
        log.selection is Some <==> c.has_sel,
        log.selection matches Some(sel) ==> sel.0 == c.sr && sel.1 == c.sc && sel.2 == c.er && sel.3
            == c.ec,
        log.viewport_start == c.viewport_start,
        log.rect == c.rect,
        forall|i: int| 0 <= i < log.offsets@.len() ==> #[trigger] log.offsets@[i] == 0,
{
    assert(texts(log.lines@).len() == log.lines@.len());
    assert(texts(c.lines@).len() == c.lines@.len());
}

} // verus!
