//! The interactive shell: what keys do, and what becomes of a command.

pub mod laws;

use crate::event::{Event, KeyCode, KeyEvent, KeyEventKind};
use crate::input::{
    confirm_all, edit_key, edited, esc_unconfirmed, first_chars, modifier_bits, shown_next,
    suggested, tab_complete, CompletionState, Input,
};
use crate::protocol::{Kit, Protocol};
use crate::selection::{greatest, least, Selection};
use crate::server::{find_protocol, lines_outcome, named};
use crate::text::{chars_of, joined, text_range, texts, trim_text, trimmed};
use crate::tui::{
    handle_mouse_event, has_room, interaction, mouse_handled, ClipboardRequest, MouseState, TuiState,
    ViewportCache,
};
use vstd::prelude::*;
use vstd::string::*;

verus! {

/// What the program is to do after a key.
pub enum Action {
    /// Go on.
    Continue,
    /// Leave the shell.
    Exit,
    /// Run the protocol at this index with these arguments.
    Run(usize, String),
}

/// An [`Action`] with its text.
pub enum Next {
    Continue,
    Exit,
    Run(int, Seq<char>),
}

impl View for Action {
    type V = Next;

    open spec fn view(&self) -> Next {
        match self {
            Action::Continue => Next::Continue,
            Action::Exit => Next::Exit,
            Action::Run(k, args) => Next::Run(*k as int, args@),
        }
    }
}

/// The part of the shell's state that keys change.
#[verifier::ext_equal]
pub struct Shell {
    pub log: Seq<Seq<char>>,
    pub scroll_up: int,
    pub selection: Option<Selection>,
    pub history: Seq<Seq<char>>,
    pub recalled: Option<usize>,
    pub line: Seq<char>,
    pub cursor: int,
    pub confirmed: int,
    pub index: Option<usize>,
}

/// The state of the shell.
pub open spec fn shell(state: TuiState, input: Input, comp: CompletionState) -> Shell {
    Shell {
        log: texts(state.log_lines@),
        scroll_up: state.scroll_up as int,
        selection: state.selection,
        history: texts(state.history@),
        recalled: state.history_idx,
        line: input.value@,
        cursor: input.cursor as int,
        confirmed: comp.confirmed as int,
        index: comp.index,
    }
}

/// The cursor is in the line, and what is recalled is in the history.
pub open spec fn shell_wf(state: TuiState, input: Input, comp: CompletionState) -> bool {
    &&& input.wf()
    &&& state.history_idx matches Some(i) ==> i < state.history@.len()
    &&& comp.index != Some(usize::MAX)
}

/// The shell with its whole line confirmed.
pub open spec fn all_confirmed(s: Shell) -> Shell {
    Shell { confirmed: s.line.len() as int, index: None, ..s }
}

/// The shell with `line` as its line, all of it confirmed, and the cursor at
/// its end.
pub open spec fn with_line(s: Shell, line: Seq<char>) -> Shell {
    Shell {
        line,
        cursor: line.len() as int,
        confirmed: line.len() as int,
        index: None,
        ..s
    }
}

/// `name` with as many spaces after it as make twelve characters.
pub open spec fn padded(name: Seq<char>) -> Seq<char> {
    name + Seq::new(
        if name.len() < 12 {
            (12 - name.len()) as nat
        } else {
            0
        },
        |i: int| ' ',
    )
}

/// The line of help for each of the first `n` commands.
pub open spec fn help_lines<K: Kit>(protocols: Seq<Protocol<K>>, n: int) -> Seq<Seq<char>>
    decreases n,
{
    if n <= 0 {
        Seq::empty()
    } else {
        help_lines(protocols, n - 1).push(
            "  "@ + padded(protocols[n - 1].name@) + " "@ + protocols[n - 1].help@,
        )
    }
}

/// The position of the first space of `s` from `i` on.
pub open spec fn first_space(s: Seq<char>, i: int) -> Option<int>
    decreases s.len() - i,
{
    if i < 0 || i >= s.len() {
        None
    } else if s[i] == ' ' {
        Some(i)
    } else {
        first_space(s, i + 1)
    }
}

/// The name of the command in a line: what is before the first space.
pub open spec fn command_name(line: Seq<char>) -> Seq<char> {
    match first_space(line, 0) {
        Some(i) => line.take(i),
        None => line,
    }
}

/// The arguments in a line: what is after the first space.
pub open spec fn command_args(line: Seq<char>) -> Seq<char> {
    match first_space(line, 0) {
        Some(i) => line.skip(i + 1),
        None => ""@,
    }
}

/// The shell after a line was entered, and what is to be done.
pub open spec fn entered<K: Kit>(s: Shell, protocols: Seq<Protocol<K>>) -> (Shell, Next) {
    let line = trimmed(s.line);
    let emptied = Shell { recalled: None, ..with_line(s, ""@) };
    if line.len() == 0 {
        (emptied, Next::Continue)
    } else if line == "exit"@ || line == "quit"@ {
        (emptied, Next::Exit)
    } else if line == "help"@ {
        (
            Shell {
                log: s.log + seq!["> help"@, "COMMANDS:"@] + help_lines(
                    protocols,
                    protocols.len() as int,
                ),
                scroll_up: 0,
                selection: None,
                ..emptied
            },
            Next::Continue,
        )
    } else {
        let noted = Shell {
            log: s.log.push("> "@ + line),
            history: s.history.push(s.line),
            scroll_up: 0,
            selection: None,
            ..emptied
        };
        match named(protocols, command_name(line), 0) {
            Some(k) => (noted, Next::Run(k, command_args(line))),
            None => (
                Shell {
                    log: noted.log.push("Unknown: '"@ + command_name(line) + "'"@),
                    ..noted
                },
                Next::Continue,
            ),
        }
    }
}

/// The shell after an older line was recalled.
pub open spec fn recalled_older(s: Shell) -> Shell {
    if s.history.len() == 0 {
        s
    } else {
        let i = match s.recalled {
            Some(i) => greatest(i - 1, 0),
            None => s.history.len() - 1,
        };
        Shell { recalled: Some(i as usize), ..with_line(s, s.history[i]) }
    }
}

/// The shell after a newer line was recalled; past the newest the line is
/// empty.
pub open spec fn recalled_newer(s: Shell) -> Shell {
    match s.recalled {
        Some(i) if i + 1 < s.history.len() => Shell {
            recalled: Some((i + 1) as usize),
            ..with_line(s, s.history[i + 1])
        },
        _ => Shell { recalled: None, line: ""@, cursor: 0, ..s },
    }
}

/// The shell after a key other than Tab was pressed, and what is to be done.
pub open spec fn after_key<K: Kit>(s: Shell, key: KeyEvent, protocols: Seq<Protocol<K>>) -> (
    Shell,
    Next,
) {
    let sure = all_confirmed(s);
    let control = key.modifiers.control;
    match key.code {
        KeyCode::PageUp => (
            Shell { scroll_up: least(s.scroll_up + 5, u16::MAX as int), ..sure },
            Next::Continue,
        ),
        KeyCode::PageDown => (
            Shell { scroll_up: greatest(s.scroll_up - 5, 0), ..sure },
            Next::Continue,
        ),
        KeyCode::Home => (Shell { scroll_up: u16::MAX as int, ..sure }, Next::Continue),
        KeyCode::End => (Shell { scroll_up: 0, ..sure }, Next::Continue),
        KeyCode::Up => if control {
            (recalled_older(sure), Next::Continue)
        } else {
            (
                Shell { scroll_up: least(s.scroll_up + 1, u16::MAX as int), ..sure },
                Next::Continue,
            )
        },
        KeyCode::Down => if control {
            (recalled_newer(sure), Next::Continue)
        } else {
            (Shell { scroll_up: greatest(s.scroll_up - 1, 0), ..sure }, Next::Continue)
        },
        KeyCode::Esc => (
            with_line(s, first_chars(s.line, s.confirmed)),
            Next::Continue,
        ),
        KeyCode::Enter => entered(sure, protocols),
        _ => if key.code == KeyCode::Char('d') && control && s.line.len() == 0 {
            (sure, Next::Exit)
        } else if key.code == KeyCode::Char('c') && control {
            (Shell { recalled: None, ..with_line(s, ""@) }, Next::Continue)
        } else {
            let (line, cursor) = edited(
                s.line,
                s.cursor as usize,
                edit_key(key.code),
                modifier_bits(key.modifiers),
            );
            (
                Shell {
                    line,
                    cursor: cursor as int,
                    confirmed: line.len() as int,
                    index: None,
                    ..s
                },
                Next::Continue,
            )
        },
    }
}

/// Pads a name.
fn pad(name: &str) -> (s: String)
    ensures
        s@ == padded(name@),
{
    let mut n: usize = chars_of(name).len();
    let mut s = name.to_owned();
    assert(s@ =~= name@ + Seq::new(0, |i: int| ' '));
    let ghost mut added: nat = 0;
    while n < 12
        invariant
            n == name@.len() + added,
            added > 0 ==> n <= 12,
            s@ == name@ + Seq::new(added, |i: int| ' '),
        decreases 12 - n,
    {
        s.push(' ');
        assert(s@ =~= name@ + Seq::new(added + 1, |i: int| ' '));
        proof {
            added = added + 1;
        }
        n += 1;
    }
    s
}

/// Appends the line of help for each command.
fn push_help<K: Kit>(log: &mut Vec<String>, protocols: &Vec<Protocol<K>>)
    ensures
        texts(final(log)@) == texts(old(log)@) + help_lines(protocols@, protocols@.len() as int),
{
    let mut i: usize = 0;
    assert(texts(log@) =~= texts(old(log)@) + help_lines(protocols@, 0));
    while i < protocols.len()
        invariant
            i <= protocols@.len(),
            texts(log@) == texts(old(log)@) + help_lines(protocols@, i as int),
        decreases protocols@.len() - i,
    {
        let ghost so_far = log@;
        let mut line = "  ".to_owned();
        line.append(pad(protocols[i].name).as_str());
        line.append(" ");
        line.append(protocols[i].help);
        log.push(line);
        assert(texts(log@) =~= texts(so_far).push(
            "  "@ + padded(protocols@[i as int].name@) + " "@ + protocols@[i as int].help@,
        ));
        assert(texts(log@) =~= texts(old(log)@) + help_lines(protocols@, i + 1));
        i += 1;
    }
}

/// Splits a line into the name of a command and its arguments.
fn split_command(line: &str) -> (r: (String, String))
    ensures
        r.0@ == command_name(line@),
        r.1@ == command_args(line@),
{
    let chars = chars_of(line);
    let mut i: usize = 0;
    while i < chars.len()
        invariant
            i <= chars@.len(),
            chars@ == line@,
            first_space(line@, 0) == first_space(line@, i as int),
        decreases chars@.len() - i,
    {
        if chars[i] == ' ' {
            let r = (text_range(&chars, 0, i), text_range(&chars, i + 1, chars.len()));
            assert(r.0@ =~= command_name(line@));
            assert(r.1@ =~= command_args(line@));
            return r;
        }
        i += 1;
    }
    (line.to_owned(), "".to_owned())
}

/// Handles the line that was entered.
#[verifier::rlimit(30)]
fn enter<K: Kit>(
    state: &mut TuiState,
    input: &mut Input,
    comp: &mut CompletionState,
    protocols: &Vec<Protocol<K>>,
) -> (action: Action)
    requires
        shell_wf(*old(state), *old(input), *old(comp)),
    ensures
        (shell(*final(state), *final(input), *final(comp)), action@) == entered(
            shell(*old(state), *old(input), *old(comp)),
            protocols@,
        ),
        shell_wf(*final(state), *final(input), *final(comp)),
        final(state).selection_rect == old(state).selection_rect,
        action matches Action::Run(k, _) ==> k < protocols@.len(),
{
    let ghost s = shell(*state, *input, *comp);
    let line = input.value.clone();
    input.reset();
    confirm_all(input, comp);
    state.history_idx = None;
    proof {
        reveal_strlit("");
    }
    let trimmed_line = trim_text(line.as_str());
    let command = trimmed_line.as_str();
    if command.is_empty() {
        return Action::Continue;
    }
    if *command == *"exit" || *command == *"quit" {
        return Action::Exit;
    }
    state.scroll_up = 0;
    state.selection = None;
    let ghost log = texts(state.log_lines@);
    if *command == *"help" {
        state.log_lines.push("> help".to_owned());
        state.log_lines.push("COMMANDS:".to_owned());
        assert(texts(state.log_lines@) =~= log + seq!["> help"@, "COMMANDS:"@]);
        push_help(&mut state.log_lines, protocols);
        return Action::Continue;
    }
    let ghost history = texts(state.history@);
    state.history.push(line);
    assert(texts(state.history@) =~= history.push(s.line));
    state.log_lines.push(joined("> ", command));
    assert(texts(state.log_lines@) =~= log.push("> "@ + command@));
    let (name, args) = split_command(command);
    match find_protocol(protocols, name.as_str()) {
        Some(k) => Action::Run(k, args),
        None => {
            let ghost noted = texts(state.log_lines@);
            let mut unknown = joined("Unknown: '", name.as_str());
            unknown.append("'");
            state.log_lines.push(unknown);
            assert(texts(state.log_lines@) =~= noted.push("Unknown: '"@ + name@ + "'"@));
            Action::Continue
        },
    }
}

/// Recalls a line of the history.
fn recall(state: &mut TuiState, input: &mut Input, comp: &mut CompletionState, i: usize)
    requires
        shell_wf(*old(state), *old(input), *old(comp)),
        i < old(state).history@.len(),
    ensures
        shell(*final(state), *final(input), *final(comp)) == (Shell {
            recalled: Some(i),
            ..with_line(
                shell(*old(state), *old(input), *old(comp)),
                texts(old(state).history@)[i as int],
            )
        }),
        shell_wf(*final(state), *final(input), *final(comp)),
        final(state).selection_rect == old(state).selection_rect,
{
    state.history_idx = Some(i);
    *input = Input::new(state.history[i].clone());
    confirm_all(input, comp);
}

/// A character is typed: no modifier key is held but Shift.
pub open spec fn typed_in(key: KeyEvent) -> bool {
    let m = key.modifiers;
    key.code is Char && !m.control && !m.alt && !m.super_key && !m.hyper && !m.meta
}

/// No modifier key is held.
pub open spec fn plain(key: KeyEvent) -> bool {
    let m = key.modifiers;
    !m.shift && !m.control && !m.alt && !m.super_key && !m.hyper && !m.meta
}

/// What a key does that was pressed.
pub open spec fn key_handled<K: Kit>(
    key: KeyEvent,
    state: TuiState,
    input: Input,
    comp: CompletionState,
    protocols: Seq<Protocol<K>>,
    state_after: TuiState,
    input_after: Input,
    comp_after: CompletionState,
    next: Next,
) -> bool {
    &&& if key.code == KeyCode::Tab {
        tabbed(state, input, comp, protocols, state_after, input_after, comp_after) && next
            == Next::Continue
    } else {
        (shell(state_after, input_after, comp_after), next) == after_key(
            shell(state, input, comp),
            key,
            protocols,
        )
    }
    &&& state_after.selection_rect == state.selection_rect
}

/// Handles a key that was pressed. What Tab suggests of a command's arguments is
/// up to the command's completer.
#[verifier::rlimit(40)]
pub fn handle_key<K: Kit>(
    key: KeyEvent,
    state: &mut TuiState,
    input: &mut Input,
    comp: &mut CompletionState,
    protocols: &Vec<Protocol<K>>,
) -> (action: Action)
    requires
        shell_wf(*old(state), *old(input), *old(comp)),
    ensures
        shell_wf(*final(state), *final(input), *final(comp)),
        key_handled(
            key,
            *old(state),
            *old(input),
            *old(comp),
            protocols@,
            *final(state),
            *final(input),
            *final(comp),
            action@,
        ),
        action matches Action::Run(k, _) ==> k < protocols@.len(),
        typed_in(key) ==> final(input).value@ == old(input).value@.insert(
            old(input).cursor as int,
            key.code->Char_0,
        ) && final(input).cursor == old(input).cursor + 1,
        key.code == KeyCode::Backspace && plain(key) && old(input).cursor > 0
            ==> final(input).value@ == old(input).value@.remove(old(input).cursor - 1)
            && final(input).cursor == old(input).cursor - 1,
{
    match key.code {
        KeyCode::Tab => {
            tab_complete(input, comp, protocols);
            return Action::Continue;
        },
        KeyCode::Esc => {
            esc_unconfirmed(input, comp);
            return Action::Continue;
        },
        _ => {
            confirm_all(input, comp);
        },
    }
    proof {
        reveal_strlit("");
    }
    let control = key.modifiers.control;
    match key.code {
        KeyCode::PageUp => {
            state.scroll_up = state.scroll_up.saturating_add(5);
        },
        KeyCode::PageDown => {
            state.scroll_up = state.scroll_up.saturating_sub(5);
        },
        KeyCode::Home => {
            state.scroll_up = u16::MAX;
        },
        KeyCode::End => {
            state.scroll_up = 0;
        },
        KeyCode::Up => {
            if !control {
                state.scroll_up = state.scroll_up.saturating_add(1);
            } else if state.history.len() > 0 {
                let i = match state.history_idx {
                    Some(i) => i.saturating_sub(1),
                    None => state.history.len() - 1,
                };
                recall(state, input, comp, i);
            }
        },
        KeyCode::Down => {
            if !control {
                state.scroll_up = state.scroll_up.saturating_sub(1);
            } else {
                let newer = match state.history_idx {
                    Some(i) => if i < state.history.len() - 1 {
                        Some(i + 1)
                    } else {
                        None
                    },
                    None => None,
                };
                match newer {
                    Some(i) => {
                        recall(state, input, comp, i);
                    },
                    None => {
                        state.history_idx = None;
                        input.reset();
                    },
                }
            }
        },
        KeyCode::Enter => {
            return enter(state, input, comp, protocols);
        },
        _ => {
            if key.code == KeyCode::Char('d') && control && input.value.as_str().is_empty() {
                return Action::Exit;
            }
            if key.code == KeyCode::Char('c') && control {
                input.reset();
                state.history_idx = None;
            } else {
                input.handle_key(key.code, key.modifiers);
            }
            confirm_all(input, comp);
        },
    }
    Action::Continue
}

/// The shell after Tab: it shows the next suggestion for what is confirmed, and
/// nothing else changes.
pub open spec fn tabbed<K: Kit>(
    state: TuiState,
    input: Input,
    comp: CompletionState,
    protocols: Seq<Protocol<K>>,
    state_after: TuiState,
    input_after: Input,
    comp_after: CompletionState,
) -> bool {
    &&& state_after == state
    &&& exists|options: Seq<Seq<char>>| #[trigger]
        suggested(protocols, first_chars(input.value@, comp.confirmed as int), options)
            && shown_next(input, comp, options, input_after, comp_after)
}

/// An event that the shell itself handles: one that nothing around it swallowed,
/// and that is a mouse event or a key that is pressed.
pub open spec fn handled_here(ev: Event, swallowed: bool) -> bool {
    !swallowed && match ev {
        Event::Key(key) => key.kind == KeyEventKind::Press,
        Event::Mouse(_) => true,
        _ => false,
    }
}

/// What an event does, where `swallowed` says whether the program around the shell
/// has consumed it: nothing then, and nothing where the shell has no use for it.
pub open spec fn event_handled<K: Kit>(
    ev: Event,
    swallowed: bool,
    state: TuiState,
    input: Input,
    comp: CompletionState,
    mouse: MouseState,
    vp: ViewportCache,
    protocols: Seq<Protocol<K>>,
    state_after: TuiState,
    input_after: Input,
    comp_after: CompletionState,
    mouse_after: MouseState,
    r: (Action, ClipboardRequest),
) -> bool {
    if !handled_here(ev, swallowed) {
        &&& state_after == state
        &&& input_after == input
        &&& comp_after == comp
        &&& mouse_after == mouse
        &&& r.0 == Action::Continue
        &&& r.1 == ClipboardRequest::Nothing
    } else {
        match ev {
            Event::Key(key) => {
                &&& key_handled(
                    key,
                    state,
                    input,
                    comp,
                    protocols,
                    state_after,
                    input_after,
                    comp_after,
                    r.0@,
                )
                &&& mouse_after == mouse
                &&& r.1 == ClipboardRequest::Nothing
            },
            Event::Mouse(m) => {
                &&& mouse_handled(m, state, mouse, vp, state_after, mouse_after, r.1@)
                &&& input_after == input
                &&& comp_after == comp
                &&& r.0 == Action::Continue
            },
            _ => true,
        }
    }
}

/// The positions and counters that a mouse event leads to fit their types.
pub open spec fn event_fits(
    ev: Event,
    state: TuiState,
    mouse: MouseState,
    vp: ViewportCache,
) -> bool {
    ev matches Event::Mouse(m) ==> vp.wf() && mouse.wf() && has_room(
        interaction(state, mouse),
        vp,
        m,
    )
}

/// Handles an event, where `swallowed` says whether the program around the shell
/// has consumed it. Says what is to be done, and what is asked of the clipboard.
pub fn handle_event<K: Kit>(
    ev: Event,
    swallowed: bool,
    state: &mut TuiState,
    input: &mut Input,
    comp: &mut CompletionState,
    mouse: &mut MouseState,
    vp: &ViewportCache,
    protocols: &Vec<Protocol<K>>,
) -> (r: (Action, ClipboardRequest))
    requires
        shell_wf(*old(state), *old(input), *old(comp)),
        !swallowed ==> event_fits(ev, *old(state), *old(mouse), *vp),
    ensures
        event_handled(
            ev,
            swallowed,
            *old(state),
            *old(input),
            *old(comp),
            *old(mouse),
            *vp,
            protocols@,
            *final(state),
            *final(input),
            *final(comp),
            *final(mouse),
            r,
        ),
        shell_wf(*final(state), *final(input), *final(comp)),
        old(mouse).wf() ==> final(mouse).wf(),
        r.0 matches Action::Run(k, _) ==> k < protocols@.len(),
{
    if swallowed {
        return (Action::Continue, ClipboardRequest::Nothing);
    }
    match ev {
        Event::Key(key) => {
            if key.kind == KeyEventKind::Press {
                let action = handle_key(key, state, input, comp, protocols);
                (action, ClipboardRequest::Nothing)
            } else {
                (Action::Continue, ClipboardRequest::Nothing)
            }
        },
        Event::Mouse(m) => {
            let clip = handle_mouse_event(m, state, mouse, vp);
            (Action::Continue, clip)
        },
        _ => (Action::Continue, ClipboardRequest::Nothing),
    }
}

/// A hook of the program around the shell, which is asked about every event before
/// the shell handles it.
pub trait EventHook: Sized {
    /// Whether the hook may answer `swallowed` to an event, and be `after` then.
    open spec fn hears(&self, ev: Event, after: Self, swallowed: bool) -> bool {
        true
    }

    /// Says whether the event is swallowed: the shell then does nothing with it.
    fn on_event(&mut self, ev: &Event) -> (swallowed: bool)
        ensures
            old(self).hears(*ev, *final(self), swallowed),
    ;
}

/// The hook that swallows nothing.
pub struct NoHook;

impl EventHook for NoHook {
    open spec fn hears(&self, ev: Event, after: NoHook, swallowed: bool) -> bool {
        !swallowed && after == *self
    }

    fn on_event(&mut self, ev: &Event) -> (swallowed: bool) {
        false
    }
}

/// Asks the hook about an event, once, and then handles the event as
/// [`handle_event`] does, where the hook lets it pass.
pub fn take_event<K: Kit, H: EventHook>(
    ev: Event,
    hook: &mut H,
    state: &mut TuiState,
    input: &mut Input,
    comp: &mut CompletionState,
    mouse: &mut MouseState,
    vp: &ViewportCache,
    protocols: &Vec<Protocol<K>>,
) -> (r: (Action, ClipboardRequest))
    requires
        shell_wf(*old(state), *old(input), *old(comp)),
        forall|after: H|
            #[trigger]
            old(hook).hears(ev, after, false) ==> event_fits(ev, *old(state), *old(mouse), *vp),
    ensures
        exists|swallowed: bool| #[trigger]
            old(hook).hears(ev, *final(hook), swallowed) && event_handled(
                ev,
                swallowed,
                *old(state),
                *old(input),
                *old(comp),
                *old(mouse),
                *vp,
                protocols@,
                *final(state),
                *final(input),
                *final(comp),
                *final(mouse),
                r,
            ),
        shell_wf(*final(state), *final(input), *final(comp)),
        old(mouse).wf() ==> final(mouse).wf(),
        r.0 matches Action::Run(k, _) ==> k < protocols@.len(),
{
    let swallowed = hook.on_event(&ev);
    handle_event(ev, swallowed, state, input, comp, mouse, vp, protocols)
}

/// The log after a command has ended with `r`: its lines, or its error.
pub open spec fn log_after(log: Seq<Seq<char>>, r: Result<Seq<Seq<char>>, Seq<char>>) -> Seq<
    Seq<char>,
> {
    match r {
        Ok(lines) => log + lines,
        Err(error) => log.push("Error: "@ + error),
    }
}

/// Puts what came of a command into the log.
pub fn log_result(state: &mut TuiState, r: Result<Vec<String>, String>)
    ensures
        texts(final(state).log_lines@) == log_after(texts(old(state).log_lines@), lines_outcome(r)),
        *final(state) == (TuiState { log_lines: final(state).log_lines, ..*old(state) }),
{
    let ghost log = texts(state.log_lines@);
    match r {
        Ok(lines) => {
            let mut more = lines;
            state.log_lines.append(&mut more);
            assert(texts(state.log_lines@) =~= log + texts(lines@));
        },
        Err(error) => {
            state.log_lines.push(joined("Error: ", error.as_str()));
            assert(texts(state.log_lines@) =~= log.push("Error: "@ + error@));
        },
    }
}

/// How many milliseconds to wait for an event: less while the view scrolls on
/// its own.
pub fn poll_timeout(mouse: &MouseState) -> (ms: u64)
    ensures
        ms == if mouse.auto_scroll is Some {
            30int
        } else {
            100
        },
{
    if mouse.auto_scroll.is_some() {
        30
    } else {
        100
    }
}

/// Whether the unconfirmed part of the line is hidden after `elapsed`
/// milliseconds since it last changed, where it was hidden or not: it flashes in
/// phases of 600.
pub fn blink(hidden: bool, elapsed: u64) -> (r: (bool, bool))
    ensures
        r.1 == (elapsed >= 600),
        r.0 == if elapsed >= 600 {
            !hidden
        } else {
            hidden
        },
{
    if elapsed >= 600 {
        (!hidden, true)
    } else {
        (hidden, false)
    }
}

/// A swallowed event changes nothing: neither the log nor the line nor the
/// selection, and nothing is to be done.
pub proof fn law_swallowed_event_changes_nothing<K: Kit>(
    ev: Event,
    state: TuiState,
    input: Input,
    comp: CompletionState,
    mouse: MouseState,
    vp: ViewportCache,
    protocols: Seq<Protocol<K>>,
    state_after: TuiState,
    input_after: Input,
    comp_after: CompletionState,
    mouse_after: MouseState,
    r: (Action, ClipboardRequest),
)
    requires
        event_handled(
            ev,
            true,
            state,
            input,
            comp,
            mouse,
            vp,
            protocols,
            state_after,
            input_after,
            comp_after,
            mouse_after,
            r,
        ),
    ensures
        state_after == state,
        input_after == input,
        comp_after == comp,
        mouse_after == mouse,
        r.0 == Action::Continue,
        r.1 == ClipboardRequest::Nothing,
{
}

/// A hook that swallows nothing is as good as none: every event is handled as it
/// is where there is no hook.
pub proof fn law_silent_hook_is_no_hook<K: Kit>(
    ev: Event,
    hook: NoHook,
    hook_after: NoHook,
    swallowed: bool,
    state: TuiState,
    input: Input,
    comp: CompletionState,
    mouse: MouseState,
    vp: ViewportCache,
    protocols: Seq<Protocol<K>>,
    state_after: TuiState,
    input_after: Input,
    comp_after: CompletionState,
    mouse_after: MouseState,
    r: (Action, ClipboardRequest),
)
    requires
        hook.hears(ev, hook_after, swallowed),
        event_handled(
            ev,
            swallowed,
            state,
            input,
            comp,
            mouse,
            vp,
            protocols,
            state_after,
            input_after,
            comp_after,
            mouse_after,
            r,
        ),
    ensures
        hook_after == hook,
        event_handled(
            ev,
            false,
            state,
            input,
            comp,
            mouse,
            vp,
            protocols,
            state_after,
            input_after,
            comp_after,
            mouse_after,
            r,
        ),
{
}

/// What was entered last is recalled first: after a command line, the key for
/// older lines brings it back, the key for newer ones then an empty line.
pub proof fn law_entered_line_is_recalled<K: Kit>(s: Shell, protocols: Seq<Protocol<K>>)
    requires
        trimmed(s.line).len() > 0,
        trimmed(s.line) != "exit"@,
        trimmed(s.line) != "quit"@,
        trimmed(s.line) != "help"@,
        s.history.len() < usize::MAX,
    ensures
        recalled_older(entered(s, protocols).0).line == s.line,
        recalled_newer(recalled_older(entered(s, protocols).0)).line == ""@,
{
}

/// Going to the newer line undoes going to the older one, away from the oldest.
pub proof fn law_recall_back_and_forth(s: Shell, i: usize)
    requires
        s.recalled == Some(i),
        0 < i < s.history.len(),
        s.line == s.history[i as int],
    ensures
        recalled_newer(recalled_older(s)).line == s.line,
        recalled_newer(recalled_older(s)).recalled == s.recalled,
{
}

/// New output shows the end of the log and drops the selection.
pub proof fn law_command_shows_end<K: Kit>(s: Shell, protocols: Seq<Protocol<K>>)
    requires
        entered(s, protocols).0.log != s.log,
    ensures
        entered(s, protocols).0.scroll_up == 0,
        entered(s, protocols).0.selection is None,
{
}

} // verus!
