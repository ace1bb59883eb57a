//! What the keys of the shell do, in terms of its line, its log and its history.

use crate::event::{Event, KeyCode, KeyEvent, KeyEventKind};
use crate::input::{CompletionState, Input};
use crate::protocol::{Kit, Protocol};
use crate::selection::greatest;
use crate::server::{law_first_command_answers, lemma_not_named};
use crate::shell::{
    command_args, command_name, event_handled, first_space, help_lines, key_handled, log_after, shell,
    Action, Next,
};
use crate::text::{texts, trimmed};
use crate::tui::{ClipboardRequest, MouseState, TuiState, ViewportCache};
use vstd::prelude::*;
use vstd::string::*;

verus! {

/// The shell before and after a key, and what is to be done.
#[verifier::reject_recursive_types(K)]
pub struct Keystroke<K: Kit> {
    pub key: KeyEvent,
    pub state: TuiState,
    pub input: Input,
    pub comp: CompletionState,
    pub protocols: Seq<Protocol<K>>,
    pub state_after: TuiState,
    pub input_after: Input,
    pub comp_after: CompletionState,
    pub next: Next,
}

impl<K: Kit> Keystroke<K> {
    /// The key was handled.
    pub open spec fn handled(self) -> bool {
        key_handled(
            self.key,
            self.state,
            self.input,
            self.comp,
            self.protocols,
            self.state_after,
            self.input_after,
            self.comp_after,
            self.next,
        )
    }

    /// The line that was entered, without the white space around it.
    pub open spec fn entered_line(self) -> Seq<char> {
        trimmed(self.input.value@)
    }

    /// Enter was pressed on a line that is none of the shell's own words.
    pub open spec fn enters_command(self) -> bool {
        let line = self.entered_line();
        &&& self.handled()
        &&& self.key.code == KeyCode::Enter
        &&& line.len() > 0
        &&& line != "exit"@
        &&& line != "quit"@
        &&& line != "help"@
    }

    /// The command at `k` is the first that is called `name`.
    pub open spec fn is_first(self, k: int, name: Seq<char>) -> bool {
        &&& 0 <= k < self.protocols.len()
        &&& self.protocols[k].name@ == name
        &&& forall|j: int| 0 <= j < k ==> (#[trigger] self.protocols[j]).name@ != name
    }

    /// No command is called `name`.
    pub open spec fn is_unknown(self, name: Seq<char>) -> bool {
        forall|j: int| 0 <= j < self.protocols.len() ==> (#[trigger] self.protocols[j]).name@ != name
    }

    /// The log, before and after.
    pub open spec fn log(self) -> Seq<Seq<char>> {
        texts(self.state.log_lines@)
    }

    pub open spec fn log_after(self) -> Seq<Seq<char>> {
        texts(self.state_after.log_lines@)
    }

    /// The history, before and after.
    pub open spec fn history(self) -> Seq<Seq<char>> {
        texts(self.state.history@)
    }

    pub open spec fn history_after(self) -> Seq<Seq<char>> {
        texts(self.state_after.history@)
    }

    /// The log, the selection and the history are what they were.
    pub open spec fn keeps_log(self) -> bool {
        &&& self.log_after() == self.log()
        &&& self.state_after.selection == self.state.selection
        &&& self.history_after() == self.history()
    }

    /// The line is what it was, and all of it is confirmed.
    pub open spec fn keeps_line(self) -> bool {
        &&& self.input_after.value@ == self.input.value@
        &&& self.input_after.cursor == self.input.cursor
        &&& self.confirms_all()
    }

    /// All of the line is confirmed, and no suggestion is shown.
    pub open spec fn confirms_all(self) -> bool {
        &&& self.comp_after.confirmed == self.input_after.value@.len()
        &&& self.comp_after.index is None
    }

    /// The line is empty.
    pub open spec fn empties_line(self) -> bool {
        &&& self.input_after.value@.len() == 0
        &&& self.input_after.cursor == 0
    }
}

/// Whether a space occurs in `s`.
pub open spec fn has_space(s: Seq<char>) -> bool {
    exists|i: int| 0 <= i < s.len() && #[trigger] s[i] == ' '
}

/// The equal parts of two states of the shell, which a key handled compares.
proof fn lemma_parts<K: Kit>(k: Keystroke<K>)
    ensures
        ({
            let s = shell(k.state, k.input, k.comp);
            let t = shell(k.state_after, k.input_after, k.comp_after);
            &&& t.line == k.input_after.value@
            &&& t.cursor == k.input_after.cursor
            &&& t.confirmed == k.comp_after.confirmed
            &&& t.index == k.comp_after.index
            &&& t.log == k.log_after()
            &&& t.history == k.history_after()
            &&& t.selection == k.state_after.selection
            &&& t.scroll_up == k.state_after.scroll_up
            &&& t.recalled == k.state_after.history_idx
            &&& s.line == k.input.value@
        }),
{
    reveal_strlit("");
}

proof fn lemma_first_space(s: Seq<char>, i: int, at: int)
    requires
        0 <= i <= at < s.len(),
        s[at] == ' ',
        forall|j: int| i <= j < at ==> #[trigger] s[j] != ' ',
    ensures
        first_space(s, i) == Some(at),
    decreases at - i,
{
    if i < at {
        assert(s[i] != ' ');
        lemma_first_space(s, i + 1, at);
    }
}

proof fn lemma_no_space(s: Seq<char>, i: int)
    requires
        !has_space(s),
    ensures
        first_space(s, i) is None,
    decreases s.len() - i,
{
    if 0 <= i < s.len() {
        assert(s[i] != ' ');
        lemma_no_space(s, i + 1);
    }
}

/// A line is split at its first space: what is before it names the command, and
/// what is after it is handed over as it is. A line without a space is a name alone.
pub proof fn law_first_space_splits(name: Seq<char>, args: Seq<char>)
    requires
        !has_space(name),
    ensures
        command_name(name.push(' ') + args) == name,
        command_args(name.push(' ') + args) == args,
        command_name(name) == name,
        command_args(name).len() == 0,
{
    let line = name.push(' ') + args;
    let n = name.len() as int;
    assert forall|j: int| 0 <= j < n implies #[trigger] line[j] != ' ' by {
        assert(name[j] != ' ');
    }
    assert(line[n] == ' ');
    lemma_first_space(line, 0, n);
    assert(line.take(n) =~= name);
    assert(line.skip(n + 1) =~= args);
    lemma_no_space(name, 0);
    reveal_strlit("");
}

/// Enter on the name of a command alone runs that command with empty arguments;
/// of commands with one name the first runs.
pub proof fn law_enter_runs_command_without_arguments<K: Kit>(k: Keystroke<K>, at: int)
    requires
        k.enters_command(),
        !has_space(k.entered_line()),
        k.is_first(at, k.entered_line()),
    ensures
        k.next == Next::Run(at, Seq::empty()),
{
    let line = k.entered_line();
    law_first_space_splits(line, Seq::empty());
    law_first_command_answers(k.protocols, line, at);
    assert(command_args(line) =~= Seq::empty());
}

/// Enter on a name, a space and arguments runs the command of that name with
/// exactly those arguments.
pub proof fn law_enter_runs_command_with_arguments<K: Kit>(
    k: Keystroke<K>,
    at: int,
    name: Seq<char>,
    args: Seq<char>,
)
    requires
        k.enters_command(),
        !has_space(name),
        k.entered_line() == name.push(' ') + args,
        k.is_first(at, name),
    ensures
        k.next == Next::Run(at, args),
{
    law_first_space_splits(name, args);
    law_first_command_answers(k.protocols, name, at);
}

/// A command line is noted whether its command is known or not: the log shows it
/// after `> `, and the history has it as it was typed. The log then shows its end
/// again, and nothing is selected. Of an unknown command the log says so, and nothing
/// runs.
pub proof fn law_enter_notes_command<K: Kit>(k: Keystroke<K>, name: Seq<char>, args: Seq<char>)
    requires
        k.enters_command(),
        !has_space(name),
        k.entered_line() == name || k.entered_line() == name.push(' ') + args,
    ensures
        k.history_after() == k.history().push(k.input.value@),
        k.state_after.scroll_up == 0,
        k.state_after.selection is None,
        k.is_unknown(name) ==> k.next == Next::Continue && k.log_after() == k.log().push(
            "> "@ + k.entered_line(),
        ).push("Unknown: '"@ + name + "'"@),
        !k.is_unknown(name) ==> k.next is Run && k.log_after() == k.log().push(
            "> "@ + k.entered_line(),
        ),
{
    lemma_parts(k);
    law_first_space_splits(name, args);
    if k.is_unknown(name) {
        lemma_not_named(k.protocols, name, 0);
    } else {
        let j = choose|j: int|
            0 <= j < k.protocols.len() && (#[trigger] k.protocols[j]).name@ == name;
        lemma_some_named(k.protocols, name, 0, j);
    }
}

proof fn lemma_some_named<K: Kit>(protocols: Seq<Protocol<K>>, name: Seq<char>, i: int, j: int)
    requires
        0 <= i <= j < protocols.len(),
        protocols[j].name@ == name,
    ensures
        crate::server::named(protocols, name, i) is Some,
    decreases j - i,
{
    if i < j {
        lemma_some_named(protocols, name, i + 1, j);
    }
}

/// Enter empties the line, whatever is in it, and ends going through the history.
pub proof fn law_enter_empties_line<K: Kit>(k: Keystroke<K>)
    requires
        k.handled(),
        k.key.code == KeyCode::Enter,
    ensures
        k.empties_line(),
        k.confirms_all(),
        k.state_after.history_idx is None,
{
    lemma_parts(k);
    reveal_strlit("");
}

/// `exit` and `quit` leave the shell and a line of white space does nothing; none
/// of them is noted, and the view stays.
pub proof fn law_enter_exit_or_nothing<K: Kit>(k: Keystroke<K>)
    requires
        k.handled(),
        k.key.code == KeyCode::Enter,
    ensures
        k.entered_line() == "exit"@ || k.entered_line() == "quit"@ ==> k.next == Next::Exit
            && k.keeps_log() && k.state_after.scroll_up == k.state.scroll_up,
        k.entered_line().len() == 0 ==> k.next == Next::Continue && k.keeps_log()
            && k.state_after.scroll_up == k.state.scroll_up,
{
    lemma_parts(k);
    reveal_strlit("exit");
    reveal_strlit("quit");
}

/// `help` lists every command in order, each in a line of its own: its name, at
/// least twelve columns wide, and what it is for. Help is not noted in the history.
pub proof fn law_help_lists_commands<K: Kit>(k: Keystroke<K>, i: int)
    requires
        k.handled(),
        k.key.code == KeyCode::Enter,
        k.entered_line() == "help"@,
    ensures
        k.next == Next::Continue,
        k.history_after() == k.history(),
        k.state_after.scroll_up == 0,
        k.state_after.selection is None,
        k.log_after().len() == k.log().len() + 2 + k.protocols.len(),
        k.log_after().take(k.log().len() as int) == k.log(),
        k.log_after()[k.log().len() as int] == "> help"@,
        k.log_after()[k.log().len() as int + 1] == "COMMANDS:"@,
        0 <= i < k.protocols.len() ==> {
            let name = k.protocols[i].name@;
            let wide = greatest(name.len() as int, 12);
            let line = k.log_after()[k.log().len() + 2 + i];
            &&& line.take(2) == "  "@
            &&& line.subrange(2, 2 + name.len() as int) == name
            &&& forall|j: int| 2 + name.len() <= j <= 2 + wide ==> #[trigger] line[j] == ' '
            &&& line.skip(2 + wide + 1) == k.protocols[i].help@
        },
{
    lemma_parts(k);
    reveal_strlit("help");
    reveal_strlit("exit");
    reveal_strlit("quit");
    reveal_strlit("  ");
    reveal_strlit(" ");
    let n = k.protocols.len() as int;
    let head = k.log() + seq!["> help"@, "COMMANDS:"@];
    let all = help_lines(k.protocols, n);
    assert("help"@.len() == 4 && "exit"@[0] == 'e' && "quit"@[0] == 'q' && "help"@[0] == 'h');
    lemma_help_len(k.protocols, n);
    assert(k.log_after() == head + all);
    assert(k.log_after().take(k.log().len() as int) =~= k.log());
    if 0 <= i < n {
        lemma_help_at(k.protocols, n, i);
        let name = k.protocols[i].name@;
        let help = k.protocols[i].help@;
        let wide = greatest(name.len() as int, 12);
        let line = k.log_after()[k.log().len() + 2 + i];
        assert(line == all[i]);
        let pad = crate::shell::padded(name);
        assert(pad.len() == wide);
        assert(line == "  "@ + pad + " "@ + help);
        assert(line.take(2) =~= "  "@);
        assert(line.subrange(2, 2 + name.len() as int) =~= name);
        assert(line.skip(2 + wide + 1) =~= help);
        assert forall|j: int| 2 + name.len() <= j <= 2 + wide implies #[trigger] line[j] == ' ' by {
            if j < 2 + wide {
                assert(line[j] == pad[j - 2]);
            }
        }
    }
}

proof fn lemma_help_len<K: Kit>(protocols: Seq<Protocol<K>>, n: int)
    requires
        0 <= n,
    ensures
        help_lines(protocols, n).len() == n,
    decreases n,
{
    if n > 0 {
        lemma_help_len(protocols, n - 1);
    }
}

proof fn lemma_help_at<K: Kit>(protocols: Seq<Protocol<K>>, n: int, i: int)
    requires
        0 <= i < n,
    ensures
        help_lines(protocols, n)[i] == "  "@ + crate::shell::padded(protocols[i].name@) + " "@
            + protocols[i].help@,
    decreases n,
{
    lemma_help_len(protocols, n - 1);
    if i < n - 1 {
        lemma_help_at(protocols, n - 1, i);
    }
}

/// Up and Down scroll by one row and the page keys by five, upwards towards older
/// rows, as far as a position counts; Home goes to the oldest, End to the newest. They
/// do nothing else but confirm the line.
pub proof fn law_keys_scroll<K: Kit>(k: Keystroke<K>)
    requires
        k.handled(),
        k.key.code == KeyCode::PageUp || k.key.code == KeyCode::PageDown || k.key.code
            == KeyCode::Home || k.key.code == KeyCode::End || (k.key.code == KeyCode::Up
            || k.key.code == KeyCode::Down) && !k.key.modifiers.control,
    ensures
        k.next == Next::Continue,
        k.keeps_log(),
        k.keeps_line(),
        k.state_after.history_idx == k.state.history_idx,
        ({
            let (from, to) = (k.state.scroll_up as int, k.state_after.scroll_up as int);
            let step = if k.key.code == KeyCode::PageUp || k.key.code == KeyCode::PageDown {
                5int
            } else {
                1
            };
            &&& k.key.code == KeyCode::Home ==> to == u16::MAX
            &&& k.key.code == KeyCode::End ==> to == 0
            &&& k.key.code == KeyCode::PageUp || k.key.code == KeyCode::Up ==> (to == from + step
                || to == u16::MAX && from + step > u16::MAX)
            &&& k.key.code == KeyCode::PageDown || k.key.code == KeyCode::Down ==> (to == from
                - step || to == 0 && from < step)
        }),
{
    lemma_parts(k);
}

/// Going back in the history recalls the newest line first, then the one before
/// the line that was recalled, and stays at the oldest. The line is recalled whole,
/// with the cursor at its end, and nothing else changes.
pub proof fn law_older_line_is_recalled<K: Kit>(k: Keystroke<K>)
    requires
        k.handled(),
        k.key.code == KeyCode::Up,
        k.key.modifiers.control,
        k.state.history_idx matches Some(i) ==> i < k.state.history@.len(),
        k.state.history@.len() <= usize::MAX,
    ensures
        k.next == Next::Continue,
        k.keeps_log(),
        k.state_after.scroll_up == k.state.scroll_up,
        k.confirms_all(),
        k.history().len() == 0 ==> k.keeps_line() && k.state_after.history_idx
            == k.state.history_idx,
        k.history().len() > 0 ==> {
            let n = k.history().len();
            &&& k.state_after.history_idx matches Some(to)
            &&& to < n
            &&& k.state.history_idx is None ==> to == n - 1
            &&& k.state.history_idx matches Some(from) ==> to == from - 1 || to == 0 && from == 0
            &&& k.input_after.value@ == k.history()[to as int]
            &&& k.input_after.cursor == k.input_after.value@.len()
        },
{
    lemma_parts(k);
    assert(k.history().len() == k.state.history@.len());
}

/// Going forth in the history recalls the line after the one that was recalled;
/// after the newest, or where none was recalled, the line is empty.
pub proof fn law_newer_line_is_recalled<K: Kit>(k: Keystroke<K>)
    requires
        k.handled(),
        k.key.code == KeyCode::Down,
        k.key.modifiers.control,
    ensures
        k.next == Next::Continue,
        k.keeps_log(),
        k.state_after.scroll_up == k.state.scroll_up,
        ({
            let n = k.history().len();
            match k.state.history_idx {
                Some(from) if from + 1 < n => {
                    &&& k.state_after.history_idx == Some((from + 1) as usize)
                    &&& k.input_after.value@ == k.history()[from + 1]
                    &&& k.input_after.cursor == k.input_after.value@.len()
                    &&& k.confirms_all()
                },
                _ => k.state_after.history_idx is None && k.empties_line(),
            }
        }),
{
    lemma_parts(k);
    reveal_strlit("");
}

/// Esc deletes what is not confirmed and keeps what is, with the cursor at its
/// end; nothing else changes.
pub proof fn law_esc_deletes_unconfirmed<K: Kit>(k: Keystroke<K>)
    requires
        k.handled(),
        k.key.code == KeyCode::Esc,
    ensures
        k.next == Next::Continue,
        k.keeps_log(),
        k.state_after.scroll_up == k.state.scroll_up,
        k.state_after.history_idx == k.state.history_idx,
        k.comp.confirmed <= k.input.value@.len() ==> k.input_after.value@ == k.input.value@.take(
            k.comp.confirmed as int,
        ),
        k.comp.confirmed > k.input.value@.len() ==> k.input_after.value@ == k.input.value@,
        k.input_after.cursor == k.input_after.value@.len(),
        k.confirms_all(),
{
    lemma_parts(k);
}

/// Ctrl+C empties the line and stays in the shell; Ctrl+D leaves it, but only on an
/// empty line. Neither touches the log.
pub proof fn law_control_keys<K: Kit>(k: Keystroke<K>)
    requires
        k.handled(),
        k.key.modifiers.control,
    ensures
        k.key.code == KeyCode::Char('c') ==> k.next == Next::Continue && k.empties_line()
            && k.confirms_all() && k.state_after.history_idx is None && k.keeps_log()
            && k.state_after.scroll_up == k.state.scroll_up,
        k.key.code == KeyCode::Char('d') && k.input.value@.len() == 0 ==> k.next == Next::Exit
            && k.keeps_log() && k.keeps_line(),
        k.key.code == KeyCode::Char('d') && k.input.value@.len() > 0 ==> k.next == Next::Continue,
{
    lemma_parts(k);
    reveal_strlit("");
}

/// Only Enter on `exit` or `quit` and Ctrl+D on an empty line leave the shell, and
/// only Enter runs a command.
pub proof fn law_what_leaves_or_runs<K: Kit>(k: Keystroke<K>)
    requires
        k.handled(),
    ensures
        k.next == Next::Exit ==> k.key.code == KeyCode::Enter && (k.entered_line() == "exit"@
            || k.entered_line() == "quit"@) || k.key.code == KeyCode::Char('d')
            && k.key.modifiers.control && k.input.value@.len() == 0,
        k.next is Run ==> k.key.code == KeyCode::Enter,
{
    lemma_parts(k);
}

/// Every key but Tab and Esc confirms the line as the key leaves it; a key that
/// edits the line, or does nothing, leaves the log and the view alone.
pub proof fn law_editing_keys_confirm<K: Kit>(k: Keystroke<K>)
    requires
        k.handled(),
        !(k.key.code is Enter || k.key.code is Tab || k.key.code is Esc || k.key.code is Up
            || k.key.code is Down || k.key.code is PageUp || k.key.code is PageDown || k.key.code
            is Home || k.key.code is End),
    ensures
        k.confirms_all(),
        k.keeps_log(),
        k.state_after.scroll_up == k.state.scroll_up,
        !(k.next is Run),
{
    lemma_parts(k);
    reveal_strlit("");
}

/// Tab changes neither the log nor the view nor the history, and runs nothing.
pub proof fn law_tab_leaves_log_alone<K: Kit>(k: Keystroke<K>)
    requires
        k.handled(),
        k.key.code == KeyCode::Tab,
    ensures
        k.state_after == k.state,
        k.next == Next::Continue,
        k.comp_after.confirmed == k.comp.confirmed,
{
}

/// What a command printed goes to the end of the log, line by line; of a failure
/// the log says `Error: ` and what it was.
pub proof fn law_output_goes_to_log(log: Seq<Seq<char>>, lines: Seq<Seq<char>>, error: Seq<char>)
    ensures
        log_after(log, Ok(lines)).len() == log.len() + lines.len(),
        log_after(log, Ok(lines)).take(log.len() as int) == log,
        log_after(log, Ok(lines)).skip(log.len() as int) == lines,
        log_after(log, Err(error)).len() == log.len() + 1,
        log_after(log, Err(error)).take(log.len() as int) == log,
        log_after(log, Err(error)).last() == "Error: "@ + error,
{
    assert(log_after(log, Ok(lines)).take(log.len() as int) =~= log);
    assert(log_after(log, Ok(lines)).skip(log.len() as int) =~= lines);
    assert(log_after(log, Err(error)).take(log.len() as int) =~= log);
}

/// An event that nobody swallowed reaches the shell: a key that is pressed is
/// handled as a key and leaves the mouse alone, a mouse event leaves the line alone,
/// and a key that is released, a resize, a change of focus or a paste does nothing.
pub proof fn law_events_reach_the_shell<K: Kit>(
    ev: Event,
    state: TuiState,
    input: Input,
    comp: CompletionState,
    mouse: MouseState,
    vp: ViewportCache,
    protocols: Seq<Protocol<K>>,
    state_after: TuiState,
    input_after: Input,
    comp_after: CompletionState,
    mouse_after: MouseState,
    r: (Action, ClipboardRequest),
)
    requires
        event_handled(
            ev,
            false,
            state,
            input,
            comp,
            mouse,
            vp,
            protocols,
            state_after,
            input_after,
            comp_after,
            mouse_after,
            r,
        ),
    ensures
        ev matches Event::Key(key) ==> {
            &&& mouse_after == mouse
            &&& r.1 == ClipboardRequest::Nothing
            &&& key.kind == KeyEventKind::Press ==> (Keystroke {
                key,
                state,
                input,
                comp,
                protocols,
                state_after,
                input_after,
                comp_after,
                next: r.0@,
            }).handled()
            &&& key.kind != KeyEventKind::Press ==> state_after == state && input_after == input
                && comp_after == comp && r.0 == Action::Continue
        },
        ev matches Event::Mouse(m) ==> crate::tui::mouse_handled(
            m,
            state,
            mouse,
            vp,
            state_after,
            mouse_after,
            r.1@,
        ) && input_after == input && comp_after == comp && r.0 == Action::Continue,
        !(ev is Key) && !(ev is Mouse) ==> state_after == state && input_after == input
            && comp_after == comp && mouse_after == mouse && r.0 == Action::Continue && r.1
            == ClipboardRequest::Nothing,
{
}

} // verus!
