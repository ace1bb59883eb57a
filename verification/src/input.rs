//! The input line and its completion.
//!
//! The line is a confirmed beginning and an unconfirmed rest, which is a
//! suggestion. Tab goes through the suggestions, Esc deletes the rest, any other
//! key confirms it.

pub mod laws;

use crate::event::{KeyCode, Modifiers};
use crate::protocol::{Completer, Kit, Protocol};
use crate::server::{find_protocol, named};
use crate::text::{
    begins_with, chars_of, first_word, first_word_of, has_prefix, text_range, texts, white_space,
};
use ratatui::crossterm::event::{
    Event as OutsideEvent, KeyCode as OutsideKey, KeyEvent as OutsideKeyEvent,
    KeyModifiers as OutsideModifiers,
};
use tui_input::backend::crossterm::EventHandler;
use vstd::prelude::*;
use vstd::string::*;

verus! {

/// A line of text with a cursor, which counts characters.
pub struct Input {
    pub value: String,
    pub cursor: usize,
}

/// The key of an edit; `Inert` is any key that edits nothing.
#[derive(Debug, Clone, Copy, PartialEq, Eq, Structural)]
pub enum EditKey {
    Char(char),
    Backspace,
    Delete,
    Left,
    Right,
    Inert,
}

/// The modifier keys as bits, each with a place of its own.
pub open spec fn modifier_bits(m: Modifiers) -> u8 {
    ((if m.shift {
        1int
    } else {
        0
    }) + (if m.control {
        2int
    } else {
        0
    }) + (if m.alt {
        4int
    } else {
        0
    }) + (if m.super_key {
        8int
    } else {
        0
    }) + (if m.hyper {
        16int
    } else {
        0
    }) + (if m.meta {
        32int
    } else {
        0
    })) as u8
}

/// Computes [`modifier_bits`].
fn bits_of(m: Modifiers) -> (b: u8)
    ensures
        b == modifier_bits(m),
{
    let mut b: u8 = 0;
    if m.shift {
        b = b + 1;
    }
    if m.control {
        b = b + 2;
    }
    if m.alt {
        b = b + 4;
    }
    if m.super_key {
        b = b + 8;
    }
    if m.hyper {
        b = b + 16;
    }
    if m.meta {
        b = b + 32;
    }
    b
}

/// The line and the cursor after a key was pressed, with modifier keys given as
/// bits.
pub uninterp spec fn edited(line: Seq<char>, cursor: usize, key: EditKey, modifiers: u8) -> (
    Seq<char>,
    usize,
);

/// The columns that the text before the cursor takes up on a screen.
pub uninterp spec fn visual_column(line: Seq<char>, cursor: usize) -> usize;

/// `tui_input`'s `handle_event` edits a line by a key. The bits are those of
/// crossterm's `KeyModifiers`. The cursor stays within the line. A character
/// without modifier keys, or with Shift alone, is put in before the cursor;
/// Backspace without modifier keys takes out the character before the cursor.
#[verifier::external_body]
fn edit(line: &str, cursor: usize, key: EditKey, modifiers: u8) -> (r: (String, usize))
    requires
        cursor <= line@.len(),
    ensures
        r.0@ == edited(line@, cursor, key, modifiers).0,
        r.1 == edited(line@, cursor, key, modifiers).1,
        r.1 <= r.0@.len(),
        modifiers <= 1 && key is Char ==> r.0@ == line@.insert(cursor as int, key->Char_0),
        modifiers <= 1 && key is Char ==> r.1 == cursor + 1,
        modifiers == 0 && key is Backspace && cursor > 0 ==> r.0@ == line@.remove(cursor - 1),
        modifiers == 0 && key is Backspace && cursor > 0 ==> r.1 == cursor - 1,
{
    let code = match key {
        EditKey::Char(c) => OutsideKey::Char(c),
        EditKey::Backspace => OutsideKey::Backspace,
        EditKey::Delete => OutsideKey::Delete,
        EditKey::Left => OutsideKey::Left,
        EditKey::Right => OutsideKey::Right,
        EditKey::Inert => OutsideKey::Null,
    };
    let held = OutsideModifiers::from_bits_truncate(modifiers);
    let mut input = tui_input::Input::new(line.to_string()).with_cursor(cursor);
    input.handle_event(&OutsideEvent::Key(OutsideKeyEvent::new(code, held)));
    (input.value().to_string(), input.cursor())
}

/// `tui_input`'s `visual_cursor` measures the text before the cursor.
#[verifier::external_body]
fn measure(line: &str, cursor: usize) -> (n: usize)
    requires
        cursor <= line@.len(),
    ensures
        n == visual_column(line@, cursor),
{
    tui_input::Input::new(line.to_string()).with_cursor(cursor).visual_cursor()
}

/// The key of an edit.
pub open spec fn edit_key(code: KeyCode) -> EditKey {
    match code {
        KeyCode::Char(c) => EditKey::Char(c),
        KeyCode::Backspace => EditKey::Backspace,
        KeyCode::Delete => EditKey::Delete,
        KeyCode::Left => EditKey::Left,
        KeyCode::Right => EditKey::Right,
        _ => EditKey::Inert,
    }
}

impl Input {
    /// The cursor is in the line.
    pub open spec fn wf(&self) -> bool {
        self.cursor <= self.value@.len()
    }

    /// A line with the cursor at its end.
    pub fn new(value: String) -> (i: Input)
        ensures
            i.value == value,
            i.cursor == value@.len(),
            i.wf(),
    {
        let cursor = chars_of(value.as_str()).len();
        Input { value, cursor }
    }

    /// The line with the cursor at `cursor`, or at its end where it is shorter.
    pub fn with_cursor(self, cursor: usize) -> (i: Input)
        ensures
            i.value == self.value,
            i.cursor == if cursor <= self.value@.len() {
                cursor as int
            } else {
                self.value@.len() as int
            },
            i.wf(),
    {
        let len = chars_of(self.value.as_str()).len();
        Input {
            value: self.value,
            cursor: if cursor <= len {
                cursor
            } else {
                len
            },
        }
    }

    /// Empties the line.
    pub fn reset(&mut self)
        ensures
            final(self).value@ == ""@,
            final(self).cursor == 0,
            final(self).wf(),
    {
        self.value = "".to_owned();
        self.cursor = 0;
    }

    /// The text of the line.
    pub fn value(&self) -> (s: &str)
        ensures
            s@ == self.value@,
    {
        self.value.as_str()
    }

    /// The place of the cursor.
    pub fn cursor(&self) -> (n: usize)
        ensures
            n == self.cursor,
    {
        self.cursor
    }

    /// The column of the cursor on a screen, from the beginning of the line.
    pub fn visual_cursor(&self) -> (n: usize)
        requires
            self.wf(),
        ensures
            n == visual_column(self.value@, self.cursor),
    {
        measure(self.value.as_str(), self.cursor)
    }

    /// Edits the line by a key. What is typed is put in before the cursor, and
    /// Backspace takes out what is before it.
    pub fn handle_key(&mut self, code: KeyCode, modifiers: Modifiers)
        requires
            old(self).wf(),
        ensures
            final(self).value@ == edited(
                old(self).value@,
                old(self).cursor,
                edit_key(code),
                modifier_bits(modifiers),
            ).0,
            final(self).cursor == edited(
                old(self).value@,
                old(self).cursor,
                edit_key(code),
                modifier_bits(modifiers),
            ).1,
            final(self).wf(),
            code is Char && modifier_bits(modifiers) <= 1 ==> final(self).value@
                == old(self).value@.insert(old(self).cursor as int, code->Char_0)
                && final(self).cursor == old(self).cursor + 1,
            code is Backspace && modifier_bits(modifiers) == 0 && old(self).cursor > 0
                ==> final(self).value@ == old(self).value@.remove(old(self).cursor - 1)
                && final(self).cursor == old(self).cursor - 1,
    {
        let key = match code {
            KeyCode::Char(c) => EditKey::Char(c),
            KeyCode::Backspace => EditKey::Backspace,
            KeyCode::Delete => EditKey::Delete,
            KeyCode::Left => EditKey::Left,
            KeyCode::Right => EditKey::Right,
            _ => EditKey::Inert,
        };
        let (value, cursor) = edit(self.value.as_str(), self.cursor, key, bits_of(modifiers));
        self.value = value;
        self.cursor = cursor;
    }
}

/// How much of the line is confirmed, and which suggestion is shown.
pub struct CompletionState {
    /// The number of characters that are confirmed.
    pub confirmed: usize,
    pub index: Option<usize>,
}

impl CompletionState {
    /// Nothing is confirmed or suggested.
    pub fn new() -> (c: CompletionState)
        ensures
            c.confirmed == 0,
            c.index is None,
    {
        CompletionState { confirmed: 0, index: None }
    }
}

impl Default for CompletionState {
    fn default() -> (c: CompletionState)
        ensures
            c.confirmed == 0,
            c.index is None,
    {
        CompletionState::new()
    }
}

/// The first `n` characters of `s`, or all of them where there are fewer.
pub open spec fn first_chars(s: Seq<char>, n: int) -> Seq<char> {
    if n <= s.len() {
        s.take(n)
    } else {
        s
    }
}

/// What follows the first `n` characters of `s`.
pub open spec fn rest_chars(s: Seq<char>, n: int) -> Seq<char> {
    if n <= s.len() {
        s.skip(n)
    } else {
        Seq::empty()
    }
}

/// Splits `value` after its first `confirmed` characters.
pub fn split_confirmed(value: &str, confirmed: usize) -> (r: (String, String))
    ensures
        r.0@ == first_chars(value@, confirmed as int),
        r.1@ == rest_chars(value@, confirmed as int),
{
    let chars = chars_of(value);
    let at = if confirmed <= chars.len() {
        confirmed
    } else {
        chars.len()
    };
    let r = (text_range(&chars, 0, at), text_range(&chars, at, chars.len()));
    assert(r.0@ =~= first_chars(value@, confirmed as int));
    assert(r.1@ =~= rest_chars(value@, confirmed as int));
    r
}

/// Confirms the whole line.
pub fn confirm_all(input: &Input, comp: &mut CompletionState)
    ensures
        final(comp).confirmed == input.value@.len(),
        final(comp).index is None,
{
    comp.confirmed = chars_of(input.value.as_str()).len();
    comp.index = None;
}

/// Deletes what is not confirmed.
pub fn esc_unconfirmed(input: &mut Input, comp: &mut CompletionState)
    ensures
        final(input).value@ == first_chars(old(input).value@, old(comp).confirmed as int),
        final(input).cursor == final(input).value@.len(),
        final(input).wf(),
        final(comp).confirmed == final(input).value@.len(),
        final(comp).index is None,
{
    let (confirmed, _) = split_confirmed(input.value.as_str(), comp.confirmed);
    *input = Input::new(confirmed);
    confirm_all(input, comp);
}

/// Whether white space occurs in `s`.
pub open spec fn has_white(s: Seq<char>) -> bool {
    exists|i: int| 0 <= i < s.len() && white_space(#[trigger] s[i])
}

/// Decides [`has_white`].
fn any_white(chars: &Vec<char>) -> (b: bool)
    ensures
        b == has_white(chars@),
{
    let mut i: usize = 0;
    while i < chars.len()
        invariant
            i <= chars@.len(),
            forall|j: int| 0 <= j < i ==> !white_space(#[trigger] chars@[j]),
        decreases chars@.len() - i,
    {
        if chars[i].is_whitespace() {
            return true;
        }
        i += 1;
    }
    false
}

/// The names of the first `n` commands that begin with `prefix`.
pub open spec fn names_with<K: Kit>(protocols: Seq<Protocol<K>>, prefix: Seq<char>, n: int) -> Seq<
    Seq<char>,
>
    decreases n,
{
    if n <= 0 {
        Seq::empty()
    } else {
        let rest = names_with(protocols, prefix, n - 1);
        if begins_with(protocols[n - 1].name@, prefix) {
            rest.push(protocols[n - 1].name@)
        } else {
            rest
        }
    }
}

/// Whether `options` are suggestions for a confirmed text: the names of
/// commands while the first word is not complete, then those of the command's
/// completer, if it has one.
pub open spec fn suggested<K: Kit>(
    protocols: Seq<Protocol<K>>,
    confirmed: Seq<char>,
    options: Seq<Seq<char>>,
) -> bool {
    let first = first_word(confirmed);
    if has_white(confirmed) {
        match named(protocols, first, 0) {
            Some(k) => match protocols[k].completer {
                Some(completer) => completer.completes(confirmed, options),
                None => options.len() == 0,
            },
            None => options.len() == 0,
        }
    } else if first.len() == 0 {
        options.len() == 0
    } else {
        options == names_with(protocols, first, protocols.len() as int)
    }
}

/// Suggestions for a confirmed text.
pub fn suggestions_for<K: Kit>(protocols: &Vec<Protocol<K>>, confirmed: &str) -> (r: Vec<String>)
    ensures
        suggested(protocols@, confirmed@, texts(r@)),
{
    let chars = chars_of(confirmed);
    let first = first_word_of(&chars);
    let mut r: Vec<String> = Vec::new();
    if any_white(&chars) {
        if let Some(k) = find_protocol(protocols, first.as_str()) {
            if let Some(completer) = &protocols[k].completer {
                return completer.complete(confirmed);
            }
        }
        return r;
    }
    if first.as_str().is_empty() {
        return r;
    }
    let prefix = chars_of(first.as_str());
    let mut i: usize = 0;
    assert(texts(r@) =~= names_with(protocols@, first@, 0));
    while i < protocols.len()
        invariant
            i <= protocols@.len(),
            prefix@ == first@,
            texts(r@) == names_with(protocols@, first@, i as int),
        decreases protocols@.len() - i,
    {
        let ghost so_far = r@;
        let name = chars_of(protocols[i].name);
        if has_prefix(&name, &prefix) {
            r.push(protocols[i].name.to_owned());
            assert(texts(r@) =~= texts(so_far).push(protocols@[i as int].name@));
        }
        i += 1;
    }
    r
}

/// Which of `n` suggestions follows the one at `index`.
pub open spec fn next_index(index: Option<usize>, n: int) -> int {
    match index {
        Some(i) => (i + 1) % n,
        None => 0,
    }
}

/// Shows the next of some suggestions, without confirming it.
pub fn show_next(input: &mut Input, comp: &mut CompletionState, options: Vec<String>)
    requires
        old(comp).index != Some(usize::MAX),
        old(input).wf(),
    ensures
        shown_next(*old(input), *old(comp), texts(options@), *final(input), *final(comp)),
        final(comp).index != Some(usize::MAX),
        final(input).wf(),
{
    let n = options.len();
    if n == 0 {
        return;
    }
    let at = match comp.index {
        Some(i) => (i + 1) % n,
        None => 0,
    };
    comp.index = Some(at);
    let suggestion = options[at].clone();
    assert(texts(options@)[at as int] == options@[at as int]@);
    *input = Input::new(suggestion).with_cursor(comp.confirmed);
}

/// The line with the next of some suggestions: the cursor stays where the
/// confirmed text ends. Where there are no suggestions nothing happens.
pub open spec fn shown_next(
    input: Input,
    comp: CompletionState,
    options: Seq<Seq<char>>,
    input_after: Input,
    comp_after: CompletionState,
) -> bool {
    let at = next_index(comp.index, options.len() as int);
    if options.len() == 0 {
        input_after == input && comp_after == comp
    } else {
        &&& input_after.value@ == options[at]
        &&& input_after.cursor == if comp.confirmed <= options[at].len() {
            comp.confirmed as int
        } else {
            options[at].len() as int
        }
        &&& comp_after.confirmed == comp.confirmed
        &&& comp_after.index == Some(at as usize)
    }
}

/// Shows the next suggestion for what is confirmed of the line. What a command's
/// completer suggests is up to it; it sees the confirmed text alone.
pub fn tab_complete<K: Kit>(
    input: &mut Input,
    comp: &mut CompletionState,
    protocols: &Vec<Protocol<K>>,
)
    requires
        old(comp).index != Some(usize::MAX),
        old(input).wf(),
    ensures
        exists|options: Seq<Seq<char>>| #[trigger]
            suggested(
                protocols@,
                first_chars(old(input).value@, old(comp).confirmed as int),
                options,
            ) && shown_next(*old(input), *old(comp), options, *final(input), *final(comp)),
        final(comp).index != Some(usize::MAX),
        final(input).wf(),
{
    let (confirmed, _) = split_confirmed(input.value.as_str(), comp.confirmed);
    let options = suggestions_for(protocols, confirmed.as_str());
    show_next(input, comp, options)
}

/// A suggestion is not confirmed, and Esc takes it back: the line is again what
/// was confirmed, as long as the suggestion begins with that.
pub proof fn law_esc_takes_suggestion_back(
    input: Input,
    comp: CompletionState,
    options: Seq<Seq<char>>,
    input_after: Input,
    comp_after: CompletionState,
)
    requires
        shown_next(input, comp, options, input_after, comp_after),
        options.len() > 0,
        comp.confirmed <= input.value@.len(),
        begins_with(
            options[next_index(comp.index, options.len() as int)],
            first_chars(input.value@, comp.confirmed as int),
        ),
    ensures
        first_chars(input_after.value@, comp_after.confirmed as int) == first_chars(
            input.value@,
            comp.confirmed as int,
        ),
        input_after.cursor == comp.confirmed,
{
}

/// Tab goes round: from the first suggestion on, as many Tabs as there are
/// suggestions come back to it.
pub proof fn law_tab_goes_round(n: nat, i: nat, k: nat)
    requires
        0 < n <= usize::MAX,
        i < n,
    ensures
        nth_index(i, n, k) == (i + k) % n,
        nth_index(i, n, n) == i,
{
    lemma_nth_index(n, i, k);
    lemma_nth_index(n, i, n);
    let (a, d) = (i as int, n as int);
    assert((a + d) % d == a) by (nonlinear_arith)
        requires
            0 <= a < d,
    ;
}

/// The index of the suggestion after `k` more Tabs.
pub open spec fn nth_index(i: nat, n: nat, k: nat) -> int
    decreases k,
{
    if k == 0 {
        i as int
    } else {
        next_index(Some(nth_index(i, n, (k - 1) as nat) as usize), n as int)
    }
}

proof fn lemma_nth_index(n: nat, i: nat, k: nat)
    requires
        0 < n <= usize::MAX,
        i < n,
    ensures
        nth_index(i, n, k) == (i + k) % n,
    decreases k,
{
    let d = n as int;
    let a = i as int;
    if k == 0 {
        assert(a % d == a) by (nonlinear_arith)
            requires
                0 <= a < d,
        ;
    } else {
        lemma_nth_index(n, i, (k - 1) as nat);
        let m = i + k - 1;
        assert((m % d + 1) % d == (m + 1) % d) by (nonlinear_arith)
            requires
                0 < d,
                0 <= m,
        ;
        assert(0 <= m % d && m % d < d) by (nonlinear_arith)
            requires
                0 < d,
        ;
    }
}

} // verus!
