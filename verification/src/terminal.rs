//! Talking to the terminal: its size, the clipboard, and how it is left behind.

use crate::json::utf8_text;
use crate::text::{
    chars_of, decimal_text, has_prefix, is_digit, joined, law_decimal_reads_back,
    lemma_parsed_nonnegative, parse_u16, parsed_unsigned, text_range,
};
use base64::Engine;
use crossterm::Command;
use vstd::prelude::*;
use vstd::string::*;
use vstd::utf8::{decode_utf8, encode_utf8, valid_utf8};

verus! {

/// The size that `COLUMNS` and `LINES` tell: two numbers above zero that fit in
/// sixteen bits.
pub open spec fn told_size(cols: Seq<char>, lines: Seq<char>) -> Option<(u16, u16)> {
    match (parsed_unsigned(cols), parsed_unsigned(lines)) {
        (Some(w), Some(h)) => if 0 < w <= u16::MAX && 0 < h <= u16::MAX {
            Some((w as u16, h as u16))
        } else {
            None
        },
        _ => None,
    }
}

/// Computes [`told_size`].
pub fn parse_terminal_size(cols: &str, lines: &str) -> (r: Option<(u16, u16)>)
    ensures
        r == told_size(cols@, lines@),
{
    proof {
        lemma_parsed_nonnegative(cols@);
        lemma_parsed_nonnegative(lines@);
    }
    match (parse_u16(cols), parse_u16(lines)) {
        (Some(w), Some(h)) => if w == 0 || h == 0 {
            None
        } else {
            Some((w, h))
        },
        _ => None,
    }
}

/// The position of the first `;` of `s` from `i` on, or the end of `s`.
pub open spec fn until_semicolon(s: Seq<char>, i: int) -> int
    decreases s.len() - i,
{
    if i < 0 || i >= s.len() || s[i] == ';' {
        i
    } else {
        until_semicolon(s, i + 1)
    }
}

/// The number in sixteen bits that `s` spells.
pub open spec fn number_in(s: Seq<char>) -> Option<u16> {
    match parsed_unsigned(s) {
        Some(n) if n <= u16::MAX => Some(n as u16),
        _ => None,
    }
}

/// The size in the terminal's answer to a question for it, columns first. The
/// answer is `CSI 8 ; rows ; columns t`; what follows another `;` is passed
/// over.
pub open spec fn answered_size(answer: Seq<char>) -> Option<(u16, u16)> {
    let opening = "\u{1b}[8;"@;
    let n = answer.len() as int;
    let k = opening.len() as int;
    if n <= k || answer.take(k) != opening || answer[n - 1] != 't' {
        None
    } else {
        let inner = answer.subrange(k, n - 1);
        let a = until_semicolon(inner, 0);
        if a >= inner.len() {
            None
        } else {
            let b = until_semicolon(inner, a + 1);
            match (number_in(inner.take(a)), number_in(inner.subrange(a + 1, b))) {
                (Some(rows), Some(cols)) => Some((cols, rows)),
                _ => None,
            }
        }
    }
}

/// Finds the first `;` from `i` on.
fn find_semicolon(s: &Vec<char>, i: usize) -> (k: usize)
    requires
        i <= s@.len(),
    ensures
        k == until_semicolon(s@, i as int),
        i <= k <= s@.len(),
{
    let mut k: usize = i;
    while k < s.len() && s[k] != ';'
        invariant
            i <= k <= s@.len(),
            until_semicolon(s@, i as int) == until_semicolon(s@, k as int),
        decreases s@.len() - k,
    {
        k += 1;
    }
    k
}

/// Reads the terminal's answer to a question for its size.
pub fn size_from_answer(answer: &Vec<u8>) -> (r: Option<(u16, u16)>)
    ensures
        r == if valid_utf8(answer@) {
            answered_size(decode_utf8(answer@))
        } else {
            None
        },
{
    let text = match utf8_text(answer) {
        Some(text) => text,
        None => {
            return None;
        },
    };
    let chars = chars_of(text.as_str());
    let opening = chars_of("\u{1b}[8;");
    proof {
        reveal_strlit("\u{1b}[8;");
    }
    if chars.len() <= opening.len() || !has_prefix(&chars, &opening) || chars[chars.len() - 1]
        != 't' {
        return None;
    }
    let inner_text = text_range(&chars, opening.len(), chars.len() - 1);
    let inner = chars_of(inner_text.as_str());
    let a = find_semicolon(&inner, 0);
    if a >= inner.len() {
        return None;
    }
    let b = find_semicolon(&inner, a + 1);
    let rows = text_range(&inner, 0, a);
    let cols = text_range(&inner, a + 1, b);
    assert(rows@ =~= inner@.take(a as int));
    match (parse_u16(rows.as_str()), parse_u16(cols.as_str())) {
        (Some(rows), Some(cols)) => Some((cols, rows)),
        _ => None,
    }
}

/// The size of the terminal: what it answered, else what the operating system
/// says where that is not empty, else what the environment tells, else 80
/// columns by 24 rows.
pub open spec fn chosen_size(
    answered: Option<(u16, u16)>,
    system: Option<(u16, u16)>,
    told: Option<(u16, u16)>,
) -> (u16, u16) {
    match answered {
        Some(size) => size,
        None => if system matches Some(size) && size.0 > 0 && size.1 > 0 {
            system->Some_0
        } else if told is Some {
            told->Some_0
        } else {
            (80u16, 24u16)
        },
    }
}

/// Computes [`chosen_size`].
pub fn choose_size(
    answered: Option<(u16, u16)>,
    system: Option<(u16, u16)>,
    told: Option<(u16, u16)>,
) -> (r: (u16, u16))
    ensures
        r == chosen_size(answered, system, told),
{
    if let Some(size) = answered {
        return size;
    }
    if let Some((w, h)) = system {
        if w > 0 && h > 0 {
            return (w, h);
        }
    }
    match told {
        Some(size) => size,
        None => (80, 24),
    }
}

/// Whether the terminal is to be asked for its size again, when it was last
/// asked `elapsed` milliseconds ago.
pub open spec fn asking_is_due(elapsed: Option<u128>) -> bool {
    match elapsed {
        Some(ms) => ms >= 500,
        None => true,
    }
}

/// Decides [`asking_is_due`].
pub fn ask_again(elapsed: Option<u128>) -> (b: bool)
    ensures
        b == asking_is_due(elapsed),
{
    match elapsed {
        Some(ms) => ms >= 500,
        None => true,
    }
}

/// The bytes of `text` in Base64.
pub uninterp spec fn base64_of(text: Seq<char>) -> Seq<char>;

/// `base64`'s `Engine::encode` with the standard alphabet and padding.
#[verifier::external_body]
fn encode_base64(text: &str) -> (r: String)
    ensures
        r@ == base64_of(text@),
{
    base64::engine::general_purpose::STANDARD.encode(text)
}

/// The sequence that puts a text whose bytes are `encoded` in Base64 on the
/// clipboard.
pub fn copy_sequence_of(encoded: &str) -> (s: String)
    ensures
        s@ == "\u{1b}]52;c;"@ + encoded@ + "\u{1b}\\"@,
{
    let mut s = joined("\u{1b}]52;c;", encoded);
    s.append("\u{1b}\\");
    s
}

/// The sequence that puts `text` on the clipboard.
pub fn copy_sequence(text: &str) -> (s: String)
    ensures
        s@ == "\u{1b}]52;c;"@ + base64_of(text@) + "\u{1b}\\"@,
{
    copy_sequence_of(encode_base64(text).as_str())
}

/// The sequence that asks for what is on the clipboard.
pub fn paste_sequence() -> (s: String)
    ensures
        s@ == "\u{1b}]52;c;?\u{1b}\\"@,
{
    "\u{1b}]52;c;?\u{1b}\\".to_owned()
}

/// crossterm's `DisableMouseCapture` writes the sequences that end every kind
/// of mouse report.
#[verifier::external_body]
fn write_mouse_off() -> (s: String)
    ensures
        s@ == "\u{1b}[?1006l\u{1b}[?1015l\u{1b}[?1003l\u{1b}[?1002l\u{1b}[?1000l"@,
{
    let mut s = String::new();
    crossterm::event::DisableMouseCapture.write_ansi(&mut s).ok();
    s
}

/// crossterm's `LeaveAlternateScreen` writes the sequence that ends the
/// alternate screen.
#[verifier::external_body]
fn write_main_screen() -> (s: String)
    ensures
        s@ == "\u{1b}[?1049l"@,
{
    let mut s = String::new();
    crossterm::terminal::LeaveAlternateScreen.write_ansi(&mut s).ok();
    s
}

/// crossterm's `Show` writes the sequence that shows the cursor.
#[verifier::external_body]
fn write_cursor_on() -> (s: String)
    ensures
        s@ == "\u{1b}[?25h"@,
{
    let mut s = String::new();
    crossterm::cursor::Show.write_ansi(&mut s).ok();
    s
}

/// The sequences that leave the terminal as it was: the mouse is not reported,
/// the main screen is shown, and so is the cursor.
pub open spec fn restore_text() -> Seq<char> {
    "\u{1b}[?1006l\u{1b}[?1015l\u{1b}[?1003l\u{1b}[?1002l\u{1b}[?1000l"@ + "\u{1b}[?1049l"@
        + "\u{1b}[?25h"@
}

/// The bytes that leave the terminal as it was.
pub fn restore_bytes() -> (v: Vec<u8>)
    ensures
        v@ == encode_utf8(restore_text()),
{
    let mut s = write_mouse_off();
    s.append(write_main_screen().as_str());
    s.append(write_cursor_on().as_str());
    let text = s.as_str();
    assert(text@ == restore_text());
    let bytes = text.as_bytes();
    let mut v: Vec<u8> = Vec::new();
    let mut i: usize = 0;
    while i < bytes.len()
        invariant
            i <= bytes@.len(),
            v@ == bytes@.take(i as int),
        decreases bytes@.len() - i,
    {
        v.push(bytes[i]);
        assert(bytes@.take(i + 1) =~= bytes@.take(i as int).push(bytes@[i as int]));
        i += 1;
    }
    assert(bytes@.take(i as int) =~= bytes@);
    v
}

/// The status with which the program ends after a signal.
pub fn exit_status(signal: i32) -> (status: i32)
    requires
        0 <= signal <= i32::MAX - 128,
    ensures
        status == 128 + signal,
{
    128 + signal
}

/// A size that the terminal answered is taken as it is. Without one, the operating
/// system's word is taken, unless a side of it is zero: then it is as if it had said
/// nothing. The environment is heeded last, and 80 by 24 is for when nobody knows.
pub proof fn law_terminal_knows_its_size_best(
    size: (u16, u16),
    system: Option<(u16, u16)>,
    told: Option<(u16, u16)>,
)
    ensures
        chosen_size(Some(size), system, told) == size,
        size.0 > 0 && size.1 > 0 ==> chosen_size(None, Some(size), told) == size,
        size.0 == 0 || size.1 == 0 ==> chosen_size(None, Some(size), told) == chosen_size(
            None,
            None,
            told,
        ),
        chosen_size(None, None, Some(size)) == size,
        chosen_size(None, None, None).0 == 80,
        chosen_size(None, None, None).1 == 24,
{
}

/// A terminal that was never asked is asked, and one that was asked is left alone
/// for half a second.
pub proof fn law_terminal_is_asked_every_half_second(ms: u128)
    ensures
        asking_is_due(None),
        2 * ms < 1000 ==> !asking_is_due(Some(ms)),
        2 * ms >= 1000 ==> asking_is_due(Some(ms)),
{
}

/// What a terminal answers is read back: rows and then columns, as numbers of at
/// most sixteen bits, between what opens the answer and the `t` that closes it.
pub proof fn law_size_answer_reads_back(rows: u16, cols: u16)
    ensures
        answered_size(
            "\u{1b}[8;"@ + decimal_text(rows as nat) + seq![';'] + decimal_text(cols as nat) + seq![
                't',
            ],
        ) == Some((cols, rows)),
{
    let opening = "\u{1b}[8;"@;
    let (a, b) = (decimal_text(rows as nat), decimal_text(cols as nat));
    let answer = opening + a + seq![';'] + b + seq!['t'];
    let k = opening.len() as int;
    let n = answer.len() as int;
    law_decimal_reads_back(rows as nat);
    law_decimal_reads_back(cols as nat);
    assert(answer.take(k) =~= opening);
    let inner = answer.subrange(k, n - 1);
    assert(inner =~= a + seq![';'] + b);
    let at = a.len() as int;
    assert forall|i: int| 0 <= i < at implies #[trigger] inner[i] != ';' by {
        assert(is_digit(a[i]));
    }
    assert(inner[at] == ';');
    lemma_until_semicolon(inner, 0, at);
    assert forall|i: int| at + 1 <= i < inner.len() implies #[trigger] inner[i] != ';' by {
        assert(is_digit(b[i - at - 1]));
    }
    lemma_until_semicolon(inner, at + 1, inner.len() as int);
    assert(inner.take(at) =~= a);
    assert(inner.subrange(at + 1, inner.len() as int) =~= b);
}

proof fn lemma_until_semicolon(s: Seq<char>, i: int, at: int)
    requires
        0 <= i <= at <= s.len(),
        at < s.len() ==> s[at] == ';',
        forall|j: int| i <= j < at ==> #[trigger] s[j] != ';',
    ensures
        until_semicolon(s, i) == at,
    decreases at - i,
{
    if i < at {
        assert(s[i] != ';');
        lemma_until_semicolon(s, i + 1, at);
    }
}

/// What does not begin as an answer begins, or does not end with a `t`, is no
/// answer.
pub proof fn law_other_input_is_no_answer(s: Seq<char>)
    ensures
        s.len() < "\u{1b}[8;"@.len() ==> answered_size(s) is None,
        s.len() > 0 && s.last() != 't' ==> answered_size(s) is None,
        s.len() >= "\u{1b}[8;"@.len() && s.take("\u{1b}[8;"@.len() as int) != "\u{1b}[8;"@
            ==> answered_size(s) is None,
{
}

/// The environment tells a size by two numbers, columns and rows; a size without
/// columns or rows is none, nor is one that does not fit.
pub proof fn law_told_size_reads_back(cols: nat, lines: nat, other: Seq<char>)
    ensures
        0 < cols <= u16::MAX && 0 < lines <= u16::MAX ==> told_size(
            decimal_text(cols),
            decimal_text(lines),
        ) == Some((cols as u16, lines as u16)),
        cols == 0 || cols > u16::MAX ==> told_size(decimal_text(cols), other) is None,
        lines == 0 || lines > u16::MAX ==> told_size(other, decimal_text(lines)) is None,
        parsed_unsigned(other) is None ==> told_size(other, decimal_text(lines)) is None
            && told_size(decimal_text(cols), other) is None,
{
    law_decimal_reads_back(cols);
    law_decimal_reads_back(lines);
}

} // verus!
