//! The terminal: its size, its clipboard, and how it is left.

use crossterm::Command;
use servatui::terminal::{
    ask_again, choose_size, copy_sequence, copy_sequence_of, exit_status, parse_terminal_size,
    paste_sequence, restore_bytes, size_from_answer,
};

#[test]
fn test_size_from_env_vars() {
    assert_eq!(parse_terminal_size("200", "50"), Some((200, 50)));
}

#[test]
fn test_size_from_env_missing() {
    assert_eq!(parse_terminal_size("", "50"), None);
    assert_eq!(parse_terminal_size("100", ""), None);
}

#[test]
fn test_size_from_env_partial() {
    assert_eq!(parse_terminal_size("100", ""), None);
}

#[test]
fn test_size_from_env_invalid() {
    assert_eq!(parse_terminal_size("not_a_number", "50"), None);
    assert_eq!(parse_terminal_size("100", "abc"), None);
}

#[test]
fn test_size_from_env_zero() {
    assert_eq!(parse_terminal_size("0", "50"), None);
    assert_eq!(parse_terminal_size("100", "0"), None);
    assert_eq!(parse_terminal_size("0", "0"), None);
}

#[test]
fn sizes_are_numbers_of_sixteen_bits() {
    assert_eq!(parse_terminal_size("65535", "1"), Some((65535, 1)));
    assert_eq!(parse_terminal_size("65536", "1"), None);
    assert_eq!(parse_terminal_size("+80", "24"), Some((80, 24)));
    assert_eq!(parse_terminal_size("-80", "24"), None);
    assert_eq!(parse_terminal_size(" 80", "24"), None);
}

#[test]
fn restore_bytes_match_crossterm_disable_commands() {
    let mut expected = String::new();
    crossterm::event::DisableMouseCapture.write_ansi(&mut expected).unwrap();
    crossterm::terminal::LeaveAlternateScreen.write_ansi(&mut expected).unwrap();
    crossterm::cursor::Show.write_ansi(&mut expected).unwrap();
    assert_eq!(restore_bytes(), expected.into_bytes());
}

#[test]
fn restore_bytes_disable_every_enabled_mode() {
    let bytes = restore_bytes();
    for seq in [
        b"\x1b[?1000l".as_slice(),
        b"\x1b[?1002l",
        b"\x1b[?1003l",
        b"\x1b[?1015l",
        b"\x1b[?1006l",
        b"\x1b[?1049l",
        b"\x1b[?25h",
    ] {
        assert!(bytes.windows(seq.len()).any(|w| w == seq), "restore is missing {seq:?}");
    }
}

#[test]
fn the_terminal_answers_with_its_size() {
    assert_eq!(size_from_answer(&b"\x1b[8;50;200t".to_vec()), Some((200, 50)));
    assert_eq!(size_from_answer(&b"\x1b[8;50t".to_vec()), None);
    assert_eq!(size_from_answer(&b"".to_vec()), None);
}

#[test]
fn the_terminal_is_asked_again_after_a_while() {
    assert!(ask_again(None));
    assert!(!ask_again(Some(0)));
    assert!(ask_again(Some(u128::MAX)));
}

#[test]
fn the_best_known_size_counts() {
    assert_eq!(choose_size(Some((9, 8)), Some((7, 6)), Some((5, 4))), (9, 8));
    assert_eq!(choose_size(None, None, None), (80, 24));
}

#[test]
fn the_clipboard_is_reached_by_escape_sequences() {
    assert_eq!(copy_sequence_of("AAAA"), "\x1b]52;c;AAAA\x1b\\");
    assert_eq!(copy_sequence("hello"), "\x1b]52;c;aGVsbG8=\x1b\\");
    assert_eq!(paste_sequence(), "\x1b]52;c;?\x1b\\");
}

#[test]
fn a_signal_shows_in_the_exit_status() {
    assert_eq!(exit_status(15), 143);
}
