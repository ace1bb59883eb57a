//! Selection of text in wrapped rows.

use servatui::selection::{
    char_count, extract_selection, in_order, orig_col, row_content, word_boundaries, ClickMode,
    Selection,
};
use servatui::tui::{update_selection, MouseState, TuiState};
use servatui::wrap::{clean_line, lay_rows, wrap_log, wrap_with_offsets};

fn make_mouse_state() -> MouseState {
    MouseState::default()
}

fn make_state(lines: Vec<&str>) -> TuiState {
    TuiState { log_lines: lines.into_iter().map(String::from).collect(), ..TuiState::new() }
}

fn rows(lines: &[&str]) -> Vec<String> {
    lines.iter().map(|l| l.to_string()).collect()
}

#[test]
fn test_leftward_drag_includes_anchor_char() {
    let mut state = make_state(vec!["ABCDEFGH"]);
    let mut mouse = make_mouse_state();
    mouse.selecting = true;
    mouse.click_mode = ClickMode::Char;
    mouse.anchor = Some((0, 5));

    let wrapped = state.log_lines.clone();
    update_selection(&mut state, &mouse, (0, 5), (0, 2), &wrapped, &vec![]);

    let (sr, sc, er, ec) = state.selection.unwrap();
    assert_eq!((sr, sc), (0, 2), "leftward: start should be at current position");
    assert_eq!((er, ec), (0, 6), "leftward: end should be anchor+1 (inclusive)");
}

#[test]
fn test_rightward_drag_includes_current_char() {
    let mut state = make_state(vec!["ABCDEFGH"]);
    let mut mouse = make_mouse_state();
    mouse.selecting = true;
    mouse.click_mode = ClickMode::Char;
    mouse.anchor = Some((0, 2));

    let wrapped = state.log_lines.clone();
    update_selection(&mut state, &mouse, (0, 2), (0, 5), &wrapped, &vec![]);

    let (sr, sc, er, ec) = state.selection.unwrap();
    assert_eq!((sr, sc), (0, 2), "rightward: start should be at anchor");
    assert_eq!((er, ec), (0, 6), "rightward: end should be current+1 (inclusive)");
}

#[test]
fn test_extract_leftward_drag_text() {
    let wrapped = vec!["ABCDEFGH".to_string()];
    let text = extract_selection(&wrapped, &vec![], 0, 2, 0, 6, false);
    assert_eq!(text, "CDEF", "should include both endpoints");
}

#[test]
fn test_extract_continuation_row_not_shifted_by_indent() {
    let wrapped = vec!["ABCD".to_string(), "↪ EFGH".to_string()];
    assert_eq!(extract_selection(&wrapped, &vec![0], 1, 2, 1, 6, false), "EFGH");
}

#[test]
fn test_extract_across_wrap_keeps_break_space() {
    let wrapped = vec!["hello".to_string(), "↪ world".to_string()];
    let end = "↪ world".chars().count();
    assert_eq!(extract_selection(&wrapped, &vec![0, 6], 0, 0, 1, end, false), "hello world");
}

#[test]
fn test_extract_partial_across_wrap_keeps_break_space() {
    let wrapped = vec!["he-llo".to_string(), "↪ world".to_string()];
    let end = "↪ world".chars().count();
    assert_eq!(extract_selection(&wrapped, &vec![0, 3], 0, 3, 1, end, false), "llo world");
}

#[test]
fn test_select_through_last_char_of_continuation_row() {
    let wrapped = vec!["↪ def".to_string()];
    let mut state = make_state(vec!["irrelevant"]);
    let mut mouse = make_mouse_state();
    mouse.selecting = true;
    mouse.click_mode = ClickMode::Char;
    mouse.anchor = Some((0, 2));
    update_selection(&mut state, &mouse, (0, 2), (0, 4), &wrapped, &vec![0]);
    let (sr, sc, er, ec) = state.selection.unwrap();
    assert_eq!(extract_selection(&wrapped, &vec![0], sr, sc, er, ec, false), "def");
}

#[test]
fn test_line_select_continuation_row_includes_all_content() {
    let wrapped = vec!["↪ def".to_string()];
    let mut state = make_state(vec!["irrelevant"]);
    let mut mouse = make_mouse_state();
    mouse.selecting = true;
    mouse.click_mode = ClickMode::Line;
    mouse.anchor = Some((0, 0));
    update_selection(&mut state, &mouse, (0, 0), (0, 4), &wrapped, &vec![0]);
    let (sr, sc, er, ec) = state.selection.unwrap();
    assert_eq!(extract_selection(&wrapped, &vec![0], sr, sc, er, ec, false), "def");
}

#[test]
fn test_wrap_with_offsets_matches_textwrap() {
    let cases = [
        "short",
        "the quick brown fox jumps over the lazy dog",
        "aaaaaaaaaaaaaaaaaaaaaaaaaaaaaaaaaa",
        "hello   world  multiple   spaces",
        "trailing spaces   ",
        "  leading",
        "",
    ];
    for &text in &cases {
        for width in [3usize, 5, 8, 20] {
            let opts = textwrap::Options::new(width).subsequent_indent("↪ ").break_words(true);
            let expected: Vec<String> =
                textwrap::wrap(text, opts).into_iter().map(|c| c.into_owned()).collect();
            let got: Vec<String> =
                wrap_with_offsets(text, width, "↪ ").into_iter().map(|(r, _)| r).collect();
            assert_eq!(got, expected, "text={text:?} width={width}");
        }
    }
}

#[test]
fn test_wrap_offsets_are_content_positions() {
    let rows = wrap_with_offsets("hello world", 8, "↪ ");
    assert_eq!(rows[0], ("hello".to_string(), 0));
    assert_eq!(rows[1], ("↪ world".to_string(), 6));

    let rows = wrap_with_offsets("abcdef", 2, "");
    assert_eq!(
        rows,
        vec![("ab".to_string(), 0), ("cd".to_string(), 2), ("ef".to_string(), 4)]
    );
}

fn rect_fixture() -> (Vec<String>, Vec<usize>) {
    (rows(&["hello", "↪ world", "short", "firmi", "↪ xyz"]), vec![0, 6, 0, 0, 6])
}

#[test]
fn test_rect_extract_selects_by_original_column() {
    let (wrapped, offsets) = rect_fixture();
    let text = extract_selection(&wrapped, &offsets, 1, 6, 4, 11, true);
    assert_eq!(text, "world\n\n\nxyz");
}

#[test]
fn test_rect_extract_mid_continuation_only_same_depth() {
    let (wrapped, offsets) = rect_fixture();
    let text = extract_selection(&wrapped, &offsets, 0, 7, 4, 10, true);
    assert_eq!(text, "\norl\n\n\nyz");
}

#[test]
fn test_rect_extract_unwrapped_rows_behaves_like_display_columns() {
    let wrapped = vec!["abcde".to_string(), "fghij".to_string()];
    let text = extract_selection(&wrapped, &vec![0, 0], 0, 1, 1, 4, true);
    assert_eq!(text, "bcd\nghi");
}

#[test]
fn test_rect_drag_stores_original_columns() {
    let (wrapped, offsets) = rect_fixture();
    let mut state = make_state(vec!["irrelevant"]);
    let mut mouse = make_mouse_state();
    mouse.selecting = true;
    mouse.click_mode = ClickMode::Char;
    state.selection_rect = true;
    mouse.anchor = Some((1, 2));
    update_selection(&mut state, &mouse, (1, 2), (4, 4), &wrapped, &offsets);
    let (sr, sc, er, ec) = state.selection.unwrap();
    assert_eq!((sr, sc, er, ec), (1, 6, 4, 9));
    assert_eq!(extract_selection(&wrapped, &offsets, sr, sc, er, ec, true), "wor\n\n\nxyz");
}

#[test]
fn test_word_boundaries_middle() {
    let line = "hello world foo";
    let (start, end) = word_boundaries(line, 7);
    assert_eq!(start, 6, "word start");
    assert_eq!(end, 11, "word end (exclusive)");
}

#[test]
fn test_word_boundaries_at_space() {
    let line = "hello world";
    let (start, end) = word_boundaries(line, 5);
    assert_eq!(start, 5, "space is its own word");
    assert_eq!(end, 6, "single char");
}

#[test]
fn test_extract_multiline_no_continuation_newlines() {
    let wrapped = rows(&["Hello World", "↪ continuation", "Next line"]);
    let text = extract_selection(&wrapped, &vec![0, 12, 0], 0, 0, 2, 9, false);
    assert_eq!(text, "Hello World continuation\nNext line");
}

#[test]
fn test_extract_single_line() {
    let wrapped = vec!["Hello World".to_string()];
    let text = extract_selection(&wrapped, &vec![0], 0, 0, 0, 11, false);
    assert_eq!(text, "Hello World");
}

#[test]
fn a_word_takes_in_letters_digits_and_some_marks() {
    assert_eq!(word_boundaries("a_1 b", 1), (0, 3));
    assert_eq!(word_boundaries("äö-ü", 0), (0, 4));
    assert_eq!(word_boundaries("äö+ü", 0), (0, 2));
    assert_eq!(word_boundaries("äö+ü", 2), (2, 3));
}

#[test]
fn a_click_behind_the_line_is_no_word() {
    assert_eq!(word_boundaries("ab", 7), (7, 7));
}

#[test]
fn word_drag_takes_in_both_words() {
    let wrapped = rows(&["one two three"]);
    let mut state = make_state(vec!["irrelevant"]);
    let mut mouse = make_mouse_state();
    mouse.click_mode = ClickMode::Word;
    update_selection(&mut state, &mouse, (0, 4), (0, 9), &wrapped, &vec![0]);
    let (sr, sc, er, ec) = state.selection.unwrap();
    assert_eq!(extract_selection(&wrapped, &vec![0], sr, sc, er, ec, false), "two three");
}

#[test]
fn word_and_line_drags_back_take_in_both_ends() {
    let wrapped = rows(&["foo bar baz"]);
    let mut state = make_state(vec!["irrelevant"]);
    let mut mouse = make_mouse_state();
    mouse.click_mode = ClickMode::Word;
    update_selection(&mut state, &mouse, (0, 8), (0, 1), &wrapped, &vec![0]);
    assert_eq!(state.selection, Some((0, 0, 0, 11)));
    update_selection(&mut state, &mouse, (0, 4), (0, 1), &wrapped, &vec![0]);
    assert_eq!(state.selection, Some((0, 0, 0, 7)));

    let wrapped = rows(&["a", "b", "c"]);
    mouse.click_mode = ClickMode::Line;
    update_selection(&mut state, &mouse, (2, 0), (0, 0), &wrapped, &vec![0, 0, 0]);
    assert_eq!(state.selection, Some((0, 0, 2, 1)));
}

#[test]
fn a_word_drag_forward_keeps_its_anchor() {
    let wrapped = rows(&["hello world"]);
    let mut state = make_state(vec!["irrelevant"]);
    let mut mouse = make_mouse_state();
    mouse.click_mode = ClickMode::Word;
    update_selection(&mut state, &mouse, (0, 2), (0, 7), &wrapped, &vec![0]);
    assert_eq!(state.selection, Some((0, 2, 0, 11)));
}

#[test]
fn copying_goes_on_where_it_left_off() {
    let wrapped = rows(&["abc def", "↪ ghi", "next"]);
    let offsets = vec![0, 8, 0];
    let copy = |a: (usize, usize), b: (usize, usize)| {
        extract_selection(&wrapped, &offsets, a.0, a.1, b.0, b.1, false)
    };
    let whole = copy((0, 4), (2, 2));
    assert_eq!(whole, "def ghi\nne");
    for at in [(0, 4), (0, 6), (0, 7), (1, 0), (1, 3), (1, 5), (2, 0), (2, 2)] {
        assert_eq!(copy((0, 4), at) + &copy(at, (2, 2)), whole);
    }
}

#[test]
fn a_box_has_two_diagonals() {
    let wrapped = rows(&["abcdef", "ghijkl"]);
    let there = extract_selection(&wrapped, &vec![0, 0], 0, 1, 1, 4, true);
    assert_eq!(there, "bcd\nhij");
    assert_eq!(extract_selection(&wrapped, &vec![0, 0], 0, 4, 1, 1, true), there);
    assert_eq!(extract_selection(&wrapped, &vec![0, 0], 1, 1, 0, 4, true), there);
}

#[test]
fn a_drag_back_from_the_last_column_of_all_fits() {
    let wrapped = rows(&["abcdef"]);
    let mut state = make_state(vec!["irrelevant"]);
    let mouse = make_mouse_state();
    update_selection(&mut state, &mouse, (0, usize::MAX - 1), (0, 3), &wrapped, &vec![0]);
    assert_eq!(state.selection, Some((0, 3, 0, usize::MAX)));
    update_selection(&mut state, &mouse, (0, 1), (0, usize::MAX), &wrapped, &vec![0]);
    assert_eq!(state.selection, Some((0, 1, 0, 7)));
}

#[test]
fn rows_of_words_are_laid_out() {
    let word = |w: &str, s: &str| (w.to_string(), s.to_string());
    let groups =
        vec![vec![word("the", " "), word("fox", "  ")], vec![word("ran", "")]];
    assert_eq!(
        lay_rows(&groups, "> "),
        vec![("the fox".to_string(), 0), ("> ran".to_string(), 9)]
    );
    assert_eq!(lay_rows(&vec![], "> "), vec![(String::new(), 0)]);
}

#[test]
fn a_block_drag_takes_in_both_end_columns() {
    let wrapped = rows(&["abcdef", "ghijkl"]);
    let mut state = make_state(vec!["irrelevant"]);
    state.selection_rect = true;
    let mouse = make_mouse_state();
    for (anchor, current) in
        [((0, 5), (1, 2)), ((1, 2), (0, 5)), ((0, 2), (1, 5)), ((1, 5), (0, 2))]
    {
        update_selection(&mut state, &mouse, anchor, current, &wrapped, &vec![0, 0]);
        let (sr, sc, er, ec) = state.selection.unwrap();
        assert_eq!(
            extract_selection(&wrapped, &vec![0, 0], sr, sc, er, ec, true),
            "cdef\nijkl"
        );
    }
}

#[test]
fn a_plain_drag_does_not_look_at_offsets() {
    let wrapped = rows(&["abcdef"]);
    let mut state = make_state(vec!["irrelevant"]);
    let mouse = make_mouse_state();
    update_selection(&mut state, &mouse, (0, 1), (0, 3), &wrapped, &vec![usize::MAX]);
    assert_eq!(state.selection, Some((0, 1, 0, 4)));
}

#[test]
fn copying_ignores_the_direction() {
    let wrapped = rows(&["abc", "def"]);
    let there = extract_selection(&wrapped, &vec![0, 0], 0, 1, 1, 2, false);
    let back = extract_selection(&wrapped, &vec![0, 0], 1, 2, 0, 1, false);
    assert_eq!(there, "bc\nde");
    assert_eq!(back, there);
    let sel: Selection = (1, 2, 0, 1);
    assert_eq!(in_order(sel), (0, 1, 1, 2));
}

#[test]
fn copying_beyond_the_log_is_bounded() {
    let wrapped = rows(&["abc", "def"]);
    let text = extract_selection(&wrapped, &vec![0, 0], 0, 0, 900, 900, false);
    assert_eq!(text, "abc\ndef\n");
    assert_eq!(extract_selection(&wrapped, &vec![0, 0], 7, 0, 9, 1, false), "");
}

#[test]
fn a_mark_is_no_content() {
    assert_eq!(row_content("↪ def"), ("def", 2));
    assert_eq!(row_content("def"), ("def", 0));
    assert_eq!(row_content("↪def"), ("↪def", 0));
    assert_eq!(char_count("↪ äb"), 4);
}

#[test]
fn a_column_on_the_mark_is_the_first_of_the_row() {
    let (wrapped, offsets) = rect_fixture();
    assert_eq!(orig_col(&wrapped, &offsets, 1, 0), 6);
    assert_eq!(orig_col(&wrapped, &offsets, 1, 2), 6);
    assert_eq!(orig_col(&wrapped, &offsets, 1, 3), 7);
    assert_eq!(orig_col(&wrapped, &offsets, 0, 3), 3);
}

#[test]
fn a_line_wrapped_at_single_spaces_copies_back() {
    let line = "the quick brown fox jumps over the lazy dog";
    let (wrapped, offsets) = wrap_log(&vec![line.to_string()], 12);
    assert!(wrapped.len() > 3);
    let last = wrapped.len() - 1;
    let end = wrapped[last].chars().count();
    assert_eq!(extract_selection(&wrapped, &offsets, 0, 0, last, end, false), line);
}

#[test]
fn a_log_is_wrapped_line_by_line() {
    let (wrapped, offsets) = wrap_log(&rows(&["hello world", "short"]), 8);
    assert_eq!(wrapped, rows(&["hello", "↪ world", "short"]));
    assert_eq!(offsets, vec![0, 6, 0]);
    assert_eq!(wrap_log(&vec![], 8), (vec![], vec![]));
}

#[test]
fn shown_lines_have_no_tabs_and_nothing_overwritten() {
    assert_eq!(clean_line("a\tb"), "a    b");
    assert_eq!(clean_line("old\rnew"), "new");
    assert_eq!(clean_line("plain"), "plain");
}
