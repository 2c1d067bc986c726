use shell_pane::screen::{is_control, Screen};

fn lines_of(s: &Screen) -> Vec<String> {
    s.lines()
}

#[test]
fn printable_run_lands_in_order() {
    let mut s = Screen::with_size(80, 24);
    s.feed("hello");
    assert_eq!(s.line(0), "hello");
    assert_eq!(s.cursor(), (5, 0));
}

#[test]
fn printable_run_is_padded_up_to_the_cursor() {
    let mut s = Screen::with_size(80, 24);
    s.feed("abcdef\n");
    assert_eq!(s.cursor(), (6, 1));
    s.feed("xy");
    assert_eq!(s.line(1), "      xy");
    assert_eq!(s.cursor(), (8, 1));
}

#[test]
fn printable_character_is_inserted_not_overwritten() {
    let mut s = Screen::with_size(80, 24);
    s.feed("abc\rXY");
    assert_eq!(s.line(0), "XYabc");
    assert_eq!(s.cursor(), (2, 0));
}

#[test]
fn crlf_moves_to_start_of_next_row() {
    let mut s = Screen::with_size(80, 2);
    s.feed("hi\r\n");
    assert_eq!(s.cursor(), (0, 1));
    assert_eq!(s.line_count(), 2);
    s.feed("yo\r\n");
    assert_eq!(s.cursor(), (0, 2));
    assert_eq!(s.line_count(), 3);
    assert_eq!(lines_of(&s), vec!["hi".to_string(), "yo".to_string(), String::new()]);
}

#[test]
fn tab_at_column_five_of_eight_pads_with_spaces() {
    let mut s = Screen::with_size(8, 2);
    s.feed("abcde\t");
    assert_eq!(s.cursor(), (8, 0));
    assert_eq!(s.line(0), "abcde   ");
    assert!(!s.line(0).contains('\t'));
}

#[test]
fn tab_advances_eight_columns() {
    let mut s = Screen::with_size(80, 2);
    s.feed("\tx");
    assert_eq!(s.line(0), "        x");
    assert_eq!(s.cursor(), (9, 0));
}

#[test]
fn backspace_at_column_zero_is_a_no_op() {
    let mut s = Screen::with_size(80, 2);
    s.feed("\x08");
    assert_eq!(s.cursor(), (0, 0));
    assert_eq!(s.line(0), "");
}

#[test]
fn backspace_moves_left_without_erasing() {
    let mut s = Screen::with_size(80, 2);
    s.feed("ab\x08");
    assert_eq!(s.cursor(), (1, 0));
    assert_eq!(s.line(0), "ab");
}

#[test]
fn buffer_is_trimmed_to_two_grids() {
    let mut s = Screen::with_size(80, 2);
    s.feed("top\n\n\n\n\n");
    assert_eq!(s.line_count(), 6);
    assert_eq!(s.cursor(), (3, 5));
    s.feed("\n");
    assert_eq!(s.line_count(), 4);
    assert_eq!(s.cursor(), (3, 3));
    assert_eq!(s.line(3), "");
}

#[test]
fn trimming_keeps_the_newest_rows() {
    let mut s = Screen::with_size(80, 2);
    s.feed("a\r\nb\r\nc\r\nd\r\ne\r\nf\r\ng");
    assert_eq!(lines_of(&s), vec!["d".to_string(), "e".to_string(), "f".to_string(), "g".to_string()]);
    assert_eq!(s.cursor(), (1, 3));
}

#[test]
fn wrap_scenario_from_populated_buffer() {
    let mut s = Screen::with_size(10, 2);
    s.feed("hello");
    assert_eq!(lines_of(&s), vec!["hello".to_string(), String::new()]);
    assert_eq!(s.cursor(), (5, 0));
    s.feed(" world");
    assert_eq!(lines_of(&s), vec!["hello worl".to_string(), "d".to_string()]);
    assert_eq!(s.cursor(), (1, 1));
}

#[test]
fn wrap_appends_a_row_at_the_end() {
    let mut s = Screen::with_size(3, 1);
    s.feed("abcd");
    assert_eq!(lines_of(&s), vec!["abc".to_string(), "d".to_string()]);
    assert_eq!(s.cursor(), (1, 1));
}

#[test]
fn other_control_characters_are_discarded() {
    let mut s = Screen::with_size(80, 2);
    s.feed("a\x07\x1b\u{7f}\u{85}b");
    assert_eq!(s.line(0), "ab");
    assert_eq!(s.cursor(), (2, 0));
    assert!(is_control('\x00'));
    assert!(is_control('\u{9f}'));
    assert!(!is_control(' '));
    assert!(!is_control('あ'));
}

#[test]
fn non_ascii_characters_count_as_one_column() {
    let mut s = Screen::with_size(80, 2);
    s.feed("日本\r語");
    assert_eq!(s.line(0), "語日本");
    assert_eq!(s.cursor(), (1, 0));
}

#[test]
fn new_screen_has_default_grid() {
    let s = Screen::new();
    assert_eq!(s.size(), (80, 24));
    assert_eq!(s.line_count(), 24);
    assert_eq!(s.cursor(), (0, 0));
    assert_eq!(s.visible_lines().len(), 24);
}

#[test]
fn resize_grows_but_never_shrinks_the_buffer() {
    let mut s = Screen::with_size(80, 24);
    s.resize(40, 10);
    assert_eq!(s.size(), (40, 10));
    assert_eq!(s.line_count(), 24);
    assert_eq!(s.visible_lines().len(), 10);
    s.resize(40, 30);
    assert_eq!(s.line_count(), 30);
    s.resize(0, 5);
    assert_eq!(s.size(), (40, 30));
}

#[test]
fn visible_lines_start_at_the_top() {
    let mut s = Screen::with_size(80, 2);
    s.feed("one\r\ntwo\r\nthree");
    assert_eq!(s.visible_lines(), vec!["one".to_string(), "two".to_string()]);
}

#[test]
fn shrunk_grid_trims_to_two_grids_on_next_line_feed() {
    let mut s = Screen::with_size(80, 24);
    s.resize(80, 2);
    s.feed(&"\n".repeat(23));
    assert_eq!(s.line_count(), 24);
    assert_eq!(s.cursor(), (0, 23));
    s.feed("\n");
    assert_eq!(s.line_count(), 4);
    assert_eq!(s.cursor(), (0, 3));
}

#[test]
fn chunk_boundaries_do_not_matter() {
    let mut whole = Screen::with_size(10, 2);
    whole.feed("ab\r\ncd\tef\x08g hijklmno");
    let mut split = Screen::with_size(10, 2);
    for chunk in ["ab\r", "\ncd", "\tef\x08", "g hij", "klmno"] {
        split.feed(chunk);
    }
    assert_eq!(whole.lines(), split.lines());
    assert_eq!(whole.cursor(), split.cursor());
}
