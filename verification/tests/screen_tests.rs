use phantomtty::screen::VteTerminal;

fn rows(t: &VteTerminal) -> Vec<String> {
    let s = t.get_screen();
    let mut out: Vec<String> = s.split('\n').map(|r| r.to_string()).collect();
    // the snapshot ends every row with a newline, so the last split piece is empty
    assert_eq!(out.pop().as_deref(), Some(""));
    out
}

#[test]
fn new_terminal_is_blank() {
    let t = VteTerminal::new(4, 2);
    assert_eq!(t.get_screen(), "    \n    \n");
    assert_eq!(t.cursor(), (0, 0));
}

#[test]
fn print_advances_cursor() {
    let mut t = VteTerminal::new(5, 3);
    t.process(b"ab");
    assert_eq!(t.cursor(), (2, 0));
    assert_eq!(rows(&t)[0], "ab   ");
}

#[test]
fn print_wrap_counts() {
    // seven printables from the origin: column 7 mod 5, row 7 div 5
    let mut t = VteTerminal::new(5, 3);
    t.process(b"abcdefg");
    assert_eq!(t.cursor(), (2, 1));
    assert_eq!(rows(&t), vec!["abcde", "fg   ", "     "]);
}

#[test]
fn line_wrap_scenario() {
    let mut t = VteTerminal::new(5, 2);
    t.process(b"abcdefghij");
    assert_eq!(rows(&t), vec!["abcde", "fghij"]);
    assert_eq!(t.cursor(), (4, 1));
}

#[test]
fn crlf_scenario() {
    let mut t = VteTerminal::new(80, 24);
    t.process(b"hello\r\n");
    let r = rows(&t);
    assert!(r[0].starts_with("hello"));
    assert!(r[0][5..].chars().all(|c| c == ' '));
    assert_eq!(t.cursor(), (0, 1));
}

#[test]
fn scroll_scenario() {
    // four written lines in a three-row grid: the first scrolls away
    // and lines two to four stand in rows zero to two
    let mut t = VteTerminal::new(10, 3);
    t.process(b"one\r\ntwo\r\nthree\r\nfour");
    assert_eq!(rows(&t), vec!["two       ", "three     ", "four      "]);
    assert!(!t.get_screen().contains("one"));
}

#[test]
fn scroll_on_line_feed_at_bottom() {
    let mut t = VteTerminal::new(10, 3);
    t.process(b"a\r\nb\r\nc\r\nd\r\n");
    // the line feed after the fourth line scrolls once more
    assert_eq!(rows(&t), vec!["c         ", "d         ", "          "]);
}

#[test]
fn cursor_stays_in_bounds() {
    let mut t = VteTerminal::new(7, 4);
    let mut bytes: Vec<u8> = Vec::new();
    for i in 0..600u32 {
        bytes.push((i % 256) as u8);
    }
    for b in bytes {
        t.process(&[b]);
        let (c, r) = t.cursor();
        assert!(c < 7);
        assert!(r < 4);
    }
}

#[test]
fn csi_cursor_down() {
    let mut t = VteTerminal::new(80, 24);
    t.process(b"\x1b[3B");
    assert_eq!(t.cursor(), (0, 3));
    let mut t2 = VteTerminal::new(80, 24);
    t2.process(b"\x1b[100B");
    assert_eq!(t2.cursor(), (0, 23));
}

#[test]
fn csi_cursor_moves_clamp() {
    let mut t = VteTerminal::new(80, 24);
    t.process(b"\x1b[5C\x1b[2D");
    assert_eq!(t.cursor(), (3, 0));
    t.process(b"\x1b[99D");
    assert_eq!(t.cursor(), (0, 0));
    t.process(b"\x1b[500C");
    assert_eq!(t.cursor(), (79, 0));
    t.process(b"\x1b[9B\x1b[4A");
    assert_eq!(t.cursor(), (79, 5));
    t.process(b"\x1b[99A");
    assert_eq!(t.cursor(), (79, 0));
}

#[test]
fn csi_default_parameter_is_one() {
    let mut t = VteTerminal::new(80, 24);
    t.process(b"\x1b[B\x1b[C");
    assert_eq!(t.cursor(), (1, 1));
}

#[test]
fn cursor_position() {
    let mut t = VteTerminal::new(80, 24);
    t.process(b"\x1b[5;10H");
    assert_eq!(t.cursor(), (9, 4));
    t.process(b"\x1b[99;200H");
    assert_eq!(t.cursor(), (79, 23));
    t.process(b"\x1b[H");
    assert_eq!(t.cursor(), (0, 0));
    t.process(b"\x1b[2;3f");
    assert_eq!(t.cursor(), (2, 1));
}

#[test]
fn full_erase() {
    let mut t = VteTerminal::new(6, 3);
    t.process(b"abcdefxyz");
    t.process(b"\x1b[2J");
    assert_eq!(t.get_screen(), "      \n      \n      \n");
    assert_eq!(t.cursor(), (0, 0));
}

#[test]
fn erase_display_modes() {
    let mut t = VteTerminal::new(4, 2);
    t.process(b"abcdefgh");
    t.process(b"\x1b[2;2H\x1b[0J");
    assert_eq!(rows(&t), vec!["abcd", "e   "]);

    let mut t2 = VteTerminal::new(4, 2);
    t2.process(b"abcdefgh");
    t2.process(b"\x1b[1;2H\x1b[1J");
    assert_eq!(rows(&t2), vec!["  cd", "efgh"]);
}

#[test]
fn erase_in_line_modes() {
    let mut t = VteTerminal::new(6, 2);
    t.process(b"abcdefuvwxyz");
    t.process(b"\x1b[1;3H\x1b[K");
    assert_eq!(rows(&t), vec!["ab    ", "uvwxyz"]);

    let mut t2 = VteTerminal::new(6, 2);
    t2.process(b"abcdefuvwxyz");
    t2.process(b"\x1b[2;3H\x1b[1K");
    assert_eq!(rows(&t2), vec!["abcdef", "   xyz"]);

    let mut t3 = VteTerminal::new(6, 2);
    t3.process(b"abcdefuvwxyz");
    t3.process(b"\x1b[2;3H\x1b[2K");
    assert_eq!(rows(&t3), vec!["abcdef", "      "]);

    let mut t4 = VteTerminal::new(6, 2);
    t4.process(b"abcdef");
    t4.process(b"\x1b[1;1H\x1b[7K");
    assert_eq!(rows(&t4)[0], "abcdef");
}

#[test]
fn erase_in_line_method() {
    let mut t = VteTerminal::new(5, 1);
    t.process(b"abcde");
    t.move_cursor(0, 2);
    t.erase_in_line(0);
    assert_eq!(rows(&t)[0], "ab   ");
}

#[test]
fn clear_screen_method() {
    let mut t = VteTerminal::new(3, 2);
    t.process(b"xyzxyz");
    t.clear_screen();
    assert_eq!(t.get_screen(), "   \n   \n");
    assert_eq!(t.cursor(), (0, 0));
}

#[test]
fn move_cursor_clamps() {
    let mut t = VteTerminal::new(10, 5);
    t.move_cursor(2, 3);
    assert_eq!(t.cursor(), (3, 2));
    t.move_cursor(50, 60);
    assert_eq!(t.cursor(), (9, 4));
}

#[test]
fn backspace_and_carriage_return() {
    let mut t = VteTerminal::new(8, 2);
    t.process(b"abc\x08x");
    assert_eq!(rows(&t)[0], "abx     ");
    t.process(b"\rz");
    assert_eq!(rows(&t)[0], "zbx     ");
    // backspace at column zero stays put
    let mut t2 = VteTerminal::new(8, 2);
    t2.process(b"\x08q");
    assert_eq!(t2.cursor(), (1, 0));
}

#[test]
fn form_feed_clears() {
    let mut t = VteTerminal::new(4, 2);
    t.process(b"abcdef\x0c");
    assert_eq!(t.get_screen(), "    \n    \n");
    assert_eq!(t.cursor(), (0, 0));
}

#[test]
fn split_sequence_across_chunks() {
    // the scanner state persists: an escape sequence split over reads
    // is interpreted as one
    let mut t = VteTerminal::new(80, 24);
    t.process(b"\x1b[");
    t.process(b"1");
    t.process(b"0");
    t.process(b";4");
    t.process(b"H");
    assert_eq!(t.cursor(), (3, 9));
}

#[test]
fn unknown_sequences_are_discarded() {
    let mut t = VteTerminal::new(10, 3);
    t.process(b"\x1b[31mred\x1b[0m");
    assert_eq!(rows(&t)[0], "red       ");
    t.process(b"\x1b(B\x1b[?25h");
    assert_eq!(rows(&t)[0], "red       ");
    assert_eq!(t.cursor(), (3, 0));
}

#[test]
fn empty_chunk_changes_nothing() {
    let mut t = VteTerminal::new(5, 2);
    t.process(b"ab");
    let before = t.get_screen();
    t.process(b"");
    assert_eq!(t.get_screen(), before);
    assert_eq!(t.cursor(), (2, 0));
}

#[test]
fn smallest_grid_wraps_in_place() {
    let mut t = VteTerminal::new(1, 1);
    t.process(b"abc");
    assert_eq!(t.get_screen(), "c\n");
    assert_eq!(t.cursor(), (0, 0));
    t.process(b"\x1b[2J");
    assert_eq!(t.get_screen(), " \n");
}

#[test]
fn parameter_values_saturate() {
    let mut t = VteTerminal::new(80, 24);
    t.process(b"\x1b[99999999999999B");
    assert_eq!(t.cursor(), (0, 23));
}
