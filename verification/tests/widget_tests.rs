use phantomtty::widget::{u64_dec, TerminalWidget, HISTORY_SIZE};

#[test]
fn new_widget_is_empty() {
    let w = TerminalWidget::new();
    assert_eq!(w.output, "");
    assert!(w.history.is_empty());
    assert!(w.history_index.is_none());
}

#[test]
fn set_output_replaces_text() {
    let mut w = TerminalWidget::new();
    w.set_output("Welcome to PhantomTTY!\n");
    assert_eq!(w.output, "Welcome to PhantomTTY!\n");
    w.set_output("next");
    assert_eq!(w.output, "next");
}

#[test]
fn history_is_most_recent_first() {
    let mut w = TerminalWidget::new();
    w.add_to_history("first".to_string());
    w.add_to_history("second".to_string());
    assert_eq!(w.history[0], "second");
    assert_eq!(w.history[1], "first");
    assert!(w.history_index.is_none());
}

#[test]
fn history_capacity_drops_oldest() {
    let mut w = TerminalWidget::new();
    for i in 0..(HISTORY_SIZE + 5) {
        w.add_to_history(format!("cmd{}", i));
    }
    assert_eq!(w.history.len(), HISTORY_SIZE);
    assert_eq!(w.history[0], format!("cmd{}", HISTORY_SIZE + 4));
    // the five oldest are gone
    assert_eq!(w.history[HISTORY_SIZE - 1], "cmd5");
}

#[test]
fn previous_command_walks_back() {
    let mut w = TerminalWidget::new();
    assert_eq!(w.get_previous_command(), None);
    w.add_to_history("first".to_string());
    w.add_to_history("second".to_string());
    assert_eq!(w.get_previous_command().as_deref(), Some("second"));
    assert_eq!(w.get_previous_command().as_deref(), Some("first"));
    // exhausted: stays put
    assert_eq!(w.get_previous_command(), None);
    assert_eq!(w.history_index, Some(1));
}

#[test]
fn next_command_walks_forward() {
    let mut w = TerminalWidget::new();
    assert_eq!(w.get_next_command(), None);
    w.add_to_history("first".to_string());
    w.add_to_history("second".to_string());
    w.get_previous_command();
    w.get_previous_command();
    assert_eq!(w.get_next_command().as_deref(), Some("second"));
    // past the newest entry: an empty line and no recall position
    assert_eq!(w.get_next_command().as_deref(), Some(""));
    assert!(w.history_index.is_none());
    assert_eq!(w.get_next_command(), None);
}

#[test]
fn adding_clears_recall_position() {
    let mut w = TerminalWidget::new();
    w.add_to_history("first".to_string());
    w.get_previous_command();
    assert_eq!(w.history_index, Some(0));
    w.add_to_history("second".to_string());
    assert!(w.history_index.is_none());
}

#[test]
fn listing_numbers_from_one() {
    let mut w = TerminalWidget::new();
    w.add_to_history("ls -l".to_string());
    w.add_to_history("cd /tmp".to_string());
    assert_eq!(w.history_listing(), "1: cd /tmp\n2: ls -l\n");
}

#[test]
fn listing_of_empty_history() {
    let w = TerminalWidget::new();
    assert_eq!(w.history_listing(), "");
}

#[test]
fn decimal_rendering() {
    assert_eq!(u64_dec(0), vec!['0']);
    assert_eq!(u64_dec(7), vec!['7']);
    assert_eq!(u64_dec(10), vec!['1', '0']);
    assert_eq!(u64_dec(1234), vec!['1', '2', '3', '4']);
    assert_eq!(u64_dec(1000), vec!['1', '0', '0', '0']);
}
