use herdr_tilt::logs::{LogBuffer, LogNavigation};

#[test]
fn log_buffer_bounds_scrollback_and_individual_line_size() {
    let mut logs = LogBuffer::with_limits(3, 8);

    logs.push("first");
    logs.push("second");
    logs.push("third");
    logs.push("a very long fourth line");

    assert_eq!(
        logs.lines(),
        ["second", "third", "a very l"]
    );
    assert_eq!(logs.len(), 3);
    assert_eq!(logs.dropped_lines(), 1);
    assert_eq!(logs.truncated_lines(), 1);
}

#[test]
fn log_buffer_preserves_a_scrolled_view_while_live_lines_arrive() {
    let mut logs = LogBuffer::with_limits(10, 80);
    for line in ["one", "two", "three", "four", "five"] {
        logs.push(line);
    }

    assert_eq!(logs.visible_lines(2), ["four", "five"]);
    assert!(logs.is_following());

    logs.navigate(LogNavigation::Up, 1);
    assert_eq!(logs.visible_lines(2), ["three", "four"]);
    assert!(!logs.is_following());

    logs.push("six");
    assert_eq!(logs.visible_lines(2), ["three", "four"]);

    logs.navigate(LogNavigation::End, 2);
    assert_eq!(logs.visible_lines(2), ["five", "six"]);
    assert!(logs.is_following());

    for _ in 0..20 {
        logs.navigate(LogNavigation::Up, 2);
    }
    assert_eq!(logs.visible_lines(2), ["one", "two"]);
}

#[test]
fn log_buffer_supports_follow_wrap_horizontal_navigation_and_clear() {
    let mut logs = LogBuffer::with_limits(10, 80);
    logs.push("one");
    logs.push("two");

    logs.toggle_follow();
    logs.push("three");
    assert_eq!(logs.visible_lines(2), ["one", "two"]);
    assert!(!logs.is_following());

    assert!(logs.is_wrapping());
    logs.toggle_wrap();
    let was_following = logs.is_following();
    logs.navigate(LogNavigation::Right, 10);
    assert_eq!(logs.horizontal_offset(), 1);
    assert_eq!(logs.is_following(), was_following);
    logs.navigate(LogNavigation::Left, 10);
    assert_eq!(logs.horizontal_offset(), 0);

    logs.toggle_follow();
    assert_eq!(logs.visible_lines(2), ["two", "three"]);
    logs.clear();
    assert!(logs.is_empty());
    assert!(logs.is_following());
}

#[test]
fn log_buffer_removes_terminal_escape_sequences_before_rendering() {
    let mut logs = LogBuffer::with_limits(10, 80);

    logs.push("\u{1b}[31merror\u{1b}[0m: failed");

    assert_eq!(logs.lines(), ["error: failed"]);
}

#[test]
fn log_buffer_without_room_counts_what_it_drops() {
    let mut logs = LogBuffer::with_limits(0, 80);

    logs.push("first");
    logs.push("second");

    assert!(logs.is_empty());
    assert_eq!(logs.dropped_lines(), 2);
    assert_eq!(logs.truncated_lines(), 0);
}

#[test]
fn log_buffer_cuts_lines_between_characters() {
    let mut logs = LogBuffer::with_limits(2, 4);

    logs.push("aéé");
    logs.push("ééé");

    assert_eq!(logs.lines(), ["aé", "éé"]);
    assert_eq!(logs.truncated_lines(), 2);
}

#[test]
fn log_buffer_defaults_bound_records_and_bytes() {
    let mut logs = LogBuffer::default();
    let long = "x".repeat(9000);
    for _ in 0..2001 {
        logs.push("short");
    }
    logs.push(&long);

    assert_eq!(logs.len(), 2000);
    assert_eq!(logs.dropped_lines(), 2);
    assert_eq!(logs.lines()[1999].len(), 8192);
    assert_eq!(logs.truncated_lines(), 1);
}

#[test]
fn log_buffer_ends_every_escape_sequence_where_terminals_do() {
    let mut logs = LogBuffer::with_limits(20, 80);

    logs.push("\u{1b}(Bok");
    logs.push("a\u{1b}#8b\u{1b} Fc\u{1b}$(Dd");
    logs.push("\u{1b}cafter reset\r\n");
    logs.push("\u{1b}7saved\u{1b}8");
    logs.push("\u{1b}[1;31mred\u{1b}[0m\u{1b}[?25l\u{1b}[2 q");
    logs.push("\u{1b}]0;title\u{7}after bell");
    logs.push("\u{1b}]0;title\u{1b}\\after string");
    logs.push("\u{1b}P1$r0m\u{1b}\\device\u{1b}Xstart\u{1b}\\ of");
    logs.push("\u{1b}^private \u{7}\u{1b}\\message\u{1b}_app\u{1b}\\");
    logs.push("\u{1b}\u{1b}[31mtwice\u{1b}[1\u{1b}[0m\u{1b}(\u{1b}(B");
    logs.push("\u{1b}]0;a\u{1b}\u{1b}\\ended\u{1b}Pa\u{1b}\u{1b}\\");
    logs.push("cut \u{1b}Pnever ended");
    logs.push("plain text");

    assert_eq!(
        logs.lines(),
        [
            "ok",
            "abcd",
            "after reset",
            "saved",
            "red",
            "after bell",
            "after string",
            "device of",
            "message",
            "twice",
            "ended",
            "cut ",
            "plain text"
        ]
    );
}

#[test]
fn log_buffer_loses_only_the_record_that_is_dropped_from_view() {
    let mut logs = LogBuffer::with_limits(3, 80);
    for line in ["one", "two", "three"] {
        logs.push(line);
    }
    logs.navigate(LogNavigation::Up, 1);
    assert_eq!(logs.visible_lines(2), ["one", "two"]);

    logs.push("four");
    assert_eq!(logs.visible_lines(2), ["two"]);
    logs.push("five");
    assert!(logs.visible_lines(2).is_empty());
}

#[test]
fn log_buffer_moves_by_pages_and_to_the_oldest() {
    let mut logs = LogBuffer::with_limits(10, 80);
    for line in ["one", "two", "three", "four", "five"] {
        logs.push(line);
    }

    logs.navigate(LogNavigation::PageUp, 2);
    assert_eq!(logs.visible_lines(2), ["two", "three"]);
    logs.navigate(LogNavigation::PageDown, 2);
    assert_eq!(logs.visible_lines(2), ["four", "five"]);
    assert!(logs.is_following());
    logs.navigate(LogNavigation::Home, 2);
    assert_eq!(logs.visible_lines(2), ["one", "two"]);
    logs.navigate(LogNavigation::Down, 2);
    assert_eq!(logs.visible_lines(2), ["two", "three"]);
    logs.navigate(LogNavigation::Left, 2);
    assert_eq!(logs.horizontal_offset(), 0);
}
