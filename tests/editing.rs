use pipetui::history::App;
use pipetui::parser::{next_grapheme_boundary, prev_grapheme_boundary};

#[test]
fn grapheme_boundaries_skip_combining_marks() {
    // "e" + COMBINING ACUTE ACCENT is one cluster of three bytes
    let text = "ae\u{301}b";
    assert_eq!(next_grapheme_boundary(text, 0), 1);
    assert_eq!(next_grapheme_boundary(text, 1), 4);
    assert_eq!(next_grapheme_boundary(text, 4), 5);
    assert_eq!(next_grapheme_boundary(text, 5), 5);
    assert_eq!(next_grapheme_boundary(text, 99), 5);
    assert_eq!(prev_grapheme_boundary(text, 5), 4);
    assert_eq!(prev_grapheme_boundary(text, 4), 1);
    assert_eq!(prev_grapheme_boundary(text, 1), 0);
    assert_eq!(prev_grapheme_boundary(text, 0), 0);
    assert_eq!(prev_grapheme_boundary(text, 99), 4);
}

#[test]
fn grapheme_boundaries_of_empty_text() {
    assert_eq!(next_grapheme_boundary("", 0), 0);
    assert_eq!(prev_grapheme_boundary("", 0), 0);
    assert_eq!(prev_grapheme_boundary("", 3), 0);
}

#[test]
fn crlf_is_one_cluster() {
    assert_eq!(next_grapheme_boundary("a\r\nb", 1), 3);
    assert_eq!(prev_grapheme_boundary("a\r\nb", 3), 1);
}

#[test]
fn typing_and_deleting() {
    let mut app = App::new(Vec::new());
    app.insert_char('a');
    app.insert_char('c');
    app.move_cursor_left();
    assert_eq!(app.cursor, 1);
    app.insert_char('b');
    assert_eq!(app.input, "abc");
    assert_eq!(app.cursor, 2);
    app.delete_backward();
    assert_eq!(app.input, "ac");
    assert_eq!(app.cursor, 1);
    app.delete_forward();
    assert_eq!(app.input, "a");
    app.delete_forward();
    assert_eq!(app.input, "a");
    app.move_cursor_home();
    assert_eq!(app.cursor, 0);
    app.delete_backward();
    assert_eq!(app.input, "a");
    app.move_cursor_end();
    assert_eq!(app.cursor, 1);
    app.move_cursor_right();
    assert_eq!(app.cursor, 1);
}

#[test]
fn combining_mark_joins_previous_cluster() {
    let mut app = App::new(Vec::new());
    app.insert_char('e');
    app.insert_char('\u{301}');
    assert_eq!(app.input, "e\u{301}");
    assert_eq!(app.cursor, 3);
    app.move_cursor_left();
    assert_eq!(app.cursor, 0);
    app.move_cursor_right();
    assert_eq!(app.cursor, 3);
    app.delete_backward();
    assert_eq!(app.input, "");
    assert_eq!(app.cursor, 0);
}

#[test]
fn multibyte_insert_in_the_middle() {
    let mut app = App::new(Vec::new());
    app.insert_char('x');
    app.insert_char('y');
    app.move_cursor_left();
    app.insert_char('\u{e9}');
    assert_eq!(app.input, "x\u{e9}y");
    assert_eq!(app.cursor, 3);
    app.move_cursor_home();
    app.delete_forward();
    assert_eq!(app.input, "\u{e9}y");
    app.delete_forward();
    assert_eq!(app.input, "y");
}

#[test]
fn edits_refresh_the_edit_time_and_end_browsing() {
    let mut app = App::new(vec!["old".to_string()]);
    app.history_prev();
    assert_eq!(app.hist_pos, Some(0));
    app.last_edit_at = None;
    app.insert_char('!');
    assert_eq!(app.input, "old!");
    assert_eq!(app.hist_pos, None);
    assert!(app.last_edit_at.is_some());
    app.last_edit_at = None;
    app.clear_input();
    assert_eq!(app.input, "");
    assert_eq!(app.cursor, 0);
    assert!(app.last_edit_at.is_some());
    app.last_edit_at = None;
    app.insert_char('z');
    app.delete_backward();
    assert!(app.last_edit_at.is_some());
}

use pipetui::keys::{action_for, handle_key, Action, Key, KeyOutcome, KeyPress};

fn press(key: Key, ctrl: bool, alt: bool) -> KeyPress {
    KeyPress { key, ctrl, alt, repeat: false }
}

#[test]
fn key_bindings() {
    assert!(matches!(action_for(&press(Key::Char('c'), true, false)), Action::Quit));
    assert!(matches!(action_for(&press(Key::Esc, false, false)), Action::Quit));
    assert!(matches!(action_for(&press(Key::Char('a'), true, false)), Action::Home));
    assert!(matches!(action_for(&press(Key::Char('e'), true, false)), Action::End));
    assert!(matches!(action_for(&press(Key::Char('u'), true, false)), Action::Clear));
    assert!(matches!(action_for(&press(Key::Char('x'), true, false)), Action::Ignore));
    assert!(matches!(action_for(&press(Key::Char('x'), false, true)), Action::Ignore));
    assert!(matches!(action_for(&press(Key::Char('x'), false, false)), Action::Insert('x')));
    assert!(matches!(action_for(&press(Key::Up, false, false)), Action::HistoryPrev));
    assert!(matches!(action_for(&press(Key::Down, false, false)), Action::HistoryNext));
    assert!(matches!(action_for(&press(Key::Other, false, false)), Action::Ignore));
    let held = KeyPress { key: Key::Char('x'), ctrl: false, alt: false, repeat: true };
    assert!(matches!(action_for(&held), Action::Ignore));
}

#[test]
fn enter_submits_the_input() {
    let mut app = App::new(Vec::new());
    for c in "ls".chars() {
        assert!(matches!(handle_key(&mut app, &press(Key::Char(c), false, false)), KeyOutcome::Continue));
    }
    match handle_key(&mut app, &press(Key::Enter, false, false)) {
        KeyOutcome::Run(cmd) => assert_eq!(cmd, "ls"),
        _ => panic!("expected a run"),
    }
    assert!(app.append_history_on_finish);
    assert_eq!(app.last_run_cmd.as_deref(), Some("ls"));
    handle_key(&mut app, &press(Key::Char('u'), true, false));
    assert_eq!(app.input, "");
    assert!(matches!(handle_key(&mut app, &press(Key::Enter, false, false)), KeyOutcome::Continue));
    assert!(matches!(handle_key(&mut app, &press(Key::Esc, false, false)), KeyOutcome::Quit));
}

#[test]
fn cursor_column_counts_display_width() {
    let mut app = App::new(Vec::new());
    assert_eq!(app.cursor_column(), 0);
    for c in "a\u{4e2d}e\u{301}".chars() {
        app.insert_char(c);
    }
    // one narrow, one wide, one narrow letter with a zero-width accent
    assert_eq!(app.cursor_column(), 4);
    app.move_cursor_left();
    assert_eq!(app.cursor_column(), 3);
}
