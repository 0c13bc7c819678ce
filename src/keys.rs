//! What each key does to the editing state.

use crate::history::{
    browsed_back, browsed_forward, cleared, deleted_backward, deleted_forward, inserted,
    moved_end, moved_home, moved_left, moved_right, prepared, App,
};
use vstd::prelude::*;

verus! {

/// A key, as far as the bindings tell keys apart.
pub enum Key {
    Char(char),
    Enter,
    Esc,
    Backspace,
    Delete,
    Left,
    Right,
    Home,
    End,
    Up,
    Down,
    Other,
}

/// One key event.
pub struct KeyPress {
    pub key: Key,
    pub ctrl: bool,
    pub alt: bool,
    /// The event repeats a key held down.
    pub repeat: bool,
}

/// What a key asks for.
pub enum Action {
    Quit,
    Submit,
    Clear,
    DeleteBackward,
    DeleteForward,
    Left,
    Right,
    Home,
    End,
    HistoryPrev,
    HistoryNext,
    Insert(char),
    Ignore,
}

/// What the caller is to do after a key.
pub enum KeyOutcome {
    Continue,
    Quit,
    /// Send this command to the worker.
    Run(String),
}

/// The key bindings. Repeats are ignored; Ctrl+C and Esc quit, Enter runs
/// the input, Ctrl+A and Ctrl+E go home and to the end, Ctrl+U clears; any
/// other character typed with Ctrl or Alt is ignored.
pub open spec fn action_of(p: KeyPress) -> Action {
    if p.repeat {
        Action::Ignore
    } else {
        match p.key {
            Key::Char(c) => if p.ctrl && c == 'c' {
                Action::Quit
            } else if p.ctrl && c == 'a' {
                Action::Home
            } else if p.ctrl && c == 'e' {
                Action::End
            } else if p.ctrl && c == 'u' {
                Action::Clear
            } else if p.ctrl || p.alt {
                Action::Ignore
            } else {
                Action::Insert(c)
            },
            Key::Enter => Action::Submit,
            Key::Esc => Action::Quit,
            Key::Backspace => Action::DeleteBackward,
            Key::Delete => Action::DeleteForward,
            Key::Left => Action::Left,
            Key::Right => Action::Right,
            Key::Home => Action::Home,
            Key::End => Action::End,
            Key::Up => Action::HistoryPrev,
            Key::Down => Action::HistoryNext,
            Key::Other => Action::Ignore,
        }
    }
}

pub fn action_for(p: &KeyPress) -> (r: Action)
    ensures
        r == action_of(*p),
{
    if p.repeat {
        return Action::Ignore;
    }
    match p.key {
        Key::Char(c) => {
            if p.ctrl && c == 'c' {
                Action::Quit
            } else if p.ctrl && c == 'a' {
                Action::Home
            } else if p.ctrl && c == 'e' {
                Action::End
            } else if p.ctrl && c == 'u' {
                Action::Clear
            } else if p.ctrl || p.alt {
                Action::Ignore
            } else {
                Action::Insert(c)
            }
        },
        Key::Enter => Action::Submit,
        Key::Esc => Action::Quit,
        Key::Backspace => Action::DeleteBackward,
        Key::Delete => Action::DeleteForward,
        Key::Left => Action::Left,
        Key::Right => Action::Right,
        Key::Home => Action::Home,
        Key::End => Action::End,
        Key::Up => Action::HistoryPrev,
        Key::Down => Action::HistoryNext,
        Key::Other => Action::Ignore,
    }
}

/// Applies one key to the state. Enter submits the input by hand; the
/// outcome then carries the command to run, unless it was blank.
pub fn handle_key(app: &mut App, press: &KeyPress) -> (r: KeyOutcome)
    requires
        old(app).wf(),
    ensures
        final(app).wf(),
        match action_of(*press) {
            Action::Quit => r is Quit && *final(app) == *old(app),
            Action::Ignore => r is Continue && *final(app) == *old(app),
            Action::Submit => {
                &&& prepared(*old(app), *final(app), old(app).input@, true, r is Run)
                &&& (r matches KeyOutcome::Run(c) ==> c@ == old(app).input@)
                &&& !(r is Quit)
            },
            Action::Clear => r is Continue && cleared(*old(app), *final(app)),
            Action::DeleteBackward => r is Continue && deleted_backward(*old(app), *final(app)),
            Action::DeleteForward => r is Continue && deleted_forward(*old(app), *final(app)),
            Action::Left => r is Continue && moved_left(*old(app), *final(app)),
            Action::Right => r is Continue && moved_right(*old(app), *final(app)),
            Action::Home => r is Continue && moved_home(*old(app), *final(app)),
            Action::End => r is Continue && moved_end(*old(app), *final(app)),
            Action::HistoryPrev => r is Continue && browsed_back(*old(app), *final(app)),
            Action::HistoryNext => r is Continue && browsed_forward(*old(app), *final(app)),
            Action::Insert(c) => r is Continue && inserted(*old(app), *final(app), c),
        },
{
    match action_for(press) {
        Action::Quit => KeyOutcome::Quit,
        Action::Ignore => KeyOutcome::Continue,
        Action::Submit => {
            let cmd = app.input.clone();
            if app.prepare_run(cmd.as_str(), true) {
                KeyOutcome::Run(cmd)
            } else {
                KeyOutcome::Continue
            }
        },
        Action::Clear => {
            app.clear_input();
            KeyOutcome::Continue
        },
        Action::DeleteBackward => {
            app.delete_backward();
            KeyOutcome::Continue
        },
        Action::DeleteForward => {
            app.delete_forward();
            KeyOutcome::Continue
        },
        Action::Left => {
            app.move_cursor_left();
            KeyOutcome::Continue
        },
        Action::Right => {
            app.move_cursor_right();
            KeyOutcome::Continue
        },
        Action::Home => {
            app.move_cursor_home();
            KeyOutcome::Continue
        },
        Action::End => {
            app.move_cursor_end();
            KeyOutcome::Continue
        },
        Action::HistoryPrev => {
            app.history_prev();
            KeyOutcome::Continue
        },
        Action::HistoryNext => {
            app.history_next();
            KeyOutcome::Continue
        },
        Action::Insert(c) => {
            app.insert_char(c);
            KeyOutcome::Continue
        },
    }
}

} // verus!
