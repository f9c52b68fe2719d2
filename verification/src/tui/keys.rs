//! Keys, and what the plainest of them mean.

use vstd::prelude::*;

use crate::logs::{LogBuffer, LogBufferView, LogNavigation};

verus! {

/// A key of the keyboard.
#[derive(Clone, Copy, Debug, PartialEq, Eq, Structural)]
pub enum KeyCode {
    Char(char),
    Up,
    Down,
    Left,
    Right,
    PageUp,
    PageDown,
    Home,
    End,
    Enter,
    Esc,
    /// Any other key.
    Other,
}

/// An answer to a question of yes or no.
#[derive(Clone, Copy, Debug, PartialEq, Eq, Structural)]
pub enum DownConfirmationDecision {
    Confirm,
    Cancel,
}

/// The answer that a key gives to a question of yes or no, if it gives one.
pub open spec fn decision_of(key: KeyCode) -> Option<DownConfirmationDecision> {
    match key {
        KeyCode::Char(character) => if character == 'y' || character == 'Y' {
            Some(DownConfirmationDecision::Confirm)
        } else if character == 'n' || character == 'N' {
            Some(DownConfirmationDecision::Cancel)
        } else {
            None
        },
        _ => None,
    }
}

/// The answer that a key gives to a question of yes or no, if it gives one.
pub fn down_confirmation_decision(key: KeyCode) -> (decision: Option<DownConfirmationDecision>)
    ensures
        decision == decision_of(key),
{
    match key {
        KeyCode::Char(character) => {
            if character == 'y' || character == 'Y' {
                Some(DownConfirmationDecision::Confirm)
            } else if character == 'n' || character == 'N' {
                Some(DownConfirmationDecision::Cancel)
            } else {
                None
            }
        },
        _ => None,
    }
}

/// Shows or hides the help if the key asks for it, and says whether it does.
pub fn toggle_help_for_key(key: KeyCode, show_help: &mut bool) -> (handled: bool)
    ensures
        handled == (key == KeyCode::Char('?')),
        *final(show_help) == if handled {
            !*old(show_help)
        } else {
            *old(show_help)
        },
{
    if key != KeyCode::Char('?') {
        return false;
    }
    *show_help = !*show_help;
    true
}

// ---------------------------------------------------------------------------
// Keys of the log view
// ---------------------------------------------------------------------------

/// Where a key moves the log view, if it moves it.
pub open spec fn log_navigation_of(key: KeyCode) -> Option<LogNavigation> {
    match key {
        KeyCode::Up => Some(LogNavigation::Up),
        KeyCode::Down => Some(LogNavigation::Down),
        KeyCode::PageUp => Some(LogNavigation::PageUp),
        KeyCode::PageDown => Some(LogNavigation::PageDown),
        KeyCode::Home => Some(LogNavigation::Home),
        KeyCode::End => Some(LogNavigation::End),
        KeyCode::Left => Some(LogNavigation::Left),
        KeyCode::Right => Some(LogNavigation::Right),
        KeyCode::Char(character) => if character == 'k' {
            Some(LogNavigation::Up)
        } else if character == 'j' {
            Some(LogNavigation::Down)
        } else if character == 'g' {
            Some(LogNavigation::Home)
        } else if character == 'G' {
            Some(LogNavigation::End)
        } else if character == 'h' {
            Some(LogNavigation::Left)
        } else if character == 'l' {
            Some(LogNavigation::Right)
        } else {
            None
        },
        _ => None,
    }
}

fn log_navigation(key: KeyCode) -> (navigation: Option<LogNavigation>)
    ensures
        navigation == log_navigation_of(key),
{
    match key {
        KeyCode::Up => Some(LogNavigation::Up),
        KeyCode::Down => Some(LogNavigation::Down),
        KeyCode::PageUp => Some(LogNavigation::PageUp),
        KeyCode::PageDown => Some(LogNavigation::PageDown),
        KeyCode::Home => Some(LogNavigation::Home),
        KeyCode::End => Some(LogNavigation::End),
        KeyCode::Left => Some(LogNavigation::Left),
        KeyCode::Right => Some(LogNavigation::Right),
        KeyCode::Char(character) => {
            if character == 'k' {
                Some(LogNavigation::Up)
            } else if character == 'j' {
                Some(LogNavigation::Down)
            } else if character == 'g' {
                Some(LogNavigation::Home)
            } else if character == 'G' {
                Some(LogNavigation::End)
            } else if character == 'h' {
                Some(LogNavigation::Left)
            } else if character == 'l' {
                Some(LogNavigation::Right)
            } else {
                None
            }
        },
        _ => None,
    }
}

/// Whether a key leaves what covers the dashboard.
pub open spec fn is_back(key: KeyCode) -> bool {
    key == KeyCode::Char('q') || key == KeyCode::Esc
}

/// The scrollback after a key.
pub open spec fn scrollback_after(buffer: LogBufferView, key: KeyCode, page_size: nat) -> LogBufferView {
    match log_navigation_of(key) {
        Some(navigation) => buffer.navigated(navigation, page_size),
        None => if key == KeyCode::Char('f') {
            buffer.follow_toggled()
        } else if key == KeyCode::Char('w') {
            buffer.wrap_toggled()
        } else if key == KeyCode::Char('c') {
            buffer.cleared()
        } else {
            buffer
        },
    }
}

/// Lets a key act on the scrollback, and says whether it closes the log view.
pub fn handle_log_key(buffer: &mut LogBuffer, key: KeyCode, page_size: usize) -> (closed: bool)
    requires
        old(buffer)@.well_formed(),
    ensures
        closed == is_back(key),
        final(buffer)@ == scrollback_after(old(buffer)@, key, page_size as nat),
        final(buffer)@.well_formed(),
{
    if key == KeyCode::Char('q') || key == KeyCode::Esc {
        return true;
    }
    if let Some(navigation) = log_navigation(key) {
        buffer.navigate(navigation, page_size);
    } else if key == KeyCode::Char('f') {
        buffer.toggle_follow();
    } else if key == KeyCode::Char('w') {
        buffer.toggle_wrap();
    } else if key == KeyCode::Char('c') {
        buffer.clear();
    }
    false
}

// ---------------------------------------------------------------------------
// Laws
// ---------------------------------------------------------------------------

/// A question is answered yes with a y and no with an n, large or small, and by
/// no other key.
pub proof fn law_questions_are_answered_with_y_and_n(key: KeyCode)
    ensures
        decision_of(key) == Some(DownConfirmationDecision::Confirm) <==> key == KeyCode::Char('y')
            || key == KeyCode::Char('Y'),
        decision_of(key) == Some(DownConfirmationDecision::Cancel) <==> key == KeyCode::Char('n')
            || key == KeyCode::Char('N'),
{
}

/// What covers the dashboard is left with q and Escape, and with no other key.
pub proof fn law_q_and_escape_leave(key: KeyCode)
    ensures
        is_back(key) <==> key == KeyCode::Char('q') || key == KeyCode::Esc,
        is_back(key) ==> log_navigation_of(key) is None,
{
}

/// The keys of the log view: arrows and pages, and the letters that stand for
/// them, move through the records; f, w and c switch following and wrapping and
/// clear; all others leave the records as they are.
pub proof fn law_log_keys_do_what_they_say(buffer: LogBufferView, page_size: nat, key: KeyCode)
    ensures
        key == KeyCode::Up || key == KeyCode::Char('k') ==> scrollback_after(buffer, key, page_size)
            == buffer.navigated(LogNavigation::Up, page_size),
        key == KeyCode::Down || key == KeyCode::Char('j') ==> scrollback_after(
            buffer,
            key,
            page_size,
        ) == buffer.navigated(LogNavigation::Down, page_size),
        key == KeyCode::PageUp ==> scrollback_after(buffer, key, page_size) == buffer.navigated(
            LogNavigation::PageUp,
            page_size,
        ),
        key == KeyCode::PageDown ==> scrollback_after(buffer, key, page_size) == buffer.navigated(
            LogNavigation::PageDown,
            page_size,
        ),
        key == KeyCode::Home || key == KeyCode::Char('g') ==> scrollback_after(
            buffer,
            key,
            page_size,
        ) == buffer.navigated(LogNavigation::Home, page_size),
        key == KeyCode::End || key == KeyCode::Char('G') ==> scrollback_after(
            buffer,
            key,
            page_size,
        ) == buffer.navigated(LogNavigation::End, page_size),
        key == KeyCode::Left || key == KeyCode::Char('h') ==> scrollback_after(
            buffer,
            key,
            page_size,
        ) == buffer.navigated(LogNavigation::Left, page_size),
        key == KeyCode::Right || key == KeyCode::Char('l') ==> scrollback_after(
            buffer,
            key,
            page_size,
        ) == buffer.navigated(LogNavigation::Right, page_size),
        key == KeyCode::Char('f') ==> scrollback_after(buffer, key, page_size)
            == buffer.follow_toggled(),
        key == KeyCode::Char('w') ==> scrollback_after(buffer, key, page_size)
            == buffer.wrap_toggled(),
        key == KeyCode::Char('c') ==> scrollback_after(buffer, key, page_size) == buffer.cleared(),
        key == KeyCode::Enter || key == KeyCode::Esc || key == KeyCode::Other ==> scrollback_after(
            buffer,
            key,
            page_size,
        ) == buffer,
        key matches KeyCode::Char(letter) && !seq![
            'k',
            'j',
            'g',
            'G',
            'h',
            'l',
            'f',
            'w',
            'c',
        ].contains(letter) ==> scrollback_after(buffer, key, page_size) == buffer,
{
    let letters = seq!['k', 'j', 'g', 'G', 'h', 'l', 'f', 'w', 'c'];
    assert(letters[0] == 'k' && letters[1] == 'j' && letters[2] == 'g' && letters[3] == 'G');
    assert(letters[4] == 'h' && letters[5] == 'l' && letters[6] == 'f' && letters[7] == 'w');
    assert(letters[8] == 'c');
}

} // verus!
