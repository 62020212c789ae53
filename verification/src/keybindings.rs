//! What each key does, depending on the mode the table is in.
use vstd::prelude::*;
use crate::app::{App, InputMode};
use crate::types::SortColumn;

verus! {

/// A key, as the terminal reports it.
#[derive(Debug, Clone, Copy, PartialEq, Eq, Structural)]
pub enum KeyCode {
    Char(char),
    Enter,
    Esc,
    Backspace,
    Up,
    Down,
    PageUp,
    PageDown,
    Home,
    End,
    /// Any other key.
    Other,
}

/// A key press: the key and whether Control was held.
#[derive(Debug, Clone, Copy, PartialEq, Eq, Structural)]
pub struct KeyEvent {
    pub code: KeyCode,
    pub control: bool,
}

/// What a key press asks for.
#[derive(Debug, Clone, Copy, PartialEq, Eq, Structural)]
pub enum Action {
    Quit,
    MoveUp,
    MoveDown,
    PageUp,
    PageDown,
    Home,
    End,
    ToggleDetail,
    ToggleHelp,
    EnterFilterMode,
    ExitFilterMode,
    FilterInput(char),
    FilterBackspace,
    SortByColumn(SortColumn),
    Kill,
    ForceKill,
    ConfirmKill,
    Cancel,
    CopyPort,
    CopyPid,
    CopyCmdline,
    OpenInBrowser,
    Refresh,
    Noop,
}

/// Keys while a kill waits for confirmation: 'y' or Enter confirm, any
/// other key cancels.
pub open spec fn confirm_key_action(code: KeyCode) -> Action {
    match code {
        KeyCode::Char('y') | KeyCode::Enter => Action::ConfirmKill,
        _ => Action::Cancel,
    }
}

/// Keys while typing a filter.
pub open spec fn filter_key_action(code: KeyCode) -> Action {
    match code {
        KeyCode::Esc | KeyCode::Enter => Action::ExitFilterMode,
        KeyCode::Backspace => Action::FilterBackspace,
        KeyCode::Char(c) => Action::FilterInput(c),
        KeyCode::Up => Action::MoveUp,
        KeyCode::Down => Action::MoveDown,
        _ => Action::Noop,
    }
}

/// Keys while the help overlay is shown: '?', Esc or 'q' close it.
pub open spec fn help_key_action(code: KeyCode) -> Action {
    match code {
        KeyCode::Char('?') | KeyCode::Esc | KeyCode::Char('q') => Action::ToggleHelp,
        _ => Action::Noop,
    }
}

/// The column that a digit key sorts by.
pub open spec fn digit_column(c: char) -> Option<SortColumn> {
    match c {
        '1' => Some(SortColumn::Protocol),
        '2' => Some(SortColumn::LocalAddr),
        '3' => Some(SortColumn::Port),
        '4' => Some(SortColumn::Pid),
        '5' => Some(SortColumn::ProcessName),
        '6' => Some(SortColumn::User),
        '7' => Some(SortColumn::Project),
        '8' => Some(SortColumn::State),
        '9' => Some(SortColumn::Command),
        _ => None,
    }
}

/// Keys in the table.
pub open spec fn normal_key_action(code: KeyCode) -> Action {
    match code {
        KeyCode::Char(c) => match c {
            'q' => Action::Quit,
            '/' => Action::EnterFilterMode,
            'k' => Action::MoveUp,
            'j' => Action::MoveDown,
            'g' => Action::Home,
            'G' => Action::End,
            'd' => Action::ToggleDetail,
            '?' => Action::ToggleHelp,
            'x' => Action::Kill,
            'X' => Action::ForceKill,
            'y' => Action::CopyPort,
            'Y' => Action::CopyPid,
            'c' => Action::CopyCmdline,
            'o' => Action::OpenInBrowser,
            'r' => Action::Refresh,
            _ => match digit_column(c) {
                Some(col) => Action::SortByColumn(col),
                None => Action::Noop,
            },
        },
        KeyCode::Esc => Action::Quit,
        KeyCode::Up => Action::MoveUp,
        KeyCode::Down => Action::MoveDown,
        KeyCode::PageUp => Action::PageUp,
        KeyCode::PageDown => Action::PageDown,
        KeyCode::Home => Action::Home,
        KeyCode::End => Action::End,
        _ => Action::Noop,
    }
}

/// The action for a key press: Ctrl+C quits from anywhere; otherwise the
/// kill dialog, then the filter line, then the help overlay take the key
/// before the table does.
pub open spec fn key_action(confirming: bool, mode: InputMode, help: bool, key: KeyEvent) -> Action {
    if key.control && key.code == KeyCode::Char('c') {
        Action::Quit
    } else if confirming {
        confirm_key_action(key.code)
    } else if mode == InputMode::Filter {
        filter_key_action(key.code)
    } else if help {
        help_key_action(key.code)
    } else {
        normal_key_action(key.code)
    }
}

fn column_for_digit(c: char) -> (r: Option<SortColumn>)
    ensures
        r == digit_column(c),
{
    match c {
        '1' => Some(SortColumn::Protocol),
        '2' => Some(SortColumn::LocalAddr),
        '3' => Some(SortColumn::Port),
        '4' => Some(SortColumn::Pid),
        '5' => Some(SortColumn::ProcessName),
        '6' => Some(SortColumn::User),
        '7' => Some(SortColumn::Project),
        '8' => Some(SortColumn::State),
        '9' => Some(SortColumn::Command),
        _ => None,
    }
}

/// Maps a key press to an action, given the state of the table.
pub fn handle_key(app: &App, key: KeyEvent) -> (r: Action)
    ensures
        r == key_action(app.confirm_kill is Some, app.input_mode, app.show_help, key),
{
    // Ctrl+C always quits
    if key.control && key.code == KeyCode::Char('c') {
        return Action::Quit;
    }
    // Kill confirmation dialog

    if app.confirm_kill.is_some() {
        return match key.code {
            KeyCode::Char('y') | KeyCode::Enter => Action::ConfirmKill,
            _ => Action::Cancel,
        };
    }
    // Filter mode

    if app.input_mode == InputMode::Filter {
        return match key.code {
            KeyCode::Esc => Action::ExitFilterMode,
            KeyCode::Enter => Action::ExitFilterMode,
            KeyCode::Backspace => Action::FilterBackspace,
            KeyCode::Char(c) => Action::FilterInput(c),
            KeyCode::Up => Action::MoveUp,
            KeyCode::Down => Action::MoveDown,
            _ => Action::Noop,
        };
    }
    // Help overlay

    if app.show_help {
        return match key.code {
            KeyCode::Char('?') | KeyCode::Esc | KeyCode::Char('q') => Action::ToggleHelp,
            _ => Action::Noop,
        };
    }
    // Normal mode

    match key.code {
        KeyCode::Char(c) => match c {
            'q' => Action::Quit,
            '/' => Action::EnterFilterMode,
            'k' => Action::MoveUp,
            'j' => Action::MoveDown,
            'g' => Action::Home,
            'G' => Action::End,
            'd' => Action::ToggleDetail,
            '?' => Action::ToggleHelp,
            'x' => Action::Kill,
            'X' => Action::ForceKill,
            'y' => Action::CopyPort,
            'Y' => Action::CopyPid,
            'c' => Action::CopyCmdline,
            'o' => Action::OpenInBrowser,
            'r' => Action::Refresh,
            _ => match column_for_digit(c) {
                Some(col) => Action::SortByColumn(col),
                None => Action::Noop,
            },
        },
        KeyCode::Esc => Action::Quit,
        KeyCode::Up => Action::MoveUp,
        KeyCode::Down => Action::MoveDown,
        KeyCode::PageUp => Action::PageUp,
        KeyCode::PageDown => Action::PageDown,
        KeyCode::Home => Action::Home,
        KeyCode::End => Action::End,
        _ => Action::Noop,
    }
}

/// Ctrl+C quits, whatever the table is showing.
pub proof fn lemma_ctrl_c_always_quits(confirming: bool, mode: InputMode, help: bool)
    ensures
        key_action(confirming, mode, help, KeyEvent { code: KeyCode::Char('c'), control: true })
            == Action::Quit,
{
}

/// While a kill waits for confirmation, only 'y' and Enter confirm it and
/// every other key (but Ctrl+C) cancels it; no key does anything else.
pub proof fn lemma_confirmation_takes_every_key(mode: InputMode, help: bool, key: KeyEvent)
    requires
        !(key.control && key.code == KeyCode::Char('c')),
    ensures
        key_action(true, mode, help, key) == (if key.code == KeyCode::Char('y') || key.code
            == KeyCode::Enter {
            Action::ConfirmKill
        } else {
            Action::Cancel
        }),
{
}

/// Every digit from 1 to 9 sorts the table by one of the nine columns, each
/// column by exactly one digit.
pub proof fn lemma_digits_sort_columns(c: char, d: char)
    ensures
        digit_column(c) is Some <==> ('1' <= c && c <= '9'),
        digit_column(c) is Some && digit_column(c) == digit_column(d) ==> c == d,
{
}

} // verus!
