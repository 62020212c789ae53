//! What each action does to the table's state, and the outside work
//! (signals, clipboard, browser, reloading) it asks for.
use vstd::prelude::*;
use crate::app::{
    lemma_sort_keeps_rows, lemma_view_unique, reselected, same_but_selection, selected_entry_of,
    selected_pid, App, InputMode, KillConfirmation, PaneMode, clamp_row, detail_follows,
};
use crate::commands::{signal_name, signal_text};
use crate::keybindings::{key_action, Action, KeyCode, KeyEvent};
use crate::app::{entry_at, view_matches};
use crate::text::{
    ascii_lower_char, ascii_lowercase, decimal, i32_text, is_ascii_text, lemma_in_order_parts,
    push_char, push_decimal, signed_decimal, u64_text,
};
use crate::types::{
    cmdline_text, lemma_toggle_involution, pid_text, PortEntry, SortColumn, SortOrder, toggled,
};

verus! {

broadcast use vstd::string::group_string_axioms;

/// Outside work an action asks for. The caller performs it and reports the
/// outcome with the matching `finish_*` function.
#[derive(Debug)]
pub enum Effect {
    /// Nothing to do.
    Nothing,
    /// Load the detail of this process, then call `App::store_detail`.
    LoadDetail(i32),
    /// Send the confirmed signal, then call `finish_kill`.
    SendSignal(KillConfirmation),
    /// Put `text` on the clipboard, then call `finish_copy`.
    CopyToClipboard { text: String, label: String },
    /// Open the URL in a browser, then call `finish_open`.
    OpenUrl(String),
    /// Reload the entries, then call `finish_refresh`.
    Refresh,
}

/// Calls `String::pop`, dropping the popped character. The contract claims
/// that the string afterwards holds its old characters but the last one,
/// and is unchanged when it was empty.
#[verifier::external_body]
pub(crate) fn pop_char(s: &mut String)
    ensures
        final(s)@ == (if old(s)@.len() == 0 {
            old(s)@
        } else {
            old(s)@.drop_last()
        }),
{
    s.pop();
}

/// Only the filter, the sort settings, the view and the selection may
/// differ; the view is recomputed and the selection kept on a row.
pub open spec fn view_recomputed(old_app: App, new_app: App) -> bool {
    &&& new_app.well_formed()
    &&& new_app.entries == old_app.entries
    &&& new_app.selected == reselected(old_app.selected, new_app.filtered_indices@.len())
    &&& new_app.input_mode == old_app.input_mode
    &&& new_app.pane_mode == old_app.pane_mode
    &&& new_app.detail_cache == old_app.detail_cache
    &&& new_app.detail_pid == old_app.detail_pid
    &&& new_app.refresh_interval_ms == old_app.refresh_interval_ms
    &&& new_app.show_help == old_app.show_help
    &&& new_app.confirm_kill == old_app.confirm_kill
    &&& new_app.should_quit == old_app.should_quit
    &&& new_app.status_message == old_app.status_message
    &&& new_app.is_root == old_app.is_root
}

/// The rows an action moves the selection by.
pub open spec fn move_delta(action: Action) -> int {
    match action {
        Action::MoveUp => -1,
        Action::MoveDown => 1,
        Action::PageUp => -20,
        Action::PageDown => 20,
        _ => 0,
    }
}

/// The selection after moving by `delta` rows.
pub open spec fn moved(app: App, delta: int) -> Option<usize> {
    if app.filtered_indices@.len() == 0 {
        app.selected
    } else {
        Some(
            clamp_row(
                (match app.selected {
                    Some(s) => s as int,
                    None => 0,
                }) + delta,
                app.filtered_indices@.len() - 1,
            ) as usize,
        )
    }
}

/// The message shown when a selected entry has no process.
pub open spec fn no_process_text() -> Seq<char> {
    "No process info available"@
}

/// The kill that an entry's process would get.
pub open spec fn kill_for(e: PortEntry, force: bool) -> Option<KillConfirmation> {
    match e.process {
        Some(p) => Some(KillConfirmation { pid: p.pid, process_name: p.name, port: e.port, force }),
        None => None,
    }
}

/// The URL opened for a port.
pub open spec fn url_text(port: u16) -> Seq<char> {
    "http://localhost:"@ + decimal(port as nat)
}

/// The state and outside work after an action.
pub open spec fn action_result(old_app: App, new_app: App, action: Action, now_ms: u64, effect: Effect) -> bool {
    match action {
        Action::Quit => {
            &&& new_app == App { should_quit: true, ..old_app }
            &&& effect is Nothing
        },
        Action::MoveUp | Action::MoveDown | Action::PageUp | Action::PageDown => {
            &&& same_but_selection(new_app, old_app)
            &&& new_app.selected == moved(old_app, move_delta(action))
            &&& (old_app.filtered_indices@.len() == 0 ==> new_app == old_app)
            &&& (old_app.filtered_indices@.len() > 0 ==> detail_follows(old_app, new_app))
            &&& effect is Nothing
        },
        Action::Home | Action::End => {
            &&& same_but_selection(new_app, old_app)
            &&& (old_app.filtered_indices@.len() == 0 ==> new_app == old_app)
            &&& (old_app.filtered_indices@.len() > 0 ==> {
                &&& new_app.selected == (if action is Home {
                    Some(0usize)
                } else {
                    Some((old_app.filtered_indices@.len() - 1) as usize)
                })
                &&& detail_follows(old_app, new_app)
            })
            &&& effect is Nothing
        },
        Action::ToggleDetail => match old_app.pane_mode {
            PaneMode::Table => {
                &&& new_app == App { pane_mode: PaneMode::TableWithDetail, ..old_app }
                &&& match selected_pid(old_app) {
                    Some(p) => if old_app.detail_pid == Some(p) {
                        effect is Nothing
                    } else {
                        effect == Effect::LoadDetail(p)
                    },
                    None => effect is Nothing,
                }
            },
            PaneMode::TableWithDetail => {
                &&& new_app == App { pane_mode: PaneMode::Table, ..old_app }
                &&& effect is Nothing
            },
        },
        Action::ToggleHelp => {
            &&& new_app == App { show_help: !old_app.show_help, ..old_app }
            &&& effect is Nothing
        },
        Action::EnterFilterMode => {
            &&& new_app == App { input_mode: InputMode::Filter, ..old_app }
            &&& effect is Nothing
        },
        Action::ExitFilterMode => {
            &&& new_app == App { input_mode: InputMode::Normal, ..old_app }
            &&& effect is Nothing
        },
        Action::FilterInput(c) => {
            &&& view_recomputed(old_app, new_app)
            &&& new_app.filter_text@ == old_app.filter_text@.push(c)
            &&& new_app.sort_column == old_app.sort_column
            &&& new_app.sort_order == old_app.sort_order
            &&& effect is Nothing
        },
        Action::FilterBackspace => {
            &&& view_recomputed(old_app, new_app)
            &&& new_app.filter_text@ == (if old_app.filter_text@.len() == 0 {
                old_app.filter_text@
            } else {
                old_app.filter_text@.drop_last()
            })
            &&& new_app.sort_column == old_app.sort_column
            &&& new_app.sort_order == old_app.sort_order
            &&& effect is Nothing
        },
        Action::SortByColumn(col) => {
            &&& view_recomputed(old_app, new_app)
            &&& new_app.filter_text == old_app.filter_text
            &&& new_app.sort_column == col
            &&& new_app.sort_order == (if old_app.sort_column == col {
                toggled(old_app.sort_order)
            } else {
                SortOrder::Ascending
            })
            &&& effect is Nothing
        },
        Action::Kill | Action::ForceKill => {
            &&& effect is Nothing
            &&& match selected_entry_of(old_app) {
                Some(e) => match kill_for(e, action is ForceKill) {
                    Some(k) => new_app == App { confirm_kill: Some(k), ..old_app },
                    None => {
                        &&& new_app == App { status_message: new_app.status_message, ..old_app }
                        &&& new_app.status_message matches Some((m, t))
                        &&& t == now_ms
                        &&& m@ == no_process_text()
                    },
                },
                None => new_app == old_app,
            }
        },
        Action::ConfirmKill => match old_app.confirm_kill {
            Some(k) => new_app == App { confirm_kill: None, ..old_app } && effect
                == Effect::SendSignal(k),
            None => new_app == old_app && effect is Nothing,
        },
        Action::Cancel => {
            &&& new_app == App { confirm_kill: None, ..old_app }
            &&& effect is Nothing
        },
        Action::CopyPort | Action::CopyPid | Action::CopyCmdline => {
            &&& new_app == old_app
            &&& match selected_entry_of(old_app) {
                Some(e) => match effect {
                    Effect::CopyToClipboard { text, label } => match action {
                        Action::CopyPort => text@ == decimal(e.port as nat) && label@ == "port"@,
                        Action::CopyPid => text@ == pid_text(e) && label@ == "PID"@,
                        _ => text@ == cmdline_text(e) && label@ == "command"@,
                    },
                    _ => false,
                },
                None => effect is Nothing,
            }
        },
        Action::OpenInBrowser => {
            &&& new_app == old_app
            &&& match selected_entry_of(old_app) {
                Some(e) => effect matches Effect::OpenUrl(u) && u@ == url_text(e.port),
                None => effect is Nothing,
            }
        },
        Action::Refresh => {
            &&& new_app == old_app
            &&& effect is Refresh
        },
        Action::Noop => {
            &&& new_app == old_app
            &&& effect is Nothing
        },
    }
}

/// Whether a move can be made: the view's rows, and the row the move lands
/// on before it is clamped, are numbered within `i32`. Other actions need
/// nothing.
pub open spec fn move_fits(app: App, action: Action) -> bool {
    match action {
        Action::MoveUp | Action::MoveDown | Action::PageUp | Action::PageDown => {
            &&& app.filtered_indices@.len() <= i32::MAX
            &&& i32::MIN <= (match app.selected {
                Some(s) => s as int,
                None => 0,
            }) + move_delta(action) <= i32::MAX
        },
        _ => true,
    }
}

/// Whether `handle_action` can take this action in this state.
pub fn can_handle(app: &App, action: Action) -> (r: bool)
    ensures
        r == move_fits(*app, action),
{
    let delta: i64 = match action {
        Action::MoveUp => -1,
        Action::MoveDown => 1,
        Action::PageUp => -20,
        Action::PageDown => 20,
        _ => {
            return true;
        },
    };
    let current: i64 = match app.selected {
        Some(s) => {
            if s > 2147483667usize {
                return false;
            }
            s as i64
        },
        None => 0,
    };
    let target = current + delta;
    app.filtered_indices.len() <= 2147483647usize && -2147483648i64 <= target && target
        <= 2147483647i64
}

/// Applies an action to the table's state and says what outside work it
/// needs.
pub fn handle_action(app: &mut App, action: Action, now_ms: u64) -> (effect: Effect)
    requires
        old(app).well_formed(),
        move_fits(*old(app), action),
    ensures
        final(app).well_formed(),
        action_result(*old(app), *final(app), action, now_ms, effect),
{
    match action {
        Action::Quit => {
            app.should_quit = true;
            Effect::Nothing
        },
        Action::MoveUp => {
            app.move_selection(-1);
            Effect::Nothing
        },
        Action::MoveDown => {
            app.move_selection(1);
            Effect::Nothing
        },
        Action::PageUp => {
            app.move_selection(-20);
            Effect::Nothing
        },
        Action::PageDown => {
            app.move_selection(20);
            Effect::Nothing
        },
        Action::Home => {
            app.select_first();
            Effect::Nothing
        },
        Action::End => {
            app.select_last();
            Effect::Nothing
        },
        Action::ToggleDetail => {
            match app.pane_mode {
                PaneMode::Table => {
                    let load = app.detail_to_load();
                    app.pane_mode = PaneMode::TableWithDetail;
                    match load {
                        Some(pid) => Effect::LoadDetail(pid),
                        None => Effect::Nothing,
                    }
                },
                PaneMode::TableWithDetail => {
                    app.pane_mode = PaneMode::Table;
                    Effect::Nothing
                },
            }
        },
        Action::ToggleHelp => {
            app.show_help = !app.show_help;
            Effect::Nothing
        },
        Action::EnterFilterMode => {
            app.input_mode = InputMode::Filter;
            Effect::Nothing
        },
        Action::ExitFilterMode => {
            app.input_mode = InputMode::Normal;
            Effect::Nothing
        },
        Action::FilterInput(c) => {
            push_char(&mut app.filter_text, c);
            app.recompute_view();
            Effect::Nothing
        },
        Action::FilterBackspace => {
            pop_char(&mut app.filter_text);
            app.recompute_view();
            Effect::Nothing
        },
        Action::SortByColumn(col) => {
            if app.sort_column == col {
                app.sort_order = app.sort_order.toggle();
            } else {
                app.sort_column = col;
                app.sort_order = SortOrder::Ascending;
            }
            app.recompute_view();
            Effect::Nothing
        },
        Action::Kill | Action::ForceKill => {
            let force = match action {
                Action::ForceKill => true,
                _ => false,
            };
            let pending = match app.selected_entry() {
                Some(entry) => match &entry.process {
                    Some(process) => Some(
                        Some(
                            KillConfirmation {
                                pid: process.pid,
                                process_name: process.name.clone(),
                                port: entry.port,
                                force,
                            },
                        ),
                    ),
                    None => Some(None),
                },
                None => None,
            };
            match pending {
                Some(Some(k)) => {
                    app.confirm_kill = Some(k);
                },
                Some(None) => {
                    app.set_status("No process info available".to_string(), now_ms);
                },
                None => {},
            }
            Effect::Nothing
        },
        Action::ConfirmKill => {
            match app.confirm_kill.take() {
                Some(k) => Effect::SendSignal(k),
                None => Effect::Nothing,
            }
        },
        Action::Cancel => {
            app.confirm_kill = None;
            Effect::Nothing
        },
        Action::CopyPort | Action::CopyPid | Action::CopyCmdline => {
            match app.selected_entry() {
                Some(entry) => {
                    match action {
                        Action::CopyPort => Effect::CopyToClipboard {
                            text: u64_text(entry.port as u64),
                            label: "port".to_string(),
                        },
                        Action::CopyPid => Effect::CopyToClipboard {
                            text: entry.pid_str(),
                            label: "PID".to_string(),
                        },
                        _ => Effect::CopyToClipboard {
                            text: entry.cmdline().to_string(),
                            label: "command".to_string(),
                        },
                    }
                },
                None => Effect::Nothing,
            }
        },
        Action::OpenInBrowser => {
            match app.selected_entry() {
                Some(entry) => {
                    let mut url = "http://localhost:".to_string();
                    push_decimal(&mut url, entry.port as u64);
                    Effect::OpenUrl(url)
                },
                None => Effect::Nothing,
            }
        },
        Action::Refresh => Effect::Refresh,
        Action::Noop => Effect::Nothing,
    }
}

/// Sorting twice by the column the table is already sorted by restores
/// the direction, the order of the rows and the selection.
pub proof fn lemma_sort_twice_restores(
    a0: App,
    a1: App,
    a2: App,
    col: SortColumn,
    t1: u64,
    t2: u64,
    e1: Effect,
    e2: Effect,
)
    requires
        a0.well_formed(),
        a0.sort_column == col,
        action_result(a0, a1, Action::SortByColumn(col), t1, e1),
        action_result(a1, a2, Action::SortByColumn(col), t2, e2),
    ensures
        a2.sort_column == col,
        a2.sort_order == a0.sort_order,
        a2.filtered_indices@ == a0.filtered_indices@,
        a2.selected == a0.selected,
{
    lemma_toggle_involution(a0.sort_order);
    lemma_sort_keeps_rows(
        a0.entries@,
        a0.filter_text@,
        a0.sort_column,
        a0.sort_order,
        a0.filtered_indices@,
        a1.sort_column,
        a1.sort_order,
        a1.filtered_indices@,
    );
    lemma_view_unique(
        a0.entries@,
        a0.filter_text@,
        col,
        a0.sort_order,
        a2.filtered_indices@,
        a0.filtered_indices@,
    );
}

/// Typing a character into the filter and deleting it again restores the
/// filter and the rows of the view.
pub proof fn lemma_filter_input_then_backspace(
    a0: App,
    a1: App,
    a2: App,
    c: char,
    t1: u64,
    t2: u64,
    e1: Effect,
    e2: Effect,
)
    requires
        a0.well_formed(),
        action_result(a0, a1, Action::FilterInput(c), t1, e1),
        action_result(a1, a2, Action::FilterBackspace, t2, e2),
    ensures
        a2.filter_text@ == a0.filter_text@,
        a2.filtered_indices@ == a0.filtered_indices@,
        a2.entries == a0.entries,
        a2.sort_column == a0.sort_column,
        a2.sort_order == a0.sort_order,
{
    assert(a0.filter_text@.push(c).drop_last() =~= a0.filter_text@);
    lemma_view_unique(
        a0.entries@,
        a0.filter_text@,
        a0.sort_column,
        a0.sort_order,
        a2.filtered_indices@,
        a0.filtered_indices@,
    );
}

/// While a filter is typed, a typed character (Control not held) goes to
/// the end of the filter, and the view shows the entries that match it.
pub proof fn lemma_typing_extends_filter(a0: App, a1: App, c: char, t: u64, e: Effect)
    requires
        a0.confirm_kill is None,
        a0.input_mode == InputMode::Filter,
        action_result(
            a0,
            a1,
            key_action(false, a0.input_mode, a0.show_help, KeyEvent { code: KeyCode::Char(c), control: false }),
            t,
            e,
        ),
    ensures
        a1.filter_text@ == a0.filter_text@.push(c),
        a1.well_formed(),
        a1.entries == a0.entries,
        a1.input_mode == InputMode::Filter,
{
}

/// Typing a character into an ASCII filter can only narrow the view: every
/// row shown afterwards was shown before.
pub proof fn lemma_filter_input_narrows(a0: App, a1: App, c: char, t: u64, e: Effect)
    requires
        a0.well_formed(),
        action_result(a0, a1, Action::FilterInput(c), t, e),
        is_ascii_text(a0.filter_text@.push(c)),
    ensures
        a1.filter_text@ == a0.filter_text@.push(c),
        a1.entries == a0.entries,
        forall|k: usize| #[trigger]
            a1.filtered_indices@.contains(k) ==> a0.filtered_indices@.contains(k),
{
    let f = a0.filter_text@;
    let g = f.push(c);
    assert forall|i: int| 0 <= i < f.len() implies (#[trigger] f[i] as u32) < 128 by {
        assert(g[i] == f[i]);
    }
    assert(ascii_lowercase(g) =~= ascii_lowercase(f) + seq![ascii_lower_char(c)]);
    assert forall|k: usize| #[trigger]
        a1.filtered_indices@.contains(k) implies a0.filtered_indices@.contains(k) by {
        let m = choose|m: int| 0 <= m < a1.filtered_indices@.len() && a1.filtered_indices@[m] == k;
        assert(a1.filtered_indices@[m] < a1.entries@.len());
        let en = entry_at(a0.entries@, k);
        assert(view_matches(g, en));
        if f.len() > 0 {
            lemma_in_order_parts(
                ascii_lowercase(f),
                seq![ascii_lower_char(c)],
                crate::text::lowercase(crate::types::search_text(en)),
            );
        }
        assert(view_matches(f, en));
    }
}

/// Opening the detail pane and closing it again (or the other way round)
/// leaves the state as it was; loading a detail is work handed out as an
/// effect, not a change of the state.
pub proof fn lemma_detail_toggle_twice(a0: App, a1: App, a2: App, t1: u64, t2: u64, e1: Effect, e2: Effect)
    requires
        action_result(a0, a1, Action::ToggleDetail, t1, e1),
        action_result(a1, a2, Action::ToggleDetail, t2, e2),
    ensures
        a1.pane_mode != a0.pane_mode,
        a2 == a0,
{
}

/// Only a confirmation asks for a signal, and only for the kill that was
/// pending; a confirmation with nothing pending changes nothing. The pending
/// kill is set only by Kill and ForceKill, for the selected entry's process,
/// and cleared only by Cancel and ConfirmKill.
pub proof fn lemma_signal_only_for_pending_kill(a0: App, a1: App, action: Action, t: u64, e: Effect)
    requires
        action_result(a0, a1, action, t, e),
    ensures
        match e {
            Effect::SendSignal(k) => action == Action::ConfirmKill && a0.confirm_kill == Some(k),
            _ => true,
        },
        action == Action::ConfirmKill && a0.confirm_kill is None ==> a1 == a0 && e is Nothing,
        a1.confirm_kill != a0.confirm_kill ==> (action is Kill || action is ForceKill || action
            is Cancel || action is ConfirmKill),
        a1.confirm_kill != a0.confirm_kill && a1.confirm_kill is Some ==> (action is Kill
            || action is ForceKill) && match selected_entry_of(a0) {
            Some(en) => a1.confirm_kill == kill_for(en, action is ForceKill),
            None => false,
        },
{
}

/// On a view with rows, a move lands on the row it names, kept within the
/// view: one row up or down, twenty rows up or down, the first row, or the
/// last row, counting from the selected row (the first when none is).
pub proof fn lemma_moves_land_on_rows(a0: App, a1: App, action: Action, t: u64, e: Effect)
    requires
        a0.well_formed(),
        0 < a0.filtered_indices@.len() <= usize::MAX,
        action is MoveUp || action is MoveDown || action is PageUp || action is PageDown
            || action is Home || action is End,
        action_result(a0, a1, action, t, e),
    ensures
        a1.selected is Some,
        a1.selected.unwrap() as int == ({
            let n = a0.filtered_indices@.len() as int;
            let s = match a0.selected {
                Some(s) => s as int,
                None => 0,
            };
            let target = match action {
                Action::MoveUp => s - 1,
                Action::MoveDown => s + 1,
                Action::PageUp => s - 20,
                Action::PageDown => s + 20,
                Action::Home => 0,
                _ => n - 1,
            };
            if target < 0 {
                0
            } else if target > n - 1 {
                n - 1
            } else {
                target
            }
        }),
        a1.entries == a0.entries,
        a1.filtered_indices == a0.filtered_indices,
        e is Nothing,
{
    let n = a0.filtered_indices@.len() as int;
    let s = match a0.selected {
        Some(s) => s as int,
        None => 0,
    };
    assert(0 <= clamp_row(s + move_delta(action), n - 1) <= n - 1);
}

/// Opening the help and closing it again leaves the state as it was.
pub proof fn lemma_help_toggle_twice(a0: App, a1: App, a2: App, t1: u64, t2: u64, e1: Effect, e2: Effect)
    requires
        action_result(a0, a1, Action::ToggleHelp, t1, e1),
        action_result(a1, a2, Action::ToggleHelp, t2, e2),
    ensures
        a2 == a0,
{
}

/// A cancelled kill leaves nothing pending, and a confirmed one hands over
/// exactly the kill that was asked for, once.
pub proof fn lemma_confirm_sends_pending_kill(a0: App, a1: App, t: u64, e: Effect)
    requires
        action_result(a0, a1, Action::ConfirmKill, t, e),
    ensures
        a1.confirm_kill is None,
        match a0.confirm_kill {
            Some(k) => e == Effect::SendSignal(k),
            None => e is Nothing,
        },
{
}

/// The status after a signal was sent.
pub open spec fn sent_text(k: KillConfirmation) -> Seq<char> {
    "Sent "@ + signal_text(k.force) + " to "@ + k.process_name@ + " (PID "@ + signed_decimal(
        k.pid as int,
    ) + ") on port "@ + decimal(k.port as nat)
}

/// What is reported once the signal of `k` was sent: "Sent SIGTERM to
/// name (PID pid) on port port".
pub fn sent_message(k: &KillConfirmation) -> (r: String)
    ensures
        r@ == sent_text(*k),
{
    let mut msg = "Sent ".to_string();
    msg.append(signal_name(k.force));
    msg.append(" to ");
    msg.append(k.process_name.as_str());
    msg.append(" (PID ");
    let pid = i32_text(k.pid);
    msg.append(pid.as_str());
    msg.append(") on port ");
    push_decimal(&mut msg, k.port as u64);
    msg
}

/// The status after sending a signal failed with `err`.
pub open spec fn kill_failed_text(err: Seq<char>) -> Seq<char> {
    "Kill failed: "@ + err
}

/// The status after copying `text`, named `label`, to the clipboard.
pub open spec fn copied_text(label: Seq<char>, text: Seq<char>) -> Seq<char> {
    "Copied "@ + label + " to clipboard: "@ + text
}

/// The status after the clipboard failed with `err`.
pub open spec fn clipboard_error_text(err: Seq<char>) -> Seq<char> {
    "Clipboard error: "@ + err
}

/// The status after opening `url`.
pub open spec fn opened_text(url: Seq<char>) -> Seq<char> {
    "Opened "@ + url
}

/// The status after the browser could not be opened.
pub open spec fn open_failed_text(err: Seq<char>) -> Seq<char> {
    "Failed to open browser: "@ + err
}

/// The status after a manual refresh.
pub open spec fn refreshed_text() -> Seq<char> {
    "Refreshed"@
}

/// The state is the same but for a status message set at `now_ms`.
pub open spec fn status_set(old_app: App, new_app: App, now_ms: u64, text: Seq<char>) -> bool {
    &&& new_app == App { status_message: new_app.status_message, ..old_app }
    &&& new_app.status_message matches Some((m, t))
    &&& t == now_ms
    &&& m@ == text
}

/// Reports the outcome of sending the signal of `k`. On success the
/// entries are replaced by `fresh`, when they could be read again.
pub fn finish_kill(
    app: &mut App,
    k: &KillConfirmation,
    outcome: Result<(), String>,
    fresh: Option<Vec<PortEntry>>,
    now_ms: u64,
)
    ensures
        old(app).well_formed() ==> final(app).well_formed(),
        match outcome {
            Ok(()) => match fresh {
                Some(entries) => {
                    &&& final(app).well_formed()
                    &&& final(app).entries == entries
                    &&& final(app).filter_text == old(app).filter_text
                    &&& final(app).sort_column == old(app).sort_column
                    &&& final(app).sort_order == old(app).sort_order
                    &&& final(app).selected == reselected(
                        old(app).selected,
                        final(app).filtered_indices@.len(),
                    )
                    &&& final(app).status_message matches Some((m, t))
                    &&& t == now_ms
                    &&& m@ == sent_text(*k)
                    &&& final(app).input_mode == old(app).input_mode
                    &&& final(app).pane_mode == old(app).pane_mode
                    &&& final(app).detail_cache == old(app).detail_cache
                    &&& final(app).detail_pid == old(app).detail_pid
                    &&& final(app).show_help == old(app).show_help
                    &&& final(app).confirm_kill == old(app).confirm_kill
                    &&& final(app).should_quit == old(app).should_quit
                },
                None => status_set(*old(app), *final(app), now_ms, sent_text(*k)),
            },
            Err(e) => status_set(*old(app), *final(app), now_ms, kill_failed_text(e@)),
        },
{
    match outcome {
        Ok(()) => {
            let msg = sent_message(k);
            app.set_status(msg, now_ms);
            match fresh {
                Some(entries) => app.update_entries(entries),
                None => {},
            }
        },
        Err(e) => {
            let mut msg = "Kill failed: ".to_string();
            msg.append(e.as_str());
            app.set_status(msg, now_ms);
        },
    }
}

/// Reports the outcome of copying `text`, named `label`, to the clipboard.
pub fn finish_copy(app: &mut App, label: &str, text: &str, outcome: Result<(), String>, now_ms: u64)
    ensures
        old(app).well_formed() ==> final(app).well_formed(),
        match outcome {
            Ok(()) => status_set(*old(app), *final(app), now_ms, copied_text(label@, text@)),
            Err(e) => status_set(*old(app), *final(app), now_ms, clipboard_error_text(e@)),
        },
{
    match outcome {
        Ok(()) => {
            let mut msg = "Copied ".to_string();
            msg.append(label);
            msg.append(" to clipboard: ");
            msg.append(text);
            app.set_status(msg, now_ms);
        },
        Err(e) => {
            let mut msg = "Clipboard error: ".to_string();
            msg.append(e.as_str());
            app.set_status(msg, now_ms);
        },
    }
}

/// Reports the outcome of opening `url` in a browser.
pub fn finish_open(app: &mut App, url: &str, outcome: Result<(), String>, now_ms: u64)
    ensures
        old(app).well_formed() ==> final(app).well_formed(),
        match outcome {
            Ok(()) => status_set(*old(app), *final(app), now_ms, opened_text(url@)),
            Err(e) => status_set(*old(app), *final(app), now_ms, open_failed_text(e@)),
        },
{
    match outcome {
        Ok(()) => {
            let mut msg = "Opened ".to_string();
            msg.append(url);
            app.set_status(msg, now_ms);
        },
        Err(e) => {
            let mut msg = "Failed to open browser: ".to_string();
            msg.append(e.as_str());
            app.set_status(msg, now_ms);
        },
    }
}

/// Reports a manual refresh: when the entries could be read again they
/// replace the old ones and the status says so; otherwise nothing changes.
pub fn finish_refresh(app: &mut App, fresh: Option<Vec<PortEntry>>, now_ms: u64)
    ensures
        old(app).well_formed() ==> final(app).well_formed(),
        match fresh {
            Some(entries) => {
                &&& final(app).well_formed()
                &&& final(app).entries == entries
                &&& final(app).filter_text == old(app).filter_text
                &&& final(app).sort_column == old(app).sort_column
                &&& final(app).sort_order == old(app).sort_order
                &&& final(app).selected == reselected(
                    old(app).selected,
                    final(app).filtered_indices@.len(),
                )
                &&& final(app).status_message matches Some((m, t))
                &&& t == now_ms
                &&& m@ == refreshed_text()
                &&& final(app).input_mode == old(app).input_mode
                &&& final(app).pane_mode == old(app).pane_mode
                &&& final(app).detail_cache == old(app).detail_cache
                &&& final(app).detail_pid == old(app).detail_pid
                &&& final(app).show_help == old(app).show_help
                &&& final(app).confirm_kill == old(app).confirm_kill
                &&& final(app).should_quit == old(app).should_quit
            },
            None => *final(app) == *old(app),
        },
{
    match fresh {
        Some(entries) => {
            app.update_entries(entries);
            app.set_status("Refreshed".to_string(), now_ms);
        },
        None => {},
    }
}

} // verus!
