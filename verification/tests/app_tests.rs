use portmon::actions::{
    can_handle, finish_copy, finish_kill, finish_open, finish_refresh, handle_action, sent_message,
    Effect,
};
use portmon::app::{App, InputMode, KillConfirmation, PaneMode};
use portmon::keybindings::{handle_key, Action, KeyCode, KeyEvent};
use portmon::types::{
    ChildProcess, PortEntry, ProcessDetail, ProcessInfo, Protocol, SocketState, SortColumn,
    SortOrder,
};

fn proc_info(pid: i32, name: &str, cmd: &str) -> ProcessInfo {
    ProcessInfo {
        pid,
        name: name.to_string(),
        cmdline: cmd.to_string(),
        cwd: Some(format!("/srv/{name}")),
    }
}

fn entry(protocol: Protocol, port: u16, user: &str, process: Option<ProcessInfo>) -> PortEntry {
    PortEntry {
        protocol,
        local_addr: "0.0.0.0".to_string(),
        port,
        remote_port: 0,
        state: SocketState::Listen,
        inode: port as u64,
        uid: 1000,
        username: user.to_string(),
        process,
    }
}

fn sample() -> Vec<PortEntry> {
    vec![
        entry(Protocol::Tcp, 8080, "alice", Some(proc_info(300, "node", "node server.js"))),
        entry(Protocol::Tcp, 22, "root", Some(proc_info(100, "sshd", "/usr/sbin/sshd -D"))),
        entry(Protocol::Udp, 53, "systemd-resolve", None),
        entry(Protocol::Tcp6, 443, "www", Some(proc_info(200, "nginx", "nginx: master"))),
    ]
}

fn ports(app: &App) -> Vec<u16> {
    app.filtered_indices.iter().map(|&i| app.entries[i].port).collect()
}

fn key(c: char) -> KeyEvent {
    KeyEvent { code: KeyCode::Char(c), control: false }
}

fn code(k: KeyCode) -> KeyEvent {
    KeyEvent { code: k, control: false }
}

fn detail(pid: i32) -> ProcessDetail {
    ProcessDetail {
        pid,
        name: "node".to_string(),
        cmdline: vec!["node".to_string()],
        cwd: None,
        environ: vec![],
        open_fds: 3,
        children: vec![ChildProcess { pid: 301, name: "worker".to_string() }],
        container_id: None,
        memory_rss_bytes: None,
        threads: Some(4),
    }
}

#[test]
fn new_table_sorted_by_port_with_first_row_selected() {
    let app = App::new(sample(), 2000, false);
    assert_eq!(ports(&app), vec![22, 53, 443, 8080]);
    assert_eq!(app.selected, Some(0));
    assert_eq!(app.sort_column, SortColumn::Port);
    assert_eq!(app.sort_order, SortOrder::Ascending);
    assert_eq!(app.input_mode, InputMode::Normal);
    assert_eq!(app.pane_mode, PaneMode::Table);
    assert_eq!(app.entry_count(), 4);
    assert_eq!(app.total_count(), 4);
    assert_eq!(app.refresh_interval_ms, 2000);
    assert!(!app.is_root);
    assert_eq!(app.selected_entry().unwrap().port, 22);
}

#[test]
fn empty_table_has_no_selection() {
    let mut app = App::new(vec![], 1000, true);
    assert_eq!(app.selected, None);
    assert!(app.selected_entry().is_none());
    app.move_selection(5);
    assert_eq!(app.selected, None);
    app.select_last();
    assert_eq!(app.selected, None);
    assert_eq!(app.detail_to_load(), None);
}

#[test]
fn equal_keys_keep_their_order() {
    let entries = vec![
        entry(Protocol::Udp, 80, "b", None),
        entry(Protocol::Tcp, 80, "a", None),
        entry(Protocol::Tcp6, 10, "c", None),
        entry(Protocol::Udp6, 80, "d", None),
    ];
    let mut app = App::new(entries, 1000, false);
    assert_eq!(app.filtered_indices, vec![2, 0, 1, 3]);
    handle_action(&mut app, Action::SortByColumn(SortColumn::Port), 0);
    assert_eq!(app.sort_order, SortOrder::Descending);
    assert_eq!(app.filtered_indices, vec![0, 1, 3, 2]);
}

#[test]
fn sorting_by_same_column_reverses_and_other_column_resets() {
    let mut app = App::new(sample(), 1000, false);
    handle_action(&mut app, Action::SortByColumn(SortColumn::Port), 0);
    assert_eq!(ports(&app), vec![8080, 443, 53, 22]);
    handle_action(&mut app, Action::SortByColumn(SortColumn::Port), 0);
    assert_eq!(app.sort_order, SortOrder::Ascending);
    assert_eq!(ports(&app), vec![22, 53, 443, 8080]);
    handle_action(&mut app, Action::SortByColumn(SortColumn::Port), 0);
    handle_action(&mut app, Action::SortByColumn(SortColumn::ProcessName), 0);
    assert_eq!(app.sort_column, SortColumn::ProcessName);
    assert_eq!(app.sort_order, SortOrder::Ascending);
    // "-" sorts before letters
    assert_eq!(ports(&app), vec![53, 443, 8080, 22]);
    handle_action(&mut app, Action::SortByColumn(SortColumn::Pid), 0);
    assert_eq!(ports(&app), vec![53, 22, 443, 8080]);
}

#[test]
fn sort_twice_restores_order_and_selection() {
    let mut app = App::new(sample(), 1000, false);
    app.selected = Some(2);
    let before = app.filtered_indices.clone();
    handle_action(&mut app, Action::SortByColumn(SortColumn::Port), 0);
    handle_action(&mut app, Action::SortByColumn(SortColumn::Port), 0);
    assert_eq!(app.filtered_indices, before);
    assert_eq!(app.selected, Some(2));
    assert_eq!(app.sort_order, SortOrder::Ascending);
}

#[test]
fn filter_is_fuzzy_and_case_insensitive() {
    let mut app = App::new(sample(), 1000, false);
    handle_action(&mut app, Action::EnterFilterMode, 0);
    assert_eq!(app.input_mode, InputMode::Filter);
    for c in "NGX".chars() {
        handle_action(&mut app, Action::FilterInput(c), 0);
    }
    assert_eq!(app.filter_text, "NGX");
    assert_eq!(ports(&app), vec![443]);
    assert_eq!(app.entry_count(), 1);
    assert_eq!(app.total_count(), 4);
    assert_eq!(app.selected, Some(0));
    handle_action(&mut app, Action::ExitFilterMode, 0);
    assert_eq!(app.input_mode, InputMode::Normal);
    assert_eq!(app.filter_text, "NGX");
}

#[test]
fn filter_matches_any_field_in_order() {
    let mut app = App::new(sample(), 1000, false);
    for c in "root".chars() {
        handle_action(&mut app, Action::FilterInput(c), 0);
    }
    assert_eq!(ports(&app), vec![22]);
    handle_action(&mut app, Action::FilterBackspace, 0);
    handle_action(&mut app, Action::FilterBackspace, 0);
    handle_action(&mut app, Action::FilterBackspace, 0);
    handle_action(&mut app, Action::FilterBackspace, 0);
    assert_eq!(app.filter_text, "");
    assert_eq!(ports(&app), vec![22, 53, 443, 8080]);
    handle_action(&mut app, Action::FilterBackspace, 0);
    assert_eq!(app.filter_text, "");
}

#[test]
fn filter_input_then_backspace_restores_view() {
    let mut app = App::new(sample(), 1000, false);
    handle_action(&mut app, Action::FilterInput('t'), 0);
    let before = app.filtered_indices.clone();
    handle_action(&mut app, Action::FilterInput('z'), 0);
    assert_eq!(app.entry_count(), 0);
    assert_eq!(app.selected, None);
    handle_action(&mut app, Action::FilterBackspace, 0);
    assert_eq!(app.filter_text, "t");
    assert_eq!(app.filtered_indices, before);
    assert_eq!(app.selected, Some(0));
}

#[test]
fn selection_clamped_when_view_shrinks() {
    let mut app = App::new(sample(), 1000, false);
    handle_action(&mut app, Action::End, 0);
    assert_eq!(app.selected, Some(3));
    for c in "tcp".chars() {
        handle_action(&mut app, Action::FilterInput(c), 0);
    }
    // 22, 443, 8080 are TCP/TCP6
    assert_eq!(ports(&app), vec![22, 443, 8080]);
    assert_eq!(app.selected, Some(2));
    let fewer = vec![entry(Protocol::Tcp, 22, "root", None)];
    app.update_entries(fewer);
    assert_eq!(app.selected, Some(0));
}

#[test]
fn moving_clamps_to_the_view() {
    let mut app = App::new(sample(), 1000, false);
    handle_action(&mut app, Action::MoveUp, 0);
    assert_eq!(app.selected, Some(0));
    handle_action(&mut app, Action::MoveDown, 0);
    assert_eq!(app.selected, Some(1));
    handle_action(&mut app, Action::PageDown, 0);
    assert_eq!(app.selected, Some(3));
    handle_action(&mut app, Action::PageUp, 0);
    assert_eq!(app.selected, Some(0));
    handle_action(&mut app, Action::End, 0);
    assert_eq!(app.selected, Some(3));
    handle_action(&mut app, Action::Home, 0);
    assert_eq!(app.selected, Some(0));
    app.move_selection(-1000);
    assert_eq!(app.selected, Some(0));
    app.move_selection(1000);
    assert_eq!(app.selected, Some(3));
}

#[test]
fn detail_loaded_once_and_dropped_on_move() {
    let mut app = App::new(sample(), 1000, false);
    // row 0 is port 22, pid 100
    let effect = handle_action(&mut app, Action::ToggleDetail, 0);
    assert!(matches!(effect, Effect::LoadDetail(100)));
    assert_eq!(app.pane_mode, PaneMode::TableWithDetail);
    app.store_detail(100, Some(detail(100)));
    assert_eq!(app.detail_pid, Some(100));
    assert_eq!(app.detail_to_load(), None);
    let effect = handle_action(&mut app, Action::ToggleDetail, 0);
    assert!(matches!(effect, Effect::Nothing));
    assert_eq!(app.pane_mode, PaneMode::Table);
    let effect = handle_action(&mut app, Action::ToggleDetail, 0);
    assert!(matches!(effect, Effect::Nothing));
    // moving to a row of another process drops the cached detail
    handle_action(&mut app, Action::MoveDown, 0);
    assert!(app.detail_cache.is_none());
    assert_eq!(app.detail_pid, None);
    // port 53 has no process: nothing to load
    assert_eq!(app.detail_to_load(), None);
    handle_action(&mut app, Action::MoveDown, 0);
    assert_eq!(app.detail_to_load(), Some(200));
}

#[test]
fn moving_within_same_process_keeps_detail() {
    let entries = vec![
        entry(Protocol::Tcp, 80, "www", Some(proc_info(7, "nginx", "nginx"))),
        entry(Protocol::Tcp6, 81, "www", Some(proc_info(7, "nginx", "nginx"))),
    ];
    let mut app = App::new(entries, 1000, false);
    app.store_detail(7, Some(detail(7)));
    handle_action(&mut app, Action::MoveDown, 0);
    assert_eq!(app.selected, Some(1));
    assert_eq!(app.detail_pid, Some(7));
    assert!(app.detail_cache.is_some());
}

#[test]
fn kill_asks_for_confirmation() {
    let mut app = App::new(sample(), 1000, false);
    let effect = handle_action(&mut app, Action::Kill, 0);
    assert!(matches!(effect, Effect::Nothing));
    let k = app.confirm_kill.as_ref().unwrap();
    assert_eq!(k.pid, 100);
    assert_eq!(k.process_name, "sshd");
    assert_eq!(k.port, 22);
    assert!(!k.force);
    let effect = handle_action(&mut app, Action::ConfirmKill, 0);
    assert!(app.confirm_kill.is_none());
    match effect {
        Effect::SendSignal(k) => {
            assert_eq!(k.pid, 100);
            assert!(!k.force);
        }
        other => panic!("unexpected effect {other:?}"),
    }
    let effect = handle_action(&mut app, Action::ConfirmKill, 0);
    assert!(matches!(effect, Effect::Nothing));
}

#[test]
fn force_kill_and_cancel() {
    let mut app = App::new(sample(), 1000, false);
    handle_action(&mut app, Action::End, 0);
    handle_action(&mut app, Action::ForceKill, 0);
    let k = app.confirm_kill.as_ref().unwrap();
    assert!(k.force);
    assert_eq!(k.port, 8080);
    handle_action(&mut app, Action::Cancel, 0);
    assert!(app.confirm_kill.is_none());
}

#[test]
fn kill_without_process_sets_status() {
    let mut app = App::new(sample(), 1000, false);
    handle_action(&mut app, Action::MoveDown, 0);
    handle_action(&mut app, Action::Kill, 1234);
    assert!(app.confirm_kill.is_none());
    assert_eq!(app.status_message, Some(("No process info available".to_string(), 1234)));
    assert_eq!(app.status_text(1234), Some("No process info available"));
    assert_eq!(app.status_text(6233), Some("No process info available"));
    assert_eq!(app.status_text(6234), None);
    assert_eq!(app.status_text(100), Some("No process info available"));
}

#[test]
fn kill_with_empty_view_does_nothing() {
    let mut app = App::new(vec![], 1000, false);
    let effect = handle_action(&mut app, Action::Kill, 5);
    assert!(matches!(effect, Effect::Nothing));
    assert!(app.confirm_kill.is_none());
    assert!(app.status_message.is_none());
}

#[test]
fn copy_and_open_effects() {
    let mut app = App::new(sample(), 1000, false);
    handle_action(&mut app, Action::End, 0);
    match handle_action(&mut app, Action::CopyPort, 0) {
        Effect::CopyToClipboard { text, label } => {
            assert_eq!(text, "8080");
            assert_eq!(label, "port");
        }
        other => panic!("unexpected effect {other:?}"),
    }
    match handle_action(&mut app, Action::CopyPid, 0) {
        Effect::CopyToClipboard { text, label } => {
            assert_eq!(text, "300");
            assert_eq!(label, "PID");
        }
        other => panic!("unexpected effect {other:?}"),
    }
    match handle_action(&mut app, Action::CopyCmdline, 0) {
        Effect::CopyToClipboard { text, label } => {
            assert_eq!(text, "node server.js");
            assert_eq!(label, "command");
        }
        other => panic!("unexpected effect {other:?}"),
    }
    match handle_action(&mut app, Action::OpenInBrowser, 0) {
        Effect::OpenUrl(url) => assert_eq!(url, "http://localhost:8080"),
        other => panic!("unexpected effect {other:?}"),
    }
    handle_action(&mut app, Action::Home, 0);
    handle_action(&mut app, Action::MoveDown, 0);
    match handle_action(&mut app, Action::CopyPid, 0) {
        Effect::CopyToClipboard { text, .. } => assert_eq!(text, "-"),
        other => panic!("unexpected effect {other:?}"),
    }
}

#[test]
fn quit_help_refresh_and_noop() {
    let mut app = App::new(sample(), 1000, false);
    assert!(matches!(handle_action(&mut app, Action::Refresh, 0), Effect::Refresh));
    assert!(matches!(handle_action(&mut app, Action::Noop, 0), Effect::Nothing));
    handle_action(&mut app, Action::ToggleHelp, 0);
    assert!(app.show_help);
    handle_action(&mut app, Action::ToggleHelp, 0);
    assert!(!app.show_help);
    assert!(!app.should_quit);
    handle_action(&mut app, Action::Quit, 0);
    assert!(app.should_quit);
}

#[test]
fn finishing_a_kill_reports_and_reloads() {
    let mut app = App::new(sample(), 1000, false);
    let k = KillConfirmation { pid: 100, process_name: "sshd".to_string(), port: 22, force: false };
    assert_eq!(sent_message(&k), "Sent SIGTERM to sshd (PID 100) on port 22");
    let fresh = vec![entry(Protocol::Tcp, 8080, "alice", None)];
    finish_kill(&mut app, &k, Ok(()), Some(fresh), 10);
    assert_eq!(app.total_count(), 1);
    assert_eq!(app.selected, Some(0));
    assert_eq!(app.status_text(10), Some("Sent SIGTERM to sshd (PID 100) on port 22"));
    let forced = KillConfirmation { pid: 9, process_name: "x".to_string(), port: 1, force: true };
    finish_kill(&mut app, &forced, Ok(()), None, 11);
    assert_eq!(app.status_text(11), Some("Sent SIGKILL to x (PID 9) on port 1"));
    assert_eq!(app.total_count(), 1);
    finish_kill(&mut app, &k, Err("EPERM: Operation not permitted".to_string()), None, 12);
    assert_eq!(app.status_text(12), Some("Kill failed: EPERM: Operation not permitted"));
}

#[test]
fn finishing_copy_open_and_refresh() {
    let mut app = App::new(sample(), 1000, false);
    finish_copy(&mut app, "port", "8080", Ok(()), 1);
    assert_eq!(app.status_text(1), Some("Copied port to clipboard: 8080"));
    finish_copy(&mut app, "PID", "300", Err("no display".to_string()), 2);
    assert_eq!(app.status_text(2), Some("Clipboard error: no display"));
    finish_open(&mut app, "http://localhost:8080", Ok(()), 3);
    assert_eq!(app.status_text(3), Some("Opened http://localhost:8080"));
    finish_open(&mut app, "http://localhost:8080", Err("no browser".to_string()), 4);
    assert_eq!(app.status_text(4), Some("Failed to open browser: no browser"));
    finish_refresh(&mut app, None, 5);
    assert_eq!(app.status_text(5), Some("Failed to open browser: no browser"));
    assert_eq!(app.total_count(), 4);
    finish_refresh(&mut app, Some(vec![]), 6);
    assert_eq!(app.status_text(6), Some("Refreshed"));
    assert_eq!(app.total_count(), 0);
    assert_eq!(app.selected, None);
}

#[test]
fn ctrl_c_quits_in_every_mode() {
    let ctrl_c = KeyEvent { code: KeyCode::Char('c'), control: true };
    let mut app = App::new(sample(), 1000, false);
    assert_eq!(handle_key(&app, ctrl_c), Action::Quit);
    app.input_mode = InputMode::Filter;
    assert_eq!(handle_key(&app, ctrl_c), Action::Quit);
    app.show_help = true;
    assert_eq!(handle_key(&app, ctrl_c), Action::Quit);
    handle_action(&mut app, Action::Kill, 0);
    assert_eq!(handle_key(&app, ctrl_c), Action::Quit);
}

#[test]
fn confirmation_dialog_keys() {
    let mut app = App::new(sample(), 1000, false);
    handle_action(&mut app, Action::Kill, 0);
    assert_eq!(handle_key(&app, key('y')), Action::ConfirmKill);
    assert_eq!(handle_key(&app, code(KeyCode::Enter)), Action::ConfirmKill);
    assert_eq!(handle_key(&app, key('n')), Action::Cancel);
    assert_eq!(handle_key(&app, key('q')), Action::Cancel);
    assert_eq!(handle_key(&app, code(KeyCode::Esc)), Action::Cancel);
}

#[test]
fn filter_mode_keys() {
    let mut app = App::new(sample(), 1000, false);
    app.input_mode = InputMode::Filter;
    assert_eq!(handle_key(&app, code(KeyCode::Esc)), Action::ExitFilterMode);
    assert_eq!(handle_key(&app, code(KeyCode::Enter)), Action::ExitFilterMode);
    assert_eq!(handle_key(&app, code(KeyCode::Backspace)), Action::FilterBackspace);
    assert_eq!(handle_key(&app, key('q')), Action::FilterInput('q'));
    assert_eq!(handle_key(&app, code(KeyCode::Up)), Action::MoveUp);
    assert_eq!(handle_key(&app, code(KeyCode::Down)), Action::MoveDown);
    assert_eq!(handle_key(&app, code(KeyCode::PageDown)), Action::Noop);
}

#[test]
fn help_overlay_keys() {
    let mut app = App::new(sample(), 1000, false);
    app.show_help = true;
    assert_eq!(handle_key(&app, key('?')), Action::ToggleHelp);
    assert_eq!(handle_key(&app, key('q')), Action::ToggleHelp);
    assert_eq!(handle_key(&app, code(KeyCode::Esc)), Action::ToggleHelp);
    assert_eq!(handle_key(&app, key('j')), Action::Noop);
}

#[test]
fn normal_mode_keys() {
    let app = App::new(sample(), 1000, false);
    let expected = [
        ('q', Action::Quit),
        ('/', Action::EnterFilterMode),
        ('k', Action::MoveUp),
        ('j', Action::MoveDown),
        ('g', Action::Home),
        ('G', Action::End),
        ('d', Action::ToggleDetail),
        ('?', Action::ToggleHelp),
        ('x', Action::Kill),
        ('X', Action::ForceKill),
        ('y', Action::CopyPort),
        ('Y', Action::CopyPid),
        ('c', Action::CopyCmdline),
        ('o', Action::OpenInBrowser),
        ('r', Action::Refresh),
        ('1', Action::SortByColumn(SortColumn::Protocol)),
        ('2', Action::SortByColumn(SortColumn::LocalAddr)),
        ('3', Action::SortByColumn(SortColumn::Port)),
        ('4', Action::SortByColumn(SortColumn::Pid)),
        ('5', Action::SortByColumn(SortColumn::ProcessName)),
        ('6', Action::SortByColumn(SortColumn::User)),
        ('7', Action::SortByColumn(SortColumn::Project)),
        ('8', Action::SortByColumn(SortColumn::State)),
        ('9', Action::SortByColumn(SortColumn::Command)),
        ('0', Action::Noop),
        ('z', Action::Noop),
    ];
    for (c, action) in expected {
        assert_eq!(handle_key(&app, key(c)), action, "key {c}");
    }
    assert_eq!(handle_key(&app, code(KeyCode::Esc)), Action::Quit);
    assert_eq!(handle_key(&app, code(KeyCode::Up)), Action::MoveUp);
    assert_eq!(handle_key(&app, code(KeyCode::Down)), Action::MoveDown);
    assert_eq!(handle_key(&app, code(KeyCode::PageUp)), Action::PageUp);
    assert_eq!(handle_key(&app, code(KeyCode::PageDown)), Action::PageDown);
    assert_eq!(handle_key(&app, code(KeyCode::Home)), Action::Home);
    assert_eq!(handle_key(&app, code(KeyCode::End)), Action::End);
    assert_eq!(handle_key(&app, code(KeyCode::Enter)), Action::Noop);
    assert_eq!(handle_key(&app, KeyEvent { code: KeyCode::Char('q'), control: true }), Action::Quit);
}

#[test]
fn actions_checked_for_row_numbers() {
    let mut app = App::new(sample(), 1000, false);
    assert!(can_handle(&app, Action::PageDown));
    assert!(can_handle(&app, Action::MoveUp));
    app.selected = Some(i32::MAX as usize);
    assert!(!can_handle(&app, Action::MoveDown));
    assert!(!can_handle(&app, Action::PageDown));
    assert!(can_handle(&app, Action::MoveUp));
    assert!(can_handle(&app, Action::Quit));
    app.selected = Some(usize::MAX);
    assert!(can_handle(&app, Action::Quit));
    assert!(can_handle(&app, Action::Kill));
    assert!(!can_handle(&app, Action::MoveUp));
}

#[test]
fn typing_a_filter_character_narrows_the_view() {
    let mut app = App::new(sample(), 1000, false);
    let mut shown = app.filtered_indices.clone();
    for c in "tcp8".chars() {
        handle_action(&mut app, Action::FilterInput(c), 0);
        assert!(app.filtered_indices.iter().all(|i| shown.contains(i)));
        shown = app.filtered_indices.clone();
    }
    assert_eq!(ports(&app), vec![8080]);
}

#[test]
fn detail_toggled_twice_restores_the_pane() {
    let mut app = App::new(sample(), 1000, false);
    let first = handle_action(&mut app, Action::ToggleDetail, 0);
    assert!(matches!(first, Effect::LoadDetail(100)));
    let second = handle_action(&mut app, Action::ToggleDetail, 0);
    assert!(matches!(second, Effect::Nothing));
    assert_eq!(app.pane_mode, PaneMode::Table);
    assert!(app.detail_cache.is_none());
    assert_eq!(app.detail_pid, None);
}

#[test]
fn only_a_pending_kill_is_signalled() {
    let mut app = App::new(sample(), 1000, false);
    for action in [Action::ConfirmKill, Action::CopyPid, Action::Refresh, Action::MoveDown] {
        let effect = handle_action(&mut app, action, 0);
        assert!(!matches!(effect, Effect::SendSignal(_)));
    }
    assert!(app.confirm_kill.is_none());
    // row 1 is port 53, which has no process: nothing becomes pending
    handle_action(&mut app, Action::Kill, 0);
    assert!(app.confirm_kill.is_none());
    handle_action(&mut app, Action::MoveDown, 0);
    handle_action(&mut app, Action::ForceKill, 0);
    handle_action(&mut app, Action::MoveDown, 0);
    // moving does not change the pending kill
    assert_eq!(app.confirm_kill.as_ref().unwrap().pid, 200);
    match handle_action(&mut app, Action::ConfirmKill, 0) {
        Effect::SendSignal(k) => {
            assert_eq!(k.pid, 200);
            assert!(k.force);
        }
        other => panic!("unexpected effect {other:?}"),
    }
    assert!(matches!(handle_action(&mut app, Action::ConfirmKill, 0), Effect::Nothing));
}


#[test]
fn detail_loaded_for_selected_process_only_when_missing() {
    let mut app = App::new(sample(), 1000, false);
    let mut asked = Vec::new();
    app.load_detail_for_selected(|pid| {
        asked.push(pid);
        Some(detail(pid))
    });
    assert_eq!(asked, vec![100]);
    assert_eq!(app.detail_pid, Some(100));
    assert_eq!(app.detail_cache.as_ref().unwrap().pid, 100);
    app.load_detail_for_selected(|pid| {
        asked.push(pid);
        None
    });
    assert_eq!(asked, vec![100]);
    assert!(app.detail_cache.is_some());
    app.move_selection(1);
    app.load_detail_for_selected(|pid| {
        asked.push(pid);
        None
    });
    assert_eq!(asked, vec![100]);
    app.move_selection(1);
    app.load_detail_for_selected(|pid| {
        asked.push(pid);
        None
    });
    assert_eq!(asked, vec![100, 200]);
    assert_eq!(app.detail_pid, Some(200));
    assert!(app.detail_cache.is_none());
}

#[test]
fn typing_in_filter_mode_extends_filter() {
    let mut app = App::new(sample(), 1000, false);
    let slash = handle_key(&app, key('/'));
    handle_action(&mut app, slash, 0);
    for c in "sshd".chars() {
        let action = handle_key(&app, key(c));
        assert_eq!(action, Action::FilterInput(c));
        handle_action(&mut app, action, 0);
    }
    assert_eq!(app.filter_text, "sshd");
    assert_eq!(ports(&app), vec![22]);
    let back = handle_key(&app, code(KeyCode::Backspace));
    handle_action(&mut app, back, 0);
    assert_eq!(app.filter_text, "ssh");
    let done = handle_key(&app, code(KeyCode::Enter));
    handle_action(&mut app, done, 0);
    assert_eq!(app.input_mode, InputMode::Normal);
    assert_eq!(handle_key(&app, key('q')), Action::Quit);
}
