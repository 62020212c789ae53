use portmon::actions::handle_action;
use portmon::app::{App, InputMode, KillConfirmation, PaneMode};
use portmon::keybindings::Action;
use portmon::output::{
    env_hidden, env_lines, env_value_display, env_values_cuttable, list_row, list_table_text,
    megabytes, table_command,
};
use portmon::screen::{detail_pane_lines, help_bar_items, help_overlay_lines, kill_dialog_texts};
use portmon::types::{
    ChildProcess, PortEntry, ProcessDetail, ProcessInfo, Protocol, SocketState, SortColumn,
    SortOrder,
};
use portmon::view::{
    can_truncate, detail_placeholder, filter_cursor, header_label, layout_panes, row_style, status_padding,
    status_right, table_cells, truncate, Pane, RowStyle,
};

fn entry(port: u16, uid: u32, process: Option<ProcessInfo>) -> PortEntry {
    PortEntry {
        protocol: Protocol::Tcp,
        local_addr: "127.0.0.1".to_string(),
        port,
        remote_port: 0,
        state: SocketState::Listen,
        inode: 9,
        uid,
        username: "alice".to_string(),
        process,
    }
}

fn info(cmd: &str, cwd: &str) -> ProcessInfo {
    ProcessInfo { pid: 31337, name: "python3".to_string(), cmdline: cmd.to_string(), cwd: Some(cwd.to_string()) }
}

#[test]
fn long_commands_are_cut_for_the_list_table() {
    assert_eq!(table_command("short"), "short");
    let exact = "a".repeat(60);
    assert_eq!(table_command(&exact), exact);
    let long = "b".repeat(61);
    assert_eq!(table_command(&long), format!("{}...", "b".repeat(57)));
    // cut back to a character boundary: byte 57 falls inside 'é'
    let accented = format!("{}é{}", "c".repeat(56), "d".repeat(10));
    assert_eq!(table_command(&accented), format!("{}...", "c".repeat(56)));
    assert!(table_command(&"é".repeat(40)).len() <= 60);
}

#[test]
fn list_row_of_an_entry() {
    let e = entry(8000, 1000, Some(info(&format!("python3 -m http.server {}", "x".repeat(50)), "/home/alice/site")));
    let row = list_row(&e);
    assert_eq!(&row[..8], &["TCP", "127.0.0.1", "8000", "31337", "python3", "alice", "site", "LISTEN"]);
    assert_eq!(row[8].len(), 60);
    assert!(row[8].ends_with("..."));
    let bare = list_row(&entry(53, 0, None));
    assert_eq!(bare, vec!["TCP", "127.0.0.1", "53", "-", "-", "alice", "-", "LISTEN", "-"]);
}

#[test]
fn list_table_layout() {
    assert_eq!(list_table_text(&vec![]), "No listening ports found.");
    let table = list_table_text(&vec![entry(53, 0, None)]);
    let expected = [
        "+-------+------------+------+-----+---------+-------+---------+--------+---------+",
        "| PROTO | LOCAL ADDR | PORT | PID | PROCESS | USER  | PROJECT | STATE  | COMMAND |",
        "+-------+------------+------+-----+---------+-------+---------+--------+---------+",
        "| TCP   | 127.0.0.1  | 53   | -   | -       | alice | -       | LISTEN | -       |",
        "+-------+------------+------+-----+---------+-------+---------+--------+---------+",
    ]
    .join("\n");
    assert_eq!(table, expected);
}

#[test]
fn environment_values_and_lines() {
    assert_eq!(env_value_display("short"), "short");
    assert_eq!(env_value_display(&"v".repeat(80)), "v".repeat(80));
    assert_eq!(env_value_display(&"v".repeat(81)), format!("{}...", "v".repeat(77)));
    let environ: Vec<(String, String)> = (0..25).map(|i| (format!("K{i}"), format!("{i}"))).collect();
    let lines = env_lines(&environ);
    assert_eq!(lines.len(), 20);
    assert_eq!(lines[0], "  K0=0");
    assert_eq!(lines[19], "  K19=19");
    assert_eq!(env_hidden(25), 5);
    assert_eq!(env_hidden(20), 0);
    assert_eq!(env_hidden(3), 0);
    assert!(env_lines(&vec![]).is_empty());
    assert_eq!(megabytes(0), 0);
    assert_eq!(megabytes(1_048_575), 0);
    assert_eq!(megabytes(1_048_576), 1);
    assert_eq!(megabytes(3 * 1_048_576 + 5), 3);
}

#[test]
fn cells_are_truncated_to_their_width() {
    assert_eq!(truncate("abc", 5), "abc");
    assert_eq!(truncate("abcdef", 5), "ab...");
    assert_eq!(truncate("abcdef", 2), "...");
    assert_eq!(truncate("abcdef", 6), "abcdef");
    assert_eq!(truncate("", 0), "");
    let e = entry(
        8000,
        1000,
        Some(info("python3 -m http.server 8000 --bind 127.0.0.1 --directory /srv", "/home/alice/a-very-long-project-name")),
    );
    let cells = table_cells(&e);
    assert_eq!(
        cells,
        vec![
            "TCP",
            "127.0.0.1",
            "8000",
            "31337",
            "python3",
            "alice",
            "a-very-long-proje...",
            "L",
            "python3 -m http.server 8000 --bind 12...",
        ]
    );
}

#[test]
fn row_colours() {
    assert_eq!(row_style(&entry(8080, 0, None)), RowStyle::Red);
    assert_eq!(row_style(&entry(80, 0, None)), RowStyle::Red);
    assert_eq!(row_style(&entry(80, 33, None)), RowStyle::Yellow);
    assert_eq!(row_style(&entry(1023, 33, None)), RowStyle::Yellow);
    assert_eq!(row_style(&entry(1024, 33, None)), RowStyle::White);
}

#[test]
fn header_labels_carry_the_sort_arrow() {
    assert_eq!(header_label(SortColumn::Port, SortColumn::Port, SortOrder::Ascending), "Port ▲");
    assert_eq!(header_label(SortColumn::Pid, SortColumn::Pid, SortOrder::Descending), "PID ▼");
    assert_eq!(header_label(SortColumn::User, SortColumn::Port, SortOrder::Ascending), "User");
}

#[test]
fn panes_follow_filter_and_detail() {
    let mut app = App::new(vec![entry(80, 1, None)], 2000, true);
    assert_eq!(layout_panes(&app), vec![Pane::StatusBar, Pane::Table, Pane::HelpBar]);
    assert_eq!(filter_cursor(&app), "");
    app.input_mode = InputMode::Filter;
    assert_eq!(layout_panes(&app), vec![Pane::StatusBar, Pane::FilterBar, Pane::Table, Pane::HelpBar]);
    assert_eq!(filter_cursor(&app), "█");
    app.input_mode = InputMode::Normal;
    handle_action(&mut app, Action::FilterInput('8'), 0);
    app.pane_mode = PaneMode::TableWithDetail;
    assert_eq!(
        layout_panes(&app),
        vec![Pane::StatusBar, Pane::FilterBar, Pane::Table, Pane::Detail, Pane::HelpBar]
    );
}

#[test]
fn detail_placeholders() {
    let mut app = App::new(vec![entry(80, 1, None)], 2000, true);
    assert_eq!(detail_placeholder(&app), Some("No detail available (process info unavailable)"));
    let empty = App::new(vec![], 2000, true);
    assert_eq!(detail_placeholder(&empty), Some("No entry selected"));
    app.store_detail(1, Some(detail()));
    assert_eq!(detail_placeholder(&app), None);
}

#[test]
fn status_line_right_part_and_padding() {
    let mut app = App::new(vec![entry(80, 1, None), entry(443, 1, None)], 2000, false);
    assert_eq!(status_right(&app, " [2s]"), "  2 ports   [2s]  [unprivileged]");
    handle_action(&mut app, Action::FilterInput('4'), 0);
    app.is_root = true;
    assert_eq!(status_right(&app, " [0.5s]"), "  1/2 ports   [0.5s]");
    assert_eq!(status_padding(80, 12, 30), 38);
    assert_eq!(status_padding(40, 12, 30), 0);
    assert_eq!(status_padding(42, 12, 30), 0);
}

#[test]
fn help_texts() {
    let overlay = help_overlay_lines();
    assert_eq!(overlay.len(), 25);
    assert_eq!(overlay[0], ("", ""));
    assert_eq!(overlay[1], ("  Navigation", ""));
    assert_eq!(overlay[2], ("  j/↓  ", "Move down"));
    assert_eq!(overlay[22], ("  1-8  ", "Sort by column (press again to reverse)"));
    assert_eq!(overlay[24], ("  q/Esc", " Close help"));
    let mut app = App::new(vec![], 1000, false);
    let normal = help_bar_items(&app);
    assert_eq!(normal.len(), 11);
    assert_eq!(normal[0], ("q", ":quit "));
    assert_eq!(normal[9], ("1-9", ":sort "));
    assert_eq!(normal[10], ("?", ":help"));
    app.input_mode = InputMode::Filter;
    assert_eq!(help_bar_items(&app), vec![("Esc", " close  "), ("↑↓", " navigate  "), ("Enter", " confirm")]);
}

#[test]
fn kill_dialog_words() {
    let k = KillConfirmation { pid: 4242, process_name: "redis".to_string(), port: 6379, force: false };
    let (question, signal) = kill_dialog_texts(&k);
    assert_eq!(question, " (PID 4242) on port 6379?");
    assert_eq!(signal, "  Signal: SIGTERM");
    let forced = KillConfirmation { force: true, ..k };
    assert_eq!(kill_dialog_texts(&forced).1, "  Signal: SIGKILL");
}

fn detail() -> ProcessDetail {
    ProcessDetail {
        pid: 1,
        name: "init".to_string(),
        cmdline: vec!["/sbin/init".to_string(), "splash".to_string()],
        cwd: Some("/".to_string()),
        environ: vec![],
        open_fds: 120,
        children: vec![ChildProcess { pid: 2, name: "kthreadd".to_string() }],
        container_id: Some("abcdefabcdef".to_string()),
        memory_rss_bytes: Some(13 * 1_048_576),
        threads: Some(1),
    }
}

fn texts(lines: &[Vec<(String, String)>]) -> Vec<Vec<(&str, &str)>> {
    lines.iter().map(|l| l.iter().map(|(a, b)| (a.as_str(), b.as_str())).collect()).collect()
}

#[test]
fn detail_pane_shows_what_is_known() {
    let lines = detail_pane_lines(&detail());
    assert_eq!(
        texts(&lines),
        vec![
            vec![("PID:     ", "1"), ("Name: ", "init")],
            vec![("Command: ", "/sbin/init splash")],
            vec![("CWD:     ", "/")],
            vec![("FDs: ", "120"), ("Threads: ", "1"), ("RSS: ", "13 MB"), ("Children: ", "1")],
            vec![("Container: ", "abcdefabcdef")],
        ]
    );
    let sparse = ProcessDetail {
        cwd: None,
        children: vec![],
        container_id: None,
        memory_rss_bytes: None,
        threads: None,
        ..detail()
    };
    assert_eq!(
        texts(&detail_pane_lines(&sparse)),
        vec![
            vec![("PID:     ", "1"), ("Name: ", "init")],
            vec![("Command: ", "/sbin/init splash")],
            vec![("FDs: ", "120")],
        ]
    );
}

#[test]
fn cutting_needs_a_character_boundary() {
    assert!(can_truncate("abcdef", 5));
    assert!(can_truncate("short", 40));
    assert!(!can_truncate("aé-long-text", 5));
    assert!(can_truncate("aé-long-text", 6));
    let ok = vec![("K".to_string(), "v".repeat(100))];
    assert!(env_values_cuttable(&ok));
    let bad = vec![("K".to_string(), format!("{}é{}", "v".repeat(76), "w".repeat(10)))];
    assert!(!env_values_cuttable(&bad));
    let mut late = vec![("A".to_string(), "a".to_string()); 20];
    late.push(("K".to_string(), format!("{}é{}", "v".repeat(76), "w".repeat(10))));
    assert!(env_values_cuttable(&late));
}
