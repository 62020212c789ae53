use portmon::commands::{
    confirms_kill, entry_on_port, find_owned_port, find_port, kill_error, list_entries, list_order,
    port_change, signal_name, CommandError, PortChange, SignalFailure,
};
use portmon::error::PortMonitorError;
use portmon::report::{
    info_report, kill_prompt, timestamp, watch_event_message, watch_initial_message,
    watch_start_message,
};
use portmon::types::{
    ChildProcess, PortEntry, ProcessDetail, ProcessInfo, Protocol, SocketState,
};

fn entry(protocol: Protocol, port: u16, pid: Option<i32>) -> PortEntry {
    PortEntry {
        protocol,
        local_addr: "127.0.0.1".to_string(),
        port,
        remote_port: 0,
        state: SocketState::Listen,
        inode: 1,
        uid: 1000,
        username: "alice".to_string(),
        process: pid.map(|p| ProcessInfo {
            pid: p,
            name: format!("proc{p}"),
            cmdline: format!("proc{p} --serve"),
            cwd: None,
        }),
    }
}

fn sample() -> Vec<PortEntry> {
    vec![
        entry(Protocol::Udp6, 5353, Some(1)),
        entry(Protocol::Tcp, 80, Some(2)),
        entry(Protocol::Tcp6, 80, Some(3)),
        entry(Protocol::Udp, 53, None),
        entry(Protocol::Tcp6, 22, Some(4)),
        entry(Protocol::Tcp, 5353, Some(5)),
    ]
}

fn listed(entries: &[PortEntry]) -> Vec<(u16, Protocol)> {
    entries.iter().map(|e| (e.port, e.protocol)).collect()
}

#[test]
fn list_sorts_by_port_keeping_order_of_ties() {
    let all = list_entries(&sample(), &None, None);
    assert_eq!(
        listed(&all),
        vec![
            (22, Protocol::Tcp6),
            (53, Protocol::Udp),
            (80, Protocol::Tcp),
            (80, Protocol::Tcp6),
            (5353, Protocol::Udp6),
            (5353, Protocol::Tcp),
        ]
    );
    assert_eq!(list_order(&sample(), &None, None), vec![4, 3, 1, 2, 0, 5]);
}

#[test]
fn list_protocol_filters() {
    let entries = sample();
    let tcp = list_entries(&entries, &Some("TCP".to_string()), None);
    assert_eq!(
        listed(&tcp),
        vec![(22, Protocol::Tcp6), (80, Protocol::Tcp), (80, Protocol::Tcp6), (5353, Protocol::Tcp)]
    );
    let udp = list_entries(&entries, &Some("udp".to_string()), None);
    assert_eq!(listed(&udp), vec![(53, Protocol::Udp), (5353, Protocol::Udp6)]);
    let tcp4 = list_entries(&entries, &Some("tcp4".to_string()), None);
    assert_eq!(listed(&tcp4), vec![(80, Protocol::Tcp), (5353, Protocol::Tcp)]);
    let tcp6 = list_entries(&entries, &Some("Tcp6".to_string()), None);
    assert_eq!(listed(&tcp6), vec![(22, Protocol::Tcp6), (80, Protocol::Tcp6)]);
    let udp4 = list_entries(&entries, &Some("udp4".to_string()), None);
    assert_eq!(listed(&udp4), vec![(53, Protocol::Udp)]);
    let udp6 = list_entries(&entries, &Some("UDP6".to_string()), None);
    assert_eq!(listed(&udp6), vec![(5353, Protocol::Udp6)]);
    let other = list_entries(&entries, &Some("sctp".to_string()), None);
    assert_eq!(other.len(), 6);
}

#[test]
fn list_port_filter() {
    let entries = sample();
    let p80 = list_entries(&entries, &None, Some(80));
    assert_eq!(listed(&p80), vec![(80, Protocol::Tcp), (80, Protocol::Tcp6)]);
    let both = list_entries(&entries, &Some("udp".to_string()), Some(5353));
    assert_eq!(listed(&both), vec![(5353, Protocol::Udp6)]);
    let none = list_entries(&entries, &None, Some(9999));
    assert!(none.is_empty());
    let empty = list_entries(&vec![], &Some("tcp".to_string()), None);
    assert!(empty.is_empty());
}

#[test]
fn finding_the_entry_on_a_port() {
    let entries = sample();
    assert_eq!(find_port(&entries, 80).unwrap(), 1);
    assert_eq!(find_port(&entries, 5353).unwrap(), 0);
    match find_port(&entries, 8080) {
        Err(e @ PortMonitorError::PortNotFound(8080)) => {
            assert_eq!(e.message(), "no process found listening on port 8080")
        }
        other => panic!("unexpected {other:?}"),
    }
    assert_eq!(entry_on_port(sample(), 80).unwrap().process.unwrap().pid, 2);
    assert!(entry_on_port(sample(), 81).is_none());
}

#[test]
fn kill_and_info_need_an_owned_port() {
    let entries = sample();
    assert_eq!(find_owned_port(&entries, 22).unwrap(), 4);
    match find_owned_port(&entries, 53) {
        Err(e @ CommandError::NoProcessInfo(53)) => assert_eq!(
            e.message(),
            "process info unavailable for port 53 (try running as root)"
        ),
        other => panic!("unexpected {other:?}"),
    }
    match find_owned_port(&entries, 1) {
        Err(e @ CommandError::Monitor(PortMonitorError::PortNotFound(1))) => {
            assert_eq!(e.message(), "no process found listening on port 1")
        }
        other => panic!("unexpected {other:?}"),
    }
    assert_eq!(
        CommandError::NoDetail(-7).message(),
        "could not read process details for PID -7"
    );
}

#[test]
fn kill_confirmation_and_failures() {
    assert!(confirms_kill("y"));
    assert!(confirms_kill("Y\n"));
    assert!(confirms_kill("\t y  "));
    assert!(!confirms_kill("n"));
    assert!(!confirms_kill("yy"));
    assert!(!confirms_kill("\n"));
    assert_eq!(signal_name(false), "SIGTERM");
    assert_eq!(signal_name(true), "SIGKILL");
    assert_eq!(
        kill_prompt("nginx", 42, 80, false),
        "Kill nginx (PID 42) on port 80 with SIGTERM? [y/N] "
    );
    assert_eq!(
        kill_prompt("redis", 7, 6379, true),
        "Kill redis (PID 7) on port 6379 with SIGKILL? [y/N] "
    );
    let denied = kill_error(42, SignalFailure::PermissionDenied, "EPERM".to_string());
    assert!(matches!(denied, CommandError::Monitor(PortMonitorError::PermissionDenied(42))));
    assert_eq!(denied.message(), "permission denied: cannot signal PID 42");
    let gone = kill_error(42, SignalFailure::NoSuchProcess, "ESRCH".to_string());
    assert!(matches!(gone, CommandError::Monitor(PortMonitorError::ProcessGone(42))));
    assert_eq!(gone.message(), "process 42 no longer exists");
    let other = kill_error(42, SignalFailure::Other, "EINVAL: Invalid argument".to_string());
    assert_eq!(other.message(), "kill failed: EINVAL: Invalid argument");
    assert_eq!(
        PortMonitorError::Clipboard("no display".to_string()).message(),
        "clipboard unavailable: no display"
    );
}

#[test]
fn watch_reports_bind_free_and_change() {
    let a = Some(entry(Protocol::Tcp, 8080, Some(10)));
    let b = Some(entry(Protocol::Tcp, 8080, Some(11)));
    let anon = Some(entry(Protocol::Tcp, 8080, None));
    assert_eq!(port_change(&None, &a), PortChange::Bound);
    assert_eq!(port_change(&a, &None), PortChange::Freed);
    assert_eq!(port_change(&a, &b), PortChange::Changed);
    assert_eq!(port_change(&a, &anon), PortChange::Changed);
    assert_eq!(port_change(&a, &a.clone()), PortChange::Unchanged);
    assert_eq!(port_change(&anon, &anon.clone()), PortChange::Unchanged);
    assert_eq!(port_change(&None, &None), PortChange::Unchanged);

    assert_eq!(watch_start_message(8080), "Watching port 8080... (Ctrl+C to stop)");
    assert_eq!(
        watch_initial_message(8080, &a),
        "Port 8080 is currently bound by proc10 (PID 10)"
    );
    assert_eq!(watch_initial_message(8080, &None), "Port 8080 is currently free");
    assert_eq!(
        watch_event_message(8080, &None, &a).unwrap(),
        "BIND  port 8080 <- proc10 (PID 10)"
    );
    assert_eq!(watch_event_message(8080, &a, &None).unwrap(), "FREE  port 8080");
    assert_eq!(
        watch_event_message(8080, &a, &b).unwrap(),
        "CHANGE port 8080: proc10 (PID 10) -> proc11 (PID 11)"
    );
    assert_eq!(
        watch_event_message(8080, &a, &anon).unwrap(),
        "CHANGE port 8080: proc10 (PID 10) -> - (PID -)"
    );
    assert!(watch_event_message(8080, &a, &a.clone()).is_none());
    assert!(watch_event_message(8080, &None, &None).is_none());
}

#[test]
fn timestamps_have_two_digit_fields() {
    assert_eq!(timestamp(9, 5, 0), "09:05:00");
    assert_eq!(timestamp(23, 59, 60), "23:59:60");
    assert_eq!(timestamp(10, 10, 10), "10:10:10");
    assert_eq!(timestamp(0, 0, 7), "00:00:07");
    assert_eq!(timestamp(-3, 100, 9), "-3:100:09");
}

fn rich_detail() -> ProcessDetail {
    let mut environ = Vec::new();
    for i in 0..22 {
        environ.push((format!("VAR{i}"), format!("value{i}")));
    }
    environ[1].1 = "x".repeat(81);
    ProcessDetail {
        pid: 4321,
        name: "node".to_string(),
        cmdline: vec!["node".to_string(), "server.js".to_string(), "--port=8080".to_string()],
        cwd: Some("/home/alice/webapp".to_string()),
        environ,
        open_fds: 27,
        children: vec![
            ChildProcess { pid: 4322, name: "worker".to_string() },
            ChildProcess { pid: 4323, name: "worker".to_string() },
        ],
        container_id: Some("0123456789ab".to_string()),
        memory_rss_bytes: Some(52_428_800 + 1000),
        threads: Some(11),
    }
}

#[test]
fn info_report_lists_everything_known() {
    let mut e = entry(Protocol::Tcp6, 8080, Some(4321));
    e.local_addr = "::".to_string();
    let lines = info_report(8080, &e, &rich_detail());
    let mut expected: Vec<String> = vec![
        "Port:       8080",
        "Protocol:   TCP6",
        "Address:    ::",
        "State:      LISTEN",
        "PID:        4321",
        "Process:    node",
        "Command:    node server.js --port=8080",
        "User:       alice (uid 1000)",
        "CWD:        /home/alice/webapp",
        "Open FDs:   27",
        "RSS:        50 MB",
        "Threads:    11",
        "Container:  0123456789ab",
        "Children:   2",
        "  PID 4322 (worker)",
        "  PID 4323 (worker)",
        "Environment (22 vars):",
    ]
    .into_iter()
    .map(|s| s.to_string())
    .collect();
    for i in 0..20 {
        if i == 1 {
            expected.push(format!("  VAR1={}...", "x".repeat(77)));
        } else {
            expected.push(format!("  VAR{i}=value{i}"));
        }
    }
    expected.push("  ... and 2 more".to_string());
    assert_eq!(lines, expected);
}

#[test]
fn info_report_leaves_out_what_is_unknown() {
    let e = entry(Protocol::Udp, 53, Some(9));
    let d = ProcessDetail {
        pid: 9,
        name: "dnsmasq".to_string(),
        cmdline: vec![],
        cwd: None,
        environ: vec![("A".to_string(), "1".to_string())],
        open_fds: 0,
        children: vec![],
        container_id: None,
        memory_rss_bytes: None,
        threads: None,
    };
    let lines = info_report(53, &e, &d);
    let expected: Vec<String> = vec![
        "Port:       53",
        "Protocol:   UDP",
        "Address:    127.0.0.1",
        "State:      LISTEN",
        "PID:        9",
        "Process:    dnsmasq",
        "Command:    ",
        "User:       alice (uid 1000)",
        "Open FDs:   0",
        "Environment (1 vars):",
        "  A=1",
    ]
    .into_iter()
    .map(|s| s.to_string())
    .collect();
    assert_eq!(lines, expected);
}
