use std::collections::HashMap;

use portmon::collector::collect_port_entries;
use portmon::process::{
    build_inode_to_process_map, detect_container, extract_container_hash, join_words,
    load_children, load_process_detail, resolve_username, ProcessReading, ProcessSnapshot,
    ProcessStat,
};
use portmon::scanner::{
    scan_listening_sockets, tcp_state_to_socket_state, RawSocket, TcpNetEntry, TcpState,
    UdpNetEntry,
};
use portmon::types::{ProcessInfo, Protocol, SocketState};

fn tcp_row(addr: &str, port: u16, state: TcpState, inode: u64) -> TcpNetEntry {
    TcpNetEntry {
        local_addr: addr.to_string(),
        local_port: port,
        remote_port: 0,
        state,
        inode,
        uid: 1000,
    }
}

fn udp_row(addr: &str, port: u16, inode: u64) -> UdpNetEntry {
    UdpNetEntry { local_addr: addr.to_string(), local_port: port, remote_port: 0, inode, uid: 0 }
}

#[test]
fn tcp_states_map_to_socket_states() {
    let pairs = [
        (TcpState::Established, SocketState::Established),
        (TcpState::SynSent, SocketState::SynSent),
        (TcpState::SynRecv, SocketState::SynRecv),
        (TcpState::FinWait1, SocketState::FinWait1),
        (TcpState::FinWait2, SocketState::FinWait2),
        (TcpState::TimeWait, SocketState::TimeWait),
        (TcpState::Close, SocketState::Close),
        (TcpState::CloseWait, SocketState::CloseWait),
        (TcpState::LastAck, SocketState::LastAck),
        (TcpState::Listen, SocketState::Listen),
        (TcpState::Closing, SocketState::Closing),
        (TcpState::NewSynRecv, SocketState::SynRecv),
    ];
    for (t, s) in pairs {
        assert_eq!(tcp_state_to_socket_state(t), s);
    }
}

#[test]
fn scan_keeps_listening_tcp_and_all_udp() {
    let tcp = vec![
        tcp_row("127.0.0.1", 5432, TcpState::Listen, 11),
        tcp_row("10.0.0.2", 40000, TcpState::Established, 12),
        tcp_row("0.0.0.0", 22, TcpState::Listen, 13),
    ];
    let tcp6 = vec![tcp_row("::", 80, TcpState::TimeWait, 21), tcp_row("::1", 631, TcpState::Listen, 22)];
    let udp = vec![udp_row("0.0.0.0", 68, 31)];
    let udp6 = vec![udp_row("::", 5353, 41), udp_row("fe80::1", 546, 42)];
    let sockets = scan_listening_sockets(Some(tcp), Some(tcp6), Some(udp), Some(udp6));
    let got: Vec<(Protocol, &str, u16, SocketState, u64)> = sockets
        .iter()
        .map(|s| (s.protocol, s.local_addr.as_str(), s.port, s.state, s.inode))
        .collect();
    assert_eq!(
        got,
        vec![
            (Protocol::Tcp, "127.0.0.1", 5432, SocketState::Listen, 11),
            (Protocol::Tcp, "0.0.0.0", 22, SocketState::Listen, 13),
            (Protocol::Tcp6, "::1", 631, SocketState::Listen, 22),
            (Protocol::Udp, "0.0.0.0", 68, SocketState::Unconnected, 31),
            (Protocol::Udp6, "::", 5353, SocketState::Unconnected, 41),
            (Protocol::Udp6, "fe80::1", 546, SocketState::Unconnected, 42),
        ]
    );
    assert_eq!(sockets[3].uid, 0);
}

#[test]
fn unreadable_tables_contribute_nothing() {
    let sockets = scan_listening_sockets(None, Some(vec![tcp_row("::", 8080, TcpState::Listen, 5)]), None, None);
    assert_eq!(sockets.len(), 1);
    assert_eq!(sockets[0].protocol, Protocol::Tcp6);
    assert!(scan_listening_sockets(None, None, None, None).is_empty());
}

fn snapshot(pid: i32, comm: &str, args: Option<&[&str]>, inodes: &[u64]) -> ProcessSnapshot {
    ProcessSnapshot {
        pid,
        comm: comm.to_string(),
        cmdline: args.map(|a| a.iter().map(|s| s.to_string()).collect()),
        cwd: Some(format!("/proc/{pid}/cwd")),
        socket_inodes: inodes.to_vec(),
    }
}

#[test]
fn inode_map_names_owner_of_each_socket() {
    let procs = vec![
        snapshot(10, "nginx", Some(&["nginx", "-g", "daemon off;"]), &[100, 101]),
        snapshot(11, "kworker", None, &[]),
        snapshot(12, "nginx-worker", Some(&[]), &[101, 102]),
    ];
    let map = build_inode_to_process_map(&procs);
    assert_eq!(map.len(), 3);
    let a = &map[&100];
    assert_eq!(a.pid, 10);
    assert_eq!(a.name, "nginx");
    assert_eq!(a.cmdline, "nginx -g daemon off;");
    assert_eq!(a.cwd.as_deref(), Some("/proc/10/cwd"));
    // a socket shared by two processes belongs to the last one scanned
    assert_eq!(map[&101].pid, 12);
    assert_eq!(map[&101].cmdline, "");
    assert_eq!(map[&102].pid, 12);
    assert!(!map.contains_key(&103));
    let fallback = build_inode_to_process_map(&vec![snapshot(5, "sleep", None, &[7])]);
    assert_eq!(fallback[&7].cmdline, "sleep");
    assert!(build_inode_to_process_map(&vec![]).is_empty());
}

#[test]
fn words_join_with_single_spaces() {
    assert_eq!(join_words(&vec![]), "");
    assert_eq!(join_words(&vec!["a".to_string()]), "a");
    assert_eq!(join_words(&vec!["a".to_string(), "".to_string(), "b c".to_string()]), "a  b c");
}

fn stat(pid: i32, ppid: i32, comm: &str) -> ProcessStat {
    ProcessStat { pid, ppid, comm: comm.to_string() }
}

#[test]
fn children_are_processes_with_this_parent() {
    let procs = Some(vec![stat(1, 0, "init"), stat(20, 10, "a"), stat(21, 11, "b"), stat(22, 10, "c")]);
    let kids = load_children(10, &procs);
    let got: Vec<(i32, &str)> = kids.iter().map(|c| (c.pid, c.name.as_str())).collect();
    assert_eq!(got, vec![(20, "a"), (22, "c")]);
    assert!(load_children(99, &procs).is_empty());
    assert!(load_children(10, &None).is_empty());
}

#[test]
fn container_hash_after_prefix() {
    let docker = "/system.slice/docker-0123456789abcdef0123.scope";
    assert_eq!(extract_container_hash(docker, "docker-").as_deref(), Some("0123456789ab"));
    assert_eq!(extract_container_hash("/docker/ABCDEF012345xyz", "docker/").as_deref(), Some("ABCDEF012345"));
    assert_eq!(extract_container_hash("/docker/abc", "docker/"), None);
    assert_eq!(extract_container_hash("/docker/0123456789ag", "docker/"), None);
    assert_eq!(extract_container_hash("/user.slice", "docker-"), None);
    // only the first occurrence counts
    assert_eq!(extract_container_hash("/docker-zz/docker-0123456789ab", "docker-"), None);
    assert_eq!(extract_container_hash("0123456789abc", "").as_deref(), Some("0123456789ab"));
}

#[test]
fn container_from_first_matching_cgroup() {
    let paths = |v: &[&str]| Some(v.iter().map(|s| s.to_string()).collect::<Vec<String>>());
    assert_eq!(
        detect_container(&paths(&["0::/user.slice", "0::/machine.slice/libpod-fedcba987654321.scope"])).as_deref(),
        Some("fedcba987654")
    );
    assert_eq!(
        detect_container(&paths(&["0::/docker/aaaaaaaaaaaa1", "0::/docker-bbbbbbbbbbbb.scope"])).as_deref(),
        Some("aaaaaaaaaaaa")
    );
    assert_eq!(
        detect_container(&paths(&["/docker-123456789012/docker/abcdefabcdef"])).as_deref(),
        Some("123456789012")
    );
    assert_eq!(detect_container(&paths(&["0::/init.scope"])), None);
    assert_eq!(detect_container(&paths(&[])), None);
    assert_eq!(detect_container(&None), None);
}

#[test]
fn user_name_or_number() {
    assert_eq!(resolve_username(0, Some("root".to_string())), "root");
    assert_eq!(resolve_username(1001, None), "1001");
}

fn reading() -> ProcessReading {
    ProcessReading {
        comm: "postgres".to_string(),
        num_threads: 7,
        cmdline: Some(vec!["postgres".to_string(), "-D".to_string(), "/data".to_string()]),
        cwd: Some("/var/lib/postgresql".to_string()),
        environ: Some(vec![("PGDATA".to_string(), "/data".to_string())]),
        fd_count: Some(31),
        cgroups: Some(vec!["0::/docker/0123456789abcdef".to_string()]),
        resident_pages: Some(2560),
    }
}

#[test]
fn process_detail_from_reading() {
    let procs = Some(vec![stat(600, 500, "postgres"), stat(601, 1, "other")]);
    let d = load_process_detail(500, Some(reading()), &procs, 4096).unwrap();
    assert_eq!(d.pid, 500);
    assert_eq!(d.name, "postgres");
    assert_eq!(d.cmdline, vec!["postgres", "-D", "/data"]);
    assert_eq!(d.cwd.as_deref(), Some("/var/lib/postgresql"));
    assert_eq!(d.environ, vec![("PGDATA".to_string(), "/data".to_string())]);
    assert_eq!(d.open_fds, 31);
    assert_eq!(d.children.len(), 1);
    assert_eq!(d.children[0].pid, 600);
    assert_eq!(d.container_id.as_deref(), Some("0123456789ab"));
    assert_eq!(d.memory_rss_bytes, Some(10_485_760));
    assert_eq!(d.threads, Some(7));
    assert!(load_process_detail(500, None, &procs, 4096).is_none());
}

#[test]
fn process_detail_with_unreadable_parts() {
    let r = ProcessReading {
        comm: "secret".to_string(),
        num_threads: 1,
        cmdline: None,
        cwd: None,
        environ: None,
        fd_count: None,
        cgroups: None,
        resident_pages: None,
    };
    let d = load_process_detail(9, Some(r), &None, 4096).unwrap();
    assert!(d.cmdline.is_empty());
    assert!(d.environ.is_empty());
    assert_eq!(d.open_fds, 0);
    assert!(d.children.is_empty());
    assert_eq!(d.container_id, None);
    assert_eq!(d.memory_rss_bytes, None);
    assert_eq!(d.threads, Some(1));
}

#[test]
fn entries_join_sockets_owners_and_users() {
    let sockets = vec![
        RawSocket {
            protocol: Protocol::Tcp,
            local_addr: "0.0.0.0".to_string(),
            port: 22,
            remote_port: 0,
            state: SocketState::Listen,
            inode: 500,
            uid: 0,
        },
        RawSocket {
            protocol: Protocol::Udp6,
            local_addr: "::".to_string(),
            port: 5353,
            remote_port: 0,
            state: SocketState::Unconnected,
            inode: 501,
            uid: 4242,
        },
    ];
    let mut owners = HashMap::new();
    owners.insert(
        500u64,
        ProcessInfo { pid: 77, name: "sshd".to_string(), cmdline: "sshd -D".to_string(), cwd: Some("/".to_string()) },
    );
    let names = vec![Some("root".to_string()), None];
    let entries = collect_port_entries(&sockets, &owners, &names);
    assert_eq!(entries.len(), 2);
    assert_eq!(entries[0].port, 22);
    assert_eq!(entries[0].username, "root");
    assert_eq!(entries[0].process.as_ref().unwrap().pid, 77);
    assert_eq!(entries[1].protocol, Protocol::Udp6);
    assert_eq!(entries[1].state, SocketState::Unconnected);
    assert_eq!(entries[1].username, "4242");
    assert!(entries[1].process.is_none());
}
