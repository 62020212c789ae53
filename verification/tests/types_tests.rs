use portmon::types::{
    PortEntry, ProcessInfo, Protocol, SocketState, SortColumn, SortOrder,
};
use std::cmp::Ordering;

fn entry(protocol: Protocol, addr: &str, port: u16, user: &str, process: Option<ProcessInfo>) -> PortEntry {
    PortEntry {
        protocol,
        local_addr: addr.to_string(),
        port,
        remote_port: 0,
        state: SocketState::Listen,
        inode: 100,
        uid: 1000,
        username: user.to_string(),
        process,
    }
}

fn proc_info(pid: i32, name: &str, cmd: &str, cwd: Option<&str>) -> ProcessInfo {
    ProcessInfo {
        pid,
        name: name.to_string(),
        cmdline: cmd.to_string(),
        cwd: cwd.map(|c| c.to_string()),
    }
}

#[test]
fn protocol_and_state_texts() {
    assert_eq!(Protocol::Tcp.as_str(), "TCP");
    assert_eq!(Protocol::Tcp6.as_str(), "TCP6");
    assert_eq!(Protocol::Udp.as_str(), "UDP");
    assert_eq!(Protocol::Udp6.as_str(), "UDP6");
    assert_eq!(SocketState::Listen.as_str(), "LISTEN");
    assert_eq!(SocketState::Established.as_str(), "ESTAB");
    assert_eq!(SocketState::Unconnected.as_str(), "UNCONN");
    assert_eq!(SocketState::FinWait1.as_str(), "FIN-WAIT1");
}

#[test]
fn socket_state_short_codes() {
    assert_eq!(SocketState::Listen.short(), "L");
    assert_eq!(SocketState::Established.short(), "E");
    assert_eq!(SocketState::SynSent.short(), "SS");
    assert_eq!(SocketState::SynRecv.short(), "SR");
    assert_eq!(SocketState::FinWait1.short(), "F1");
    assert_eq!(SocketState::FinWait2.short(), "F2");
    assert_eq!(SocketState::TimeWait.short(), "TW");
    assert_eq!(SocketState::Close.short(), "CL");
    assert_eq!(SocketState::CloseWait.short(), "CW");
    assert_eq!(SocketState::LastAck.short(), "LA");
    assert_eq!(SocketState::Closing.short(), "CG");
    assert_eq!(SocketState::Unconnected.short(), "UC");
}

#[test]
fn column_labels_and_order_arrows() {
    assert_eq!(SortColumn::Protocol.label(), "Proto");
    assert_eq!(SortColumn::LocalAddr.label(), "Local Addr");
    assert_eq!(SortColumn::Port.label(), "Port");
    assert_eq!(SortColumn::Pid.label(), "PID");
    assert_eq!(SortColumn::ProcessName.label(), "Name");
    assert_eq!(SortColumn::User.label(), "User");
    assert_eq!(SortColumn::Project.label(), "Project");
    assert_eq!(SortColumn::State.label(), "St");
    assert_eq!(SortColumn::Command.label(), "Command");
    assert_eq!(SortOrder::Ascending.arrow(), "▲");
    assert_eq!(SortOrder::Descending.arrow(), "▼");
}

#[test]
fn toggle_twice_is_identity() {
    assert_eq!(SortOrder::Ascending.toggle(), SortOrder::Descending);
    assert_eq!(SortOrder::Descending.toggle(), SortOrder::Ascending);
    for o in [SortOrder::Ascending, SortOrder::Descending] {
        assert_eq!(o.toggle().toggle(), o);
    }
}

#[test]
fn entry_accessors_with_process() {
    let e = entry(
        Protocol::Tcp,
        "127.0.0.1",
        8080,
        "alice",
        Some(proc_info(4321, "node", "node server.js", Some("/home/alice/webapp"))),
    );
    assert_eq!(e.process_name(), "node");
    assert_eq!(e.pid(), Some(4321));
    assert_eq!(e.pid_str(), "4321");
    assert_eq!(e.cmdline(), "node server.js");
    assert_eq!(e.project(), "webapp");
    assert_eq!(
        e.search_string(),
        "TCP 127.0.0.1 8080 4321 node alice webapp node server.js"
    );
}

#[test]
fn entry_accessors_without_process() {
    let e = entry(Protocol::Udp6, "::", 53, "root", None);
    assert_eq!(e.process_name(), "-");
    assert_eq!(e.pid(), None);
    assert_eq!(e.pid_str(), "-");
    assert_eq!(e.cmdline(), "-");
    assert_eq!(e.project(), "-");
    assert_eq!(e.search_string(), "UDP6 :: 53 - - root - -");
    let no_cwd = entry(Protocol::Tcp, "::", 1, "u", Some(proc_info(1, "x", "x", None)));
    assert_eq!(no_cwd.project(), "-");
    let root_cwd = entry(Protocol::Tcp, "::", 1, "u", Some(proc_info(1, "x", "x", Some("/"))));
    assert_eq!(root_cwd.project(), "-");
}

#[test]
fn compare_by_each_column() {
    let a = entry(
        Protocol::Tcp,
        "10.0.0.1",
        80,
        "alice",
        Some(proc_info(10, "Nginx", "nginx -g", Some("/srv/Alpha"))),
    );
    let b = entry(
        Protocol::Udp,
        "127.0.0.1",
        53,
        "bob",
        Some(proc_info(2, "apache", "apache2", Some("/srv/beta"))),
    );
    assert_eq!(a.cmp_by_column(&b, SortColumn::Protocol), Ordering::Less);
    assert_eq!(a.cmp_by_column(&b, SortColumn::LocalAddr), Ordering::Less);
    assert_eq!(a.cmp_by_column(&b, SortColumn::Port), Ordering::Greater);
    assert_eq!(a.cmp_by_column(&b, SortColumn::Pid), Ordering::Greater);
    assert_eq!(a.cmp_by_column(&b, SortColumn::ProcessName), Ordering::Greater);
    assert_eq!(a.cmp_by_column(&b, SortColumn::User), Ordering::Less);
    assert_eq!(a.cmp_by_column(&b, SortColumn::Project), Ordering::Less);
    assert_eq!(a.cmp_by_column(&b, SortColumn::State), Ordering::Equal);
    assert_eq!(a.cmp_by_column(&b, SortColumn::Command), Ordering::Greater);
    let none = entry(Protocol::Tcp, "10.0.0.1", 80, "alice", None);
    assert_eq!(none.cmp_by_column(&a, SortColumn::Pid), Ordering::Less);
    assert_eq!(a.cmp_by_column(&a, SortColumn::Command), Ordering::Equal);
}

#[test]
fn clone_keeps_every_field() {
    let e = entry(
        Protocol::Tcp6,
        "::1",
        631,
        "lp",
        Some(proc_info(77, "cupsd", "/usr/sbin/cupsd -l", Some("/"))),
    );
    let c = e.clone();
    assert_eq!(c.protocol, e.protocol);
    assert_eq!(c.local_addr, e.local_addr);
    assert_eq!(c.port, e.port);
    assert_eq!(c.username, e.username);
    let p = c.process.unwrap();
    assert_eq!(p.pid, 77);
    assert_eq!(p.name, "cupsd");
    assert_eq!(p.cmdline, "/usr/sbin/cupsd -l");
    assert_eq!(p.cwd.as_deref(), Some("/"));
}
