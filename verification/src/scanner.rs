//! The listening sockets among the rows of the kernel's socket tables.
use vstd::prelude::*;
use crate::types::{Protocol, SocketState};

verus! {

/// State of a TCP socket as the kernel's table reports it.
#[derive(Debug, Clone, Copy, PartialEq, Eq, Structural)]
pub enum TcpState {
    Established,
    SynSent,
    SynRecv,
    FinWait1,
    FinWait2,
    TimeWait,
    Close,
    CloseWait,
    LastAck,
    Listen,
    Closing,
    NewSynRecv,
}

/// One row of a TCP socket table.
#[derive(Debug)]
pub struct TcpNetEntry {
    /// The local address, in its display form.
    pub local_addr: String,
    pub local_port: u16,
    pub remote_port: u16,
    pub state: TcpState,
    pub inode: u64,
    pub uid: u32,
}

/// One row of a UDP socket table.
#[derive(Debug)]
pub struct UdpNetEntry {
    /// The local address, in its display form.
    pub local_addr: String,
    pub local_port: u16,
    pub remote_port: u16,
    pub inode: u64,
    pub uid: u32,
}

/// Raw socket data read directly from the kernel's socket tables.
#[derive(Debug)]
pub struct RawSocket {
    pub protocol: Protocol,
    pub local_addr: String,
    pub port: u16,
    pub remote_port: u16,
    pub state: SocketState,
    pub inode: u64,
    pub uid: u32,
}

/// The socket state a TCP state is shown as (a new SYN-RECV is SYN-RECV).
pub open spec fn tcp_socket_state(s: TcpState) -> SocketState {
    match s {
        TcpState::Established => SocketState::Established,
        TcpState::SynSent => SocketState::SynSent,
        TcpState::SynRecv => SocketState::SynRecv,
        TcpState::FinWait1 => SocketState::FinWait1,
        TcpState::FinWait2 => SocketState::FinWait2,
        TcpState::TimeWait => SocketState::TimeWait,
        TcpState::Close => SocketState::Close,
        TcpState::CloseWait => SocketState::CloseWait,
        TcpState::LastAck => SocketState::LastAck,
        TcpState::Listen => SocketState::Listen,
        TcpState::Closing => SocketState::Closing,
        TcpState::NewSynRecv => SocketState::SynRecv,
    }
}

/// The socket state a TCP state is shown as.
pub fn tcp_state_to_socket_state(state: TcpState) -> (r: SocketState)
    ensures
        r == tcp_socket_state(state),
{
    match state {
        TcpState::Established => SocketState::Established,
        TcpState::SynSent => SocketState::SynSent,
        TcpState::SynRecv => SocketState::SynRecv,
        TcpState::FinWait1 => SocketState::FinWait1,
        TcpState::FinWait2 => SocketState::FinWait2,
        TcpState::TimeWait => SocketState::TimeWait,
        TcpState::Close => SocketState::Close,
        TcpState::CloseWait => SocketState::CloseWait,
        TcpState::LastAck => SocketState::LastAck,
        TcpState::Listen => SocketState::Listen,
        TcpState::Closing => SocketState::Closing,
        TcpState::NewSynRecv => SocketState::SynRecv,
    }
}

/// The socket for a row of a TCP table.
pub open spec fn tcp_raw(e: TcpNetEntry, p: Protocol) -> RawSocket {
    RawSocket {
        protocol: p,
        local_addr: e.local_addr,
        port: e.local_port,
        remote_port: e.remote_port,
        state: tcp_socket_state(e.state),
        inode: e.inode,
        uid: e.uid,
    }
}

/// The socket for a row of a UDP table: bound UDP sockets count as
/// listening, in the unconnected state.
pub open spec fn udp_raw(e: UdpNetEntry, p: Protocol) -> RawSocket {
    RawSocket {
        protocol: p,
        local_addr: e.local_addr,
        port: e.local_port,
        remote_port: e.remote_port,
        state: SocketState::Unconnected,
        inode: e.inode,
        uid: e.uid,
    }
}

/// The listening sockets of a TCP table, in table order.
pub open spec fn tcp_listening(es: Seq<TcpNetEntry>, p: Protocol) -> Seq<RawSocket>
    decreases es.len(),
{
    if es.len() == 0 {
        Seq::empty()
    } else if es.last().state == TcpState::Listen {
        tcp_listening(es.drop_last(), p).push(tcp_raw(es.last(), p))
    } else {
        tcp_listening(es.drop_last(), p)
    }
}

/// The sockets of a UDP table, in table order.
pub open spec fn udp_bound(es: Seq<UdpNetEntry>, p: Protocol) -> Seq<RawSocket> {
    es.map_values(|e: UdpNetEntry| udp_raw(e, p))
}

/// The rows of a table that could be read; none when it could not.
pub open spec fn rows_of<T>(table: Option<Vec<T>>) -> Seq<T> {
    match table {
        Some(v) => v@,
        None => Seq::empty(),
    }
}

/// The listening sockets of all four tables, in the order TCP, TCP6, UDP,
/// UDP6.
pub open spec fn listening_sockets(
    tcp: Seq<TcpNetEntry>,
    tcp6: Seq<TcpNetEntry>,
    udp: Seq<UdpNetEntry>,
    udp6: Seq<UdpNetEntry>,
) -> Seq<RawSocket> {
    tcp_listening(tcp, Protocol::Tcp) + tcp_listening(tcp6, Protocol::Tcp6) + udp_bound(
        udp,
        Protocol::Udp,
    ) + udp_bound(udp6, Protocol::Udp6)
}

/// A TCP table yields exactly its rows in the listen state, in table
/// order, each as a listening socket of the table's protocol with the row's
/// address, ports, inode and user; rows in any other state yield nothing.
pub proof fn lemma_tcp_table_yields_listening_rows(es: Seq<TcpNetEntry>, p: Protocol)
    ensures
        tcp_listening(es, p) == es.filter(|e: TcpNetEntry| e.state == TcpState::Listen).map_values(
            |e: TcpNetEntry|
                RawSocket {
                    protocol: p,
                    local_addr: e.local_addr,
                    port: e.local_port,
                    remote_port: e.remote_port,
                    state: SocketState::Listen,
                    inode: e.inode,
                    uid: e.uid,
                },
        ),
        forall|k: int|
            0 <= k < tcp_listening(es, p).len() ==> (#[trigger] tcp_listening(es, p)[k]).state
                == SocketState::Listen && tcp_listening(es, p)[k].protocol == p,
    decreases es.len(),
{
    let pred = |e: TcpNetEntry| e.state == TcpState::Listen;
    let f = |e: TcpNetEntry|
        RawSocket {
            protocol: p,
            local_addr: e.local_addr,
            port: e.local_port,
            remote_port: e.remote_port,
            state: SocketState::Listen,
            inode: e.inode,
            uid: e.uid,
        };
    reveal(Seq::filter);
    if es.len() > 0 {
        lemma_tcp_table_yields_listening_rows(es.drop_last(), p);
        let rest = es.drop_last().filter(pred);
        if pred(es.last()) {
            assert(es.filter(pred) == rest.push(es.last()));
            assert(rest.push(es.last()).map_values(f) =~= rest.map_values(f).push(f(es.last())));
        } else {
            assert(es.filter(pred) == rest);
        }
    } else {
        assert(es.filter(pred) =~= Seq::<TcpNetEntry>::empty());
        assert(tcp_listening(es, p) =~= es.filter(pred).map_values(f));
    }
}

/// A UDP table yields every row, in table order, as a bound socket of the
/// table's protocol in the unconnected state.
pub proof fn lemma_udp_table_yields_every_row(es: Seq<UdpNetEntry>, p: Protocol)
    ensures
        udp_bound(es, p).len() == es.len(),
        forall|k: int|
            0 <= k < es.len() ==> #[trigger] udp_bound(es, p)[k] == (RawSocket {
                protocol: p,
                local_addr: es[k].local_addr,
                port: es[k].local_port,
                remote_port: es[k].remote_port,
                state: SocketState::Unconnected,
                inode: es[k].inode,
                uid: es[k].uid,
            }),
{
}

/// Every socket the scan finds in the TCP and TCP6 tables is listening, and
/// every one from the UDP and UDP6 tables is unconnected; the TCP sockets
/// come first, then TCP6, UDP and UDP6.
pub proof fn lemma_scan_states(
    tcp: Seq<TcpNetEntry>,
    tcp6: Seq<TcpNetEntry>,
    udp: Seq<UdpNetEntry>,
    udp6: Seq<UdpNetEntry>,
)
    ensures
        forall|k: int|
            0 <= k < listening_sockets(tcp, tcp6, udp, udp6).len() ==> {
                let r = #[trigger] listening_sockets(tcp, tcp6, udp, udp6)[k];
                &&& (r.protocol == Protocol::Tcp || r.protocol == Protocol::Tcp6) ==> r.state
                    == SocketState::Listen
                &&& (r.protocol == Protocol::Udp || r.protocol == Protocol::Udp6) ==> r.state
                    == SocketState::Unconnected
            },
{
    lemma_tcp_table_yields_listening_rows(tcp, Protocol::Tcp);
    lemma_tcp_table_yields_listening_rows(tcp6, Protocol::Tcp6);
    let a = tcp_listening(tcp, Protocol::Tcp);
    let b = tcp_listening(tcp6, Protocol::Tcp6);
    let c = udp_bound(udp, Protocol::Udp);
    let d = udp_bound(udp6, Protocol::Udp6);
    let all = listening_sockets(tcp, tcp6, udp, udp6);
    assert forall|k: int| 0 <= k < all.len() implies {
        let r = #[trigger] all[k];
        &&& (r.protocol == Protocol::Tcp || r.protocol == Protocol::Tcp6) ==> r.state
            == SocketState::Listen
        &&& (r.protocol == Protocol::Udp || r.protocol == Protocol::Udp6) ==> r.state
            == SocketState::Unconnected
    } by {
        if k < a.len() {
            assert(all[k] == a[k]);
        } else if k < a.len() + b.len() {
            assert(all[k] == b[k - a.len()]);
        } else if k < a.len() + b.len() + c.len() {
            assert(all[k] == c[k - a.len() - b.len()]);
        } else {
            assert(all[k] == d[k - a.len() - b.len() - c.len()]);
        }
    }
}

fn add_tcp(out: &mut Vec<RawSocket>, rows: &Vec<TcpNetEntry>, p: Protocol)
    ensures
        final(out)@ == old(out)@ + tcp_listening(rows@, p),
{
    let ghost start = out@;
    for i in 0..rows.len()
        invariant
            out@ == start + tcp_listening(rows@.take(i as int), p),
    {
        assert(rows@.take(i + 1).drop_last() == rows@.take(i as int));
        let e = &rows[i];
        if e.state == TcpState::Listen {
            out.push(
                RawSocket {
                    protocol: p,
                    local_addr: e.local_addr.clone(),
                    port: e.local_port,
                    remote_port: e.remote_port,
                    state: tcp_state_to_socket_state(e.state),
                    inode: e.inode,
                    uid: e.uid,
                },
            );
        }
    }
    assert(rows@.take(rows.len() as int) == rows@);
}

fn add_udp(out: &mut Vec<RawSocket>, rows: &Vec<UdpNetEntry>, p: Protocol)
    ensures
        final(out)@ == old(out)@ + udp_bound(rows@, p),
{
    let ghost start = out@;
    for i in 0..rows.len()
        invariant
            out@ == start + udp_bound(rows@.take(i as int), p),
    {
        let e = &rows[i];
        out.push(
            RawSocket {
                protocol: p,
                local_addr: e.local_addr.clone(),
                port: e.local_port,
                remote_port: e.remote_port,
                state: SocketState::Unconnected,
                inode: e.inode,
                uid: e.uid,
            },
        );
        assert(udp_bound(rows@.take(i + 1), p) == udp_bound(rows@.take(i as int), p).push(
            udp_raw(rows@[i as int], p),
        ));
    }
    assert(rows@.take(rows.len() as int) == rows@);
}

/// The listening sockets of the TCP, TCP6, UDP and UDP6 tables: the TCP
/// rows in the listen state and all UDP rows. A table that could not be
/// read (`None`) contributes nothing.
pub fn scan_listening_sockets(
    tcp: Option<Vec<TcpNetEntry>>,
    tcp6: Option<Vec<TcpNetEntry>>,
    udp: Option<Vec<UdpNetEntry>>,
    udp6: Option<Vec<UdpNetEntry>>,
) -> (r: Vec<RawSocket>)
    ensures
        r@ == listening_sockets(rows_of(tcp), rows_of(tcp6), rows_of(udp), rows_of(udp6)),
{
    let mut sockets: Vec<RawSocket> = Vec::new();
    match &tcp {
        Some(rows) => add_tcp(&mut sockets, rows, Protocol::Tcp),
        None => {},
    }
    match &tcp6 {
        Some(rows) => add_tcp(&mut sockets, rows, Protocol::Tcp6),
        None => {},
    }
    match &udp {
        Some(rows) => add_udp(&mut sockets, rows, Protocol::Udp),
        None => {},
    }
    match &udp6 {
        Some(rows) => add_udp(&mut sockets, rows, Protocol::Udp6),
        None => {},
    }
    assert(sockets@ =~= listening_sockets(
        rows_of(tcp),
        rows_of(tcp6),
        rows_of(udp),
        rows_of(udp6),
    ));
    sockets
}

} // verus!
