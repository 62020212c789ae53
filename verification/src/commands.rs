//! Decisions of the command-line subcommands: which entries `list` shows,
//! which entry `info` and `kill` act on, how a kill is confirmed and what
//! its outcome means, and what `watch` reports.
use vstd::prelude::*;
use crate::app::{entry_at, in_view_order, insert_in_order, precedes};
use crate::error::{error_text, PortMonitorError};
use crate::text::{
    decimal, i32_text, lowercase, push_decimal, same_text, signed_decimal, to_lowercase, trim,
    trimmed,
};
use crate::types::{pid_of, PortEntry, Protocol, SortColumn, SortOrder};

verus! {

broadcast use vstd::string::group_string_axioms;

/// The name of the signal a kill sends.
pub open spec fn signal_text(force: bool) -> Seq<char> {
    if force {
        "SIGKILL"@
    } else {
        "SIGTERM"@
    }
}

/// The name of the signal a kill sends: SIGKILL when forced, else SIGTERM.
pub fn signal_name(force: bool) -> (r: &'static str)
    ensures
        r@ == signal_text(force),
{
    if force {
        "SIGKILL"
    } else {
        "SIGTERM"
    }
}

/// The protocols a `--protocol` filter keeps (given lower-cased): "tcp"
/// and "udp" keep both families, "tcp4", "tcp6", "udp4" and "udp6" one
/// table each, and any other text keeps everything.
pub open spec fn protocol_kept(filter: Seq<char>, p: Protocol) -> bool {
    if filter == "tcp"@ {
        p == Protocol::Tcp || p == Protocol::Tcp6
    } else if filter == "udp"@ {
        p == Protocol::Udp || p == Protocol::Udp6
    } else if filter == "tcp4"@ {
        p == Protocol::Tcp
    } else if filter == "tcp6"@ {
        p == Protocol::Tcp6
    } else if filter == "udp4"@ {
        p == Protocol::Udp
    } else if filter == "udp6"@ {
        p == Protocol::Udp6
    } else {
        true
    }
}

/// Whether `list` shows an entry, given its protocol and port options.
pub open spec fn listed(protocol: Option<String>, port: Option<u16>, e: PortEntry) -> bool {
    &&& match protocol {
        Some(p) => protocol_kept(lowercase(p@), e.protocol),
        None => true,
    }
    &&& match port {
        Some(q) => e.port == q,
        None => true,
    }
}

/// `idx` lists the positions of the entries `list` shows, each once,
/// sorted by port and, for equal ports, in the order they came in.
pub open spec fn is_listing(
    entries: Seq<PortEntry>,
    protocol: Option<String>,
    port: Option<u16>,
    idx: Seq<usize>,
) -> bool {
    &&& forall|k: int| 0 <= k < idx.len() ==> #[trigger] idx[k] < entries.len()
    &&& forall|i: usize|
        i < entries.len() ==> (idx.contains(i) <==> listed(protocol, port, entry_at(entries, i)))
    &&& in_view_order(entries, SortColumn::Port, SortOrder::Ascending, idx)
}

fn protocol_matches(filter: &str, p: Protocol) -> (r: bool)
    ensures
        r == protocol_kept(filter@, p),
{
    if same_text(filter, "tcp") {
        p == Protocol::Tcp || p == Protocol::Tcp6
    } else if same_text(filter, "udp") {
        p == Protocol::Udp || p == Protocol::Udp6
    } else if same_text(filter, "tcp4") {
        p == Protocol::Tcp
    } else if same_text(filter, "tcp6") {
        p == Protocol::Tcp6
    } else if same_text(filter, "udp4") {
        p == Protocol::Udp
    } else if same_text(filter, "udp6") {
        p == Protocol::Udp6
    } else {
        true
    }
}

/// The `--protocol` filter, compared lower-cased: "tcp" keeps the TCP and
/// TCP6 entries and no others, "udp" the UDP and UDP6 entries, "tcp4",
/// "tcp6", "udp4" and "udp6" the entries of that one table; any other text
/// keeps every entry. The `--port` filter keeps the entries on that port.
pub proof fn lemma_list_filters(p: String, q: u16, e: PortEntry)
    ensures
        lowercase(p@) == "tcp"@ ==> (listed(Some(p), None, e) <==> (e.protocol == Protocol::Tcp
            || e.protocol == Protocol::Tcp6)),
        lowercase(p@) == "udp"@ ==> (listed(Some(p), None, e) <==> (e.protocol == Protocol::Udp
            || e.protocol == Protocol::Udp6)),
        lowercase(p@) == "tcp4"@ ==> (listed(Some(p), None, e) <==> e.protocol == Protocol::Tcp),
        lowercase(p@) == "tcp6"@ ==> (listed(Some(p), None, e) <==> e.protocol == Protocol::Tcp6),
        lowercase(p@) == "udp4"@ ==> (listed(Some(p), None, e) <==> e.protocol == Protocol::Udp),
        lowercase(p@) == "udp6"@ ==> (listed(Some(p), None, e) <==> e.protocol == Protocol::Udp6),
        lowercase(p@) != "tcp"@ && lowercase(p@) != "udp"@ && lowercase(p@) != "tcp4"@ && lowercase(
            p@,
        ) != "tcp6"@ && lowercase(p@) != "udp4"@ && lowercase(p@) != "udp6"@ ==> listed(
            Some(p),
            None,
            e,
        ),
        listed(None, Some(q), e) <==> e.port == q,
        listed(None, None, e),
{
    reveal_strlit("tcp");
    reveal_strlit("udp");
    reveal_strlit("tcp4");
    reveal_strlit("tcp6");
    reveal_strlit("udp4");
    reveal_strlit("udp6");
    assert("tcp"@[0] != "udp"@[0]);
    assert("tcp"@.len() != "tcp4"@.len());
    assert("tcp"@.len() != "tcp6"@.len());
    assert("tcp"@.len() != "udp4"@.len());
    assert("tcp"@.len() != "udp6"@.len());
    assert("udp"@.len() != "tcp4"@.len());
    assert("udp"@.len() != "tcp6"@.len());
    assert("udp"@.len() != "udp4"@.len());
    assert("udp"@.len() != "udp6"@.len());
    assert("tcp4"@[3] != "tcp6"@[3]);
    assert("tcp4"@[0] != "udp4"@[0]);
    assert("tcp4"@[0] != "udp6"@[0]);
    assert("tcp6"@[0] != "udp4"@[0]);
    assert("tcp6"@[0] != "udp6"@[0]);
    assert("udp4"@[3] != "udp6"@[3]);
}

/// The positions of the entries `list` shows, in the order it shows them.
pub fn list_order(entries: &Vec<PortEntry>, protocol: &Option<String>, port: Option<u16>) -> (r: Vec<usize>)
    ensures
        is_listing(entries@, *protocol, port, r@),
{
    let filter = match protocol {
        Some(p) => Some(to_lowercase(p.as_str())),
        None => None,
    };
    let mut idx: Vec<usize> = Vec::new();
    for i in 0..entries.len()
        invariant
            match protocol {
                Some(p) => filter matches Some(f) && f@ == lowercase(p@),
                None => filter is None,
            },
            forall|k: int| 0 <= k < idx@.len() ==> #[trigger] idx@[k] < i,
            forall|x: usize|
                x < i ==> (idx@.contains(x) <==> listed(*protocol, port, entry_at(entries@, x))),
            forall|x: usize| #[trigger] idx@.contains(x) ==> x < i,
            in_view_order(entries@, SortColumn::Port, SortOrder::Ascending, idx@),
    {
        let e = &entries[i];
        let keep_protocol = match &filter {
            Some(f) => protocol_matches(f.as_str(), e.protocol),
            None => true,
        };
        let keep_port = match port {
            Some(q) => e.port == q,
            None => true,
        };
        if keep_protocol && keep_port {
            let ghost before = idx@;
            insert_in_order(entries, SortColumn::Port, SortOrder::Ascending, &mut idx, i);
            proof {
                assert forall|k: int| 0 <= k < idx@.len() implies #[trigger] idx@[k] < i + 1 by {
                    assert(idx@.contains(idx@[k]));
                    if before.contains(idx@[k]) {
                    }
                }
            }
        } else {
            proof {
                assert(!idx@.contains(i));
            }
        }
    }
    idx
}

/// The entries `list` shows: those of the protocol filter (lower-cased)
/// and of the port, sorted by port; entries on the same port keep their
/// order.
pub fn list_entries(entries: &Vec<PortEntry>, protocol: &Option<String>, port: Option<u16>) -> (r: Vec<PortEntry>)
    ensures
        exists|idx: Seq<usize>|
            {
                &&& is_listing(entries@, *protocol, port, idx)
                &&& r@.len() == idx.len()
                &&& forall|k: int| 0 <= k < idx.len() ==> #[trigger] r@[k] == entries@[idx[k] as int]
            },
{
    let idx = list_order(entries, protocol, port);
    let mut out: Vec<PortEntry> = Vec::new();
    for k in 0..idx.len()
        invariant
            is_listing(entries@, *protocol, port, idx@),
            out@.len() == k,
            forall|j: int| 0 <= j < k ==> #[trigger] out@[j] == entries@[idx@[j] as int],
    {
        let i = idx[k];
        out.push(entries[i].clone());
    }
    out
}

/// The first entry on `port`, or the error that no process listens there.
pub fn find_port(entries: &Vec<PortEntry>, port: u16) -> (r: Result<usize, PortMonitorError>)
    ensures
        match r {
            Ok(i) => i < entries@.len() && entries@[i as int].port == port && forall|j: int|
                0 <= j < i ==> #[trigger] entries@[j].port != port,
            Err(e) => e == PortMonitorError::PortNotFound(port) && forall|j: int|
                0 <= j < entries@.len() ==> #[trigger] entries@[j].port != port,
        },
{
    let mut i: usize = 0;
    while i < entries.len()
        invariant
            i <= entries@.len(),
            forall|j: int| 0 <= j < i ==> #[trigger] entries@[j].port != port,
        decreases entries.len() - i,
    {
        if entries[i].port == port {
            return Ok(i);
        }
        i = i + 1;
    }
    Err(PortMonitorError::PortNotFound(port))
}

/// Whether the answer to the kill prompt confirms it: "y" or "Y", ignoring
/// surrounding white space.
pub fn confirms_kill(answer: &str) -> (r: bool)
    ensures
        r == (trimmed(answer@) == "y"@ || trimmed(answer@) == "Y"@),
{
    let t = trim(answer);
    same_text(t.as_str(), "y") || same_text(t.as_str(), "Y")
}

/// Why sending a signal failed.
#[derive(Debug, Clone, Copy, PartialEq, Eq, Structural)]
pub enum SignalFailure {
    /// Not allowed to signal the process.
    PermissionDenied,
    /// The process does not exist (any more).
    NoSuchProcess,
    /// Any other reason.
    Other,
}

/// What a subcommand fails with.
#[derive(Debug)]
pub enum CommandError {
    /// One of the port monitor's own errors.
    Monitor(PortMonitorError),
    /// The entry on the port has no known process.
    NoProcessInfo(u16),
    /// The process's details could not be read.
    NoDetail(i32),
    /// Sending the signal failed for another reason, given as text.
    KillFailed(String),
}

/// The message of a subcommand's failure.
pub open spec fn command_error_text(e: CommandError) -> Seq<char> {
    match e {
        CommandError::Monitor(m) => error_text(m),
        CommandError::NoProcessInfo(port) => "process info unavailable for port "@ + decimal(
            port as nat,
        ) + " (try running as root)"@,
        CommandError::NoDetail(pid) => "could not read process details for PID "@
            + signed_decimal(pid as int),
        CommandError::KillFailed(reason) => "kill failed: "@ + reason@,
    }
}

impl CommandError {
    /// The message of the failure.
    pub fn message(&self) -> (r: String)
        ensures
            r@ == command_error_text(*self),
    {
        match self {
            CommandError::Monitor(m) => m.message(),
            CommandError::NoProcessInfo(port) => {
                let mut s = "process info unavailable for port ".to_string();
                push_decimal(&mut s, *port as u64);
                s.append(" (try running as root)");
                s
            },
            CommandError::NoDetail(pid) => {
                let mut s = "could not read process details for PID ".to_string();
                let n = i32_text(*pid);
                s.append(n.as_str());
                s
            },
            CommandError::KillFailed(reason) => {
                let mut s = "kill failed: ".to_string();
                s.append(reason.as_str());
                s
            },
        }
    }
}

/// The entry that `kill` and `info` act on: the first entry on `port`,
/// which must have a known process.
pub fn find_owned_port(entries: &Vec<PortEntry>, port: u16) -> (r: Result<usize, CommandError>)
    ensures
        match r {
            Ok(i) => {
                &&& i < entries@.len()
                &&& entries@[i as int].port == port
                &&& forall|j: int| 0 <= j < i ==> #[trigger] entries@[j].port != port
                &&& entries@[i as int].process is Some
            },
            Err(CommandError::Monitor(PortMonitorError::PortNotFound(p))) => {
                &&& p == port
                &&& forall|j: int| 0 <= j < entries@.len() ==> #[trigger] entries@[j].port != port
            },
            Err(CommandError::NoProcessInfo(p)) => {
                &&& p == port
                &&& exists|i: int|
                    {
                        &&& 0 <= i < entries@.len()
                        &&& entries@[i].port == port
                        &&& forall|j: int| 0 <= j < i ==> #[trigger] entries@[j].port != port
                        &&& entries@[i].process is None
                    }
            },
            Err(_) => false,
        },
{
    match find_port(entries, port) {
        Ok(i) => {
            if entries[i].process.is_some() {
                Ok(i)
            } else {
                Err(CommandError::NoProcessInfo(port))
            }
        },
        Err(e) => Err(CommandError::Monitor(e)),
    }
}

/// The failure a kill of `pid` is reported as: the monitor's own errors
/// for a refused or vanished process, else the reason as the system gave it.
pub fn kill_error(pid: i32, failure: SignalFailure, reason: String) -> (r: CommandError)
    ensures
        r == (match failure {
            SignalFailure::PermissionDenied => CommandError::Monitor(
                PortMonitorError::PermissionDenied(pid),
            ),
            SignalFailure::NoSuchProcess => CommandError::Monitor(PortMonitorError::ProcessGone(pid)),
            SignalFailure::Other => CommandError::KillFailed(reason),
        }),
{
    match failure {
        SignalFailure::PermissionDenied => CommandError::Monitor(
            PortMonitorError::PermissionDenied(pid),
        ),
        SignalFailure::NoSuchProcess => CommandError::Monitor(PortMonitorError::ProcessGone(pid)),
        SignalFailure::Other => CommandError::KillFailed(reason),
    }
}

/// What changed on a watched port between two scans.
#[derive(Debug, Clone, Copy, PartialEq, Eq, Structural)]
pub enum PortChange {
    /// Something started listening.
    Bound,
    /// Nothing listens any more.
    Freed,
    /// Another process listens now.
    Changed,
    /// Nothing to report.
    Unchanged,
}

/// What changed between the entry seen on the port before and now.
pub open spec fn change_between(last: Option<PortEntry>, current: Option<PortEntry>) -> PortChange {
    match (last, current) {
        (None, Some(_)) => PortChange::Bound,
        (Some(_), None) => PortChange::Freed,
        (Some(a), Some(b)) => if pid_of(a) != pid_of(b) {
            PortChange::Changed
        } else {
            PortChange::Unchanged
        },
        (None, None) => PortChange::Unchanged,
    }
}

/// Two entries are owned alike: both by processes with the same pid, or
/// both by no known process.
pub open spec fn same_owner(a: PortEntry, b: PortEntry) -> bool {
    match (a.process, b.process) {
        (Some(p), Some(q)) => p.pid == q.pid,
        (None, None) => true,
        _ => false,
    }
}

/// A port found bound after being free is `Bound`, free after being bound
/// is `Freed`, and free both times is `Unchanged`; when it is bound both
/// times, the change is `Changed` exactly when the owners differ (a known
/// pid after an unknown one counts as a change) and `Unchanged` otherwise.
pub proof fn lemma_port_change_by_owner(last: Option<PortEntry>, current: Option<PortEntry>)
    ensures
        match (last, current) {
            (None, Some(_)) => change_between(last, current) == PortChange::Bound,
            (Some(_), None) => change_between(last, current) == PortChange::Freed,
            (None, None) => change_between(last, current) == PortChange::Unchanged,
            (Some(a), Some(b)) => if same_owner(a, b) {
                change_between(last, current) == PortChange::Unchanged
            } else {
                change_between(last, current) == PortChange::Changed
            },
        },
{
}

/// What changed on a watched port: bound, freed, taken over by another
/// process (another pid), or nothing.
pub fn port_change(last: &Option<PortEntry>, current: &Option<PortEntry>) -> (r: PortChange)
    ensures
        r == change_between(*last, *current),
{
    match (last, current) {
        (None, Some(_)) => PortChange::Bound,
        (Some(_), None) => PortChange::Freed,
        (Some(prev), Some(curr)) => {
            let same = match (prev.pid(), curr.pid()) {
                (Some(a), Some(b)) => a == b,
                (None, None) => true,
                _ => false,
            };
            if same {
                PortChange::Unchanged
            } else {
                PortChange::Changed
            }
        },
        (None, None) => PortChange::Unchanged,
    }
}

/// The entry on `port` in a scan, if any (the first one).
pub fn entry_on_port(entries: Vec<PortEntry>, port: u16) -> (r: Option<PortEntry>)
    ensures
        match r {
            Some(e) => exists|i: int|
                0 <= i < entries@.len() && entries@[i] == e && e.port == port && forall|j: int|
                    0 <= j < i ==> #[trigger] entries@[j].port != port,
            None => forall|j: int| 0 <= j < entries@.len() ==> #[trigger] entries@[j].port != port,
        },
{
    match find_port(&entries, port) {
        Ok(i) => Some(entries[i].clone()),
        Err(_) => None,
    }
}

/// `list` shows entries by increasing port, and entries on the same port
/// in the order they came in.
pub proof fn lemma_listing_sorted_by_port(
    entries: Seq<PortEntry>,
    protocol: Option<String>,
    port: Option<u16>,
    idx: Seq<usize>,
    a: int,
    b: int,
)
    requires
        is_listing(entries, protocol, port, idx),
        0 <= a < b < idx.len(),
    ensures
        entries[idx[a] as int].port <= entries[idx[b] as int].port,
        entries[idx[a] as int].port == entries[idx[b] as int].port ==> idx[a] < idx[b],
{
    assert(precedes(entries, SortColumn::Port, SortOrder::Ascending, idx[a], idx[b]));
}

} // verus!
