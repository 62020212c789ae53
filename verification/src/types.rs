//! The data model: sockets, the processes behind them, and how a table of
//! them is sorted.
use std::cmp::Ordering;
use vstd::prelude::*;
use crate::path::{file_name, file_name_of};
use crate::text::{
    char_below, compare_text, decimal, flipped, i32_text, is_proper_prefix,
    lemma_lex_order_first_difference, lemma_lex_order_flip, lemma_lex_order_less_trans, lex_order,
    lowercase, push_decimal, signed_decimal, to_lowercase,
};

verus! {

broadcast use vstd::string::group_string_axioms;

/// Transport protocol of a socket table.
#[derive(Debug, Clone, Copy, PartialEq, Eq, PartialOrd, Ord, Structural)]
pub enum Protocol {
    Tcp,
    Tcp6,
    Udp,
    Udp6,
}

/// Position of a protocol in the declaration order (the derived order).
pub open spec fn protocol_rank(p: Protocol) -> int {
    match p {
        Protocol::Tcp => 0,
        Protocol::Tcp6 => 1,
        Protocol::Udp => 2,
        Protocol::Udp6 => 3,
    }
}

/// The display text of a protocol.
pub open spec fn protocol_text(p: Protocol) -> Seq<char> {
    match p {
        Protocol::Tcp => "TCP"@,
        Protocol::Tcp6 => "TCP6"@,
        Protocol::Udp => "UDP"@,
        Protocol::Udp6 => "UDP6"@,
    }
}

impl Protocol {
    /// The display text: "TCP", "TCP6", "UDP" or "UDP6".
    pub fn as_str(&self) -> (r: &'static str)
        ensures
            r@ == protocol_text(*self),
    {
        match self {
            Protocol::Tcp => "TCP",
            Protocol::Tcp6 => "TCP6",
            Protocol::Udp => "UDP",
            Protocol::Udp6 => "UDP6",
        }
    }

    /// The position of the protocol in the declaration order.
    pub fn rank(&self) -> (r: u8)
        ensures
            r == protocol_rank(*self),
    {
        match self {
            Protocol::Tcp => 0,
            Protocol::Tcp6 => 1,
            Protocol::Udp => 2,
            Protocol::Udp6 => 3,
        }
    }
}

/// Connection state of a socket.
#[derive(Debug, Clone, Copy, PartialEq, Eq, Structural)]
pub enum SocketState {
    Listen,
    Established,
    SynSent,
    SynRecv,
    FinWait1,
    FinWait2,
    TimeWait,
    Close,
    CloseWait,
    LastAck,
    Closing,
    /// UDP bound socket
    Unconnected,
}

/// The display text of a socket state.
pub open spec fn state_text(s: SocketState) -> Seq<char> {
    match s {
        SocketState::Listen => "LISTEN"@,
        SocketState::Established => "ESTAB"@,
        SocketState::SynSent => "SYN-SENT"@,
        SocketState::SynRecv => "SYN-RECV"@,
        SocketState::FinWait1 => "FIN-WAIT1"@,
        SocketState::FinWait2 => "FIN-WAIT2"@,
        SocketState::TimeWait => "TIME-WAIT"@,
        SocketState::Close => "CLOSE"@,
        SocketState::CloseWait => "CLOSE-WAIT"@,
        SocketState::LastAck => "LAST-ACK"@,
        SocketState::Closing => "CLOSING"@,
        SocketState::Unconnected => "UNCONN"@,
    }
}

/// The short code of a socket state.
pub open spec fn state_short(s: SocketState) -> Seq<char> {
    match s {
        SocketState::Listen => "L"@,
        SocketState::Established => "E"@,
        SocketState::SynSent => "SS"@,
        SocketState::SynRecv => "SR"@,
        SocketState::FinWait1 => "F1"@,
        SocketState::FinWait2 => "F2"@,
        SocketState::TimeWait => "TW"@,
        SocketState::Close => "CL"@,
        SocketState::CloseWait => "CW"@,
        SocketState::LastAck => "LA"@,
        SocketState::Closing => "CG"@,
        SocketState::Unconnected => "UC"@,
    }
}

impl SocketState {
    /// The display text, such as "LISTEN" or "UNCONN".
    pub fn as_str(&self) -> (r: &'static str)
        ensures
            r@ == state_text(*self),
    {
        match self {
            SocketState::Listen => "LISTEN",
            SocketState::Established => "ESTAB",
            SocketState::SynSent => "SYN-SENT",
            SocketState::SynRecv => "SYN-RECV",
            SocketState::FinWait1 => "FIN-WAIT1",
            SocketState::FinWait2 => "FIN-WAIT2",
            SocketState::TimeWait => "TIME-WAIT",
            SocketState::Close => "CLOSE",
            SocketState::CloseWait => "CLOSE-WAIT",
            SocketState::LastAck => "LAST-ACK",
            SocketState::Closing => "CLOSING",
            SocketState::Unconnected => "UNCONN",
        }
    }

    /// The short code shown in the table, such as "L" or "UC".
    pub fn short(&self) -> (r: &'static str)
        ensures
            r@ == state_short(*self),
    {
        match self {
            SocketState::Listen => "L",
            SocketState::Established => "E",
            SocketState::SynSent => "SS",
            SocketState::SynRecv => "SR",
            SocketState::FinWait1 => "F1",
            SocketState::FinWait2 => "F2",
            SocketState::TimeWait => "TW",
            SocketState::Close => "CL",
            SocketState::CloseWait => "CW",
            SocketState::LastAck => "LA",
            SocketState::Closing => "CG",
            SocketState::Unconnected => "UC",
        }
    }
}

/// The process that owns a socket.
#[derive(Debug)]
pub struct ProcessInfo {
    pub pid: i32,
    pub name: String,
    pub cmdline: String,
    /// The process's working directory, as path text.
    pub cwd: Option<String>,
}

impl Clone for ProcessInfo {
    fn clone(&self) -> (r: Self)
        ensures
            r == *self,
    {
        ProcessInfo {
            pid: self.pid,
            name: self.name.clone(),
            cmdline: self.cmdline.clone(),
            cwd: match &self.cwd {
                Some(c) => Some(c.clone()),
                None => None,
            },
        }
    }
}

/// A listening socket with its owner.
#[derive(Debug)]
pub struct PortEntry {
    pub protocol: Protocol,
    /// The local address, in its display form.
    pub local_addr: String,
    pub port: u16,
    pub remote_port: u16,
    pub state: SocketState,
    pub inode: u64,
    pub uid: u32,
    pub username: String,
    pub process: Option<ProcessInfo>,
}

impl Clone for PortEntry {
    fn clone(&self) -> (r: Self)
        ensures
            r == *self,
    {
        PortEntry {
            protocol: self.protocol,
            local_addr: self.local_addr.clone(),
            port: self.port,
            remote_port: self.remote_port,
            state: self.state,
            inode: self.inode,
            uid: self.uid,
            username: self.username.clone(),
            process: match &self.process {
                Some(p) => Some(p.clone()),
                None => None,
            },
        }
    }
}

/// "-", shown where a value is unknown.
pub open spec fn dash() -> Seq<char> {
    "-"@
}

/// The process name of an entry, or "-".
pub open spec fn name_text(e: PortEntry) -> Seq<char> {
    match e.process {
        Some(p) => p.name@,
        None => dash(),
    }
}

/// The pid of an entry, if its process is known.
pub open spec fn pid_of(e: PortEntry) -> Option<i32> {
    match e.process {
        Some(p) => Some(p.pid),
        None => None,
    }
}

/// The pid of an entry in decimal, or "-".
pub open spec fn pid_text(e: PortEntry) -> Seq<char> {
    match e.process {
        Some(p) => signed_decimal(p.pid as int),
        None => dash(),
    }
}

/// The command line of an entry, or "-".
pub open spec fn cmdline_text(e: PortEntry) -> Seq<char> {
    match e.process {
        Some(p) => p.cmdline@,
        None => dash(),
    }
}

/// The project of an entry: the last component of its process's working
/// directory, or "-".
pub open spec fn project_text(e: PortEntry) -> Seq<char> {
    match e.process {
        Some(p) => match p.cwd {
            Some(c) => match file_name_of(c@) {
                Some(n) => n,
                None => dash(),
            },
            None => dash(),
        },
        None => dash(),
    }
}

/// All fields of an entry joined by spaces, for fuzzy matching.
pub open spec fn search_text(e: PortEntry) -> Seq<char> {
    protocol_text(e.protocol) + " "@ + e.local_addr@ + " "@ + decimal(e.port as nat) + " "@
        + pid_text(e) + " "@ + name_text(e) + " "@ + e.username@ + " "@ + project_text(e)
        + " "@ + cmdline_text(e)
}

impl PortEntry {
    /// The name of the owning process, or "-".
    pub fn process_name(&self) -> (r: &str)
        ensures
            r@ == name_text(*self),
    {
        match &self.process {
            Some(p) => p.name.as_str(),
            None => "-",
        }
    }

    /// The pid of the owning process, if known.
    pub fn pid(&self) -> (r: Option<i32>)
        ensures
            r == pid_of(*self),
    {
        match &self.process {
            Some(p) => Some(p.pid),
            None => None,
        }
    }

    /// The pid of the owning process in decimal, or "-".
    pub fn pid_str(&self) -> (r: String)
        ensures
            r@ == pid_text(*self),
    {
        match &self.process {
            Some(p) => i32_text(p.pid),
            None => "-".to_string(),
        }
    }

    /// The command line of the owning process, or "-".
    pub fn cmdline(&self) -> (r: &str)
        ensures
            r@ == cmdline_text(*self),
    {
        match &self.process {
            Some(p) => p.cmdline.as_str(),
            None => "-",
        }
    }

    /// Extract project name from the process CWD (last directory component).
    pub fn project(&self) -> (r: &str)
        ensures
            r@ == project_text(*self),
    {
        match &self.process {
            Some(p) => match &p.cwd {
                Some(c) => match file_name(c.as_str()) {
                    Some(n) => n,
                    None => "-",
                },
                None => "-",
            },
            None => "-",
        }
    }

    /// Concatenated search string for fuzzy matching across all fields.
    pub fn search_string(&self) -> (r: String)
        ensures
            r@ == search_text(*self),
    {
        let mut s = self.protocol.as_str().to_string();
        s.append(" ");
        s.append(self.local_addr.as_str());
        s.append(" ");
        push_decimal(&mut s, self.port as u64);
        s.append(" ");
        let pid = self.pid_str();
        s.append(pid.as_str());
        s.append(" ");
        s.append(self.process_name());
        s.append(" ");
        s.append(self.username.as_str());
        s.append(" ");
        s.append(self.project());
        s.append(" ");
        s.append(self.cmdline());
        s
    }
}

/// A column of the port table.
#[derive(Debug, Clone, Copy, PartialEq, Eq, Structural)]
pub enum SortColumn {
    Protocol,
    LocalAddr,
    Port,
    Pid,
    ProcessName,
    User,
    Project,
    State,
    Command,
}

/// The header label of a column.
pub open spec fn column_label(c: SortColumn) -> Seq<char> {
    match c {
        SortColumn::Protocol => "Proto"@,
        SortColumn::LocalAddr => "Local Addr"@,
        SortColumn::Port => "Port"@,
        SortColumn::Pid => "PID"@,
        SortColumn::ProcessName => "Name"@,
        SortColumn::User => "User"@,
        SortColumn::Project => "Project"@,
        SortColumn::State => "St"@,
        SortColumn::Command => "Command"@,
    }
}

impl SortColumn {
    /// The header label of the column.
    pub fn label(&self) -> (r: &'static str)
        ensures
            r@ == column_label(*self),
    {
        match self {
            SortColumn::Protocol => "Proto",
            SortColumn::LocalAddr => "Local Addr",
            SortColumn::Port => "Port",
            SortColumn::Pid => "PID",
            SortColumn::ProcessName => "Name",
            SortColumn::User => "User",
            SortColumn::Project => "Project",
            SortColumn::State => "St",
            SortColumn::Command => "Command",
        }
    }
}

/// Direction of sorting.
#[derive(Debug, Clone, Copy, PartialEq, Eq, Structural)]
pub enum SortOrder {
    Ascending,
    Descending,
}

/// The other direction.
pub open spec fn toggled(o: SortOrder) -> SortOrder {
    match o {
        SortOrder::Ascending => SortOrder::Descending,
        SortOrder::Descending => SortOrder::Ascending,
    }
}

/// The arrow shown next to the sorted column's label.
pub open spec fn arrow_text(o: SortOrder) -> Seq<char> {
    match o {
        SortOrder::Ascending => "\u{25b2}"@,
        SortOrder::Descending => "\u{25bc}"@,
    }
}

impl SortOrder {
    /// The other direction.
    pub fn toggle(&self) -> (r: Self)
        ensures
            r == toggled(*self),
    {
        match self {
            SortOrder::Ascending => SortOrder::Descending,
            SortOrder::Descending => SortOrder::Ascending,
        }
    }

    /// "▲" for ascending, "▼" for descending.
    pub fn arrow(&self) -> (r: &'static str)
        ensures
            r@ == arrow_text(*self),
    {
        match self {
            SortOrder::Ascending => "\u{25b2}",
            SortOrder::Descending => "\u{25bc}",
        }
    }
}

/// Toggling twice gives back the same direction.
pub proof fn lemma_toggle_involution(o: SortOrder)
    ensures
        toggled(toggled(o)) == o,
        toggled(o) != o,
{
}

/// The port of an entry as a number.
pub open spec fn port_key(e: PortEntry) -> int {
    e.port as int
}

/// The pid of an entry as a number, 0 when unknown.
pub open spec fn pid_key(e: PortEntry) -> int {
    match e.process {
        Some(p) => p.pid as int,
        None => 0,
    }
}

/// Numeric order.
pub open spec fn int_order(a: int, b: int) -> Ordering {
    if a < b {
        Ordering::Less
    } else if a == b {
        Ordering::Equal
    } else {
        Ordering::Greater
    }
}

/// How two entries compare on a column.
pub open spec fn column_order(a: PortEntry, b: PortEntry, col: SortColumn) -> Ordering {
    match col {
        SortColumn::Protocol => int_order(protocol_rank(a.protocol), protocol_rank(b.protocol)),
        SortColumn::LocalAddr => lex_order(a.local_addr@, b.local_addr@),
        SortColumn::Port => int_order(port_key(a), port_key(b)),
        SortColumn::Pid => int_order(pid_key(a), pid_key(b)),
        SortColumn::ProcessName => lex_order(lowercase(name_text(a)), lowercase(name_text(b))),
        SortColumn::User => lex_order(a.username@, b.username@),
        SortColumn::Project => lex_order(lowercase(project_text(a)), lowercase(project_text(b))),
        SortColumn::State => lex_order(state_short(a.state), state_short(b.state)),
        SortColumn::Command => lex_order(cmdline_text(a), cmdline_text(b)),
    }
}

/// How two entries compare on a column, in the given direction.
pub open spec fn directed_order(a: PortEntry, b: PortEntry, col: SortColumn, dir: SortOrder) -> Ordering {
    match dir {
        SortOrder::Ascending => column_order(a, b, col),
        SortOrder::Descending => flipped(column_order(a, b, col)),
    }
}

fn order_numbers(a: u64, b: u64) -> (o: Ordering)
    ensures
        o == int_order(unsigned_value(a), unsigned_value(b)),
{
    if a < b {
        Ordering::Less
    } else if a == b {
        Ordering::Equal
    } else {
        Ordering::Greater
    }
}

fn order_signed(a: i32, b: i32) -> (o: Ordering)
    ensures
        o == int_order(signed_value(a), signed_value(b)),
{
    if a < b {
        Ordering::Less
    } else if a == b {
        Ordering::Equal
    } else {
        Ordering::Greater
    }
}

/// The value of an unsigned number.
pub open spec fn unsigned_value(a: u64) -> int {
    a as int
}

/// The value of a signed number.
pub open spec fn signed_value(a: i32) -> int {
    a as int
}

fn pid_or_zero(e: &PortEntry) -> (r: i32)
    ensures
        signed_value(r) == pid_key(*e),
{
    match &e.process {
        Some(p) => p.pid,
        None => 0,
    }
}

fn port_number(e: &PortEntry) -> (r: u64)
    ensures
        unsigned_value(r) == port_key(*e),
{
    e.port as u64
}

fn protocol_number(e: &PortEntry) -> (r: u64)
    ensures
        unsigned_value(r) == protocol_rank(e.protocol),
{
    e.protocol.rank() as u64
}

impl PortEntry {
    /// Compares two entries on one column.
    pub fn cmp_by_column(&self, other: &Self, col: SortColumn) -> (o: Ordering)
        ensures
            o == column_order(*self, *other, col),
    {
        match col {
            SortColumn::Protocol => order_numbers(protocol_number(self), protocol_number(other)),
            SortColumn::LocalAddr => compare_text(self.local_addr.as_str(), other.local_addr.as_str()),
            SortColumn::Port => order_numbers(port_number(self), port_number(other)),
            SortColumn::Pid => order_signed(pid_or_zero(self), pid_or_zero(other)),
            SortColumn::ProcessName => {
                let a = to_lowercase(self.process_name());
                let b = to_lowercase(other.process_name());
                compare_text(a.as_str(), b.as_str())
            },
            SortColumn::User => compare_text(self.username.as_str(), other.username.as_str()),
            SortColumn::Project => {
                let a = to_lowercase(self.project());
                let b = to_lowercase(other.project());
                compare_text(a.as_str(), b.as_str())
            },
            SortColumn::State => compare_text(self.state.short(), other.state.short()),
            SortColumn::Command => compare_text(self.cmdline(), other.cmdline()),
        }
    }
}

proof fn lemma_int_order_laws(a: int, b: int, c: int)
    ensures
        int_order(b, a) == flipped(int_order(a, b)),
        int_order(a, b) == Ordering::Less && int_order(b, c) == Ordering::Less ==> int_order(a, c)
            == Ordering::Less,
        int_order(a, b) == Ordering::Equal ==> int_order(a, c) == int_order(b, c),
{
}

proof fn lemma_lex_laws(a: Seq<char>, b: Seq<char>, c: Seq<char>)
    ensures
        lex_order(b, a) == flipped(lex_order(a, b)),
        lex_order(a, b) == Ordering::Less && lex_order(b, c) == Ordering::Less ==> lex_order(a, c)
            == Ordering::Less,
        lex_order(a, b) == Ordering::Equal ==> lex_order(a, c) == lex_order(b, c),
{
    lemma_lex_order_flip(a, b);
    if lex_order(a, b) == Ordering::Less && lex_order(b, c) == Ordering::Less {
        lemma_lex_order_less_trans(a, b, c);
    }
}

/// Comparing on a column is a total preorder: comparing the other way round
/// reverses the result, `Less` is transitive, and entries that compare
/// `Equal` compare alike with every third entry.
pub proof fn lemma_column_order_preorder(a: PortEntry, b: PortEntry, c: PortEntry, col: SortColumn)
    ensures
        column_order(b, a, col) == flipped(column_order(a, b, col)),
        column_order(a, b, col) == Ordering::Less && column_order(b, c, col) == Ordering::Less
            ==> column_order(a, c, col) == Ordering::Less,
        column_order(a, b, col) == Ordering::Equal ==> column_order(a, c, col) == column_order(
            b,
            c,
            col,
        ),
{
    match col {
        SortColumn::Protocol => lemma_int_order_laws(
            protocol_rank(a.protocol),
            protocol_rank(b.protocol),
            protocol_rank(c.protocol),
        ),
        SortColumn::LocalAddr => lemma_lex_laws(a.local_addr@, b.local_addr@, c.local_addr@),
        SortColumn::Port => lemma_int_order_laws(port_key(a), port_key(b), port_key(c)),
        SortColumn::Pid => lemma_int_order_laws(pid_key(a), pid_key(b), pid_key(c)),
        SortColumn::ProcessName => lemma_lex_laws(
            lowercase(name_text(a)),
            lowercase(name_text(b)),
            lowercase(name_text(c)),
        ),
        SortColumn::User => lemma_lex_laws(a.username@, b.username@, c.username@),
        SortColumn::Project => lemma_lex_laws(
            lowercase(project_text(a)),
            lowercase(project_text(b)),
            lowercase(project_text(c)),
        ),
        SortColumn::State => lemma_lex_laws(
            state_short(a.state),
            state_short(b.state),
            state_short(c.state),
        ),
        SortColumn::Command => lemma_lex_laws(cmdline_text(a), cmdline_text(b), cmdline_text(c)),
    }
}

/// The same holds in either direction.
pub proof fn lemma_directed_order_preorder(
    a: PortEntry,
    b: PortEntry,
    c: PortEntry,
    col: SortColumn,
    dir: SortOrder,
)
    ensures
        directed_order(b, a, col, dir) == flipped(directed_order(a, b, col, dir)),
        directed_order(a, b, col, dir) == Ordering::Less && directed_order(b, c, col, dir)
            == Ordering::Less ==> directed_order(a, c, col, dir) == Ordering::Less,
        directed_order(a, b, col, dir) == Ordering::Equal ==> directed_order(a, c, col, dir)
            == directed_order(b, c, col, dir),
{
    lemma_column_order_preorder(a, b, c, col);
    lemma_column_order_preorder(c, b, a, col);
    lemma_column_order_preorder(b, a, c, col);
    lemma_column_order_preorder(a, c, b, col);
}

/// `piece` stands somewhere in `whole`, as a run of its characters.
pub open spec fn contains_piece(whole: Seq<char>, piece: Seq<char>) -> bool {
    exists|pre: Seq<char>, post: Seq<char>| whole == pre + piece + post
}

/// The text the filter searches holds every field of the entry: protocol,
/// address, port, pid, process name, user, project and command line, and
/// nothing else but the seven spaces between them.
pub proof fn lemma_search_text_holds_every_field(e: PortEntry)
    ensures
        contains_piece(search_text(e), protocol_text(e.protocol)),
        contains_piece(search_text(e), e.local_addr@),
        contains_piece(search_text(e), decimal(e.port as nat)),
        contains_piece(search_text(e), pid_text(e)),
        contains_piece(search_text(e), name_text(e)),
        contains_piece(search_text(e), e.username@),
        contains_piece(search_text(e), project_text(e)),
        contains_piece(search_text(e), cmdline_text(e)),
        search_text(e).len() == protocol_text(e.protocol).len() + e.local_addr@.len() + decimal(
            e.port as nat,
        ).len() + pid_text(e).len() + name_text(e).len() + e.username@.len() + project_text(e).len()
            + cmdline_text(e).len() + 7,
{
    reveal_strlit(" ");
    let sp = " "@;
    let f0 = protocol_text(e.protocol);
    let f1 = e.local_addr@;
    let f2 = decimal(e.port as nat);
    let f3 = pid_text(e);
    let f4 = name_text(e);
    let f5 = e.username@;
    let f6 = project_text(e);
    let f7 = cmdline_text(e);
    let w0 = f0;
    let w1 = w0 + sp;
    let w2 = w1 + f1;
    let w3 = w2 + sp;
    let w4 = w3 + f2;
    let w5 = w4 + sp;
    let w6 = w5 + f3;
    let w7 = w6 + sp;
    let w8 = w7 + f4;
    let w9 = w8 + sp;
    let w10 = w9 + f5;
    let w11 = w10 + sp;
    let w12 = w11 + f6;
    let w13 = w12 + sp;
    let w14 = w13 + f7;
    assert(search_text(e) == w14);
    lemma_piece_whole(w0);
    lemma_piece_extend_right(w0, f0, sp);
    lemma_piece_extend_right(w1, f0, f1);
    lemma_piece_extend_right(w2, f0, sp);
    lemma_piece_extend_right(w3, f0, f2);
    lemma_piece_extend_right(w4, f0, sp);
    lemma_piece_extend_right(w5, f0, f3);
    lemma_piece_extend_right(w6, f0, sp);
    lemma_piece_extend_right(w7, f0, f4);
    lemma_piece_extend_right(w8, f0, sp);
    lemma_piece_extend_right(w9, f0, f5);
    lemma_piece_extend_right(w10, f0, sp);
    lemma_piece_extend_right(w11, f0, f6);
    lemma_piece_extend_right(w12, f0, sp);
    lemma_piece_extend_right(w13, f0, f7);
    lemma_piece_at_end(w1, f1);
    lemma_piece_extend_right(w2, f1, sp);
    lemma_piece_extend_right(w3, f1, f2);
    lemma_piece_extend_right(w4, f1, sp);
    lemma_piece_extend_right(w5, f1, f3);
    lemma_piece_extend_right(w6, f1, sp);
    lemma_piece_extend_right(w7, f1, f4);
    lemma_piece_extend_right(w8, f1, sp);
    lemma_piece_extend_right(w9, f1, f5);
    lemma_piece_extend_right(w10, f1, sp);
    lemma_piece_extend_right(w11, f1, f6);
    lemma_piece_extend_right(w12, f1, sp);
    lemma_piece_extend_right(w13, f1, f7);
    lemma_piece_at_end(w3, f2);
    lemma_piece_extend_right(w4, f2, sp);
    lemma_piece_extend_right(w5, f2, f3);
    lemma_piece_extend_right(w6, f2, sp);
    lemma_piece_extend_right(w7, f2, f4);
    lemma_piece_extend_right(w8, f2, sp);
    lemma_piece_extend_right(w9, f2, f5);
    lemma_piece_extend_right(w10, f2, sp);
    lemma_piece_extend_right(w11, f2, f6);
    lemma_piece_extend_right(w12, f2, sp);
    lemma_piece_extend_right(w13, f2, f7);
    lemma_piece_at_end(w5, f3);
    lemma_piece_extend_right(w6, f3, sp);
    lemma_piece_extend_right(w7, f3, f4);
    lemma_piece_extend_right(w8, f3, sp);
    lemma_piece_extend_right(w9, f3, f5);
    lemma_piece_extend_right(w10, f3, sp);
    lemma_piece_extend_right(w11, f3, f6);
    lemma_piece_extend_right(w12, f3, sp);
    lemma_piece_extend_right(w13, f3, f7);
    lemma_piece_at_end(w7, f4);
    lemma_piece_extend_right(w8, f4, sp);
    lemma_piece_extend_right(w9, f4, f5);
    lemma_piece_extend_right(w10, f4, sp);
    lemma_piece_extend_right(w11, f4, f6);
    lemma_piece_extend_right(w12, f4, sp);
    lemma_piece_extend_right(w13, f4, f7);
    lemma_piece_at_end(w9, f5);
    lemma_piece_extend_right(w10, f5, sp);
    lemma_piece_extend_right(w11, f5, f6);
    lemma_piece_extend_right(w12, f5, sp);
    lemma_piece_extend_right(w13, f5, f7);
    lemma_piece_at_end(w11, f6);
    lemma_piece_extend_right(w12, f6, sp);
    lemma_piece_extend_right(w13, f6, f7);
    lemma_piece_at_end(w13, f7);
}

proof fn lemma_piece_whole(w: Seq<char>)
    ensures
        contains_piece(w, w),
{
    assert(w =~= Seq::<char>::empty() + w + Seq::<char>::empty());
}

proof fn lemma_piece_at_end(w: Seq<char>, p: Seq<char>)
    ensures
        contains_piece(w + p, p),
{
    assert(w + p =~= w + p + Seq::<char>::empty());
}

proof fn lemma_piece_extend_right(w: Seq<char>, p: Seq<char>, y: Seq<char>)
    requires
        contains_piece(w, p),
    ensures
        contains_piece(w + y, p),
{
    let (pre, post) = choose|pre: Seq<char>, post: Seq<char>| w == pre + p + post;
    assert(w + y =~= pre + p + (post + y));
}

/// Each column orders entries by what it shows: ports and pids by number
/// (an entry without a process counting as pid 0), protocols in the order
/// TCP, TCP6, UDP, UDP6, addresses, users, state codes and command lines
/// (with "-" for an entry without a process) by text, and process names
/// and projects by their lower-cased text. In particular the Command column
/// never looks at pids: entries with equal command lines compare `Equal`,
/// and otherwise the first character where the command lines differ, or
/// the shorter of the two when one starts the other, decides.
pub proof fn lemma_columns_order_by_what_they_show(a: PortEntry, b: PortEntry)
    ensures
        a.port < b.port ==> column_order(a, b, SortColumn::Port) == Ordering::Less,
        a.port == b.port ==> column_order(a, b, SortColumn::Port) == Ordering::Equal,
        a.port > b.port ==> column_order(a, b, SortColumn::Port) == Ordering::Greater,
        (match a.process {
            Some(p) => p.pid,
            None => 0i32,
        }) < (match b.process {
            Some(q) => q.pid,
            None => 0i32,
        }) ==> column_order(a, b, SortColumn::Pid) == Ordering::Less,
        (match a.process {
            Some(p) => p.pid,
            None => 0i32,
        }) == (match b.process {
            Some(q) => q.pid,
            None => 0i32,
        }) ==> column_order(a, b, SortColumn::Pid) == Ordering::Equal,
        a.protocol == b.protocol ==> column_order(a, b, SortColumn::Protocol) == Ordering::Equal,
        a.protocol == Protocol::Tcp && b.protocol != Protocol::Tcp ==> column_order(
            a,
            b,
            SortColumn::Protocol,
        ) == Ordering::Less,
        a.protocol == Protocol::Udp6 && b.protocol != Protocol::Udp6 ==> column_order(
            a,
            b,
            SortColumn::Protocol,
        ) == Ordering::Greater,
        a.protocol == Protocol::Tcp6 && b.protocol == Protocol::Udp ==> column_order(
            a,
            b,
            SortColumn::Protocol,
        ) == Ordering::Less,
        column_order(a, b, SortColumn::LocalAddr) == lex_order(a.local_addr@, b.local_addr@),
        column_order(a, b, SortColumn::User) == lex_order(a.username@, b.username@),
        column_order(a, b, SortColumn::State) == lex_order(state_short(a.state), state_short(b.state)),
        column_order(a, b, SortColumn::ProcessName) == lex_order(
            lowercase(name_text(a)),
            lowercase(name_text(b)),
        ),
        column_order(a, b, SortColumn::Project) == lex_order(
            lowercase(project_text(a)),
            lowercase(project_text(b)),
        ),
        column_order(a, b, SortColumn::Command) == lex_order(cmdline_text(a), cmdline_text(b)),
        cmdline_text(a) == cmdline_text(b) ==> column_order(a, b, SortColumn::Command)
            == Ordering::Equal,
        is_proper_prefix(cmdline_text(a), cmdline_text(b)) ==> column_order(
            a,
            b,
            SortColumn::Command,
        ) == Ordering::Less,
        forall|i: int|
            0 <= i < cmdline_text(a).len() && i < cmdline_text(b).len() && cmdline_text(a).take(i)
                == cmdline_text(b).take(i) && char_below(
                #[trigger] cmdline_text(a)[i],
                cmdline_text(b)[i],
            ) ==> column_order(a, b, SortColumn::Command) == Ordering::Less,
{
    lemma_lex_order_first_difference(cmdline_text(a), cmdline_text(b));
}

/// Full information about one process, for the detail pane.
#[derive(Debug)]
pub struct ProcessDetail {
    pub pid: i32,
    pub name: String,
    pub cmdline: Vec<String>,
    pub cwd: Option<String>,
    pub environ: Vec<(String, String)>,
    pub open_fds: usize,
    pub children: Vec<ChildProcess>,
    pub container_id: Option<String>,
    pub memory_rss_bytes: Option<u64>,
    pub threads: Option<u32>,
}

/// A direct child of a process.
#[derive(Debug)]
pub struct ChildProcess {
    pub pid: i32,
    pub name: String,
}

} // verus!
