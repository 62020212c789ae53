//! Text shown by the command-line output: shortened commands and
//! environment values, and memory in megabytes.
use vstd::prelude::*;
use vstd::utf8::encode_utf8;
use crate::text::{
    at_char_boundary, byte_count, byte_len, byte_prefix, is_boundary, lemma_boundary_at_start,
    lemma_byte_prefix_len, lemma_ellipsis_bytes, lemma_encode_concat, prefix_bytes,
};
use crate::process::texts;
use crate::text::{decimal, u64_text};
use crate::types::{
    cmdline_text, name_text, pid_text, project_text, protocol_text, state_text, PortEntry,
};

verus! {

broadcast use vstd::string::group_string_axioms;

/// The last character boundary of `s` at or before byte `n`.
pub open spec fn boundary_at_most(s: Seq<char>, n: int) -> int
    decreases n,
{
    if n <= 0 {
        0
    } else if at_char_boundary(s, n) {
        n
    } else {
        boundary_at_most(s, n - 1)
    }
}

/// The command as the table shows it: commands longer than 60 bytes are
/// cut at the last character boundary within 57 bytes and end in "...".
pub open spec fn table_command_text(cmd: Seq<char>) -> Seq<char> {
    if byte_len(cmd) > 60 {
        byte_prefix(cmd, boundary_at_most(cmd, 57)) + "..."@
    } else {
        cmd
    }
}

proof fn lemma_boundary_at_most(s: Seq<char>, n: int)
    requires
        n >= 0,
    ensures
        0 <= boundary_at_most(s, n) <= n,
        at_char_boundary(s, boundary_at_most(s, n)),
    decreases n,
{
    lemma_boundary_at_start(s);
    if n > 0 && !at_char_boundary(s, n) {
        lemma_boundary_at_most(s, n - 1);
    }
}

/// A shortened command takes at most 60 bytes.
pub proof fn lemma_table_command_fits(cmd: Seq<char>)
    requires
        encode_utf8(cmd).len() <= usize::MAX,
    ensures
        encode_utf8(table_command_text(cmd)).len() <= 60,
{
    if byte_len(cmd) > 60 {
        let end = boundary_at_most(cmd, 57);
        lemma_boundary_at_most(cmd, 57);
        lemma_byte_prefix_len(cmd, end);
        lemma_encode_concat(byte_prefix(cmd, end), "..."@);
        lemma_ellipsis_bytes();
    }
}

/// `list` shows a command of at most 60 bytes whole; a longer one is cut at
/// the last character boundary at or before byte 57 (so no character is
/// split) and ends in "...".
pub proof fn lemma_table_command_cut(cmd: Seq<char>)
    ensures
        byte_len(cmd) <= 60 ==> table_command_text(cmd) == cmd,
        byte_len(cmd) > 60 ==> exists|k: int|
            {
                &&& 0 <= k <= 57
                &&& at_char_boundary(cmd, k)
                &&& forall|j: int| k < j <= 57 ==> !at_char_boundary(cmd, j)
                &&& table_command_text(cmd) == byte_prefix(cmd, k) + "..."@
            },
{
    if byte_len(cmd) > 60 {
        let k = boundary_at_most(cmd, 57);
        lemma_boundary_at_most(cmd, 57);
        lemma_boundary_at_most_is_last(cmd, 57);
        assert(table_command_text(cmd) == byte_prefix(cmd, k) + "..."@);
    }
}

proof fn lemma_boundary_at_most_is_last(s: Seq<char>, n: int)
    requires
        n >= 0,
    ensures
        forall|j: int| boundary_at_most(s, n) < j <= n ==> !at_char_boundary(s, j),
    decreases n,
{
    if n > 0 && !at_char_boundary(s, n) {
        lemma_boundary_at_most_is_last(s, n - 1);
    }
}

/// Truncate long commands for table display.
pub fn table_command(cmd: &str) -> (r: String)
    ensures
        r@ == table_command_text(cmd@),
{
    if byte_count(cmd) > 60 {
        let mut end: usize = 57;
        while !is_boundary(cmd, end)
            invariant
                end <= 57,
                boundary_at_most(cmd@, 57) == boundary_at_most(cmd@, end as int),
            decreases end,
        {
            proof {
                lemma_boundary_at_start(cmd@);
            }
            end = end - 1;
        }
        proof {
            if end > 0 {
                assert(boundary_at_most(cmd@, end as int) == end);
            }
        }
        let mut s = prefix_bytes(cmd, end).to_string();
        s.append("...");
        s
    } else {
        cmd.to_string()
    }
}

/// The header of the `list` table.
pub open spec fn list_header() -> Seq<Seq<char>> {
    seq![
        "PROTO"@,
        "LOCAL ADDR"@,
        "PORT"@,
        "PID"@,
        "PROCESS"@,
        "USER"@,
        "PROJECT"@,
        "STATE"@,
        "COMMAND"@,
    ]
}

/// The cells of an entry's row in the `list` table: protocol, address,
/// port, pid, process name, user, project, state, and the command
/// shortened to 60 bytes.
pub open spec fn list_cells(e: PortEntry) -> Seq<Seq<char>> {
    seq![
        protocol_text(e.protocol),
        e.local_addr@,
        decimal(e.port as nat),
        pid_text(e),
        name_text(e),
        e.username@,
        project_text(e),
        state_text(e.state),
        table_command_text(cmdline_text(e)),
    ]
}

/// What tabled prints for a table of these records, the first of them the
/// header, in its default style.
pub uninterp spec fn tabled_text(records: Seq<Seq<Seq<char>>>) -> Seq<char>;

/// The texts of a table's records.
pub open spec fn record_texts(records: Seq<Vec<String>>) -> Seq<Seq<Seq<char>>> {
    records.map_values(|r: Vec<String>| texts(r@))
}

/// Calls tabled's `Builder` on the records (the first is the header), builds
/// the table and prints it to a string. The contract claims only that the
/// text depends on the records alone, as the name `tabled_text`; the layout
/// of the box is left unsaid.
#[verifier::external_body]
fn table_text(records: Vec<Vec<String>>) -> (r: String)
    ensures
        r@ == tabled_text(record_texts(records@)),
{
    tabled::builder::Builder::from(records).build().to_string()
}

/// What `list` prints without `--json`: a table of the entries under a
/// header, or a notice when there are none.
pub open spec fn list_table(entries: Seq<PortEntry>) -> Seq<char> {
    if entries.len() == 0 {
        "No listening ports found."@
    } else {
        tabled_text(seq![list_header()] + entries.map_values(|e: PortEntry| list_cells(e)))
    }
}

fn push_cell(row: &mut Vec<String>, cell: String)
    ensures
        texts(final(row)@) == texts(old(row)@).push(cell@),
{
    let ghost text = cell@;
    row.push(cell);
    assert(texts(row@) =~= texts(old(row)@).push(text));
}

/// The cells of an entry's row in the `list` table.
pub fn list_row(e: &PortEntry) -> (r: Vec<String>)
    ensures
        texts(r@) == list_cells(*e),
{
    let mut row: Vec<String> = Vec::new();
    push_cell(&mut row, e.protocol.as_str().to_string());
    push_cell(&mut row, e.local_addr.clone());
    push_cell(&mut row, u64_text(e.port as u64));
    push_cell(&mut row, e.pid_str());
    push_cell(&mut row, e.process_name().to_string());
    push_cell(&mut row, e.username.clone());
    push_cell(&mut row, e.project().to_string());
    push_cell(&mut row, e.state.as_str().to_string());
    push_cell(&mut row, table_command(e.cmdline()));
    assert(texts(row@) =~= list_cells(*e));
    row
}

fn list_header_row() -> (r: Vec<String>)
    ensures
        texts(r@) == list_header(),
{
    let mut row: Vec<String> = Vec::new();
    push_cell(&mut row, "PROTO".to_string());
    push_cell(&mut row, "LOCAL ADDR".to_string());
    push_cell(&mut row, "PORT".to_string());
    push_cell(&mut row, "PID".to_string());
    push_cell(&mut row, "PROCESS".to_string());
    push_cell(&mut row, "USER".to_string());
    push_cell(&mut row, "PROJECT".to_string());
    push_cell(&mut row, "STATE".to_string());
    push_cell(&mut row, "COMMAND".to_string());
    assert(texts(row@) =~= list_header());
    row
}

/// What `list` prints without `--json`: the table of the entries, in the
/// order given, or "No listening ports found." when there are none.
pub fn list_table_text(entries: &Vec<PortEntry>) -> (r: String)
    ensures
        r@ == list_table(entries@),
{
    if entries.len() == 0 {
        return "No listening ports found.".to_string();
    }
    let mut records: Vec<Vec<String>> = Vec::new();
    let header = list_header_row();
    let ghost header_text = texts(header@);
    records.push(header);
    assert(record_texts(records@) =~= seq![list_header()]);
    for i in 0..entries.len()
        invariant
            record_texts(records@) == seq![list_header()] + entries@.take(i as int).map_values(
                |e: PortEntry| list_cells(e),
            ),
    {
        let row = list_row(&entries[i]);
        let ghost row_text = texts(row@);
        let ghost before = records@;
        records.push(row);
        assert(record_texts(records@) =~= record_texts(before).push(row_text));
        assert(entries@.take(i + 1).map_values(|e: PortEntry| list_cells(e)) =~= entries@.take(
            i as int,
        ).map_values(|e: PortEntry| list_cells(e)).push(list_cells(entries@[i as int])));
    }
    assert(entries@.take(entries.len() as int) =~= entries@);
    table_text(records)
}

/// An environment value as `info` shows it: values longer than 80 bytes
/// are cut to their first 77 bytes and end in "...".
pub open spec fn env_value_text(v: Seq<char>) -> Seq<char> {
    if byte_len(v) > 80 {
        byte_prefix(v, 77) + "..."@
    } else {
        v
    }
}

/// An environment value as `info` shows it.
pub fn env_value_display(v: &str) -> (r: String)
    requires
        byte_len(v@) > 80 ==> at_char_boundary(v@, 77),
    ensures
        r@ == env_value_text(v@),
{
    if byte_count(v) > 80 {
        let mut s = prefix_bytes(v, 77).to_string();
        s.append("...");
        s
    } else {
        v.to_string()
    }
}

/// How many environment variables `info` lists.
pub open spec fn env_shown(n: nat) -> nat {
    if n > 20 {
        20
    } else {
        n
    }
}

/// The environment lines of `info`: "  NAME=value" for the first twenty
/// variables, each value shortened as `env_value_display` does.
pub fn env_lines(environ: &Vec<(String, String)>) -> (r: Vec<String>)
    requires
        forall|i: int|
            0 <= i < environ@.len() && i < 20 ==> (byte_len(#[trigger] environ@[i].1@) > 80
                ==> at_char_boundary(environ@[i].1@, 77)),
    ensures
        r@.len() == env_shown(environ@.len()),
        forall|i: int|
            0 <= i < r@.len() ==> #[trigger] r@[i]@ == "  "@ + environ@[i].0@ + "="@
                + env_value_text(environ@[i].1@),
{
    let n = if environ.len() > 20 {
        20
    } else {
        environ.len()
    };
    let mut lines: Vec<String> = Vec::new();
    for i in 0..n
        invariant
            n == env_shown(environ@.len()),
            n <= environ@.len(),
            n <= 20,
            forall|j: int|
                0 <= j < environ@.len() && j < 20 ==> (byte_len(#[trigger] environ@[j].1@) > 80
                    ==> at_char_boundary(environ@[j].1@, 77)),
            lines@.len() == i,
            forall|j: int|
                0 <= j < i ==> #[trigger] lines@[j]@ == "  "@ + environ@[j].0@ + "="@
                    + env_value_text(environ@[j].1@),
    {
        let (k, v) = &environ[i];
        let mut line = "  ".to_string();
        line.append(k.as_str());
        line.append("=");
        let shown = env_value_display(v.as_str());
        line.append(shown.as_str());
        lines.push(line);
    }
    lines
}

/// Whether `env_lines` can cut the values it shows: each of the first
/// twenty values longer than 80 bytes has a character boundary at byte 77.
pub fn env_values_cuttable(environ: &Vec<(String, String)>) -> (r: bool)
    ensures
        r == (forall|i: int|
            0 <= i < environ@.len() && i < 20 ==> (byte_len(#[trigger] environ@[i].1@) > 80
                ==> at_char_boundary(environ@[i].1@, 77))),
{
    let n = if environ.len() > 20 {
        20
    } else {
        environ.len()
    };
    for i in 0..n
        invariant
            n <= environ@.len(),
            n <= 20,
            n == environ@.len() || n == 20,
            forall|j: int|
                0 <= j < i ==> (byte_len(#[trigger] environ@[j].1@) > 80 ==> at_char_boundary(
                    environ@[j].1@,
                    77,
                )),
    {
        let v = environ[i].1.as_str();
        if byte_count(v) > 80 && !is_boundary(v, 77) {
            assert(byte_len(environ@[i as int].1@) > 80 && !at_char_boundary(environ@[i as int].1@, 77));
            return false;
        }
    }
    true
}

/// How many environment variables `info` leaves out.
pub fn env_hidden(n: usize) -> (r: usize)
    ensures
        r == n - env_shown(n as nat),
{
    if n > 20 {
        n - 20
    } else {
        0
    }
}

/// Whole megabytes (MiB) in a number of bytes.
pub fn megabytes(bytes: u64) -> (r: u64)
    ensures
        r == bytes / 1048576u64,
{
    bytes / (1024 * 1024)
}

} // verus!
