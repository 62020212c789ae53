//! The lines the `watch` and `kill` subcommands print.
use vstd::prelude::*;
use crate::commands::{
    change_between, port_change, same_owner, signal_name, signal_text, PortChange,
};
use crate::output::{env_lines, env_shown, env_value_text, megabytes};
use crate::process::{join_words, joined, texts};
use crate::text::{at_char_boundary, byte_len, decimal, i32_text, push_decimal, signed_decimal};
use crate::types::{
    name_text, pid_of, pid_text, protocol_text, state_text, ChildProcess, PortEntry,
    ProcessDetail,
};

verus! {

broadcast use vstd::string::group_string_axioms;

/// A clock field as `{:02}` prints it: a leading zero below ten.
pub open spec fn two_digit_text(n: int) -> Seq<char> {
    if 0 <= n && n < 10 {
        "0"@ + decimal(n as nat)
    } else {
        signed_decimal(n)
    }
}

/// The wall-clock time as the watch log prints it: "HH:MM:SS".
pub open spec fn timestamp_text(hour: int, minute: int, second: int) -> Seq<char> {
    two_digit_text(hour) + ":"@ + two_digit_text(minute) + ":"@ + two_digit_text(second)
}

fn push_two_digits(s: &mut String, n: i32)
    ensures
        final(s)@ == old(s)@ + two_digit_text(n as int),
{
    if 0 <= n && n < 10 {
        s.append("0");
        push_decimal(s, n as u64);
    } else {
        let t = i32_text(n);
        s.append(t.as_str());
    }
}

/// The time of day as the watch log prints it, from the local clock's
/// hour, minute and second.
pub fn timestamp(hour: i32, minute: i32, second: i32) -> (r: String)
    ensures
        r@ == timestamp_text(hour as int, minute as int, second as int),
{
    let mut s = String::new();
    push_two_digits(&mut s, hour);
    s.append(":");
    push_two_digits(&mut s, minute);
    s.append(":");
    push_two_digits(&mut s, second);
    s
}

/// An entry's owner as the watch log names it: "name (PID pid)".
pub open spec fn owner_text(e: PortEntry) -> Seq<char> {
    name_text(e) + " (PID "@ + pid_text(e) + ")"@
}

fn push_owner(s: &mut String, e: &PortEntry)
    ensures
        final(s)@ == old(s)@ + owner_text(*e),
{
    s.append(e.process_name());
    s.append(" (PID ");
    let pid = e.pid_str();
    s.append(pid.as_str());
    s.append(")");
}

/// The first line of `watch`.
pub open spec fn watch_start_text(port: u16) -> Seq<char> {
    "Watching port "@ + decimal(port as nat) + "... (Ctrl+C to stop)"@
}

/// The first line of `watch`: which port it watches.
pub fn watch_start_message(port: u16) -> (r: String)
    ensures
        r@ == watch_start_text(port),
{
    let mut s = "Watching port ".to_string();
    push_decimal(&mut s, port as u64);
    s.append("... (Ctrl+C to stop)");
    s
}

/// What `watch` reports of the port's first scan.
pub open spec fn watch_initial_text(port: u16, first: Option<PortEntry>) -> Seq<char> {
    match first {
        Some(e) => "Port "@ + decimal(port as nat) + " is currently bound by "@ + owner_text(e),
        None => "Port "@ + decimal(port as nat) + " is currently free"@,
    }
}

/// What `watch` reports of the port's first scan: who holds it, or that it
/// is free.
pub fn watch_initial_message(port: u16, first: &Option<PortEntry>) -> (r: String)
    ensures
        r@ == watch_initial_text(port, *first),
{
    let mut s = "Port ".to_string();
    push_decimal(&mut s, port as u64);
    match first {
        Some(e) => {
            s.append(" is currently bound by ");
            push_owner(&mut s, e);
        },
        None => {
            s.append(" is currently free");
        },
    }
    s
}

/// The event `watch` reports between two scans, if any.
pub open spec fn watch_event_text(port: u16, last: Option<PortEntry>, current: Option<PortEntry>) -> Option<Seq<char>> {
    match (last, current) {
        (None, Some(e)) => Some("BIND  port "@ + decimal(port as nat) + " <- "@ + owner_text(e)),
        (Some(_), None) => Some("FREE  port "@ + decimal(port as nat)),
        (Some(a), Some(b)) => if pid_of(a) != pid_of(b) {
            Some(
                "CHANGE port "@ + decimal(port as nat) + ": "@ + owner_text(a) + " -> "@
                    + owner_text(b),
            )
        } else {
            None
        },
        (None, None) => None,
    }
}

/// The event `watch` reports when the port went from `last` to `current`:
/// a bind, a release, or another process taking it; none otherwise.
pub fn watch_event_message(port: u16, last: &Option<PortEntry>, current: &Option<PortEntry>) -> (r: Option<String>)
    ensures
        match r {
            Some(m) => watch_event_text(port, *last, *current) == Some(m@),
            None => watch_event_text(port, *last, *current) is None,
        },
{
    let change = port_change(last, current);
    match change {
        PortChange::Bound => match current {
            Some(e) => {
                let mut s = "BIND  port ".to_string();
                push_decimal(&mut s, port as u64);
                s.append(" <- ");
                push_owner(&mut s, e);
                Some(s)
            },
            None => None,
        },
        PortChange::Freed => {
            let mut s = "FREE  port ".to_string();
            push_decimal(&mut s, port as u64);
            Some(s)
        },
        PortChange::Changed => match (last, current) {
            (Some(a), Some(b)) => {
                let mut s = "CHANGE port ".to_string();
                push_decimal(&mut s, port as u64);
                s.append(": ");
                push_owner(&mut s, a);
                s.append(" -> ");
                push_owner(&mut s, b);
                Some(s)
            },
            _ => None,
        },
        PortChange::Unchanged => None,
    }
}

/// `watch` logs a line between two scans exactly when the port changed:
/// it was bound, freed, or taken over by another process.
pub proof fn lemma_watch_reports_changes(port: u16, last: Option<PortEntry>, current: Option<PortEntry>)
    ensures
        watch_event_text(port, last, current) is Some <==> change_between(last, current)
            != PortChange::Unchanged,
{
}

/// `watch` logs a line between two scans exactly when the port was bound,
/// was freed, or is held by another owner than before (a known pid after
/// an unknown one counts); it stays silent while the port stays free or
/// stays with the same owner.
pub proof fn lemma_watch_logs_owner_changes(port: u16, last: Option<PortEntry>, current: Option<PortEntry>)
    ensures
        match (last, current) {
            (Some(a), Some(b)) => watch_event_text(port, last, current) is Some <==> !same_owner(a, b),
            (None, None) => watch_event_text(port, last, current) is None,
            _ => watch_event_text(port, last, current) is Some,
        },
{
}

/// The question `kill` asks before sending the signal.
pub open spec fn kill_prompt_text(name: Seq<char>, pid: i32, port: u16, force: bool) -> Seq<char> {
    "Kill "@ + name + " (PID "@ + signed_decimal(pid as int) + ") on port "@ + decimal(port as nat)
        + " with "@ + signal_text(force) + "? [y/N] "@
}

/// The question `kill` asks before sending the signal to process `pid`,
/// named `name`, on `port`.
pub fn kill_prompt(name: &str, pid: i32, port: u16, force: bool) -> (r: String)
    ensures
        r@ == kill_prompt_text(name@, pid, port, force),
{
    let mut s = "Kill ".to_string();
    s.append(name);
    s.append(" (PID ");
    let p = i32_text(pid);
    s.append(p.as_str());
    s.append(") on port ");
    push_decimal(&mut s, port as u64);
    s.append(" with ");
    s.append(signal_name(force));
    s.append("? [y/N] ");
    s
}

/// A line of `info` about one child process.
pub open spec fn child_line(c: ChildProcess) -> Seq<char> {
    "  PID "@ + signed_decimal(c.pid as int) + " ("@ + c.name@ + ")"@
}

/// A line of `info` about one environment variable.
pub open spec fn env_line(kv: (String, String)) -> Seq<char> {
    "  "@ + kv.0@ + "="@ + env_value_text(kv.1@)
}

/// A one-line section shown only when its value is there.
pub open spec fn optional_line(value: Option<Seq<char>>, label: Seq<char>) -> Seq<Seq<char>> {
    match value {
        Some(v) => seq![label + v],
        None => Seq::empty(),
    }
}

/// The children section of `info`: their count, then one line each; nothing
/// when there are none.
pub open spec fn children_section(cs: Seq<ChildProcess>) -> Seq<Seq<char>> {
    if cs.len() == 0 {
        Seq::empty()
    } else {
        seq!["Children:   "@ + decimal(cs.len())] + cs.map_values(|c: ChildProcess| child_line(c))
    }
}

/// The environment section of `info`: the variable count, the first twenty
/// variables, and how many more there are; nothing when there are none.
pub open spec fn environment_section(env: Seq<(String, String)>) -> Seq<Seq<char>> {
    if env.len() == 0 {
        Seq::empty()
    } else {
        seq!["Environment ("@ + decimal(env.len()) + " vars):"@] + env.take(
            env_shown(env.len()) as int,
        ).map_values(|kv: (String, String)| env_line(kv)) + (if env.len() > 20 {
            seq!["  ... and "@ + decimal((env.len() - 20) as nat) + " more"@]
        } else {
            Seq::empty()
        })
    }
}

/// The lines `info` prints about the entry on `port` and its process.
pub open spec fn info_report_text(port: u16, e: PortEntry, d: ProcessDetail) -> Seq<Seq<char>> {
    seq![
        "Port:       "@ + decimal(port as nat),
        "Protocol:   "@ + protocol_text(e.protocol),
        "Address:    "@ + e.local_addr@,
        "State:      "@ + state_text(e.state),
        "PID:        "@ + signed_decimal(d.pid as int),
        "Process:    "@ + d.name@,
        "Command:    "@ + joined(texts(d.cmdline@)),
        "User:       "@ + e.username@ + " (uid "@ + decimal(e.uid as nat) + ")"@,
    ] + optional_line(
        match d.cwd {
            Some(c) => Some(c@),
            None => None,
        },
        "CWD:        "@,
    ) + seq!["Open FDs:   "@ + decimal(d.open_fds as nat)] + optional_line(
        match d.memory_rss_bytes {
            Some(b) => Some(decimal((b / 1048576u64) as nat) + " MB"@),
            None => None,
        },
        "RSS:        "@,
    ) + optional_line(
        match d.threads {
            Some(t) => Some(decimal(t as nat)),
            None => None,
        },
        "Threads:    "@,
    ) + optional_line(
        match d.container_id {
            Some(c) => Some(c@),
            None => None,
        },
        "Container:  "@,
    ) + children_section(d.children@) + environment_section(d.environ@)
}

fn push_line(lines: &mut Vec<String>, line: String)
    ensures
        texts(final(lines)@) == texts(old(lines)@).push(line@),
{
    let ghost text = line@;
    lines.push(line);
    proof {
        assert(texts(lines@) =~= texts(old(lines)@).push(text));
    }
}

fn push_labelled(lines: &mut Vec<String>, label: &str, value: &str)
    ensures
        texts(final(lines)@) == texts(old(lines)@).push(label@ + value@),
{
    let mut s = label.to_string();
    s.append(value);
    push_line(lines, s);
}

fn push_children(lines: &mut Vec<String>, children: &Vec<ChildProcess>)
    ensures
        texts(final(lines)@) == texts(old(lines)@) + children_section(children@),
{
    if children.len() == 0 {
        assert(texts(old(lines)@) + children_section(children@) =~= texts(old(lines)@));
        return;
    }
    let mut head = "Children:   ".to_string();
    push_decimal(&mut head, children.len() as u64);
    push_line(lines, head);
    let ghost start = texts(lines@);
    for i in 0..children.len()
        invariant
            texts(lines@) == start + children@.take(i as int).map_values(
                |c: ChildProcess| child_line(c),
            ),
    {
        let c = &children[i];
        let mut s = "  PID ".to_string();
        let pid = i32_text(c.pid);
        s.append(pid.as_str());
        s.append(" (");
        s.append(c.name.as_str());
        s.append(")");
        push_line(lines, s);
        assert(children@.take(i + 1).map_values(|c: ChildProcess| child_line(c)) =~= children@.take(
            i as int,
        ).map_values(|c: ChildProcess| child_line(c)).push(child_line(children@[i as int])));
    }
    assert(children@.take(children.len() as int) == children@);
    assert(texts(lines@) =~= texts(old(lines)@) + children_section(children@));
}

fn push_environment(lines: &mut Vec<String>, environ: &Vec<(String, String)>)
    requires
        forall|i: int|
            0 <= i < environ@.len() && i < 20 ==> (byte_len(#[trigger] environ@[i].1@) > 80
                ==> at_char_boundary(environ@[i].1@, 77)),
    ensures
        texts(final(lines)@) == texts(old(lines)@) + environment_section(environ@),
{
    if environ.len() == 0 {
        assert(texts(old(lines)@) + environment_section(environ@) =~= texts(old(lines)@));
        return;
    }
    let mut head = "Environment (".to_string();
    push_decimal(&mut head, environ.len() as u64);
    head.append(" vars):");
    push_line(lines, head);
    let shown = env_lines(environ);
    let ghost start = texts(lines@);
    let ghost body = environ@.take(env_shown(environ@.len()) as int).map_values(
        |kv: (String, String)| env_line(kv),
    );
    for i in 0..shown.len()
        invariant
            shown@.len() == env_shown(environ@.len()),
            shown@.len() <= environ@.len(),
            body == environ@.take(env_shown(environ@.len()) as int).map_values(
                |kv: (String, String)| env_line(kv),
            ),
            forall|j: int|
                0 <= j < shown@.len() ==> #[trigger] shown@[j]@ == "  "@ + environ@[j].0@ + "="@
                    + env_value_text(environ@[j].1@),
            texts(lines@) == start + body.take(i as int),
    {
        let line = shown[i].clone();
        push_line(lines, line);
        assert(body[i as int] == env_line(environ@[i as int]));
        assert(body.take(i + 1) =~= body.take(i as int).push(body[i as int]));
    }
    assert(body.take(shown.len() as int) =~= body);
    let hidden = if environ.len() > 20 {
        environ.len() - 20
    } else {
        0
    };
    if environ.len() > 20 {
        let mut more = "  ... and ".to_string();
        push_decimal(&mut more, hidden as u64);
        more.append(" more");
        push_line(lines, more);
    }
    assert(texts(lines@) =~= texts(old(lines)@) + environment_section(environ@));
}

/// The lines `info` prints about the entry on `port` and the detail of its
/// process: the socket, the process, its resources, its children and up to
/// twenty of its environment variables.
pub fn info_report(port: u16, entry: &PortEntry, detail: &ProcessDetail) -> (r: Vec<String>)
    requires
        forall|i: int|
            0 <= i < detail.environ@.len() && i < 20 ==> (byte_len(#[trigger] detail.environ@[i].1@)
                > 80 ==> at_char_boundary(detail.environ@[i].1@, 77)),
    ensures
        texts(r@) == info_report_text(port, *entry, *detail),
{
    let mut lines: Vec<String> = Vec::new();
    let mut port_line = "Port:       ".to_string();
    push_decimal(&mut port_line, port as u64);
    push_line(&mut lines, port_line);
    push_labelled(&mut lines, "Protocol:   ", entry.protocol.as_str());
    push_labelled(&mut lines, "Address:    ", entry.local_addr.as_str());
    push_labelled(&mut lines, "State:      ", entry.state.as_str());
    let pid = i32_text(detail.pid);
    push_labelled(&mut lines, "PID:        ", pid.as_str());
    push_labelled(&mut lines, "Process:    ", detail.name.as_str());
    let command = join_words(&detail.cmdline);
    push_labelled(&mut lines, "Command:    ", command.as_str());
    let mut user = "User:       ".to_string();
    user.append(entry.username.as_str());
    user.append(" (uid ");
    push_decimal(&mut user, entry.uid as u64);
    user.append(")");
    push_line(&mut lines, user);
    let ghost head = texts(lines@);
    match &detail.cwd {
        Some(c) => push_labelled(&mut lines, "CWD:        ", c.as_str()),
        None => {},
    }
    assert(texts(lines@) =~= head + optional_line(
        match detail.cwd {
            Some(c) => Some(c@),
            None => None,
        },
        "CWD:        "@,
    ));
    let ghost after_cwd = texts(lines@);
    let mut fds = "Open FDs:   ".to_string();
    push_decimal(&mut fds, detail.open_fds as u64);
    push_line(&mut lines, fds);
    assert(texts(lines@) =~= after_cwd + seq!["Open FDs:   "@ + decimal(detail.open_fds as nat)]);
    let ghost after_fds = texts(lines@);
    match detail.memory_rss_bytes {
        Some(b) => {
            let mut rss = "RSS:        ".to_string();
            push_decimal(&mut rss, megabytes(b));
            rss.append(" MB");
            assert(rss@ =~= "RSS:        "@ + (decimal((b / 1048576u64) as nat) + " MB"@));
            push_line(&mut lines, rss);
        },
        None => {},
    }
    assert(texts(lines@) =~= after_fds + optional_line(
        match detail.memory_rss_bytes {
            Some(b) => Some(decimal((b / 1048576u64) as nat) + " MB"@),
            None => None,
        },
        "RSS:        "@,
    ));
    let ghost after_rss = texts(lines@);
    match detail.threads {
        Some(t) => {
            let mut th = "Threads:    ".to_string();
            push_decimal(&mut th, t as u64);
            push_line(&mut lines, th);
        },
        None => {},
    }
    assert(texts(lines@) =~= after_rss + optional_line(
        match detail.threads {
            Some(t) => Some(decimal(t as nat)),
            None => None,
        },
        "Threads:    "@,
    ));
    let ghost after_threads = texts(lines@);
    match &detail.container_id {
        Some(c) => push_labelled(&mut lines, "Container:  ", c.as_str()),
        None => {},
    }
    assert(texts(lines@) =~= after_threads + optional_line(
        match detail.container_id {
            Some(c) => Some(c@),
            None => None,
        },
        "Container:  "@,
    ));
    let ghost middle = texts(lines@);
    push_children(&mut lines, &detail.children);
    push_environment(&mut lines, &detail.environ);
    proof {
        let d = *detail;
        let e = *entry;
        assert(head =~= seq![
            "Port:       "@ + decimal(port as nat),
            "Protocol:   "@ + protocol_text(e.protocol),
            "Address:    "@ + e.local_addr@,
            "State:      "@ + state_text(e.state),
            "PID:        "@ + signed_decimal(d.pid as int),
            "Process:    "@ + d.name@,
            "Command:    "@ + joined(texts(d.cmdline@)),
            "User:       "@ + e.username@ + " (uid "@ + decimal(e.uid as nat) + ")"@,
        ]);
        assert(middle =~= head + optional_line(
            match d.cwd {
                Some(c) => Some(c@),
                None => None,
            },
            "CWD:        "@,
        ) + seq!["Open FDs:   "@ + decimal(d.open_fds as nat)] + optional_line(
            match d.memory_rss_bytes {
                Some(b) => Some(decimal((b / 1048576u64) as nat) + " MB"@),
                None => None,
            },
            "RSS:        "@,
        ) + optional_line(
            match d.threads {
                Some(t) => Some(decimal(t as nat)),
                None => None,
            },
            "Threads:    "@,
        ) + optional_line(
            match d.container_id {
                Some(c) => Some(c@),
                None => None,
            },
            "Container:  "@,
        ));
        assert(texts(lines@) =~= info_report_text(port, e, d));
    }
    lines
}

} // verus!
