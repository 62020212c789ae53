//! The words on the interactive screen: the key hints, the help overlay,
//! the kill dialog and the detail pane.
use vstd::prelude::*;
use crate::app::{App, InputMode, KillConfirmation};
use crate::commands::{signal_name, signal_text};
use crate::process::{join_words, joined, texts};
use crate::text::{decimal, i32_text, push_decimal, signed_decimal, u64_text};
use crate::types::ProcessDetail;

verus! {

broadcast use vstd::string::group_string_axioms;

/// The texts of a list of (key, description) pairs.
pub open spec fn pair_texts(v: Seq<(&str, &str)>) -> Seq<(Seq<char>, Seq<char>)> {
    v.map_values(|p: (&str, &str)| (p.0@, p.1@))
}

/// The lines of the help overlay, each a key column and a description; a
/// heading has no description and a blank line neither.
pub open spec fn help_overlay_text() -> Seq<(Seq<char>, Seq<char>)> {
    seq![
        (""@, ""@),
        ("  Navigation"@, ""@),
        ("  j/\u{2193}  "@, "Move down"@),
        ("  k/\u{2191}  "@, "Move up"@),
        ("  g    "@, "Go to top"@),
        ("  G    "@, "Go to bottom"@),
        ("  PgUp/PgDn "@, "Page up/down"@),
        (""@, ""@),
        ("  Actions"@, ""@),
        ("  /    "@, "Filter (fuzzy search)"@),
        ("  x    "@, "Kill process (SIGTERM)"@),
        ("  X    "@, "Force kill (SIGKILL)"@),
        ("  d    "@, "Toggle detail pane"@),
        ("  o    "@, "Open in browser"@),
        ("  r    "@, "Manual refresh"@),
        (""@, ""@),
        ("  Clipboard"@, ""@),
        ("  y    "@, "Copy port"@),
        ("  Y    "@, "Copy PID"@),
        ("  c    "@, "Copy command"@),
        (""@, ""@),
        ("  Sorting"@, ""@),
        ("  1-8  "@, "Sort by column (press again to reverse)"@),
        (""@, ""@),
        ("  q/Esc"@, " Close help"@),
    ]
}

/// The lines of the help overlay, as (key column, description) pairs.
pub fn help_overlay_lines() -> (r: Vec<(&'static str, &'static str)>)
    ensures
        pair_texts(r@) == help_overlay_text(),
{
    let mut v: Vec<(&'static str, &'static str)> = Vec::new();
    v.push(("", ""));
    v.push(("  Navigation", ""));
    v.push(("  j/\u{2193}  ", "Move down"));
    v.push(("  k/\u{2191}  ", "Move up"));
    v.push(("  g    ", "Go to top"));
    v.push(("  G    ", "Go to bottom"));
    v.push(("  PgUp/PgDn ", "Page up/down"));
    v.push(("", ""));
    v.push(("  Actions", ""));
    v.push(("  /    ", "Filter (fuzzy search)"));
    v.push(("  x    ", "Kill process (SIGTERM)"));
    v.push(("  X    ", "Force kill (SIGKILL)"));
    v.push(("  d    ", "Toggle detail pane"));
    v.push(("  o    ", "Open in browser"));
    v.push(("  r    ", "Manual refresh"));
    v.push(("", ""));
    v.push(("  Clipboard", ""));
    v.push(("  y    ", "Copy port"));
    v.push(("  Y    ", "Copy PID"));
    v.push(("  c    ", "Copy command"));
    v.push(("", ""));
    v.push(("  Sorting", ""));
    v.push(("  1-8  ", "Sort by column (press again to reverse)"));
    v.push(("", ""));
    v.push(("  q/Esc", " Close help"));
    assert(pair_texts(v@) =~= help_overlay_text());
    v
}

/// The key hints at the bottom of the screen, as (key, description) pairs:
/// the filter's keys while typing a filter, the main keys otherwise.
pub open spec fn help_bar_text(mode: InputMode) -> Seq<(Seq<char>, Seq<char>)> {
    match mode {
        InputMode::Filter => seq![
            ("Esc"@, " close  "@),
            ("\u{2191}\u{2193}"@, " navigate  "@),
            ("Enter"@, " confirm"@),
        ],
        InputMode::Normal => seq![
            ("q"@, ":quit "@),
            ("/"@, ":filter "@),
            ("x"@, ":kill "@),
            ("X"@, ":KILL "@),
            ("d"@, ":detail "@),
            ("y"@, ":cp-port "@),
            ("Y"@, ":cp-pid "@),
            ("c"@, ":cp-cmd "@),
            ("o"@, ":browser "@),
            ("1-9"@, ":sort "@),
            ("?"@, ":help"@),
        ],
    }
}

/// The key hints at the bottom of the screen.
pub fn help_bar_items(app: &App) -> (r: Vec<(&'static str, &'static str)>)
    ensures
        pair_texts(r@) == help_bar_text(app.input_mode),
{
    let mut v: Vec<(&'static str, &'static str)> = Vec::new();
    match app.input_mode {
        InputMode::Filter => {
            v.push(("Esc", " close  "));
            v.push(("\u{2191}\u{2193}", " navigate  "));
            v.push(("Enter", " confirm"));
        },
        InputMode::Normal => {
            v.push(("q", ":quit "));
            v.push(("/", ":filter "));
            v.push(("x", ":kill "));
            v.push(("X", ":KILL "));
            v.push(("d", ":detail "));
            v.push(("y", ":cp-port "));
            v.push(("Y", ":cp-pid "));
            v.push(("c", ":cp-cmd "));
            v.push(("o", ":browser "));
            v.push(("1-9", ":sort "));
            v.push(("?", ":help"));
        },
    }
    assert(pair_texts(v@) =~= help_bar_text(app.input_mode));
    v
}

/// What the kill dialog asks after the process name, and the line naming
/// the signal.
pub open spec fn kill_dialog_text(k: KillConfirmation) -> (Seq<char>, Seq<char>) {
    (
        " (PID "@ + signed_decimal(k.pid as int) + ") on port "@ + decimal(k.port as nat) + "?"@,
        "  Signal: "@ + signal_text(k.force),
    )
}

/// The kill dialog's question after the process name, " (PID pid) on port
/// port?", and its signal line, "  Signal: SIGTERM" or "  Signal: SIGKILL".
pub fn kill_dialog_texts(k: &KillConfirmation) -> (r: (String, String))
    ensures
        (r.0@, r.1@) == kill_dialog_text(*k),
{
    let mut question = " (PID ".to_string();
    let pid = i32_text(k.pid);
    question.append(pid.as_str());
    question.append(") on port ");
    push_decimal(&mut question, k.port as u64);
    question.append("?");
    let mut signal = "  Signal: ".to_string();
    signal.append(signal_name(k.force));
    (question, signal)
}

/// The texts of a line of the detail pane: (label, value) segments.
pub open spec fn segment_texts(v: Seq<(String, String)>) -> Seq<(Seq<char>, Seq<char>)> {
    v.map_values(|p: (String, String)| (p.0@, p.1@))
}

/// The texts of the detail pane's lines.
pub open spec fn pane_texts(v: Seq<Vec<(String, String)>>) -> Seq<Seq<(Seq<char>, Seq<char>)>> {
    v.map_values(|l: Vec<(String, String)>| segment_texts(l@))
}

/// A segment shown only when its value is there.
pub open spec fn optional_segment(label: Seq<char>, value: Option<Seq<char>>) -> Seq<(Seq<char>, Seq<char>)> {
    match value {
        Some(v) => seq![(label, v)],
        None => Seq::empty(),
    }
}

/// The resource line of the detail pane: open descriptors, then threads,
/// resident memory and children when known.
pub open spec fn resource_segments(d: ProcessDetail) -> Seq<(Seq<char>, Seq<char>)> {
    seq![("FDs: "@, decimal(d.open_fds as nat))] + optional_segment(
        "Threads: "@,
        match d.threads {
            Some(t) => Some(decimal(t as nat)),
            None => None,
        },
    ) + optional_segment(
        "RSS: "@,
        match d.memory_rss_bytes {
            Some(b) => Some(decimal((b / 1048576u64) as nat) + " MB"@),
            None => None,
        },
    ) + optional_segment(
        "Children: "@,
        if d.children@.len() > 0 {
            Some(decimal(d.children@.len()))
        } else {
            None
        },
    )
}

/// A line shown only when its value is there.
pub open spec fn optional_pane_line(label: Seq<char>, value: Option<String>) -> Seq<Seq<(Seq<char>, Seq<char>)>> {
    match value {
        Some(v) => seq![seq![(label, v@)]],
        None => Seq::empty(),
    }
}

/// The lines of the detail pane for a process.
pub open spec fn detail_pane_text(d: ProcessDetail) -> Seq<Seq<(Seq<char>, Seq<char>)>> {
    seq![
        seq![("PID:     "@, signed_decimal(d.pid as int)), ("Name: "@, d.name@)],
        seq![("Command: "@, joined(texts(d.cmdline@)))],
    ] + optional_pane_line("CWD:     "@, d.cwd) + seq![resource_segments(d)] + optional_pane_line(
        "Container: "@,
        d.container_id,
    )
}

fn segment(label: &str, value: String) -> (r: (String, String))
    ensures
        r.0@ == label@,
        r.1@ == value@,
{
    (label.to_string(), value)
}

fn push_segment(line: &mut Vec<(String, String)>, label: &str, value: String)
    ensures
        segment_texts(final(line)@) == segment_texts(old(line)@).push((label@, value@)),
{
    let ghost v = value@;
    line.push(segment(label, value));
    assert(segment_texts(line@) =~= segment_texts(old(line)@).push((label@, v)));
}

fn push_pane_line(lines: &mut Vec<Vec<(String, String)>>, line: Vec<(String, String)>)
    ensures
        pane_texts(final(lines)@) == pane_texts(old(lines)@).push(segment_texts(line@)),
{
    let ghost l = segment_texts(line@);
    lines.push(line);
    assert(pane_texts(lines@) =~= pane_texts(old(lines)@).push(l));
}

fn resource_line(d: &ProcessDetail) -> (r: Vec<(String, String)>)
    ensures
        segment_texts(r@) == resource_segments(*d),
{
    let mut line: Vec<(String, String)> = Vec::new();
    push_segment(&mut line, "FDs: ", u64_text(d.open_fds as u64));
    let ghost after_fds = segment_texts(line@);
    match d.threads {
        Some(t) => push_segment(&mut line, "Threads: ", u64_text(t as u64)),
        None => {},
    }
    let ghost after_threads = segment_texts(line@);
    match d.memory_rss_bytes {
        Some(b) => {
            let mut rss = u64_text(b / (1024 * 1024));
            rss.append(" MB");
            push_segment(&mut line, "RSS: ", rss);
        },
        None => {},
    }
    let ghost after_rss = segment_texts(line@);
    if d.children.len() > 0 {
        push_segment(&mut line, "Children: ", u64_text(d.children.len() as u64));
    }
    assert(segment_texts(line@) =~= after_rss + optional_segment(
        "Children: "@,
        if d.children@.len() > 0 {
            Some(decimal(d.children@.len()))
        } else {
            None
        },
    ));
    assert(after_rss =~= after_threads + optional_segment(
        "RSS: "@,
        match d.memory_rss_bytes {
            Some(b) => Some(decimal((b / 1048576u64) as nat) + " MB"@),
            None => None,
        },
    ));
    assert(after_threads =~= after_fds + optional_segment(
        "Threads: "@,
        match d.threads {
            Some(t) => Some(decimal(t as nat)),
            None => None,
        },
    ));
    assert(segment_texts(line@) =~= resource_segments(*d));
    line
}

fn optional_line(lines: &mut Vec<Vec<(String, String)>>, label: &str, value: &Option<String>)
    ensures
        pane_texts(final(lines)@) == pane_texts(old(lines)@) + optional_pane_line(label@, *value),
{
    match value {
        Some(v) => {
            let mut line: Vec<(String, String)> = Vec::new();
            push_segment(&mut line, label, v.clone());
            assert(segment_texts(line@) =~= seq![(label@, v@)]);
            push_pane_line(lines, line);
        },
        None => {},
    }
    assert(pane_texts(lines@) =~= pane_texts(old(lines)@) + optional_pane_line(label@, *value));
}

/// The lines of the detail pane, each a list of (label, value) segments:
/// pid and name, the command line, the working directory when known, the
/// resources, and the container when there is one.
pub fn detail_pane_lines(d: &ProcessDetail) -> (r: Vec<Vec<(String, String)>>)
    ensures
        pane_texts(r@) == detail_pane_text(*d),
{
    let mut lines: Vec<Vec<(String, String)>> = Vec::new();
    let mut first: Vec<(String, String)> = Vec::new();
    push_segment(&mut first, "PID:     ", i32_text(d.pid));
    push_segment(&mut first, "Name: ", d.name.clone());
    assert(segment_texts(first@) =~= seq![
        ("PID:     "@, signed_decimal(d.pid as int)),
        ("Name: "@, d.name@),
    ]);
    push_pane_line(&mut lines, first);
    let mut command: Vec<(String, String)> = Vec::new();
    push_segment(&mut command, "Command: ", join_words(&d.cmdline));
    assert(segment_texts(command@) =~= seq![("Command: "@, joined(texts(d.cmdline@)))]);
    push_pane_line(&mut lines, command);
    let ghost head = pane_texts(lines@);
    optional_line(&mut lines, "CWD:     ", &d.cwd);
    let ghost after_cwd = pane_texts(lines@);
    let resources = resource_line(d);
    push_pane_line(&mut lines, resources);
    let ghost after_resources = pane_texts(lines@);
    optional_line(&mut lines, "Container: ", &d.container_id);
    assert(head =~= seq![
        seq![("PID:     "@, signed_decimal(d.pid as int)), ("Name: "@, d.name@)],
        seq![("Command: "@, joined(texts(d.cmdline@)))],
    ]);
    assert(after_resources =~= after_cwd + seq![resource_segments(*d)]);
    assert(pane_texts(lines@) =~= detail_pane_text(*d));
    lines
}

} // verus!
