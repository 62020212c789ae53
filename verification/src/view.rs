//! What the interactive screen shows: which panes, the text of the table's
//! header and cells, the colour of each row, and the status line.
use vstd::prelude::*;
use vstd::utf8::encode_utf8;
use crate::app::{selected_entry_of, App, InputMode, PaneMode};
use crate::text::{
    at_char_boundary, byte_count, byte_len, byte_prefix, decimal, lemma_byte_prefix_len,
    lemma_ellipsis_bytes, lemma_encode_concat, push_decimal, u64_text,
};
use crate::types::{
    arrow_text, cmdline_text, column_label, name_text, pid_text, project_text, protocol_text,
    state_short, PortEntry, SortColumn, SortOrder,
};

verus! {

broadcast use vstd::string::group_string_axioms;

/// `s` cut to at most `max` bytes: longer texts keep their first
/// `max - 3` bytes (none when `max < 3`) and end in "...".
pub open spec fn truncated(s: Seq<char>, max: usize) -> Seq<char> {
    if byte_len(s) > max {
        byte_prefix(s, if max >= 3 { max - 3 } else { 0 }) + "..."@
    } else {
        s
    }
}

/// Whether `truncate` can cut `s`: it cuts at a character boundary.
pub open spec fn truncatable(s: Seq<char>, max: usize) -> bool {
    byte_len(s) > max ==> at_char_boundary(s, if max >= 3 { max - 3 } else { 0 })
}

/// Whether `truncate` can cut `s` to `max` bytes.
pub fn can_truncate(s: &str, max: usize) -> (r: bool)
    ensures
        r == truncatable(s@, max),
{
    if byte_count(s) > max {
        crate::text::is_boundary(s, max.saturating_sub(3))
    } else {
        true
    }
}

/// Shortens `s` to at most `max` bytes for a table cell.
pub fn truncate(s: &str, max: usize) -> (r: String)
    requires
        truncatable(s@, max),
    ensures
        r@ == truncated(s@, max),
{
    if byte_count(s) > max {
        let keep = max.saturating_sub(3);
        let mut t = crate::text::prefix_bytes(s, keep).to_string();
        t.append("...");
        t
    } else {
        s.to_string()
    }
}

/// A cut cell fits its width: for a width of at least three bytes, the
/// shortened text takes at most that many bytes.
pub proof fn lemma_truncated_fits(s: Seq<char>, max: usize)
    requires
        max >= 3,
        encode_utf8(s).len() <= usize::MAX,
        truncatable(s, max),
    ensures
        encode_utf8(truncated(s, max)).len() <= max,
{
    if byte_len(s) > max {
        let keep = max - 3;
        lemma_byte_prefix_len(s, keep as int);
        lemma_encode_concat(byte_prefix(s, keep as int), "..."@);
        lemma_ellipsis_bytes();
    }
}

/// The colour of a table row.
#[derive(Debug, Clone, Copy, PartialEq, Eq, Structural)]
pub enum RowStyle {
    /// Sockets of root.
    Red,
    /// Well-known ports (below 1024).
    Yellow,
    /// Everything else.
    White,
}

/// The colour of an entry's row: red for root's sockets, yellow for
/// well-known ports, white otherwise.
pub open spec fn row_color(e: PortEntry) -> RowStyle {
    if e.uid == 0 {
        RowStyle::Red
    } else if e.port < 1024 {
        RowStyle::Yellow
    } else {
        RowStyle::White
    }
}

/// Rows of root's sockets are red whatever the port; other users' rows are
/// yellow on the well-known ports (below 1024) and white on the others.
pub proof fn lemma_row_colours(e: PortEntry)
    ensures
        row_color(e) == RowStyle::Red <==> e.uid == 0,
        row_color(e) == RowStyle::Yellow <==> e.uid != 0 && e.port < 1024,
        row_color(e) == RowStyle::White <==> e.uid != 0 && e.port >= 1024,
{
}

/// The colour of an entry's row.
pub fn row_style(entry: &PortEntry) -> (r: RowStyle)
    ensures
        r == row_color(*entry),
{
    if entry.uid == 0 {
        // Root processes in red
        RowStyle::Red
    } else if entry.port < 1024 {
        // Well-known ports in yellow
        RowStyle::Yellow
    } else {
        RowStyle::White
    }
}

/// The header text of a column: its label, followed by the sort arrow when
/// the table is sorted by it.
pub open spec fn header_text(col: SortColumn, sorted_by: SortColumn, order: SortOrder) -> Seq<char> {
    if col == sorted_by {
        column_label(col) + " "@ + arrow_text(order)
    } else {
        column_label(col)
    }
}

/// The header text of a column.
pub fn header_label(col: SortColumn, sorted_by: SortColumn, order: SortOrder) -> (r: String)
    ensures
        r@ == header_text(col, sorted_by, order),
{
    let mut s = col.label().to_string();
    if col == sorted_by {
        s.append(" ");
        s.append(order.arrow());
    }
    s
}

/// The nine cells of an entry's row.
pub open spec fn row_cells(e: PortEntry) -> Seq<Seq<char>> {
    seq![
        protocol_text(e.protocol),
        e.local_addr@,
        decimal(e.port as nat),
        pid_text(e),
        name_text(e),
        e.username@,
        truncated(project_text(e), 20),
        state_short(e.state),
        truncated(cmdline_text(e), 40),
    ]
}

/// The cells of an entry's row: protocol, address, port, pid, name, user,
/// project (cut to 20 bytes), state code and command (cut to 40 bytes).
pub fn table_cells(entry: &PortEntry) -> (r: Vec<String>)
    requires
        truncatable(project_text(*entry), 20),
        truncatable(cmdline_text(*entry), 40),
    ensures
        r@.len() == 9,
        forall|i: int| 0 <= i < 9 ==> #[trigger] r@[i]@ == row_cells(*entry)[i],
{
    let mut cells: Vec<String> = Vec::new();
    cells.push(entry.protocol.as_str().to_string());
    cells.push(entry.local_addr.clone());
    cells.push(u64_text(entry.port as u64));
    cells.push(entry.pid_str());
    cells.push(entry.process_name().to_string());
    cells.push(entry.username.clone());
    cells.push(truncate(entry.project(), 20));
    cells.push(entry.state.short().to_string());
    cells.push(truncate(entry.cmdline(), 40));
    cells
}

/// The part of the screen a pane takes.
#[derive(Debug, Clone, Copy, PartialEq, Eq, Structural)]
pub enum Pane {
    StatusBar,
    FilterBar,
    Table,
    Detail,
    HelpBar,
}

/// The filter line is shown while typing a filter or while one is set.
pub open spec fn filter_shown(app: App) -> bool {
    app.input_mode == InputMode::Filter || app.filter_text@.len() > 0
}

/// The panes from top to bottom: the status line, the filter line when
/// shown, the table, the detail pane when enabled, and the key hints.
pub open spec fn panes_of(app: App) -> Seq<Pane> {
    seq![Pane::StatusBar] + (if filter_shown(app) {
        seq![Pane::FilterBar]
    } else {
        Seq::empty()
    }) + seq![Pane::Table] + (if app.pane_mode == PaneMode::TableWithDetail {
        seq![Pane::Detail]
    } else {
        Seq::empty()
    }) + seq![Pane::HelpBar]
}

/// The screen always starts with the status line, ends with the key hints
/// and shows the table; the detail pane is shown exactly when it is
/// enabled, whatever the filter; the filter line exactly while a filter is
/// typed or set, whatever the detail pane; and the detail pane comes below
/// the table.
pub proof fn lemma_panes_shown(app: App)
    ensures
        panes_of(app)[0] == Pane::StatusBar,
        panes_of(app).last() == Pane::HelpBar,
        panes_of(app).contains(Pane::Table),
        panes_of(app).contains(Pane::Detail) <==> app.pane_mode == PaneMode::TableWithDetail,
        panes_of(app).contains(Pane::FilterBar) <==> (app.input_mode == InputMode::Filter
            || app.filter_text@.len() > 0),
        panes_of(app).len() == 3 + (if app.pane_mode == PaneMode::TableWithDetail {
            1int
        } else {
            0int
        }) + (if app.input_mode == InputMode::Filter || app.filter_text@.len() > 0 {
            1int
        } else {
            0int
        }),
        forall|i: int, j: int|
            0 <= i < panes_of(app).len() && 0 <= j < panes_of(app).len() && panes_of(app)[i]
                == Pane::Table && panes_of(app)[j] == Pane::Detail ==> i < j,
{
    let ps = panes_of(app);
    let fl = app.input_mode == InputMode::Filter || app.filter_text@.len() > 0;
    let dt = app.pane_mode == PaneMode::TableWithDetail;
    if fl && dt {
        assert(ps =~= seq![Pane::StatusBar, Pane::FilterBar, Pane::Table, Pane::Detail, Pane::HelpBar]);
    } else if fl {
        assert(ps =~= seq![Pane::StatusBar, Pane::FilterBar, Pane::Table, Pane::HelpBar]);
    } else if dt {
        assert(ps =~= seq![Pane::StatusBar, Pane::Table, Pane::Detail, Pane::HelpBar]);
    } else {
        assert(ps =~= seq![Pane::StatusBar, Pane::Table, Pane::HelpBar]);
    }
    if ps.contains(Pane::Detail) {
        let k = choose|k: int| 0 <= k < ps.len() && ps[k] == Pane::Detail;
    }
    if ps.contains(Pane::FilterBar) {
        let k = choose|k: int| 0 <= k < ps.len() && ps[k] == Pane::FilterBar;
    }
    if dt {
        assert(ps[ps.len() - 2] == Pane::Detail);
    }
    if fl {
        assert(ps[1] == Pane::FilterBar);
    }
    assert(ps[if fl { 2int } else { 1int }] == Pane::Table);
}

/// The panes of the screen, from top to bottom.
pub fn layout_panes(app: &App) -> (r: Vec<Pane>)
    ensures
        r@ == panes_of(*app),
{
    let mut panes: Vec<Pane> = Vec::new();
    panes.push(Pane::StatusBar);
    let has_filter = app.input_mode == InputMode::Filter || !app.filter_text.as_str().is_empty();
    if has_filter {
        panes.push(Pane::FilterBar);
    }
    panes.push(Pane::Table);
    if app.pane_mode == PaneMode::TableWithDetail {
        panes.push(Pane::Detail);
    }
    panes.push(Pane::HelpBar);
    assert(panes@ =~= panes_of(*app));
    panes
}

/// The cursor drawn after the filter text: a block while typing, nothing
/// otherwise.
pub fn filter_cursor(app: &App) -> (r: &'static str)
    ensures
        r@ == (if app.input_mode == InputMode::Filter {
            "\u{2588}"@
        } else {
            ""@
        }),
{
    if app.input_mode == InputMode::Filter {
        "\u{2588}"
    } else {
        ""
    }
}

/// What the detail pane says when there is no detail to show.
pub open spec fn detail_placeholder_text(app: App) -> Option<Seq<char>> {
    match app.detail_cache {
        Some(_) => None,
        None => if selected_entry_of(app) is Some {
            Some("No detail available (process info unavailable)"@)
        } else {
            Some("No entry selected"@)
        },
    }
}

/// What the detail pane says when there is no detail to show; `None` when
/// there is detail.
pub fn detail_placeholder(app: &App) -> (r: Option<&'static str>)
    ensures
        match r {
            Some(t) => detail_placeholder_text(*app) == Some(t@),
            None => detail_placeholder_text(*app) is None,
        },
{
    match &app.detail_cache {
        Some(_) => None,
        None => if app.selected_entry().is_some() {
            Some("No detail available (process info unavailable)")
        } else {
            Some("No entry selected")
        },
    }
}

/// The port count of the status line: "N ports", or "M/N ports" while a
/// filter is set.
pub open spec fn count_text(app: App) -> Seq<char> {
    if app.filter_text@.len() == 0 {
        decimal(app.entries@.len()) + " ports"@
    } else {
        decimal(app.filtered_indices@.len()) + "/"@ + decimal(app.entries@.len()) + " ports"@
    }
}

/// The right-hand part of the status line: the port count, the refresh
/// interval text, and "[unprivileged]" when not running as root.
pub open spec fn status_right_text(app: App, interval: Seq<char>) -> Seq<char> {
    if !app.is_root {
        "  "@ + count_text(app) + "  "@ + interval + "  [unprivileged]"@
    } else {
        "  "@ + count_text(app) + "  "@ + interval
    }
}

/// The right-hand part of the status line, given the refresh interval as
/// text.
pub fn status_right(app: &App, interval: &str) -> (r: String)
    ensures
        r@ == status_right_text(*app, interval@),
{
    let mut s = "  ".to_string();
    if app.filter_text.as_str().is_empty() {
        push_decimal(&mut s, app.total_count() as u64);
        s.append(" ports");
    } else {
        push_decimal(&mut s, app.entry_count() as u64);
        s.append("/");
        push_decimal(&mut s, app.total_count() as u64);
        s.append(" ports");
    }
    s.append("  ");
    s.append(interval);
    if !app.is_root {
        s.append("  [unprivileged]");
    }
    s
}

/// The blank space between the two parts of the status line, given the
/// line's width and the byte lengths of its parts.
pub fn status_padding(width: u16, left_len: usize, right_len: usize) -> (r: u16)
    requires
        left_len as u16 + right_len as u16 <= u16::MAX,
    ensures
        r == (if width >= left_len as u16 + right_len as u16 {
            width - (left_len as u16 + right_len as u16)
        } else {
            0
        }),
{
    let used: u16 = left_len as u16 + right_len as u16;
    width.saturating_sub(used)
}

} // verus!
