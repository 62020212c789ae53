//! The state of the interactive port table: the entries, the filtered and
//! sorted view of them, the selection, and the dialogs.
use vstd::prelude::*;
use crate::text::{
    ascii_lowercase, in_order_within, is_ascii_text, lowercase, lowered_pattern,
    lowered_pattern_matches,
};
use crate::types::{
    column_order, directed_order, lemma_column_order_preorder, lemma_directed_order_preorder,
    pid_of, search_text, PortEntry, ProcessDetail, SortColumn, SortOrder,
};

verus! {

broadcast use vstd::string::group_string_axioms;

/// Whether keys go to the table or to the filter line.
#[derive(Debug, Clone, Copy, PartialEq, Eq, Structural)]
pub enum InputMode {
    Normal,
    Filter,
}

/// Whether the detail pane is shown under the table.
#[derive(Debug, Clone, Copy, PartialEq, Eq, Structural)]
pub enum PaneMode {
    Table,
    TableWithDetail,
}

/// A kill waiting for the user's confirmation.
#[derive(Debug)]
pub struct KillConfirmation {
    pub pid: i32,
    pub process_name: String,
    pub port: u16,
    pub force: bool,
}

/// The state of the interactive table.
pub struct App {
    pub entries: Vec<PortEntry>,
    pub filtered_indices: Vec<usize>,
    /// The selected row of the view (the table's selection).
    pub selected: Option<usize>,
    pub input_mode: InputMode,
    pub pane_mode: PaneMode,
    pub filter_text: String,
    pub sort_column: SortColumn,
    pub sort_order: SortOrder,
    pub detail_cache: Option<ProcessDetail>,
    pub detail_pid: Option<i32>,
    /// Refresh interval in milliseconds.
    pub refresh_interval_ms: u64,
    pub show_help: bool,
    pub confirm_kill: Option<KillConfirmation>,
    pub should_quit: bool,
    /// A status message and the time (in milliseconds) it was set.
    pub status_message: Option<(String, u64)>,
    pub is_root: bool,
}

/// The entry at a position.
pub open spec fn entry_at(entries: Seq<PortEntry>, i: usize) -> PortEntry {
    entries[i as int]
}

/// Entry `i` sorts strictly ahead of entry `j` on the column, in the direction.
pub open spec fn ahead(entries: Seq<PortEntry>, col: SortColumn, dir: SortOrder, i: usize, j: usize) -> bool {
    directed_order(entry_at(entries, i), entry_at(entries, j), col, dir) == core::cmp::Ordering::Less
}

/// Entry `i` comes before entry `j` in the view: it sorts ahead, or the two
/// sort alike and `i` comes first among the entries (the sort is stable).
pub open spec fn precedes(entries: Seq<PortEntry>, col: SortColumn, dir: SortOrder, i: usize, j: usize) -> bool {
    ahead(entries, col, dir, i, j) || (!ahead(entries, col, dir, i, j) && !ahead(
        entries,
        col,
        dir,
        j,
        i,
    ) && i < j)
}

/// An entry passes the filter: the filter is empty, or it fuzzy-matches the
/// entry's search string.
pub open spec fn view_matches(filter: Seq<char>, e: PortEntry) -> bool {
    filter.len() == 0 || in_order_within(lowercase(filter), lowercase(search_text(e)))
}

/// `idx` is the view of `entries`: the positions of the entries that pass
/// the filter, each once, ordered by `precedes`.
pub open spec fn is_view(
    entries: Seq<PortEntry>,
    filter: Seq<char>,
    col: SortColumn,
    dir: SortOrder,
    idx: Seq<usize>,
) -> bool {
    &&& forall|k: int| 0 <= k < idx.len() ==> #[trigger] idx[k] < entries.len()
    &&& forall|i: usize|
        i < entries.len() ==> (idx.contains(i) <==> view_matches(filter, entry_at(entries, i)))
    &&& forall|a: int, b: int|
        0 <= a < b < idx.len() ==> precedes(entries, col, dir, #[trigger] idx[a], #[trigger] idx[b])
}

/// The selection is a row of the view, and there is one exactly when the
/// view has rows.
pub open spec fn selection_ok(selected: Option<usize>, rows: nat) -> bool {
    match selected {
        Some(s) => s < rows,
        None => rows == 0,
    }
}

/// The selection after the view changed to `rows` rows: kept when still a
/// row, moved to the last row when past the end, the first row when there
/// was none, and none when the view is empty.
pub open spec fn reselected(sel: Option<usize>, rows: nat) -> Option<usize> {
    match sel {
        Some(s) => if s < rows {
            Some(s)
        } else if rows == 0 {
            None
        } else {
            Some((rows - 1) as usize)
        },
        None => if rows == 0 {
            None
        } else {
            Some(0usize)
        },
    }
}

impl App {
    /// The state's invariant: the view is the filtered, sorted view of the
    /// entries, and the selection is one of its rows.
    pub open spec fn well_formed(&self) -> bool {
        &&& is_view(
            self.entries@,
            self.filter_text@,
            self.sort_column,
            self.sort_order,
            self.filtered_indices@,
        )
        &&& selection_ok(self.selected, self.filtered_indices@.len())
        &&& filter_folded(self.filter_text@)
    }
}

/// What is known of the filter's lower-case form, from lower-casing it:
/// for ASCII text, each capital letter lowered.
pub open spec fn filter_folded(filter: Seq<char>) -> bool {
    is_ascii_text(filter) ==> lowercase(filter) == ascii_lowercase(filter)
}

/// `precedes` is a strict total order on distinct positions.
pub proof fn lemma_precedes_order(
    entries: Seq<PortEntry>,
    col: SortColumn,
    dir: SortOrder,
    i: usize,
    j: usize,
    k: usize,
)
    ensures
        !precedes(entries, col, dir, i, i),
        i != j ==> (precedes(entries, col, dir, i, j) || precedes(entries, col, dir, j, i)),
        precedes(entries, col, dir, i, j) ==> !precedes(entries, col, dir, j, i),
        precedes(entries, col, dir, i, j) && precedes(entries, col, dir, j, k) ==> precedes(
            entries,
            col,
            dir,
            i,
            k,
        ),
{
    let a = entry_at(entries, i);
    let b = entry_at(entries, j);
    let c = entry_at(entries, k);
    lemma_directed_order_preorder(a, b, c, col, dir);
    lemma_directed_order_preorder(b, c, a, col, dir);
    lemma_directed_order_preorder(c, a, b, col, dir);
    lemma_directed_order_preorder(a, a, a, col, dir);
    lemma_directed_order_preorder(b, a, c, col, dir);
    lemma_directed_order_preorder(a, c, b, col, dir);
    lemma_directed_order_preorder(c, b, a, col, dir);
}

/// Sequences strictly ordered by `precedes`.
pub open spec fn in_view_order(entries: Seq<PortEntry>, col: SortColumn, dir: SortOrder, s: Seq<usize>) -> bool {
    forall|a: int, b: int|
        0 <= a < b < s.len() ==> precedes(entries, col, dir, #[trigger] s[a], #[trigger] s[b])
}

proof fn lemma_first_only_at_start(entries: Seq<PortEntry>, col: SortColumn, dir: SortOrder, s: Seq<usize>)
    requires
        in_view_order(entries, col, dir, s),
        s.len() > 0,
    ensures
        forall|z: usize| #[trigger] s.drop_first().contains(z) <==> (s.contains(z) && z != s[0]),
{
    assert forall|z: usize| #[trigger] s.drop_first().contains(z) <==> (s.contains(z) && z != s[0]) by {
        if s.drop_first().contains(z) {
            let j = choose|j: int| 0 <= j < s.drop_first().len() && s.drop_first()[j] == z;
            assert(s[j + 1] == z);
            assert(precedes(entries, col, dir, s[0], s[j + 1]));
            lemma_precedes_order(entries, col, dir, z, z, z);
        }
        if s.contains(z) && z != s[0] {
            let j = choose|j: int| 0 <= j < s.len() && s[j] == z;
            assert(j > 0);
            assert(s.drop_first()[j - 1] == z);
        }
    }
}

/// Two sequences strictly ordered by `precedes` that hold the same
/// positions are the same sequence.
pub proof fn lemma_view_order_unique(
    entries: Seq<PortEntry>,
    col: SortColumn,
    dir: SortOrder,
    s1: Seq<usize>,
    s2: Seq<usize>,
)
    requires
        in_view_order(entries, col, dir, s1),
        in_view_order(entries, col, dir, s2),
        forall|z: usize| #![trigger s1.contains(z)] #![trigger s2.contains(z)] s1.contains(z) <==> s2.contains(z),
    ensures
        s1 == s2,
    decreases s1.len(),
{
    if s1.len() == 0 {
        if s2.len() > 0 {
            assert(s2.contains(s2[0]));
            assert(s1.contains(s2[0]));
        }
        assert(s1 =~= s2);
    } else {
        assert(s1.contains(s1[0]));
        let x = s1[0];
        let y = s2[0];
        if x != y {
            let k = choose|k: int| 0 <= k < s2.len() && s2[k] == x;
            assert(s2.contains(y));
            assert(s1.contains(y));
            let m = choose|m: int| 0 <= m < s1.len() && s1[m] == y;
            assert(k > 0 && m > 0);
            assert(precedes(entries, col, dir, y, x));
            assert(precedes(entries, col, dir, x, y));
            lemma_precedes_order(entries, col, dir, x, y, x);
        }
        lemma_first_only_at_start(entries, col, dir, s1);
        lemma_first_only_at_start(entries, col, dir, s2);
        assert(s2.contains(x));
        let t1 = s1.drop_first();
        let t2 = s2.drop_first();
        assert forall|a: int, b: int| 0 <= a < b < t1.len() implies precedes(
            entries,
            col,
            dir,
            #[trigger] t1[a],
            #[trigger] t1[b],
        ) by {
            assert(t1[a] == s1[a + 1] && t1[b] == s1[b + 1]);
        }
        assert forall|a: int, b: int| 0 <= a < b < t2.len() implies precedes(
            entries,
            col,
            dir,
            #[trigger] t2[a],
            #[trigger] t2[b],
        ) by {
            assert(t2[a] == s2[a + 1] && t2[b] == s2[b + 1]);
        }
        lemma_view_order_unique(entries, col, dir, t1, t2);
        assert(s1 =~= seq![x] + t1);
        assert(s2 =~= seq![y] + t2);
    }
}

/// The view is determined by the entries, the filter and the sort settings:
/// any two sequences that are the view are equal.
pub proof fn lemma_view_unique(
    entries: Seq<PortEntry>,
    filter: Seq<char>,
    col: SortColumn,
    dir: SortOrder,
    s1: Seq<usize>,
    s2: Seq<usize>,
)
    requires
        is_view(entries, filter, col, dir, s1),
        is_view(entries, filter, col, dir, s2),
    ensures
        s1 == s2,
{
    assert forall|z: usize| #[trigger] s1.contains(z) <==> s2.contains(z) by {
        if s1.contains(z) {
            let k = choose|k: int| 0 <= k < s1.len() && s1[k] == z;
            assert(s1[k] < entries.len());
        }
        if s2.contains(z) {
            let k = choose|k: int| 0 <= k < s2.len() && s2[k] == z;
            assert(s2[k] < entries.len());
        }
    }
    lemma_view_order_unique(entries, col, dir, s1, s2);
}

/// The view never has more rows than there are entries: each entry shows
/// at most once.
pub proof fn lemma_view_within_entries(
    entries: Seq<PortEntry>,
    filter: Seq<char>,
    col: SortColumn,
    dir: SortOrder,
    idx: Seq<usize>,
)
    requires
        is_view(entries, filter, col, dir, idx),
    ensures
        idx.no_duplicates(),
        idx.len() <= entries.len(),
{
    assert forall|a: int, b: int| 0 <= a < idx.len() && 0 <= b < idx.len() && a != b implies idx[a]
        != idx[b] by {
        if a < b {
            assert(precedes(entries, col, dir, idx[a], idx[b]));
        } else {
            assert(precedes(entries, col, dir, idx[b], idx[a]));
        }
        lemma_precedes_order(entries, col, dir, idx[a], idx[a], idx[a]);
    }
    let t = idx.map_values(|x: usize| x as int);
    assert forall|a: int, b: int| 0 <= a < t.len() && 0 <= b < t.len() && a != b implies t[a]
        != t[b] by {
        assert(idx[a] != idx[b]);
    }
    assert(t.no_duplicates());
    t.unique_seq_to_set();
    vstd::set_lib::lemma_int_range(0, entries.len() as int);
    assert(t.to_set().subset_of(vstd::set_lib::set_int_range(0, entries.len() as int))) by {
        assert forall|x: int| t.to_set().contains(x) implies vstd::set_lib::set_int_range(
            0,
            entries.len() as int,
        ).contains(x) by {
            assert(t.contains(x));
            let k = choose|k: int| 0 <= k < t.len() && t[k] == x;
            assert(idx[k] < entries.len());
        }
    }
    vstd::set_lib::lemma_len_subset(t.to_set(), vstd::set_lib::set_int_range(0, entries.len() as int));
}

/// A well-formed table never shows more rows than it has entries.
pub proof fn lemma_count_within_total(app: App)
    requires
        app.well_formed(),
    ensures
        app.filtered_indices@.len() <= app.entries@.len(),
{
    lemma_view_within_entries(
        app.entries@,
        app.filter_text@,
        app.sort_column,
        app.sort_order,
        app.filtered_indices@,
    );
}

/// Sorting does not change which rows the view has: two views of the same
/// entries and filter, sorted by any columns in any directions, hold the
/// same rows and as many of them.
pub proof fn lemma_sort_keeps_rows(
    entries: Seq<PortEntry>,
    filter: Seq<char>,
    col1: SortColumn,
    dir1: SortOrder,
    s1: Seq<usize>,
    col2: SortColumn,
    dir2: SortOrder,
    s2: Seq<usize>,
)
    requires
        is_view(entries, filter, col1, dir1, s1),
        is_view(entries, filter, col2, dir2, s2),
    ensures
        forall|z: usize| #[trigger] s1.contains(z) <==> s2.contains(z),
        s1.len() == s2.len(),
{
    assert forall|z: usize| #[trigger] s1.contains(z) <==> s2.contains(z) by {
        if s1.contains(z) {
            let k = choose|k: int| 0 <= k < s1.len() && s1[k] == z;
            assert(s1[k] < entries.len());
        }
        if s2.contains(z) {
            let k = choose|k: int| 0 <= k < s2.len() && s2[k] == z;
            assert(s2[k] < entries.len());
        }
    }
    lemma_view_within_entries(entries, filter, col1, dir1, s1);
    lemma_view_within_entries(entries, filter, col2, dir2, s2);
    assert(s1.to_set() =~= s2.to_set());
    s1.unique_seq_to_set();
    s2.unique_seq_to_set();
}

/// In a well-formed table an entry is shown exactly when the filter is
/// empty or the lower-cased filter appears, in order, in the lower-cased text
/// `search_string` gives for the entry (which holds every field of it, see
/// `lemma_search_text_holds_every_field`).
pub proof fn lemma_view_membership(app: App, i: usize)
    requires
        app.well_formed(),
        i < app.entries@.len(),
    ensures
        app.filtered_indices@.contains(i) <==> (app.filter_text@.len() == 0 || in_order_within(
            lowercase(app.filter_text@),
            lowercase(search_text(entry_at(app.entries@, i))),
        )),
{
}

/// The rows of a well-formed table are in order of the sort column: going
/// down the view, ascending never steps to an entry that compares smaller
/// and descending never to one that compares larger; entries that compare
/// equal stay in the order they were scanned.
pub proof fn lemma_view_sorted(app: App, a: int, b: int)
    requires
        app.well_formed(),
        0 <= a < b < app.filtered_indices@.len(),
    ensures
        app.sort_order == SortOrder::Ascending ==> column_order(
            entry_at(app.entries@, app.filtered_indices@[a]),
            entry_at(app.entries@, app.filtered_indices@[b]),
            app.sort_column,
        ) != core::cmp::Ordering::Greater,
        app.sort_order == SortOrder::Descending ==> column_order(
            entry_at(app.entries@, app.filtered_indices@[a]),
            entry_at(app.entries@, app.filtered_indices@[b]),
            app.sort_column,
        ) != core::cmp::Ordering::Less,
        column_order(
            entry_at(app.entries@, app.filtered_indices@[a]),
            entry_at(app.entries@, app.filtered_indices@[b]),
            app.sort_column,
        ) == core::cmp::Ordering::Equal ==> app.filtered_indices@[a] < app.filtered_indices@[b],
{
    let x = entry_at(app.entries@, app.filtered_indices@[a]);
    let y = entry_at(app.entries@, app.filtered_indices@[b]);
    assert(precedes(
        app.entries@,
        app.sort_column,
        app.sort_order,
        app.filtered_indices@[a],
        app.filtered_indices@[b],
    ));
    lemma_column_order_preorder(x, y, x, app.sort_column);
}

/// Whether entry `i` sorts strictly ahead of entry `j`.
fn sorts_ahead(entries: &Vec<PortEntry>, col: SortColumn, dir: SortOrder, i: usize, j: usize) -> (r: bool)
    requires
        i < entries@.len(),
        j < entries@.len(),
    ensures
        r == ahead(entries@, col, dir, i, j),
{
    let o = entries[i].cmp_by_column(&entries[j], col);
    match dir {
        SortOrder::Ascending => match o {
            core::cmp::Ordering::Less => true,
            _ => false,
        },
        SortOrder::Descending => match o {
            core::cmp::Ordering::Greater => true,
            _ => false,
        },
    }
}

/// Inserts entry `i`, which comes after every position already in `idx`,
/// where it belongs in the order.
pub(crate) fn insert_in_order(entries: &Vec<PortEntry>, col: SortColumn, dir: SortOrder, idx: &mut Vec<usize>, i: usize)
    requires
        i < entries@.len(),
        forall|k: int| 0 <= k < old(idx)@.len() ==> #[trigger] old(idx)@[k] < i,
        forall|a: int, b: int|
            0 <= a < b < old(idx)@.len() ==> precedes(entries@, col, dir, #[trigger] old(idx)@[a], #[trigger] old(idx)@[b]),
    ensures
        forall|x: usize| #[trigger] final(idx)@.contains(x) <==> (old(idx)@.contains(x) || x == i),
        final(idx)@.len() == old(idx)@.len() + 1,
        forall|a: int, b: int|
            0 <= a < b < final(idx)@.len() ==> precedes(entries@, col, dir, #[trigger] final(idx)@[a], #[trigger] final(idx)@[b]),
{
    let ghost before = idx@;
    let mut p = idx.len();
    while p > 0 && sorts_ahead(entries, col, dir, i, idx[p - 1])
        invariant
            p <= idx@.len(),
            idx@ == before,
            i < entries@.len(),
            forall|k: int| 0 <= k < before.len() ==> #[trigger] before[k] < i,
            forall|k: int| p <= k < before.len() ==> precedes(entries@, col, dir, i, #[trigger] before[k]),
        decreases p,
    {
        p = p - 1;
    }
    proof {
        if p > 0 {
            let q = before[p - 1];
            lemma_precedes_order(entries@, col, dir, q, i, q);
            assert(precedes(entries@, col, dir, q, i));
            assert forall|k: int| 0 <= k < p implies precedes(entries@, col, dir, #[trigger] before[k], i) by {
                if k < p - 1 {
                    lemma_precedes_order(entries@, col, dir, before[k], q, i);
                }
            }
        }
    }
    idx.insert(p, i);
    proof {
        let after = idx@;
        assert forall|x: usize| #[trigger] after.contains(x) <==> (before.contains(x) || x == i) by {
            if after.contains(x) {
                let k = choose|k: int| 0 <= k < after.len() && after[k] == x;
                if k < p {
                    assert(before[k] == x);
                } else if k > p {
                    assert(before[k - 1] == x);
                }
            }
            if before.contains(x) {
                let k = choose|k: int| 0 <= k < before.len() && before[k] == x;
                if k < p {
                    assert(after[k] == x);
                } else {
                    assert(after[k + 1] == x);
                }
            }
            if x == i {
                assert(after[p as int] == i);
            }
        }
        assert forall|a: int, b: int| 0 <= a < b < after.len() implies precedes(
            entries@,
            col,
            dir,
            #[trigger] after[a],
            #[trigger] after[b],
        ) by {
            if a < p && b < p {
                assert(after[a] == before[a] && after[b] == before[b]);
            } else if a < p && b == p {
            } else if a < p && b > p {
                assert(after[a] == before[a] && after[b] == before[b - 1]);
            } else if a == p {
                assert(after[b] == before[b - 1]);
            } else {
                assert(after[a] == before[a - 1] && after[b] == before[b - 1]);
            }
        }
    }
}

impl App {
    /// Recomputes the filtered, sorted view and keeps the selection on a row.
    pub fn recompute_view(&mut self)
        ensures
            final(self).well_formed(),
            final(self).entries == old(self).entries,
            final(self).filter_text == old(self).filter_text,
            final(self).sort_column == old(self).sort_column,
            final(self).sort_order == old(self).sort_order,
            final(self).selected == reselected(old(self).selected, final(self).filtered_indices@.len()),
            final(self).input_mode == old(self).input_mode,
            final(self).pane_mode == old(self).pane_mode,
            final(self).detail_cache == old(self).detail_cache,
            final(self).detail_pid == old(self).detail_pid,
            final(self).refresh_interval_ms == old(self).refresh_interval_ms,
            final(self).show_help == old(self).show_help,
            final(self).confirm_kill == old(self).confirm_kill,
            final(self).should_quit == old(self).should_quit,
            final(self).status_message == old(self).status_message,
            final(self).is_root == old(self).is_root,
    {
        let mut indices: Vec<usize> = Vec::new();
        let all = self.filter_text.as_str().is_empty();
        let pattern = lowered_pattern(self.filter_text.as_str());
        let n = self.entries.len();
        for i in 0..n
            invariant
                n == self.entries@.len(),
                all == (self.filter_text@.len() == 0),
                pattern@ == lowercase(self.filter_text@),
                forall|k: int| 0 <= k < indices@.len() ==> #[trigger] indices@[k] < i,
                forall|x: usize|
                    x < i ==> (indices@.contains(x) <==> view_matches(
                        self.filter_text@,
                        entry_at(self.entries@, x),
                    )),
                forall|x: usize| #[trigger] indices@.contains(x) ==> x < i,
                forall|a: int, b: int|
                    0 <= a < b < indices@.len() ==> precedes(
                        self.entries@,
                        self.sort_column,
                        self.sort_order,
                        #[trigger] indices@[a],
                        #[trigger] indices@[b],
                    ),
        {
            let keep = if all {
                true
            } else {
                let s = self.entries[i].search_string();
                lowered_pattern_matches(&pattern, s.as_str())
            };
            if keep {
                let ghost old_indices = indices@;
                insert_in_order(&self.entries, self.sort_column, self.sort_order, &mut indices, i);
                proof {
                    assert forall|k: int| 0 <= k < indices@.len() implies #[trigger] indices@[k] < i + 1 by {
                        assert(indices@.contains(indices@[k]));
                        if old_indices.contains(indices@[k]) {
                        }
                    }
                }
            } else {
                proof {
                    assert(!indices@.contains(i));
                }
            }
        }
        self.filtered_indices = indices;
        let len = self.filtered_indices.len();
        match self.selected {
            Some(s) => {
                if s >= len {
                    if len == 0 {
                        self.selected = None;
                    } else {
                        self.selected = Some(len - 1);
                    }
                }
            },
            None => {
                if len > 0 {
                    self.selected = Some(0);
                }
            },
        }
    }
}

/// The entry under the selection, if any.
pub open spec fn selected_entry_of(app: App) -> Option<PortEntry> {
    match app.selected {
        Some(s) => if s < app.filtered_indices@.len() && app.filtered_indices@[s as int]
            < app.entries@.len() {
            Some(app.entries@[app.filtered_indices@[s as int] as int])
        } else {
            None
        },
        None => None,
    }
}

/// The pid of the selected entry's process, if any.
pub open spec fn selected_pid(app: App) -> Option<i32> {
    match selected_entry_of(app) {
        Some(e) => pid_of(e),
        None => None,
    }
}

/// The process whose detail is wanted for the selected entry and not yet
/// cached, if any.
pub open spec fn pending_detail(app: App) -> Option<i32> {
    match selected_pid(app) {
        Some(p) => if app.detail_pid == Some(p) {
            None
        } else {
            Some(p)
        },
        None => None,
    }
}

/// Everything but the selection and the cached detail is the same.
pub open spec fn same_but_selection(a: App, b: App) -> bool {
    &&& a.entries == b.entries
    &&& a.filtered_indices == b.filtered_indices
    &&& a.input_mode == b.input_mode
    &&& a.pane_mode == b.pane_mode
    &&& a.filter_text == b.filter_text
    &&& a.sort_column == b.sort_column
    &&& a.sort_order == b.sort_order
    &&& a.refresh_interval_ms == b.refresh_interval_ms
    &&& a.show_help == b.show_help
    &&& a.confirm_kill == b.confirm_kill
    &&& a.should_quit == b.should_quit
    &&& a.status_message == b.status_message
    &&& a.is_root == b.is_root
}

/// After the selection moved: the cached detail is dropped when it is not
/// for the selected entry's process, and kept otherwise.
pub open spec fn detail_follows(old_app: App, new_app: App) -> bool {
    if selected_pid(new_app) != old_app.detail_pid {
        new_app.detail_cache is None && new_app.detail_pid is None
    } else {
        new_app.detail_cache == old_app.detail_cache && new_app.detail_pid == old_app.detail_pid
    }
}

/// `v` limited to the rows `0 ..= last`.
pub open spec fn clamp_row(v: int, last: int) -> int {
    if v < 0 {
        0
    } else if v > last {
        last
    } else {
        v
    }
}

/// How long a status message stays visible, in milliseconds.
pub open spec fn status_lifetime_ms() -> int {
    5000
}

/// A status message stays visible for five seconds.
pub proof fn lemma_status_lasts_five_seconds()
    ensures
        status_lifetime_ms() == 5000,
{
}

impl App {
    /// A new table over `entries`, sorted by port, ascending, unfiltered,
    /// with the first row selected.
    pub fn new(entries: Vec<PortEntry>, refresh_interval_ms: u64, is_root: bool) -> (app: Self)
        ensures
            app.well_formed(),
            app.entries == entries,
            app.input_mode == InputMode::Normal,
            app.pane_mode == PaneMode::Table,
            app.filter_text@.len() == 0,
            app.sort_column == SortColumn::Port,
            app.sort_order == SortOrder::Ascending,
            app.detail_cache is None,
            app.detail_pid is None,
            app.refresh_interval_ms == refresh_interval_ms,
            !app.show_help,
            app.confirm_kill is None,
            !app.should_quit,
            app.status_message is None,
            app.is_root == is_root,
            app.selected == (if app.filtered_indices@.len() == 0 {
                None
            } else {
                Some(0usize)
            }),
    {
        let mut app = App {
            entries,
            filtered_indices: Vec::new(),
            selected: None,
            input_mode: InputMode::Normal,
            pane_mode: PaneMode::Table,
            filter_text: String::new(),
            sort_column: SortColumn::Port,
            sort_order: SortOrder::Ascending,
            detail_cache: None,
            detail_pid: None,
            refresh_interval_ms,
            show_help: false,
            confirm_kill: None,
            should_quit: false,
            status_message: None,
            is_root,
        };
        app.recompute_view();
        if app.filtered_indices.len() > 0 {
            app.selected = Some(0);
        }
        app
    }

    /// Replaces the entries and recomputes the view.
    pub fn update_entries(&mut self, entries: Vec<PortEntry>)
        ensures
            final(self).well_formed(),
            final(self).entries == entries,
            final(self).filter_text == old(self).filter_text,
            final(self).sort_column == old(self).sort_column,
            final(self).sort_order == old(self).sort_order,
            final(self).selected == reselected(old(self).selected, final(self).filtered_indices@.len()),
            final(self).input_mode == old(self).input_mode,
            final(self).pane_mode == old(self).pane_mode,
            final(self).detail_cache == old(self).detail_cache,
            final(self).detail_pid == old(self).detail_pid,
            final(self).refresh_interval_ms == old(self).refresh_interval_ms,
            final(self).show_help == old(self).show_help,
            final(self).confirm_kill == old(self).confirm_kill,
            final(self).should_quit == old(self).should_quit,
            final(self).status_message == old(self).status_message,
            final(self).is_root == old(self).is_root,
    {
        self.entries = entries;
        self.recompute_view();
    }

    /// The entry under the selection, if any.
    pub fn selected_entry(&self) -> (r: Option<&PortEntry>)
        ensures
            match r {
                Some(e) => selected_entry_of(*self) == Some(*e),
                None => selected_entry_of(*self) is None,
            },
    {
        match self.selected {
            Some(s) => {
                if s < self.filtered_indices.len() {
                    let idx = self.filtered_indices[s];
                    if idx < self.entries.len() {
                        Some(&self.entries[idx])
                    } else {
                        None
                    }
                } else {
                    None
                }
            },
            None => None,
        }
    }

    fn invalidate_detail_if_changed(&mut self)
        ensures
            same_but_selection(*final(self), *old(self)),
            final(self).selected == old(self).selected,
            detail_follows(*old(self), *final(self)),
    {
        let current_pid = match self.selected_entry() {
            Some(e) => e.pid(),
            None => None,
        };
        let same = match (current_pid, self.detail_pid) {
            (Some(a), Some(b)) => a == b,
            (None, None) => true,
            _ => false,
        };
        if !same {
            self.detail_cache = None;
            self.detail_pid = None;
        }
    }

    /// Moves the selection by `delta` rows, staying within the view.
    pub fn move_selection(&mut self, delta: i32)
        requires
            old(self).well_formed(),
            old(self).filtered_indices@.len() <= i32::MAX,
            i32::MIN <= (match old(self).selected {
                Some(s) => s as int,
                None => 0,
            }) + delta <= i32::MAX,
        ensures
            final(self).well_formed(),
            same_but_selection(*final(self), *old(self)),
            old(self).filtered_indices@.len() == 0 ==> *final(self) == *old(self),
            old(self).filtered_indices@.len() > 0 ==> {
                &&& final(self).selected == Some(
                    clamp_row(
                        (match old(self).selected {
                            Some(s) => s as int,
                            None => 0,
                        }) + delta,
                        old(self).filtered_indices@.len() - 1,
                    ) as usize,
                )
                &&& detail_follows(*old(self), *final(self))
            },
    {
        let len = self.filtered_indices.len();
        if len == 0 {
            return;
        }
        let current: i64 = match self.selected {
            Some(s) => s as i64,
            None => 0,
        };
        let max: i64 = len as i64 - 1;
        let mut next: i64 = current + delta as i64;
        if next < 0 {
            next = 0;
        } else if next > max {
            next = max;
        }
        self.selected = Some(next as usize);
        self.invalidate_detail_if_changed();
    }

    /// Selects the first row, if there is one.
    pub fn select_first(&mut self)
        requires
            old(self).well_formed(),
        ensures
            final(self).well_formed(),
            same_but_selection(*final(self), *old(self)),
            old(self).filtered_indices@.len() == 0 ==> *final(self) == *old(self),
            old(self).filtered_indices@.len() > 0 ==> final(self).selected == Some(0usize)
                && detail_follows(*old(self), *final(self)),
    {
        if self.filtered_indices.len() > 0 {
            self.selected = Some(0);
            self.invalidate_detail_if_changed();
        }
    }

    /// Selects the last row, if there is one.
    pub fn select_last(&mut self)
        requires
            old(self).well_formed(),
        ensures
            final(self).well_formed(),
            same_but_selection(*final(self), *old(self)),
            old(self).filtered_indices@.len() == 0 ==> *final(self) == *old(self),
            old(self).filtered_indices@.len() > 0 ==> final(self).selected == Some(
                (old(self).filtered_indices@.len() - 1) as usize,
            ) && detail_follows(*old(self), *final(self)),
    {
        if self.filtered_indices.len() > 0 {
            self.selected = Some(self.filtered_indices.len() - 1);
            self.invalidate_detail_if_changed();
        }
    }

    /// The process whose detail should be loaded for the selected entry: its
    /// pid, when the selected entry has a process and the cached detail is
    /// not already for it.
    pub fn detail_to_load(&self) -> (r: Option<i32>)
        ensures
            r == pending_detail(*self),
    {
        match self.selected_entry() {
            Some(e) => match e.pid() {
                Some(pid) => {
                    let cached = match self.detail_pid {
                        Some(d) => d == pid,
                        None => false,
                    };
                    if cached {
                        None
                    } else {
                        Some(pid)
                    }
                },
                None => None,
            },
            None => None,
        }
    }

    /// Loads the detail of the selected entry's process with `load`, unless
    /// the cached detail is already for it; `load` is given the pid.
    pub fn load_detail_for_selected<F: FnOnce(i32) -> Option<ProcessDetail>>(&mut self, load: F)
        requires
            forall|pid: i32| load.requires((pid,)),
        ensures
            match pending_detail(*old(self)) {
                Some(p) => {
                    &&& same_but_selection(*final(self), *old(self))
                    &&& final(self).selected == old(self).selected
                    &&& final(self).detail_pid == Some(p)
                    &&& load.ensures((p,), final(self).detail_cache)
                },
                None => *final(self) == *old(self),
            },
    {
        match self.detail_to_load() {
            Some(pid) => {
                let detail = load(pid);
                self.store_detail(pid, detail);
            },
            None => {},
        }
    }

    /// Stores the detail loaded for process `pid`.
    pub fn store_detail(&mut self, pid: i32, detail: Option<ProcessDetail>)
        ensures
            same_but_selection(*final(self), *old(self)),
            final(self).selected == old(self).selected,
            final(self).detail_cache == detail,
            final(self).detail_pid == Some(pid),
    {
        self.detail_cache = detail;
        self.detail_pid = Some(pid);
    }

    /// Shows `msg` in the status bar from time `now_ms` on.
    pub fn set_status(&mut self, msg: String, now_ms: u64)
        ensures
            final(self).status_message == Some((msg, now_ms)),
            final(self).entries == old(self).entries,
            final(self).filtered_indices == old(self).filtered_indices,
            final(self).selected == old(self).selected,
            final(self).input_mode == old(self).input_mode,
            final(self).pane_mode == old(self).pane_mode,
            final(self).filter_text == old(self).filter_text,
            final(self).sort_column == old(self).sort_column,
            final(self).sort_order == old(self).sort_order,
            final(self).detail_cache == old(self).detail_cache,
            final(self).detail_pid == old(self).detail_pid,
            final(self).refresh_interval_ms == old(self).refresh_interval_ms,
            final(self).show_help == old(self).show_help,
            final(self).confirm_kill == old(self).confirm_kill,
            final(self).should_quit == old(self).should_quit,
            final(self).is_root == old(self).is_root,
    {
        self.status_message = Some((msg, now_ms));
    }

    /// The status message, while it is younger than five seconds at `now_ms`.
    pub fn status_text(&self, now_ms: u64) -> (r: Option<&str>)
        ensures
            match self.status_message {
                Some((msg, when)) => if now_ms < when || now_ms - when < status_lifetime_ms() {
                    r is Some && r->0@ == msg@
                } else {
                    r is None
                },
                None => r is None,
            },
    {
        match &self.status_message {
            Some((msg, when)) => {
                let elapsed = if now_ms < *when {
                    0
                } else {
                    now_ms - *when
                };
                if elapsed < 5000 {
                    Some(msg.as_str())
                } else {
                    None
                }
            },
            None => None,
        }
    }

    /// The number of rows in the view.
    pub fn entry_count(&self) -> (r: usize)
        ensures
            r == self.filtered_indices@.len(),
    {
        self.filtered_indices.len()
    }

    /// The number of entries.
    pub fn total_count(&self) -> (r: usize)
        ensures
            r == self.entries@.len(),
    {
        self.entries.len()
    }
}

} // verus!
