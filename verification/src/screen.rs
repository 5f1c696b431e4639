//! What the terminal shows for a state and a terminal size: a notice when
//! the terminal is too small, the help page, one widget full screen, or the
//! effective layout; and where the process search box goes. The caller
//! draws with the terminal library.

use vstd::prelude::*;
use crate::layout::mode::{detect_effective_layout, spec_effective_layout, EffectiveLayout};
use crate::state::{widget_label, AppState, FullScreenWidget, InputMode};
use crate::text::{contains_seq, contains_str, lowercase_of, push_char, str_lowercase};
use vstd::string::StrSliceExecFns;

verus! {

/// The smallest terminal the monitor draws in: 40 columns by 8 rows.
pub const MIN_WIDTH: u16 = 40;

/// The smallest terminal height the monitor draws in.
pub const MIN_HEIGHT: u16 = 8;

/// What fills the terminal.
#[derive(Debug, PartialEq, Eq)]
pub enum Screen {
    /// The terminal is below the minimum size: a notice only.
    TooSmall,
    /// The help page.
    Help,
    /// One widget on the whole screen, under the header.
    FullScreen(FullScreenWidget),
    /// The widgets of this layout.
    Layout(EffectiveLayout),
}

/// The screen for a state: too small first, then help, then a fullscreen
/// widget, else the layout the size allows for the chosen mode.
pub open spec fn spec_screen(width: u16, height: u16, s: AppState) -> Screen {
    if width < MIN_WIDTH || height < MIN_HEIGHT {
        Screen::TooSmall
    } else if s.show_help {
        Screen::Help
    } else if s.full_screen_widget != FullScreenWidget::Off {
        Screen::FullScreen(s.full_screen_widget)
    } else {
        Screen::Layout(spec_effective_layout(width as int, height as int, s.layout_mode))
    }
}

/// The screen to draw (see `spec_screen`).
pub fn screen_for(width: u16, height: u16, state: &AppState) -> (r: Screen)
    ensures
        r == spec_screen(width, height, *state),
{
    if width < MIN_WIDTH || height < MIN_HEIGHT {
        Screen::TooSmall
    } else if state.show_help {
        Screen::Help
    } else if state.full_screen_widget != FullScreenWidget::Off {
        Screen::FullScreen(state.full_screen_widget)
    } else {
        Screen::Layout(detect_effective_layout(width, height, state.layout_mode))
    }
}

/// Whether the search box is drawn over a layout: only while searching.
pub fn shows_search_box(screen: &Screen, state: &AppState) -> (r: bool)
    ensures
        r == (screen is Layout && state.input_mode == InputMode::Searching),
{
    match screen {
        Screen::Layout(_) => state.input_mode == InputMode::Searching,
        _ => false,
    }
}

/// The search box: `(x, y, width, height)`, 40 columns by 3 rows centred
/// horizontally, just above the middle, clipped to the terminal.
pub fn search_box_area(width: u16, height: u16) -> (r: (u16, u16, u16, u16))
    ensures
        r.0 == (if width >= 40 { (width - 40) / 2 } else { 0 }),
        r.1 == (if height >= 5 { (height - 5) / 2 } else { 0 }),
        r.2 == (if width < 40 { width } else { 40 }),
        r.3 == (if height < 3 { height } else { 3 }),
{
    let x = width.saturating_sub(40) / 2;
    let y = height.saturating_sub(5) / 2;
    let w = if width < 40 { width } else { 40 };
    let h = if height < 3 { height } else { 3 };
    (x, y, w, h)
}

/// The text of the search box: `/`, the query and a cursor `_`.
pub fn search_box_text(query: &str) -> (r: String)
    ensures
        r@ == seq!['/'] + query@ + seq!['_'],
{
    let mut r = String::new();
    push_char(&mut r, '/');
    r.append(query);
    push_char(&mut r, '_');
    proof {
        assert(r@ =~= seq!['/'] + query@ + seq!['_']) by {
            reveal_strlit("");
        }
    }
    r
}

/// The title of the process table: `Processes`, with the search filter
/// when one is set.
pub fn process_list_title(query: &str) -> (r: String)
    ensures
        r@ == if query@.len() == 0 {
            "Processes"@
        } else {
            "Processes (filter: "@ + query@ + ")"@
        },
{
    if query.unicode_len() == 0 {
        "Processes".to_string()
    } else {
        let mut r = "Processes (filter: ".to_string();
        r.append(query);
        r.append(")");
        r
    }
}

/// Whether the process table shows a process: every process without a
/// filter, else those whose name contains the filter, ignoring case.
pub fn process_shown(name: &str, query: &str) -> (r: bool)
    ensures
        r == (query@.len() == 0 || contains_seq(str_lowercase(name@), str_lowercase(query@))),
{
    if query.unicode_len() == 0 {
        return true;
    }
    let n = lowercase_of(name);
    let q = lowercase_of(query);
    contains_str(n.as_str(), q.as_str())
}

/// The host shown in the header: the host name, or `xtop` when unknown.
pub fn host_label(host: &str) -> (r: String)
    ensures
        r@ == if host@.len() == 0 { "xtop"@ } else { host@ },
{
    if host.unicode_len() == 0 {
        "xtop".to_string()
    } else {
        host.to_string()
    }
}

/// The notes at the end of the header: the fullscreen widget and the
/// search mode, when active.
pub fn header_extras(state: &AppState) -> (r: String)
    ensures
        r@ == (if state.full_screen_widget != FullScreenWidget::Off {
            " [Full: "@ + widget_label(state.full_screen_widget) + "]"@
        } else {
            Seq::empty()
        }) + (if state.input_mode == InputMode::Searching { " [/] Search"@ } else { Seq::empty() }),
{
    let mut r = String::new();
    if state.full_screen_widget != FullScreenWidget::Off {
        r.append(" [Full: ");
        r.append(state.full_screen_widget.label());
        r.append("]");
    }
    let ghost first = r@;
    if state.input_mode == InputMode::Searching {
        r.append(" [/] Search");
    }
    proof {
        reveal_strlit("");
        assert(r@ =~= first + (if state.input_mode == InputMode::Searching { " [/] Search"@ } else {
            Seq::empty()
        }));
    }
    r
}

/// How many processes the process table lists at most.
pub const MAX_SHOWN_PROCESSES: usize = 50;

/// Whether the process table shows a process with this name (see
/// `process_shown`).
pub open spec fn shown_by(name: Seq<char>, query: Seq<char>) -> bool {
    query.len() == 0 || contains_seq(str_lowercase(name), str_lowercase(query))
}

/// The indices of the processes the filter keeps, in order.
pub open spec fn matching_rows(names: Seq<Seq<char>>, query: Seq<char>) -> Seq<int>
    decreases names.len(),
{
    if names.len() == 0 {
        Seq::empty()
    } else {
        matching_rows(names.drop_last(), query) + if shown_by(names.last(), query) {
            seq![names.len() - 1]
        } else {
            Seq::empty()
        }
    }
}

/// The rows of the process table: the first `MAX_SHOWN_PROCESSES` (or
/// fewer) processes the filter keeps, in order.
pub open spec fn spec_shown_rows(names: Seq<Seq<char>>, query: Seq<char>) -> Seq<int> {
    let m = matching_rows(names, query);
    if m.len() <= MAX_SHOWN_PROCESSES {
        m
    } else {
        m.take(MAX_SHOWN_PROCESSES as int)
    }
}

/// The indices of the processes the table lists (see `spec_shown_rows`),
/// for processes sorted as the table shows them.
pub fn shown_process_rows(names: &Vec<String>, query: &str) -> (r: Vec<usize>)
    ensures
        r@.map_values(|i: usize| i as int) == spec_shown_rows(names@.map_values(|s: String| s@), query@),
{
    let ghost all = names@.map_values(|s: String| s@);
    let mut r: Vec<usize> = Vec::new();
    for i in 0..names.len()
        invariant
            all == names@.map_values(|s: String| s@),
            r@.map_values(|j: usize| j as int) == spec_shown_rows(all.take(i as int), query@),
    {
        let ghost before = r@;
        proof {
            assert(all.take(i + 1).drop_last() =~= all.take(i as int));
            assert(all.take(i + 1).last() == names@[i as int]@);
        }
        if r.len() < MAX_SHOWN_PROCESSES && process_shown(names[i].as_str(), query) {
            r.push(i);
            proof {
                assert(r@.map_values(|j: usize| j as int) =~= before.map_values(|j: usize| j as int).push(i as int));
            }
        }
        proof {
            let m0 = matching_rows(all.take(i as int), query@);
            let m1 = matching_rows(all.take(i + 1), query@);
            if m0.len() > MAX_SHOWN_PROCESSES {
                assert(m1.take(MAX_SHOWN_PROCESSES as int) =~= m0.take(MAX_SHOWN_PROCESSES as int));
            } else if m0.len() == MAX_SHOWN_PROCESSES {
                assert(m1.take(MAX_SHOWN_PROCESSES as int) =~= m0);
            }
        }
    }
    proof {
        assert(all.take(names@.len() as int) =~= all);
    }
    r
}

/// How the CPU panel lays out its per-core gauges: one or two columns, and
/// how many gauges each column holds.
#[derive(Clone, Copy, Debug, PartialEq, Eq)]
pub struct CpuGrid {
    pub cols: usize,
    pub per_col: usize,
}

/// The CPU panel's grid: two columns when the panel's inside is wider than
/// 40 cells, else one; `count` gauges spread over them, the columns filled
/// in turn with `count / cols` rounded up.
pub fn cpu_grid(inner_width: u16, count: usize) -> (g: CpuGrid)
    ensures
        g.cols == if inner_width > 40 { 2usize } else { 1usize },
        g.per_col == (count + g.cols - 1) / (g.cols as int),
{
    let cols: usize = if inner_width > 40 { 2 } else { 1 };
    let per_col = if cols == 2 { count / 2 + count % 2 } else { count };
    proof {
        if cols == 2 {
            assert(count / 2 + count % 2 == (count + 1) / 2) by (nonlinear_arith);
        }
    }
    CpuGrid { cols, per_col }
}

/// The gauges of column `col`: from `col * per_col` up to the next
/// column's start or the last core.
pub fn cpu_column(g: CpuGrid, count: usize, col: usize) -> (r: (usize, usize))
    requires
        col < g.cols <= 2,
        g.per_col <= count,
    ensures
        r.0 == col * g.per_col,
        r.1 == if col * g.per_col + g.per_col < count { col * g.per_col + g.per_col } else { count as int },
{
    let start = if col == 0 { 0 } else { g.per_col };
    proof {
        if col == 0 {
            assert(col * g.per_col == 0) by (nonlinear_arith)
                requires
                    col == 0,
            ;
        } else {
            assert(col * g.per_col == g.per_col) by (nonlinear_arith)
                requires
                    col == 1,
            ;
        }
    }
    let end = if g.per_col < count - start { start + g.per_col } else { count };
    (start, end)
}

/// The palette entry of a core's gauge: entry 1 when it is over the alert
/// threshold, else one of entries 1 to 6 by core id.
pub fn core_color_index(cpu_id: usize, alert: bool) -> (r: usize)
    ensures
        r == if alert { 1 } else { 1 + cpu_id % 6 },
        1 <= r <= 6,
{
    if alert {
        1
    } else {
        1 + cpu_id % 6
    }
}

/// The rows the filter keeps are, in increasing order, exactly the
/// processes whose lower-cased name contains the lower-cased query (every
/// process for an empty query).
proof fn lemma_matching_rows(names: Seq<Seq<char>>, query: Seq<char>)
    ensures
        forall|j: int| 0 <= j < matching_rows(names, query).len() ==> 0 <= #[trigger] matching_rows(names, query)[j]
            < names.len(),
        forall|j: int, l: int|
            0 <= j < l < matching_rows(names, query).len() ==> #[trigger] matching_rows(names, query)[j]
                < #[trigger] matching_rows(names, query)[l],
        forall|i: int| 0 <= i < names.len() ==> (matching_rows(names, query).contains(i) <==> shown_by(#[trigger] names[i], query)),
    decreases names.len(),
{
    if names.len() > 0 {
        let prev = names.drop_last();
        lemma_matching_rows(prev, query);
        let m0 = matching_rows(prev, query);
        let m = matching_rows(names, query);
        let last = names.len() - 1;
        if shown_by(names.last(), query) {
            assert(m == m0.push(last));
        } else {
            assert(m =~= m0);
        }
        assert forall|i: int| 0 <= i < names.len() implies (m.contains(i) <==> shown_by(#[trigger] names[i], query)) by {
            if i < last {
                assert(prev[i] == names[i]);
                if m.contains(i) {
                    let j = choose|j: int| 0 <= j < m.len() && m[j] == i;
                    if j < m0.len() {
                        assert(m0[j] == i);
                    }
                }
                if m0.contains(i) {
                    let j = choose|j: int| 0 <= j < m0.len() && m0[j] == i;
                    assert(m[j] == i);
                }
            } else {
                assert(names.last() == names[i]);
                if shown_by(names.last(), query) {
                    assert(m[m0.len() as int] == i);
                } else {
                    if m.contains(i) {
                        let j = choose|j: int| 0 <= j < m.len() && m[j] == i;
                        assert(m0[j] < prev.len());
                    }
                }
            }
        }
    }
}

/// The process table lists, in order, only processes whose lower-cased
/// name contains the lower-cased query (any process for an empty query),
/// at most `MAX_SHOWN_PROCESSES` of them.
pub proof fn lemma_shown_rows_match(names: Seq<Seq<char>>, query: Seq<char>)
    ensures
        spec_shown_rows(names, query).len() <= MAX_SHOWN_PROCESSES,
        forall|j: int|
            0 <= j < spec_shown_rows(names, query).len() ==> 0 <= #[trigger] spec_shown_rows(names, query)[j] < names.len()
                && (query.len() == 0 || contains_seq(str_lowercase(names[spec_shown_rows(names, query)[j]]), str_lowercase(query))),
        forall|j: int, l: int|
            0 <= j < l < spec_shown_rows(names, query).len() ==> #[trigger] spec_shown_rows(names, query)[j]
                < #[trigger] spec_shown_rows(names, query)[l],
{
    lemma_matching_rows(names, query);
    let m = matching_rows(names, query);
    let r = spec_shown_rows(names, query);
    assert forall|j: int| 0 <= j < r.len() implies #[trigger] r[j] == m[j] by {}
    assert forall|j: int| 0 <= j < r.len() implies 0 <= #[trigger] r[j] < names.len() && shown_by(names[r[j]], query) by {
        assert(r[j] == m[j]);
        assert(m.contains(m[j]));
    }
}

/// No matching process is left out of the process table before its last
/// row, nor at all while the table holds fewer than `MAX_SHOWN_PROCESSES`
/// rows.
pub proof fn lemma_matching_process_listed(names: Seq<Seq<char>>, query: Seq<char>, i: int)
    requires
        0 <= i < names.len(),
        query.len() == 0 || contains_seq(str_lowercase(names[i]), str_lowercase(query)),
        spec_shown_rows(names, query).len() < MAX_SHOWN_PROCESSES || (spec_shown_rows(names, query).len() > 0 && i
            < spec_shown_rows(names, query).last()),
    ensures
        spec_shown_rows(names, query).contains(i),
{
    lemma_matching_rows(names, query);
    let m = matching_rows(names, query);
    let r = spec_shown_rows(names, query);
    assert(shown_by(names[i], query));
    assert(m.contains(i));
    let j = choose|j: int| 0 <= j < m.len() && m[j] == i;
    if j >= r.len() {
        assert(r.len() == MAX_SHOWN_PROCESSES);
        assert(r.last() == m[r.len() - 1]);
        assert(m[r.len() - 1] < m[j]);
    } else {
        assert(r[j] == m[j]);
    }
}

} // verus!
