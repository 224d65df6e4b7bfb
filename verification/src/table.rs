//! The rows of the summary table: which endpoints are shown, which one is
//! highlighted, and which samples feed each trend.

use crate::model::{tail_window, AppView};
use crate::state::App;
use std::collections::VecDeque;
use vstd::prelude::*;

verus! {

/// How many of the latest samples the trend of a row shows.
pub const SPARKLINE_LENGTH: usize = 10;

/// One row of the summary table.
#[derive(Debug)]
pub struct TableRow {
    /// The place of the endpoint in the display order.
    pub position: usize,
    /// Whether the row is the selected one.
    pub selected: bool,
    /// The latest latencies in milliseconds, oldest first.
    pub trend: Vec<u64>,
}

/// The mathematical value of a [`TableRow`].
pub struct TableRowView {
    pub position: int,
    pub selected: bool,
    pub trend: Seq<u64>,
}

impl View for TableRow {
    type V = TableRowView;

    open spec fn view(&self) -> TableRowView {
        TableRowView {
            position: self.position as int,
            selected: self.selected,
            trend: self.trend@,
        }
    }
}

/// The values of a sequence of rows, in the same order.
pub open spec fn row_views(rows: Seq<TableRow>) -> Seq<TableRowView> {
    rows.map_values(|row: TableRow| row@)
}

/// Whether the endpoint at place `i` of the display order has a row: it has one
/// once a check gave it a status and a latency.
pub open spec fn has_row(app: AppView, i: int) -> bool {
    let name = app.endpoint_order[i];
    &&& app.endpoint_states.contains_key(name)
    &&& app.endpoint_states[name].latest_status is Some
    &&& app.endpoint_states[name].latest_latency is Some
}

/// The row of the endpoint at place `i` of the display order.
pub open spec fn row_at(app: AppView, i: int) -> TableRowView {
    TableRowView {
        position: i,
        selected: app.selected matches Some(s) && s == i,
        trend: tail_window(
            app.endpoint_states[app.endpoint_order[i]].latency_history,
            SPARKLINE_LENGTH as nat,
        ),
    }
}

/// The rows of the first `n` endpoints of the display order, in that order.
pub open spec fn rows_up_to(app: AppView, n: nat) -> Seq<TableRowView>
    decreases n,
{
    if n == 0 {
        Seq::empty()
    } else {
        let before = rows_up_to(app, (n - 1) as nat);
        if has_row(app, n - 1) {
            before.push(row_at(app, n - 1))
        } else {
            before
        }
    }
}

/// The rows of the summary table.
pub open spec fn table_rows_of(app: AppView) -> Seq<TableRowView> {
    rows_up_to(app, app.endpoint_order.len())
}

/// The rows stand in display order, each at most once, and only endpoints that have
/// a row stand among them.
pub proof fn lemma_rows_follow_display_order(app: AppView, n: nat)
    requires
        n <= app.endpoint_order.len(),
    ensures
        rows_up_to(app, n).len() <= n,
        forall|k: int|
            0 <= k < rows_up_to(app, n).len() ==> {
                let row = #[trigger] rows_up_to(app, n)[k];
                &&& 0 <= row.position < n
                &&& has_row(app, row.position)
                &&& row == row_at(app, row.position)
            },
        forall|j: int, k: int|
            0 <= j < k < rows_up_to(app, n).len() ==> rows_up_to(app, n)[j].position < rows_up_to(
                app,
                n,
            )[k].position,
        forall|i: int|
            0 <= i < n && has_row(app, i) ==> exists|k: int|
                0 <= k < rows_up_to(app, n).len() && (#[trigger] rows_up_to(app, n)[k]).position
                    == i,
    decreases n,
{
    if n > 0 {
        let m = (n - 1) as nat;
        lemma_rows_follow_display_order(app, m);
        let before = rows_up_to(app, m);
        let rows = rows_up_to(app, n);
        assert forall|i: int| 0 <= i < n && has_row(app, i) implies exists|k: int|
            0 <= k < rows.len() && (#[trigger] rows[k]).position == i by {
            if i < m {
                let k = choose|k: int|
                    0 <= k < before.len() && (#[trigger] before[k]).position == i;
                assert(rows[k].position == i);
            } else {
                assert(rows[rows.len() - 1].position == i);
            }
        }
    }
}

/// The last `count` samples of a history, oldest first; all of them where the
/// history has no more than `count`.
pub fn latest_samples(history: &VecDeque<u64>, count: usize) -> (samples: Vec<u64>)
    ensures
        samples@ == tail_window(history@, count as nat),
{
    let len: usize = history.len();
    let start: usize = if len <= count {
        0
    } else {
        len - count
    };
    let mut samples: Vec<u64> = Vec::new();
    let mut i: usize = start;
    while i < len
        invariant
            len == history@.len(),
            start <= i <= len,
            samples@ == history@.subrange(start as int, i as int),
        decreases len - i,
    {
        samples.push(history[i]);
        i = i + 1;
    }
    assert(history@.subrange(0, len as int) =~= history@);
    samples
}

impl App {
    /// The rows of the summary table: one for each endpoint of the display order
    /// that has been checked, in that order.
    pub fn table_rows(&self) -> (rows: Vec<TableRow>)
        requires
            self.wf(),
        ensures
            row_views(rows@) == table_rows_of(self@),
            rows@.len() == table_rows_of(self@).len(),
            forall|k: int|
                0 <= k < rows@.len() ==> (#[trigger] rows@[k])@ == table_rows_of(self@)[k],
    {
        let order = self.endpoint_order();
        let selected = self.selected();
        let mut rows: Vec<TableRow> = Vec::new();
        let mut i: usize = 0;
        while i < order.len()
            invariant
                self.wf(),
                crate::state::name_views(order@) == self@.endpoint_order,
                selected == self@.selected,
                i <= order.len(),
                row_views(rows@) == rows_up_to(self@, i as nat),
            decreases order.len() - i,
        {
            let ghost before = rows@;
            assert(self@.endpoint_order[i as int] == order[i as int]@);
            if let Some(state) = self.state(order[i].as_str()) {
                if state.latest_status().is_some() && state.latest_latency().is_some() {
                    let is_selected = match selected {
                        Some(s) => s == i,
                        None => false,
                    };
                    let row = TableRow {
                        position: i,
                        selected: is_selected,
                        trend: latest_samples(state.latency_history(), SPARKLINE_LENGTH),
                    };
                    rows.push(row);
                    assert(row_views(rows@) =~= row_views(before).push(row@));
                }
            }
            i = i + 1;
        }
        assert forall|k: int| 0 <= k < rows@.len() implies (#[trigger] rows@[k])@ == table_rows_of(
            self@,
        )[k] by {
            assert(row_views(rows@)[k] == rows@[k]@);
        }
        rows
    }
}

} // verus!
