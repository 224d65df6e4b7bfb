//! The mathematical model of the monitoring state: what applying a check result
//! means, and what holds of every state that results can lead to.

use crate::backend::{CheckResultView, CheckStatusView};
use crate::config::EndpointView;
use crate::stats::{
    availability_of, latency_stats_of, AvailabilityStats, LatencyStats, Percent,
};
use vstd::prelude::*;

verus! {

/// How many latency samples an endpoint keeps.
pub const MAX_LATENCY_HISTORY: usize = 100;

/// How many check results an endpoint keeps for its log.
pub const MAX_RECENT_CHECKS: usize = 50;

/// The last `cap` items of `s`; all of `s` where it has no more than `cap`.
pub open spec fn tail_window<T>(s: Seq<T>, cap: nat) -> Seq<T> {
    if s.len() <= cap {
        s
    } else {
        s.subrange(s.len() - cap, s.len() as int)
    }
}

/// The latencies of a sequence of results, in the same order.
pub open spec fn latencies_of(rs: Seq<CheckResultView>) -> Seq<u64> {
    rs.map_values(|r: CheckResultView| r.latency_ms)
}

/// The results among `rs` that failed, in the same order.
pub open spec fn failures_in(rs: Seq<CheckResultView>) -> Seq<CheckResultView> {
    rs.filter(|r: CheckResultView| r.status.is_error())
}

/// The results among `rs` that name the endpoint `name`, in the same order.
pub open spec fn results_for(rs: Seq<CheckResultView>, name: Seq<char>) -> Seq<CheckResultView> {
    rs.filter(|r: CheckResultView| r.name == name)
}

/// The mathematical value of the state of one endpoint.
#[verifier::ext_equal]
pub struct EndpointStateView {
    pub name: Seq<char>,
    pub url: Seq<char>,
    pub method: Seq<char>,
    /// How the latest check ended; `None` before the first.
    pub latest_status: Option<CheckStatusView>,
    /// The latency of the latest check in milliseconds; `None` before the first.
    pub latest_latency: Option<u64>,
    /// The latencies of the most recent checks in milliseconds, oldest first.
    pub latency_history: Seq<u64>,
    pub number_of_checks: nat,
    pub number_of_fails: nat,
    /// The most recent results, oldest first.
    pub recent_checks: Seq<CheckResultView>,
}

impl EndpointStateView {
    /// The state of an endpoint that has not been checked yet.
    pub open spec fn fresh(endpoint: EndpointView) -> EndpointStateView {
        EndpointStateView {
            name: endpoint.name,
            url: endpoint.url,
            method: endpoint.effective_method(),
            latest_status: None,
            latest_latency: None,
            latency_history: Seq::empty(),
            number_of_checks: 0,
            number_of_fails: 0,
            recent_checks: Seq::empty(),
        }
    }

    /// What holds of every state. Both windows are within their capacity and are
    /// full exactly once that many checks were made; no more checks failed than
    /// were made; and there is a latest status and a latest latency exactly once
    /// there was a check, which are then those of the newest entries of the windows.
    pub open spec fn wf(self) -> bool {
        &&& self.latency_history.len() <= MAX_LATENCY_HISTORY
        &&& self.recent_checks.len() <= MAX_RECENT_CHECKS
        &&& self.latency_history.len() == if self.number_of_checks <= MAX_LATENCY_HISTORY {
            self.number_of_checks
        } else {
            MAX_LATENCY_HISTORY as nat
        }
        &&& self.recent_checks.len() == if self.number_of_checks <= MAX_RECENT_CHECKS {
            self.number_of_checks
        } else {
            MAX_RECENT_CHECKS as nat
        }
        &&& self.number_of_fails <= self.number_of_checks
        &&& self.latest_status is Some <==> self.number_of_checks > 0
        &&& self.latest_latency is Some <==> self.number_of_checks > 0
        &&& self.number_of_checks > 0 ==> {
            &&& self.latest_latency == Some(self.latency_history.last())
            &&& self.latest_latency == Some(self.recent_checks.last().latency_ms)
            &&& self.latest_status == Some(self.recent_checks.last().status)
        }
    }

    /// The state after one more result. The result becomes the latest; its latency
    /// and the result itself enter the two windows, each of which drops its oldest
    /// item once it is over its capacity; the check is counted, and counted as a
    /// failure if it is one.
    pub open spec fn apply(self, r: CheckResultView) -> EndpointStateView {
        EndpointStateView {
            latest_status: Some(r.status),
            latest_latency: Some(r.latency_ms),
            latency_history: tail_window(
                self.latency_history.push(r.latency_ms),
                MAX_LATENCY_HISTORY as nat,
            ),
            number_of_checks: self.number_of_checks + 1,
            number_of_fails: if r.status.is_error() {
                self.number_of_fails + 1
            } else {
                self.number_of_fails
            },
            recent_checks: tail_window(self.recent_checks.push(r), MAX_RECENT_CHECKS as nat),
            ..self
        }
    }

    /// The state after the results `rs`, applied first to last.
    pub open spec fn apply_all(self, rs: Seq<CheckResultView>) -> EndpointStateView
        decreases rs.len(),
    {
        if rs.len() == 0 {
            self
        } else {
            self.apply_all(rs.drop_last()).apply(rs.last())
        }
    }

    /// Least, mean and greatest latency over the current window.
    pub open spec fn latency_stats(self) -> LatencyStats {
        latency_stats_of(self.latency_history)
    }

    /// The counts of checks and failures, with the uptime that follows from them.
    pub open spec fn availability_stats(self) -> AvailabilityStats {
        availability_of(self.number_of_checks, self.number_of_fails)
    }
}

/// Cutting a window, adding an item and cutting again gives what adding the item
/// and cutting once gives.
pub proof fn lemma_tail_window_push<T>(s: Seq<T>, x: T, cap: nat)
    ensures
        tail_window(tail_window(s, cap).push(x), cap) == tail_window(s.push(x), cap),
        tail_window(s, cap).len() <= cap,
{
    assert(tail_window(tail_window(s, cap).push(x), cap) =~= tail_window(s.push(x), cap));
}

/// A result applied to a state in its bounds leaves it in its bounds.
pub proof fn lemma_apply_preserves_wf(s: EndpointStateView, r: CheckResultView)
    requires
        s.wf(),
    ensures
        s.apply(r).wf(),
{
}

/// Any number of results applied to a state in its bounds leave it in its bounds.
pub proof fn lemma_apply_all_preserves_wf(s: EndpointStateView, rs: Seq<CheckResultView>)
    requires
        s.wf(),
    ensures
        s.apply_all(rs).wf(),
    decreases rs.len(),
{
    if rs.len() > 0 {
        lemma_apply_all_preserves_wf(s, rs.drop_last());
        lemma_apply_preserves_wf(s.apply_all(rs.drop_last()), rs.last());
    }
}

/// Applying results one after the other is applying them all.
pub proof fn lemma_apply_all_push(
    s: EndpointStateView,
    rs: Seq<CheckResultView>,
    r: CheckResultView,
)
    ensures
        s.apply_all(rs.push(r)) == s.apply_all(rs).apply(r),
{
    assert(rs.push(r).drop_last() =~= rs);
}

/// After any results the history never holds more than its capacity, and it holds
/// exactly the most recent samples: the old history followed by the new latencies,
/// cut to the last `MAX_LATENCY_HISTORY`. Once that many samples were seen, the
/// oldest one kept is the one that many places from the end.
pub proof fn lemma_history_keeps_most_recent(s: EndpointStateView, rs: Seq<CheckResultView>)
    requires
        s.latency_history.len() <= MAX_LATENCY_HISTORY,
    ensures
        s.apply_all(rs).latency_history.len() <= MAX_LATENCY_HISTORY,
        s.apply_all(rs).latency_history == tail_window(
            s.latency_history + latencies_of(rs),
            MAX_LATENCY_HISTORY as nat,
        ),
        (s.latency_history + latencies_of(rs)).len() >= MAX_LATENCY_HISTORY ==> {
            let all = s.latency_history + latencies_of(rs);
            &&& s.apply_all(rs).latency_history.len() == MAX_LATENCY_HISTORY
            &&& s.apply_all(rs).latency_history[0] == all[all.len() - MAX_LATENCY_HISTORY]
        },
    decreases rs.len(),
{
    let cap = MAX_LATENCY_HISTORY as nat;
    if rs.len() == 0 {
        assert(s.latency_history + latencies_of(rs) =~= s.latency_history);
    } else {
        let init = rs.drop_last();
        let x = rs.last().latency_ms;
        lemma_history_keeps_most_recent(s, init);
        let before = s.latency_history + latencies_of(init);
        assert(s.latency_history + latencies_of(rs) =~= before.push(x));
        lemma_tail_window_push(before, x, cap);
    }
}

/// After any results the log never holds more than its capacity, and it holds
/// exactly the most recent results: the old log followed by the new results, cut
/// to the last `MAX_RECENT_CHECKS`.
pub proof fn lemma_log_keeps_most_recent(s: EndpointStateView, rs: Seq<CheckResultView>)
    requires
        s.recent_checks.len() <= MAX_RECENT_CHECKS,
    ensures
        s.apply_all(rs).recent_checks.len() <= MAX_RECENT_CHECKS,
        s.apply_all(rs).recent_checks == tail_window(
            s.recent_checks + rs,
            MAX_RECENT_CHECKS as nat,
        ),
    decreases rs.len(),
{
    let cap = MAX_RECENT_CHECKS as nat;
    if rs.len() == 0 {
        assert(s.recent_checks + rs =~= s.recent_checks);
    } else {
        let init = rs.drop_last();
        lemma_log_keeps_most_recent(s, init);
        let before = s.recent_checks + init;
        assert(s.recent_checks + rs =~= before.push(rs.last()));
        lemma_tail_window_push(before, rs.last(), cap);
    }
}

/// Every result is counted once, and every failed one once more as a failure: after
/// the results `rs` the number of checks has grown by the length of `rs` and the
/// number of fails by the number of failures among them. Name, address and method
/// stay; the latest status and latency are those of the last result.
pub proof fn lemma_counts_are_exact(s: EndpointStateView, rs: Seq<CheckResultView>)
    ensures
        s.apply_all(rs).number_of_checks == s.number_of_checks + rs.len(),
        s.apply_all(rs).number_of_fails == s.number_of_fails + failures_in(rs).len(),
        failures_in(rs).len() <= rs.len(),
        s.number_of_fails <= s.number_of_checks ==> s.apply_all(rs).number_of_fails
            <= s.apply_all(rs).number_of_checks,
        s.apply_all(rs).name == s.name,
        s.apply_all(rs).url == s.url,
        s.apply_all(rs).method == s.method,
        rs.len() > 0 ==> s.apply_all(rs).latest_status == Some(rs.last().status),
        rs.len() > 0 ==> s.apply_all(rs).latest_latency == Some(rs.last().latency_ms),
    decreases rs.len(),
{
    reveal(Seq::filter);
    if rs.len() > 0 {
        lemma_counts_are_exact(s, rs.drop_last());
    }
}

/// For an endpoint that starts fresh, the counts are those of the results alone:
/// the number of checks is the number of results and the number of fails the number
/// of failures among them. The uptime is absent while there is no result; then, as
/// long as the counts fit the `u64` that they are reported in, it is
/// `100 * (checks - fails) / checks`.
pub proof fn lemma_fresh_counts(endpoint: EndpointView, rs: Seq<CheckResultView>)
    ensures
        ({
            let t = EndpointStateView::fresh(endpoint).apply_all(rs);
            &&& t.number_of_checks == rs.len()
            &&& t.number_of_fails == failures_in(rs).len()
            &&& t.number_of_fails <= t.number_of_checks
            &&& rs.len() == 0 <==> t.availability_stats().uptime_percent is None
            &&& 0 < rs.len() <= u64::MAX ==> {
                &&& t.availability_stats().number_of_checks == rs.len()
                &&& t.availability_stats().number_of_fails == failures_in(rs).len()
                &&& t.availability_stats().uptime_percent == Some(
                    Percent {
                        numerator: (100 * (rs.len() - failures_in(rs).len())) as u128,
                        denominator: rs.len() as u64,
                    },
                )
                &&& t.availability_stats().uptime_percent->0.numerator == 100 * (rs.len()
                    - failures_in(rs).len())
                &&& t.availability_stats().uptime_percent->0.denominator == rs.len()
            }
        }),
{
    lemma_counts_are_exact(EndpointStateView::fresh(endpoint), rs);
}

/// The mathematical value of the whole monitoring state: the display order, one
/// state for each endpoint name, and the row that is selected, if any.
#[verifier::ext_equal]
pub struct AppView {
    /// The names of the configured endpoints, in display order.
    pub endpoint_order: Seq<Seq<char>>,
    pub endpoint_states: Map<Seq<char>, EndpointStateView>,
    /// The selected place in `endpoint_order`.
    pub selected: Option<usize>,
}

/// The names of the given endpoints, in the same order.
pub open spec fn names_of(endpoints: Seq<EndpointView>) -> Seq<Seq<char>> {
    endpoints.map_values(|e: EndpointView| e.name)
}

impl AppView {
    /// The states that a list of endpoints starts with: a fresh state under each
    /// name. Where two endpoints share a name, the later one gives the state.
    pub open spec fn initial_states(endpoints: Seq<EndpointView>) -> Map<
        Seq<char>,
        EndpointStateView,
    >
        decreases endpoints.len(),
    {
        if endpoints.len() == 0 {
            Map::empty()
        } else {
            Self::initial_states(endpoints.drop_last()).insert(
                endpoints.last().name,
                EndpointStateView::fresh(endpoints.last()),
            )
        }
    }

    /// The state that monitoring starts in: the endpoints in their configured
    /// order, each one fresh, and no row selected.
    pub open spec fn initial(endpoints: Seq<EndpointView>) -> AppView {
        AppView {
            endpoint_order: names_of(endpoints),
            endpoint_states: Self::initial_states(endpoints),
            selected: None,
        }
    }

    /// What holds of every monitoring state: each name of the display order has a
    /// state, each state is within its bounds and is kept under its own name, and a
    /// selection points into the display order.
    pub open spec fn wf(self) -> bool {
        &&& forall|i: int|
            0 <= i < self.endpoint_order.len() ==> self.endpoint_states.contains_key(
                #[trigger] self.endpoint_order[i],
            )
        &&& forall|name: Seq<char>| #[trigger]
            self.endpoint_states.contains_key(name) ==> self.endpoint_states[name].wf()
                && self.endpoint_states[name].name == name
        &&& self.selected matches Some(i) ==> i < self.endpoint_order.len()
    }

    /// Whether a result for `name` can still be counted: the endpoint is unknown, or
    /// its number of checks is below the greatest that a `u64` holds.
    pub open spec fn has_room(self, name: Seq<char>) -> bool {
        self.endpoint_states.contains_key(name) ==> self.endpoint_states[name].number_of_checks
            < u64::MAX
    }

    /// The state after one more result: the state of the endpoint that the result
    /// names takes it in; a result that names no known endpoint changes nothing.
    pub open spec fn apply(self, r: CheckResultView) -> AppView {
        if self.endpoint_states.contains_key(r.name) {
            AppView {
                endpoint_states: self.endpoint_states.insert(
                    r.name,
                    self.endpoint_states[r.name].apply(r),
                ),
                ..self
            }
        } else {
            self
        }
    }

    /// The state after the results `rs`, applied first to last.
    pub open spec fn apply_all(self, rs: Seq<CheckResultView>) -> AppView
        decreases rs.len(),
    {
        if rs.len() == 0 {
            self
        } else {
            self.apply_all(rs.drop_last()).apply(rs.last())
        }
    }

    /// The state after the selection moved one row on: to the first row where there
    /// was no selection or the last row was selected. Without rows nothing changes.
    pub open spec fn next_row(self) -> AppView {
        if self.endpoint_order.len() == 0 {
            self
        } else {
            AppView {
                selected: Some(
                    match self.selected {
                        Some(i) => if i + 1 >= self.endpoint_order.len() {
                            0usize
                        } else {
                            (i + 1) as usize
                        },
                        None => 0usize,
                    },
                ),
                ..self
            }
        }
    }

    /// The state after the selection moved one row back: to the last row where the
    /// first row was selected, to the first row where there was no selection.
    /// Without rows nothing changes.
    pub open spec fn previous_row(self) -> AppView {
        if self.endpoint_order.len() == 0 {
            self
        } else {
            AppView {
                selected: Some(
                    match self.selected {
                        Some(i) => if i == 0 {
                            (self.endpoint_order.len() - 1) as usize
                        } else {
                            (i - 1) as usize
                        },
                        None => 0usize,
                    },
                ),
                ..self
            }
        }
    }

    /// The name of the selected endpoint.
    pub open spec fn selected_name(self) -> Option<Seq<char>> {
        match self.selected {
            Some(i) => if i < self.endpoint_order.len() {
                Some(self.endpoint_order[i as int])
            } else {
                None
            },
            None => None,
        }
    }

    /// The state of the selected endpoint.
    pub open spec fn selected_state(self) -> Option<EndpointStateView> {
        match self.selected_name() {
            Some(name) => if self.endpoint_states.contains_key(name) {
                Some(self.endpoint_states[name])
            } else {
                None
            },
            None => None,
        }
    }
}

/// The initial states hold a state under a name exactly where an endpoint has that
/// name, and each of them is fresh and kept under its own name.
pub proof fn lemma_initial_states(endpoints: Seq<EndpointView>)
    ensures
        forall|name: Seq<char>|
            AppView::initial_states(endpoints).contains_key(name) <==> names_of(
                endpoints,
            ).contains(name),
        forall|name: Seq<char>| #[trigger]
            AppView::initial_states(endpoints).contains_key(name) ==> {
                &&& AppView::initial_states(endpoints)[name].wf()
                &&& AppView::initial_states(endpoints)[name].name == name
                &&& AppView::initial_states(endpoints)[name].number_of_checks == 0
            },
    decreases endpoints.len(),
{
    let states = AppView::initial_states(endpoints);
    let names = names_of(endpoints);
    if endpoints.len() > 0 {
        let init = endpoints.drop_last();
        let last = endpoints.last();
        lemma_initial_states(init);
        assert forall|name: Seq<char>| states.contains_key(name) <==> names.contains(name) by {
            if names.contains(name) {
                let i = choose|i: int| 0 <= i < names.len() && names[i] == name;
                if i < init.len() {
                    assert(names_of(init)[i] == name);
                    assert(names_of(init).contains(name));
                } else {
                    assert(name == last.name);
                }
                assert(states.contains_key(name));
            }
            if states.contains_key(name) {
                if name == last.name {
                    assert(names[endpoints.len() - 1] == name);
                } else {
                    assert(AppView::initial_states(init).contains_key(name));
                    assert(names_of(init).contains(name));
                    let i = choose|i: int|
                        0 <= i < names_of(init).len() && names_of(init)[i] == name;
                    assert(names[i] == name);
                }
                assert(names.contains(name));
            }
        }
        assert forall|name: Seq<char>| #[trigger] states.contains_key(name) implies {
            &&& states[name].wf()
            &&& states[name].name == name
            &&& states[name].number_of_checks == 0
        } by {
            if name != last.name {
                assert(AppView::initial_states(init).contains_key(name));
            }
        }
    } else {
        assert forall|name: Seq<char>| states.contains_key(name) <==> names.contains(name) by {
            if names.contains(name) {
                let i = choose|i: int| 0 <= i < names.len() && names[i] == name;
            }
        }
    }
}

/// The initial state is within its bounds.
pub proof fn lemma_initial_wf(endpoints: Seq<EndpointView>)
    ensures
        AppView::initial(endpoints).wf(),
{
    let a = AppView::initial(endpoints);
    lemma_initial_states(endpoints);
    assert forall|i: int| 0 <= i < a.endpoint_order.len() implies a.endpoint_states.contains_key(
        #[trigger] a.endpoint_order[i],
    ) by {
        assert(names_of(endpoints).contains(a.endpoint_order[i]));
    }
}

/// An endpoint whose name no later endpoint of the list has starts fresh.
pub proof fn lemma_initial_state_is_fresh(endpoints: Seq<EndpointView>, i: int)
    requires
        0 <= i < endpoints.len(),
        forall|j: int| i < j < endpoints.len() ==> endpoints[j].name != endpoints[i].name,
    ensures
        AppView::initial_states(endpoints).contains_key(endpoints[i].name),
        AppView::initial_states(endpoints)[endpoints[i].name] == EndpointStateView::fresh(
            endpoints[i],
        ),
    decreases endpoints.len(),
{
    if i < endpoints.len() - 1 {
        let init = endpoints.drop_last();
        assert(endpoints[endpoints.len() - 1].name != endpoints[i].name);
        assert forall|j: int| i < j < init.len() implies init[j].name != init[i].name by {
            assert(init[j] == endpoints[j]);
        }
        lemma_initial_state_is_fresh(init, i);
    }
}

/// A result applied to a monitoring state in its bounds leaves it in its bounds,
/// with the same display order, the same names and the same selection.
pub proof fn lemma_app_apply_preserves_wf(a: AppView, r: CheckResultView)
    requires
        a.wf(),
    ensures
        a.apply(r).wf(),
        a.apply(r).endpoint_order == a.endpoint_order,
        a.apply(r).selected == a.selected,
        a.apply(r).endpoint_states.dom() == a.endpoint_states.dom(),
{
    let b = a.apply(r);
    assert(b.endpoint_states.dom() =~= a.endpoint_states.dom());
    assert forall|name: Seq<char>| #[trigger]
        b.endpoint_states.contains_key(name) implies b.endpoint_states[name].wf()
        && b.endpoint_states[name].name == name by {
        assert(a.endpoint_states.contains_key(name));
    }
}

/// A result leaves every endpoint that it does not name as it was.
pub proof fn lemma_apply_leaves_other_endpoints(a: AppView, r: CheckResultView, name: Seq<char>)
    requires
        name != r.name,
    ensures
        a.apply(r).endpoint_states.contains_key(name) == a.endpoint_states.contains_key(name),
        a.apply(r).endpoint_states[name] == a.endpoint_states[name],
{
}

/// After any results the state of an endpoint is what the results that name it,
/// taken alone and in their order, make of its old state. Results for other
/// endpoints have no part in it, and neither the display order, the set of names nor
/// the selection changes.
pub proof fn lemma_endpoints_are_independent(a: AppView, rs: Seq<CheckResultView>, name: Seq<char>)
    ensures
        a.apply_all(rs).endpoint_order == a.endpoint_order,
        a.apply_all(rs).selected == a.selected,
        a.apply_all(rs).endpoint_states.dom() == a.endpoint_states.dom(),
        a.endpoint_states.contains_key(name) ==> a.apply_all(rs).endpoint_states[name]
            == a.endpoint_states[name].apply_all(results_for(rs, name)),
    decreases rs.len(),
{
    reveal(Seq::filter);
    if rs.len() > 0 {
        let init = rs.drop_last();
        let r = rs.last();
        lemma_endpoints_are_independent(a, init, name);
        let b = a.apply_all(init);
        assert(b.apply(r).endpoint_states.dom() =~= b.endpoint_states.dom());
        if a.endpoint_states.contains_key(name) && r.name == name {
            lemma_apply_all_push(a.endpoint_states[name], results_for(init, name), r);
        }
    }
}

/// For every endpoint the number of checks grows by exactly the number of results
/// that name it, the number of fails by the number of failures among those, and its
/// history is the old one followed by their latencies, cut to its capacity.
pub proof fn lemma_endpoint_sees_its_own_results(
    a: AppView,
    rs: Seq<CheckResultView>,
    name: Seq<char>,
)
    requires
        a.wf(),
        a.endpoint_states.contains_key(name),
    ensures
        ({
            let own = results_for(rs, name);
            let before = a.endpoint_states[name];
            let after = a.apply_all(rs).endpoint_states[name];
            &&& after.number_of_checks == before.number_of_checks + own.len()
            &&& after.number_of_fails == before.number_of_fails + failures_in(own).len()
            &&& after.number_of_fails <= after.number_of_checks
            &&& after.latency_history.len() <= MAX_LATENCY_HISTORY
            &&& after.latency_history == tail_window(
                before.latency_history + latencies_of(own),
                MAX_LATENCY_HISTORY as nat,
            )
        }),
{
    lemma_endpoints_are_independent(a, rs, name);
    lemma_counts_are_exact(a.endpoint_states[name], results_for(rs, name));
    lemma_history_keeps_most_recent(a.endpoint_states[name], results_for(rs, name));
}

/// Two runs of results that agree on the results for one endpoint, in their order,
/// leave that endpoint in the same state, however many results for other endpoints
/// stand between them in either run.
pub proof fn lemma_interleaving_is_irrelevant(
    a: AppView,
    first: Seq<CheckResultView>,
    second: Seq<CheckResultView>,
    name: Seq<char>,
)
    requires
        a.endpoint_states.contains_key(name),
        results_for(first, name) == results_for(second, name),
    ensures
        a.apply_all(first).endpoint_states[name] == a.apply_all(second).endpoint_states[name],
{
    lemma_endpoints_are_independent(a, first, name);
    lemma_endpoints_are_independent(a, second, name);
}

/// Any number of results applied to a monitoring state in its bounds leave it in
/// its bounds.
pub proof fn lemma_app_apply_all_preserves_wf(a: AppView, rs: Seq<CheckResultView>)
    requires
        a.wf(),
    ensures
        a.apply_all(rs).wf(),
    decreases rs.len(),
{
    if rs.len() > 0 {
        lemma_app_apply_all_preserves_wf(a, rs.drop_last());
        lemma_app_apply_preserves_wf(a.apply_all(rs.drop_last()), rs.last());
    }
}

/// Moving the selection keeps a monitoring state in its bounds and touches nothing
/// but the selection; with at least one row there is a selection afterwards.
pub proof fn lemma_moves_preserve_wf(a: AppView)
    requires
        a.wf(),
    ensures
        a.next_row().wf(),
        a.previous_row().wf(),
        a.next_row().endpoint_order == a.endpoint_order,
        a.next_row().endpoint_states == a.endpoint_states,
        a.previous_row().endpoint_order == a.endpoint_order,
        a.previous_row().endpoint_states == a.endpoint_states,
        a.endpoint_order.len() > 0 ==> a.next_row().selected is Some && a.previous_row().selected
            is Some,
{
}

} // verus!
