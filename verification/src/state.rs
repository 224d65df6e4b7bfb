//! The monitoring state: one rolling record for each endpoint, kept by the single
//! consumer that applies the check results.

use crate::backend::{CheckResult, CheckResultView, CheckStatus};
use crate::config::{endpoint_views, Endpoint};
use crate::model::{
    names_of, tail_window, AppView, EndpointStateView, MAX_LATENCY_HISTORY, MAX_RECENT_CHECKS,
};
use crate::stats::{
    latency_stats_of, lemma_latency_stats_ordered, AvailabilityStats, LatencyStats,
};
use std::collections::VecDeque;
use vstd::hash_map::StringHashMap;
use vstd::prelude::*;

verus! {

/// The values of a sequence of results, in the same order.
pub open spec fn result_views(rs: Seq<CheckResult>) -> Seq<CheckResultView> {
    rs.map_values(|r: CheckResult| r@)
}

/// The values of a sequence of names, in the same order.
pub open spec fn name_views(names: Seq<String>) -> Seq<Seq<char>> {
    names.map_values(|name: String| name@)
}

/// The state of an endpoint
///
/// Keeps track of the latest status and latency, of a bounded history of latencies
/// with its statistics, of how many checks were made and failed, and of a bounded
/// log of the most recent results.
pub struct EndpointState {
    name: String,
    url: String,
    method: String,
    latest_status: Option<CheckStatus>,
    latest_latency: Option<u64>,
    latency_history: VecDeque<u64>,
    latency_stats: LatencyStats,
    number_of_checks: u64,
    number_of_fails: u64,
    recent_checks: VecDeque<CheckResult>,
}

impl View for EndpointState {
    type V = EndpointStateView;

    closed spec fn view(&self) -> EndpointStateView {
        EndpointStateView {
            name: self.name@,
            url: self.url@,
            method: self.method@,
            latest_status: match self.latest_status {
                Some(status) => Some(status@),
                None => None,
            },
            latest_latency: self.latest_latency,
            latency_history: self.latency_history@,
            number_of_checks: self.number_of_checks as nat,
            number_of_fails: self.number_of_fails as nat,
            recent_checks: result_views(self.recent_checks@),
        }
    }
}

impl EndpointState {
    /// Whether the stored statistics are those of the stored history.
    pub closed spec fn stats_are_current(&self) -> bool {
        self.latency_stats == latency_stats_of(self.latency_history@)
    }

    /// What every state that this module hands out satisfies.
    pub open spec fn wf(&self) -> bool {
        &&& self@.wf()
        &&& self@.number_of_checks <= u64::MAX
        &&& self.stats_are_current()
    }

    /// The state of `endpoint` before its first check.
    pub fn new(endpoint: &Endpoint) -> (state: EndpointState)
        ensures
            state.wf(),
            state@ == EndpointStateView::fresh(endpoint@),
    {
        EndpointState {
            name: endpoint.name.clone(),
            url: endpoint.url.clone(),
            method: endpoint.effective_method(),
            latest_status: None,
            latest_latency: None,
            latency_history: VecDeque::new(),
            latency_stats: LatencyStats { min: None, max: None, avg: None },
            number_of_checks: 0,
            number_of_fails: 0,
            recent_checks: VecDeque::new(),
        }
    }

    /// Takes one more result in, whatever endpoint it names.
    pub fn record(&mut self, result: CheckResult)
        requires
            old(self).wf(),
            old(self)@.number_of_checks < u64::MAX,
        ensures
            final(self).wf(),
            final(self)@ == old(self)@.apply(result@),
    {
        self.latest_status = Some(result.status.clone());
        self.latest_latency = Some(result.latency_ms);

        self.latency_history.push_back(result.latency_ms);
        if self.latency_history.len() > MAX_LATENCY_HISTORY {
            self.latency_history.pop_front();
        }
        self.latency_stats = LatencyStats::of(&self.latency_history);

        self.number_of_checks = self.number_of_checks + 1;
        if result.status.is_error() {
            self.number_of_fails = self.number_of_fails + 1;
        }

        let ghost entry = result@;
        let ghost log_before = self.recent_checks@;
        self.recent_checks.push_back(result);
        if self.recent_checks.len() > MAX_RECENT_CHECKS {
            self.recent_checks.pop_front();
        }
        proof {
            assert(result_views(log_before.push(result)) =~= result_views(log_before).push(entry));
            assert(result_views(self.recent_checks@) =~= tail_window(
                result_views(log_before).push(entry),
                MAX_RECENT_CHECKS as nat,
            ));
            assert(final(self)@ =~= old(self)@.apply(entry));
        }
    }

    /// The name of the endpoint.
    pub fn name(&self) -> (name: &str)
        ensures
            name@ == self@.name,
    {
        self.name.as_str()
    }

    /// The address that is checked.
    pub fn url(&self) -> (url: &str)
        ensures
            url@ == self@.url,
    {
        self.url.as_str()
    }

    /// The request method that the endpoint is checked with.
    pub fn method(&self) -> (method: &str)
        ensures
            method@ == self@.method,
    {
        self.method.as_str()
    }

    /// How the latest check ended; `None` before the first.
    pub fn latest_status(&self) -> (status: Option<&CheckStatus>)
        ensures
            match status {
                Some(s) => self@.latest_status == Some(s@),
                None => self@.latest_status is None,
            },
    {
        self.latest_status.as_ref()
    }

    /// The latency of the latest check in milliseconds; `None` before the first.
    pub fn latest_latency(&self) -> (latency: Option<u64>)
        ensures
            latency == self@.latest_latency,
    {
        self.latest_latency
    }

    /// The latencies of the most recent checks in milliseconds, oldest first.
    pub fn latency_history(&self) -> (history: &VecDeque<u64>)
        ensures
            history@ == self@.latency_history,
    {
        &self.latency_history
    }

    /// Least, mean and greatest latency over the current history.
    pub fn latency_stats(&self) -> (stats: LatencyStats)
        requires
            self.wf(),
        ensures
            stats == self@.latency_stats(),
            self@.latency_history.len() > 0 ==> stats.min is Some && stats.avg is Some
                && stats.max is Some && stats.min->0 <= stats.avg->0 <= stats.max->0,
    {
        proof {
            if self@.latency_history.len() > 0 {
                lemma_latency_stats_ordered(self@.latency_history);
            }
        }
        self.latency_stats
    }

    /// How many checks were made, how many of them failed, and the uptime.
    pub fn availability_stats(&self) -> (stats: AvailabilityStats)
        requires
            self.wf(),
        ensures
            stats == self@.availability_stats(),
            stats.number_of_checks == self@.number_of_checks,
            stats.number_of_fails == self@.number_of_fails,
            stats.number_of_fails <= stats.number_of_checks,
            stats.uptime_percent is None <==> stats.number_of_checks == 0,
            stats.uptime_percent matches Some(p) ==> p.denominator == stats.number_of_checks
                && p.numerator == 100 * (stats.number_of_checks - stats.number_of_fails),
    {
        AvailabilityStats::of(self.number_of_checks, self.number_of_fails)
    }

    /// The most recent results, oldest first.
    pub fn recent_checks(&self) -> (log: &VecDeque<CheckResult>)
        ensures
            result_views(log@) == self@.recent_checks,
            log@.len() == self@.recent_checks.len(),
            forall|i: int| 0 <= i < log@.len() ==> (#[trigger] log@[i])@ == self@.recent_checks[i],
    {
        &self.recent_checks
    }
}

/// The whole monitoring state: the endpoints in display order, the state of each
/// one, and the selected row.
pub struct App {
    endpoint_order: Vec<String>,
    /// One state for each distinct endpoint name.
    endpoint_states: Vec<EndpointState>,
    /// For each endpoint name, the place of its state in `endpoint_states`.
    index: StringHashMap<usize>,
    selected: Option<usize>,
}

impl View for App {
    type V = AppView;

    closed spec fn view(&self) -> AppView {
        AppView {
            endpoint_order: name_views(self.endpoint_order@),
            endpoint_states: Map::new(
                |name: Seq<char>| self.index@.contains_key(name),
                |name: Seq<char>| self.endpoint_states@[self.index@[name] as int]@,
            ),
            selected: self.selected,
        }
    }
}

impl App {
    /// Whether the index leads from each name to a state, and from each state back
    /// to its place.
    pub closed spec fn index_is_sound(&self) -> bool {
        &&& forall|name: Seq<char>| #[trigger]
            self.index@.contains_key(name) ==> self.index@[name] < self.endpoint_states@.len()
        &&& forall|i: int|
            0 <= i < self.endpoint_states@.len() ==> {
                &&& (#[trigger] self.endpoint_states@[i]).wf()
                &&& self.index@.contains_key(self.endpoint_states@[i]@.name)
                &&& self.index@[self.endpoint_states@[i]@.name] == i
            }
    }

    /// What every monitoring state that this module hands out satisfies.
    pub open spec fn wf(&self) -> bool {
        &&& self@.wf()
        &&& self.index_is_sound()
    }

    /// The state that monitoring starts in: the endpoints in the order given, each
    /// one not checked yet, no row selected. Where two endpoints share a name, both
    /// stand in the display order and the later one gives the one state.
    pub fn new(endpoints: &Vec<Endpoint>) -> (app: App)
        ensures
            app.wf(),
            app@ == AppView::initial(endpoint_views(endpoints@)),
    {
        let mut app = App {
            endpoint_order: Vec::new(),
            endpoint_states: Vec::new(),
            index: StringHashMap::new(),
            selected: None,
        };
        let ghost all = endpoint_views(endpoints@);
        assert(app@ =~= AppView::initial(all.take(0)));
        let mut k: usize = 0;
        while k < endpoints.len()
            invariant
                k <= endpoints.len(),
                all == endpoint_views(endpoints@),
                app.wf(),
                app@ == AppView::initial(all.take(k as int)),
            decreases endpoints.len() - k,
        {
            let endpoint = &endpoints[k];
            let state = EndpointState::new(endpoint);
            let ghost before = app;
            proof {
                assert(all.take(k + 1).drop_last() =~= all.take(k as int));
                assert(all.take(k + 1).last() == endpoint@);
                assert(names_of(all.take(k + 1)) =~= names_of(all.take(k as int)).push(
                    endpoint@.name,
                ));
            }
            app.endpoint_order.push(endpoint.name.clone());
            match app.index.get(endpoint.name.as_str()) {
                Some(place) => {
                    let place: usize = *place;
                    app.endpoint_states.set(place, state);
                },
                None => {
                    app.index.insert(endpoint.name.clone(), app.endpoint_states.len());
                    app.endpoint_states.push(state);
                },
            }
            proof {
                assert(app@.endpoint_order =~= before@.endpoint_order.push(endpoint@.name));
                assert(app@.endpoint_states =~= before@.endpoint_states.insert(
                    endpoint@.name,
                    state@,
                )) by {
                    assert forall|name: Seq<char>| #[trigger]
                        before.index@.contains_key(name) && name
                        != endpoint@.name implies app@.endpoint_states[name]
                        == before@.endpoint_states[name] by {
                        assert(before@.endpoint_states.contains_key(name));
                        if before.index@.contains_key(endpoint@.name) {
                            assert(before@.endpoint_states.contains_key(endpoint@.name));
                        }
                    }
                }
                assert(app@ =~= AppView::initial(all.take(k + 1)));
            }
            k = k + 1;
        }
        assert(all.take(k as int) =~= all);
        app
    }

    /// Called when a new `CheckResult` is received from the backend to update the
    /// state. The endpoint that the result names takes it in; a result for a name
    /// that no endpoint has changes nothing.
    pub fn on_result(&mut self, result: CheckResult)
        requires
            old(self).wf(),
            old(self)@.has_room(result@.name),
        ensures
            final(self).wf(),
            final(self)@ == old(self)@.apply(result@),
    {
        match self.index.get(result.name.as_str()) {
            Some(place) => {
                let place: usize = *place;
                assert(old(self)@.endpoint_states.contains_key(result@.name));
                self.endpoint_states[place].record(result);
                proof {
                    assert(final(self)@.endpoint_states =~= old(self)@.endpoint_states.insert(
                        result@.name,
                        old(self)@.endpoint_states[result@.name].apply(result@),
                    )) by {
                        assert forall|name: Seq<char>| #[trigger]
                            old(self).index@.contains_key(name) && name
                            != result@.name implies final(self)@.endpoint_states[name]
                            == old(self)@.endpoint_states[name] by {
                            assert(old(self)@.endpoint_states.contains_key(name));
                        }
                    }
                }
            },
            None => {},
        }
    }

    /// Like [`App::on_result`], for a caller that cannot know whether the result can
    /// still be counted: where its endpoint has no room, the result is handed back
    /// and nothing changes.
    pub fn try_on_result(&mut self, result: CheckResult) -> (outcome: Result<(), CheckResult>)
        requires
            old(self).wf(),
        ensures
            final(self).wf(),
            match outcome {
                Ok(_) => old(self)@.has_room(result@.name) && final(self)@ == old(self)@.apply(
                    result@,
                ),
                Err(back) => !old(self)@.has_room(result@.name) && back@ == result@ && final(self)@
                    == old(self)@,
            },
    {
        if self.has_room(result.name.as_str()) {
            self.on_result(result);
            Ok(())
        } else {
            Err(result)
        }
    }

    /// Moves the selection one row on, from the last row to the first. Without a
    /// selection the first row is selected; without rows nothing happens.
    pub fn next_row(&mut self)
        requires
            old(self).wf(),
        ensures
            final(self).wf(),
            final(self)@ == old(self)@.next_row(),
    {
        let rows: usize = self.endpoint_order.len();
        if rows > 0 {
            let next: usize = match self.selected {
                Some(i) => if i >= rows - 1 {
                    0
                } else {
                    i + 1
                },
                None => 0,
            };
            self.selected = Some(next);
        }
    }

    /// Moves the selection one row back, from the first row to the last. Without a
    /// selection the first row is selected; without rows nothing happens.
    pub fn previous_row(&mut self)
        requires
            old(self).wf(),
        ensures
            final(self).wf(),
            final(self)@ == old(self)@.previous_row(),
    {
        let rows: usize = self.endpoint_order.len();
        if rows > 0 {
            let previous: usize = match self.selected {
                Some(i) => if i == 0 {
                    rows - 1
                } else {
                    i - 1
                },
                None => 0,
            };
            self.selected = Some(previous);
        }
    }

    /// The names of the endpoints in display order.
    pub fn endpoint_order(&self) -> (order: &Vec<String>)
        ensures
            name_views(order@) == self@.endpoint_order,
            order@.len() == self@.endpoint_order.len(),
            forall|i: int|
                0 <= i < order@.len() ==> (#[trigger] order@[i])@ == self@.endpoint_order[i],
    {
        &self.endpoint_order
    }

    /// The state of the endpoint called `name`, if there is one.
    pub fn state(&self, name: &str) -> (state: Option<&EndpointState>)
        requires
            self.wf(),
        ensures
            match state {
                Some(s) => self@.endpoint_states.contains_key(name@) && s@
                    == self@.endpoint_states[name@] && s.wf(),
                None => !self@.endpoint_states.contains_key(name@),
            },
    {
        match self.index.get(name) {
            Some(place) => Some(&self.endpoint_states[*place]),
            None => None,
        }
    }

    /// Whether a result for `name` can still be counted; see [`AppView::has_room`].
    pub fn has_room(&self, name: &str) -> (room: bool)
        requires
            self.wf(),
        ensures
            room == self@.has_room(name@),
    {
        match self.index.get(name) {
            Some(place) => self.endpoint_states[*place].number_of_checks < u64::MAX,
            None => true,
        }
    }

    /// The selected place in the display order.
    pub fn selected(&self) -> (selected: Option<usize>)
        ensures
            selected == self@.selected,
    {
        self.selected
    }

    /// The state of the selected endpoint; `None` without a selection.
    pub fn selected_state(&self) -> (state: Option<&EndpointState>)
        requires
            self.wf(),
        ensures
            state is Some <==> self@.selected is Some,
            match state {
                Some(s) => self@.selected_state() == Some(s@) && s.wf(),
                None => self@.selected_state() is None,
            },
    {
        match self.selected {
            Some(i) => {
                assert(self@.endpoint_states.contains_key(self@.endpoint_order[i as int]));
                self.state(self.endpoint_order[i].as_str())
            },
            None => None,
        }
    }
}

} // verus!
