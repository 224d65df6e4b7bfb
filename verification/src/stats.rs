//! Statistics over a window of latency samples, and availability figures.

use std::collections::VecDeque;
use vstd::prelude::*;

verus! {

/// The least sample of a non-empty window.
pub open spec fn min_of(s: Seq<u64>) -> u64
    recommends
        s.len() > 0,
    decreases s.len(),
{
    if s.len() <= 1 {
        s[0]
    } else {
        let rest = min_of(s.drop_last());
        if s.last() < rest {
            s.last()
        } else {
            rest
        }
    }
}

/// The greatest sample of a non-empty window.
pub open spec fn max_of(s: Seq<u64>) -> u64
    recommends
        s.len() > 0,
    decreases s.len(),
{
    if s.len() <= 1 {
        s[0]
    } else {
        let rest = max_of(s.drop_last());
        if s.last() > rest {
            s.last()
        } else {
            rest
        }
    }
}

/// The sum of all samples of a window.
pub open spec fn sum_of(s: Seq<u64>) -> nat
    decreases s.len(),
{
    if s.len() == 0 {
        0
    } else {
        (sum_of(s.drop_last()) + s.last()) as nat
    }
}

/// The mean of a non-empty window in whole milliseconds, rounded down.
pub open spec fn mean_of(s: Seq<u64>) -> nat
    recommends
        s.len() > 0,
{
    (sum_of(s) / s.len()) as nat
}

/// Least, greatest and mean latency of a window, in milliseconds. All three are
/// `None` for an empty window; the mean is rounded down to a whole millisecond.
#[derive(Clone, Copy, Debug, PartialEq, Eq)]
pub struct LatencyStats {
    pub min: Option<u64>,
    pub max: Option<u64>,
    pub avg: Option<u64>,
}

/// The statistics of a window.
pub open spec fn latency_stats_of(s: Seq<u64>) -> LatencyStats {
    if s.len() == 0 {
        LatencyStats { min: None, max: None, avg: None }
    } else {
        LatencyStats { min: Some(min_of(s)), max: Some(max_of(s)), avg: Some(mean_of(s) as u64) }
    }
}

/// The least sample occurs in the window and no sample is below it.
pub proof fn lemma_min_is_least(s: Seq<u64>)
    requires
        s.len() > 0,
    ensures
        s.contains(min_of(s)),
        forall|i: int| 0 <= i < s.len() ==> min_of(s) <= #[trigger] s[i],
    decreases s.len(),
{
    if s.len() > 1 {
        let init = s.drop_last();
        lemma_min_is_least(init);
        let k = choose|k: int| 0 <= k < init.len() && init[k] == min_of(init);
        assert(s[k] == min_of(init));
        assert(s[s.len() - 1] == s.last());
        assert forall|i: int| 0 <= i < s.len() implies min_of(s) <= #[trigger] s[i] by {
            if i < s.len() - 1 {
                assert(init[i] == s[i]);
            }
        }
    } else {
        assert(s[0] == min_of(s));
    }
}

/// The greatest sample occurs in the window and no sample is above it.
pub proof fn lemma_max_is_greatest(s: Seq<u64>)
    requires
        s.len() > 0,
    ensures
        s.contains(max_of(s)),
        forall|i: int| 0 <= i < s.len() ==> #[trigger] s[i] <= max_of(s),
    decreases s.len(),
{
    if s.len() > 1 {
        let init = s.drop_last();
        lemma_max_is_greatest(init);
        let k = choose|k: int| 0 <= k < init.len() && init[k] == max_of(init);
        assert(s[k] == max_of(init));
        assert(s[s.len() - 1] == s.last());
        assert forall|i: int| 0 <= i < s.len() implies #[trigger] s[i] <= max_of(s) by {
            if i < s.len() - 1 {
                assert(init[i] == s[i]);
            }
        }
    } else {
        assert(s[0] == max_of(s));
    }
}

/// The sum of a window lies between its length times its least sample and its
/// length times its greatest sample.
pub proof fn lemma_sum_bounds(s: Seq<u64>)
    requires
        s.len() > 0,
    ensures
        s.len() * min_of(s) <= sum_of(s) <= s.len() * max_of(s),
    decreases s.len(),
{
    if s.len() > 1 {
        let init = s.drop_last();
        lemma_sum_bounds(init);
        let n = init.len() as int;
        let lo = min_of(s) as int;
        let hi = max_of(s) as int;
        let lo0 = min_of(init) as int;
        let hi0 = max_of(init) as int;
        assert(n * lo <= n * lo0) by (nonlinear_arith)
            requires
                n >= 0,
                lo <= lo0,
        ;
        assert(n * hi0 <= n * hi) by (nonlinear_arith)
            requires
                n >= 0,
                hi0 <= hi,
        ;
        assert((n + 1) * lo == n * lo + lo) by (nonlinear_arith);
        assert((n + 1) * hi == n * hi + hi) by (nonlinear_arith);
    } else {
        assert(s.drop_last().len() == 0);
        assert(sum_of(s.drop_last()) == 0);
        assert(sum_of(s) == s[0]);
    }
}

/// Over every non-empty window the mean lies between the least and the greatest
/// sample.
pub proof fn lemma_mean_between_min_and_max(s: Seq<u64>)
    requires
        s.len() > 0,
    ensures
        min_of(s) <= mean_of(s) <= max_of(s),
{
    lemma_sum_bounds(s);
    let n = s.len() as int;
    let total = sum_of(s) as int;
    let lo = min_of(s) as int;
    let hi = max_of(s) as int;
    assert(lo <= total / n <= hi) by (nonlinear_arith)
        requires
            n > 0,
            n * lo <= total <= n * hi,
    ;
}

/// The statistics of a non-empty window are all present and ordered: least, then
/// mean, then greatest.
pub proof fn lemma_latency_stats_ordered(s: Seq<u64>)
    requires
        s.len() > 0,
    ensures
        latency_stats_of(s).min == Some(min_of(s)),
        latency_stats_of(s).max == Some(max_of(s)),
        latency_stats_of(s).avg == Some(mean_of(s) as u64),
        latency_stats_of(s).min->0 <= latency_stats_of(s).avg->0 <= latency_stats_of(s).max->0,
{
    lemma_mean_between_min_and_max(s);
}

impl LatencyStats {
    /// Computes the statistics of a window in one pass.
    pub fn of(window: &VecDeque<u64>) -> (r: LatencyStats)
        ensures
            r == latency_stats_of(window@),
            window@.len() == 0 ==> r.min is None && r.avg is None && r.max is None,
            window@.len() > 0 ==> r.min is Some && r.avg is Some && r.max is Some && r.min->0
                <= r.avg->0 <= r.max->0,
    {
        let n: usize = window.len();
        if n == 0 {
            return LatencyStats { min: None, max: None, avg: None };
        }
        let ghost s = window@;
        let mut lo: u64 = window[0];
        let mut hi: u64 = window[0];
        let mut total: u128 = window[0] as u128;
        let mut i: usize = 1;
        assert(s.take(1).drop_last().len() == 0);
        assert(sum_of(s.take(1).drop_last()) == 0);
        while i < n
            invariant
                s == window@,
                n == s.len(),
                1 <= i <= n,
                lo == min_of(s.take(i as int)),
                hi == max_of(s.take(i as int)),
                total == sum_of(s.take(i as int)),
                total <= i * u64::MAX,
            decreases n - i,
        {
            let x: u64 = window[i];
            assert(s.take(i + 1).drop_last() == s.take(i as int));
            assert(s.take(i + 1).last() == x);
            if x < lo {
                lo = x;
            }
            if x > hi {
                hi = x;
            }
            total = total + x as u128;
            i = i + 1;
        }
        assert(s.take(n as int) == s);
        proof {
            lemma_mean_between_min_and_max(s);
        }
        let mean: u128 = total / (n as u128);
        LatencyStats { min: Some(lo), max: Some(hi), avg: Some(mean as u64) }
    }
}

/// An exact percentage: its value is `numerator / denominator` percent. Two values
/// are `==` only when both parts agree, so compare magnitudes with
/// [`Percent::at_least`].
#[derive(Clone, Copy, Debug, PartialEq, Eq)]
pub struct Percent {
    pub numerator: u128,
    pub denominator: u64,
}

impl Percent {
    /// Whether the percentage is at least `whole` percent.
    pub open spec fn reaches(self, whole: nat) -> bool {
        self.numerator >= whole * self.denominator
    }

    /// Whether the percentage is at least `whole` percent.
    pub fn at_least(&self, whole: u64) -> (b: bool)
        ensures
            b == self.reaches(whole as nat),
    {
        assert(whole * self.denominator <= u64::MAX * u64::MAX) by (nonlinear_arith)
            requires
                whole <= u64::MAX,
                self.denominator <= u64::MAX,
        ;
        self.numerator >= (whole as u128) * (self.denominator as u128)
    }
}

/// The share of checks that did not fail, in percent: `100 * (checks - fails) / checks`,
/// kept exact. There is none before the first check.
pub open spec fn uptime_of(checks: nat, fails: nat) -> Option<Percent> {
    if checks == 0 {
        None
    } else {
        Some(Percent { numerator: (100 * (checks - fails)) as u128, denominator: checks as u64 })
    }
}

/// From this uptime on, in percent, an endpoint counts as healthy.
pub const UPTIME_HEALTHY_PERCENT: u64 = 99;

/// From this uptime on, in percent, an endpoint counts as degraded rather than
/// failing.
pub const UPTIME_DEGRADED_PERCENT: u64 = 90;

/// A coarse reading of an uptime percentage.
#[derive(Clone, Copy, Debug, PartialEq, Eq, Structural)]
pub enum UptimeLevel {
    Healthy,
    Degraded,
    Failing,
}

/// The level of an uptime; an endpoint without any check yet reads as zero percent.
pub open spec fn uptime_level_of(uptime: Option<Percent>) -> UptimeLevel {
    match uptime {
        Some(p) => if p.reaches(UPTIME_HEALTHY_PERCENT as nat) {
            UptimeLevel::Healthy
        } else if p.reaches(UPTIME_DEGRADED_PERCENT as nat) {
            UptimeLevel::Degraded
        } else {
            UptimeLevel::Failing
        },
        None => UptimeLevel::Failing,
    }
}

/// How often an endpoint was checked, how often the check failed, and the uptime
/// that follows from the two.
#[derive(Clone, Copy, Debug, PartialEq, Eq)]
pub struct AvailabilityStats {
    pub number_of_checks: u64,
    pub number_of_fails: u64,
    pub uptime_percent: Option<Percent>,
}

/// The availability figures for the given counts.
pub open spec fn availability_of(checks: nat, fails: nat) -> AvailabilityStats {
    AvailabilityStats {
        number_of_checks: checks as u64,
        number_of_fails: fails as u64,
        uptime_percent: uptime_of(checks, fails),
    }
}

impl AvailabilityStats {
    /// The availability figures for the given counts.
    pub fn of(checks: u64, fails: u64) -> (r: AvailabilityStats)
        requires
            fails <= checks,
        ensures
            r == availability_of(checks as nat, fails as nat),
    {
        let uptime_percent = if checks == 0 {
            None
        } else {
            Some(Percent { numerator: 100 * ((checks - fails) as u128), denominator: checks })
        };
        AvailabilityStats { number_of_checks: checks, number_of_fails: fails, uptime_percent }
    }

    /// The level of the uptime.
    pub fn uptime_level(&self) -> (level: UptimeLevel)
        ensures
            level == uptime_level_of(self.uptime_percent),
    {
        match self.uptime_percent {
            Some(p) => if p.at_least(UPTIME_HEALTHY_PERCENT) {
                UptimeLevel::Healthy
            } else if p.at_least(UPTIME_DEGRADED_PERCENT) {
                UptimeLevel::Degraded
            } else {
                UptimeLevel::Failing
            },
            None => UptimeLevel::Failing,
        }
    }
}

/// An uptime exists exactly once there was a check; it then lies between 0 and 100
/// percent and equals `100 * (checks - fails) / checks`.
pub proof fn lemma_uptime_formula(checks: nat, fails: nat)
    requires
        fails <= checks <= u64::MAX,
    ensures
        checks == 0 <==> uptime_of(checks, fails) is None,
        checks > 0 ==> ({
            let p = uptime_of(checks, fails)->0;
            &&& p.denominator == checks
            &&& p.numerator == 100 * (checks - fails)
            &&& p.numerator <= 100 * p.denominator
        }),
{
}

} // verus!
