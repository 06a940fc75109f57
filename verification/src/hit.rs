//! Nearest-occurrence arithmetic and judgment banding.
//!
//! A target placed at `target_bar_time` inside the bar recurs at
//! `target_bar_time + k * bar_millis` for every `k >= 0`. A keystroke is
//! scored against the recurrence nearest to the current audio time, found by
//! rounding `(t - target_bar_time) / bar_millis` to the nearest integer
//! (clamped at zero), never against the time the target entity was created:
//! once several recurrences are materialized, only the bar-periodic
//! comparison picks the right one.

use vstd::prelude::*;
use vstd::arithmetic::div_mod::lemma_basic_div;
use vstd::arithmetic::div_mod::lemma_div_plus_one;
use vstd::arithmetic::div_mod::lemma_fundamental_div_mod;
use vstd::arithmetic::div_mod::lemma_mod_bound;
use vstd::arithmetic::mul::lemma_mul_by_zero_is_zero;
use vstd::arithmetic::mul::lemma_mul_is_commutative;
use vstd::arithmetic::mul::lemma_mul_is_distributive_add;

use crate::grid::AudioContext;

verus! {

/// Index of the recurrence of `tbt` nearest to time `t`: the rounded
/// quotient `(t - tbt) / bar`, clamped so it is never negative.
pub open spec fn nearest_k(bar: int, tbt: int, t: int) -> int
    recommends
        0 < bar,
{
    ((if t >= tbt {
        t - tbt
    } else {
        0
    }) + bar / 2) / bar
}

/// Absolute time of the recurrence of `tbt` nearest to `t`.
pub open spec fn nearest_time(bar: int, tbt: int, t: int) -> int
    recommends
        0 < bar,
{
    tbt + nearest_k(bar, tbt, t) * bar
}

/// Absolute timing error of a keystroke at `t` against the recurrence of
/// `tbt` nearest to `t`.
pub open spec fn timing_error(bar: int, tbt: int, t: int) -> int
    recommends
        0 < bar,
{
    let occurrence = nearest_time(bar, tbt, t);
    if t >= occurrence {
        t - occurrence
    } else {
        occurrence - t
    }
}

/// Computes the recurrence of `target_bar_time` nearest to the audio time
/// `t`: the triple (recurrence index, its absolute time, absolute timing
/// error). The room of one bar below `u64::MAX` keeps the rounded lookup
/// inside the machine word.
pub fn nearest_occurrence(grid: &AudioContext, target_bar_time: u64, t: u64) -> (r: (u64, u64, u64))
    requires
        grid.wf(),
        target_bar_time < grid.bar_millis,
        t <= u64::MAX - grid.bar_millis,
    ensures
        r.0 == nearest_k(grid.bar_millis as int, target_bar_time as int, t as int),
        r.1 == nearest_time(grid.bar_millis as int, target_bar_time as int, t as int),
        r.2 == timing_error(grid.bar_millis as int, target_bar_time as int, t as int),
{
    let bar = grid.bar_millis;
    let since = if t >= target_bar_time {
        t - target_bar_time
    } else {
        0
    };
    let rounded = since + bar / 2;
    let k = rounded / bar;
    proof {
        lemma_fundamental_div_mod(rounded as int, bar as int);
        lemma_mod_bound(rounded as int, bar as int);
        lemma_mul_is_commutative(bar as int, k as int);
        assert(k * bar <= rounded);
        if t < target_bar_time {
            lemma_basic_div((bar / 2) as int, bar as int);
            assert(k == 0);
            lemma_mul_by_zero_is_zero(bar as int);
            assert(k * bar == 0);
        }
        assert(k * bar + target_bar_time <= u64::MAX);
    }
    let occurrence = k * bar + target_bar_time;
    let error = if t >= occurrence {
        t - occurrence
    } else {
        occurrence - t
    };
    (k, occurrence, error)
}

/// The nearest-occurrence computation is bar-periodic: moving the keystroke
/// one bar later moves the matched recurrence one bar later and leaves the
/// timing error unchanged. This holds for every keystroke that is not more
/// than half a bar before the very first recurrence (there the clamp at
/// recurrence zero breaks the symmetry).
pub proof fn lemma_nearest_periodic(bar: int, tbt: int, t: int)
    requires
        0 < bar,
        0 <= tbt < bar,
        0 <= t,
        tbt <= t + bar / 2,
    ensures
        nearest_k(bar, tbt, t + bar) == nearest_k(bar, tbt, t) + 1,
        nearest_time(bar, tbt, t + bar) == nearest_time(bar, tbt, t) + bar,
        timing_error(bar, tbt, t + bar) == timing_error(bar, tbt, t),
{
    let h = bar / 2;
    lemma_mod_bound(bar, 2);
    if t >= tbt {
        let d = t - tbt;
        lemma_div_plus_one(d + h, bar);
        assert(nearest_k(bar, tbt, t + bar) == nearest_k(bar, tbt, t) + 1);
    } else {
        lemma_basic_div(h, bar);
        assert(nearest_k(bar, tbt, t) == 0);
        let x = t + bar - tbt + h;
        lemma_basic_div(x - bar, bar);
        lemma_div_plus_one(x - bar, bar);
        assert(nearest_k(bar, tbt, t + bar) == 1);
    }
    let k = nearest_k(bar, tbt, t);
    lemma_mul_is_distributive_add(bar, k, 1);
    lemma_mul_is_commutative(bar, k);
    lemma_mul_is_commutative(bar, k + 1);
    assert((k + 1) * bar == k * bar + bar);
}

/// Discrete accuracy tier of a resolved hit.
#[derive(Clone, Copy, Debug, PartialEq, Eq, Structural)]
pub enum Judgment {
    Best,
    Good,
    Fair,
    Poor,
}

/// Ascending error bounds (in milliseconds) of the judgment tiers. The
/// boundaries are session configuration, not a fixed law.
#[derive(Clone, Copy, Debug)]
pub struct JudgmentThresholds {
    /// Largest error still judged `Best`.
    pub best_ms: u64,
    /// Largest error still judged `Good`.
    pub good_ms: u64,
    /// Largest error still judged `Fair`; above it the hit is `Poor`.
    pub fair_ms: u64,
}

impl JudgmentThresholds {
    /// The boundaries ascend.
    pub open spec fn wf(&self) -> bool {
        self.best_ms <= self.good_ms <= self.fair_ms
    }
}

/// Tier of an absolute timing error, bucketed against ascending thresholds.
pub open spec fn judgment_of(thresholds: JudgmentThresholds, error_ms: u64) -> Judgment {
    if error_ms <= thresholds.best_ms {
        Judgment::Best
    } else if error_ms <= thresholds.good_ms {
        Judgment::Good
    } else if error_ms <= thresholds.fair_ms {
        Judgment::Fair
    } else {
        Judgment::Poor
    }
}

/// Buckets an absolute timing error into its judgment tier.
pub fn judge(thresholds: &JudgmentThresholds, error_ms: u64) -> (r: Judgment)
    ensures
        r == judgment_of(*thresholds, error_ms),
{
    if error_ms <= thresholds.best_ms {
        Judgment::Best
    } else if error_ms <= thresholds.good_ms {
        Judgment::Good
    } else if error_ms <= thresholds.fair_ms {
        Judgment::Fair
    } else {
        Judgment::Poor
    }
}

} // verus!
