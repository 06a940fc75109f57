//! Lookahead scheduling of future target occurrences.
//!
//! Each configured lane recurs every bar. Once per tick the scheduler walks
//! the lane definitions and, for each lane whose first recurrence strictly
//! after the current audio time lies inside the lookahead window,
//! materializes one entity for that (lane, occurrence) pair — unless some
//! entity already stands for it. Lanes are scheduled independently, so
//! overlapping lookahead windows of different lanes do not interfere, and a
//! second pass at the same time materializes nothing.

use vstd::prelude::*;
use vstd::arithmetic::div_mod::lemma_fundamental_div_mod;
use vstd::arithmetic::div_mod::lemma_mod_bound;
use vstd::arithmetic::mul::lemma_mul_by_zero_is_zero;
use vstd::arithmetic::mul::lemma_mul_is_commutative;
use vstd::arithmetic::mul::lemma_mul_is_distributive_add;

use crate::grid::AudioContext;
use crate::store::has_slot;
use crate::store::TargetEntity;
use crate::store::TargetStore;

verus! {

/// One configured rhythm lane: a bar-relative target time and the input
/// channel that satisfies it. Distinct lanes are scheduled independently.
#[derive(Clone, Copy, Debug)]
pub struct LaneDef {
    /// Offset of the lane's target within one bar, in `[0, bar_millis)`.
    pub target_bar_time: u64,
    /// Input channel (keycode) that satisfies the lane's targets.
    pub input_lane: u32,
}

/// Index of the first recurrence of `tbt` strictly after `t`.
pub open spec fn next_k(bar: int, tbt: int, t: int) -> int
    recommends
        0 < bar,
{
    if tbt > t {
        0
    } else {
        (t - tbt) / bar + 1
    }
}

/// Absolute time of the first recurrence of `tbt` strictly after `t`.
pub open spec fn next_time(bar: int, tbt: int, t: int) -> int
    recommends
        0 < bar,
{
    tbt + next_k(bar, tbt, t) * bar
}

/// Whether the lane's next recurrence lies inside the lookahead window, so
/// that its entity is due to be materialized.
pub open spec fn lane_due(grid: AudioContext, lane: LaneDef, t: u64, lookahead_ms: u64) -> bool {
    next_time(grid.bar_millis as int, lane.target_bar_time as int, t as int) - t < lookahead_ms
}

/// The entity a due lane materializes, under identifier `id`.
pub open spec fn lane_entity(grid: AudioContext, lane: LaneDef, t: u64, id: u64) -> TargetEntity {
    TargetEntity {
        id,
        target_bar_time: lane.target_bar_time,
        input_lane: lane.input_lane,
        occurrence: next_k(grid.bar_millis as int, lane.target_bar_time as int, t as int) as u64,
        resolved: None,
    }
}

/// Store contents and next identifier after one scheduling pass over the
/// lanes in order.
pub open spec fn schedule_spec(
    grid: AudioContext,
    s: Seq<TargetEntity>,
    next_id: int,
    lanes: Seq<LaneDef>,
    t: u64,
    lookahead_ms: u64,
) -> (Seq<TargetEntity>, int)
    decreases lanes.len(),
{
    if lanes.len() == 0 {
        (s, next_id)
    } else {
        let prev = schedule_spec(grid, s, next_id, lanes.drop_last(), t, lookahead_ms);
        let lane = lanes.last();
        let k = next_k(grid.bar_millis as int, lane.target_bar_time as int, t as int) as u64;
        if lane_due(grid, lane, t, lookahead_ms) && !has_slot(
            prev.0,
            lane.target_bar_time,
            lane.input_lane,
            k,
        ) {
            (prev.0.push(lane_entity(grid, lane, t, prev.1 as u64)), prev.1 + 1)
        } else {
            prev
        }
    }
}

/// Computes the first recurrence of `target_bar_time` strictly after the
/// audio time `t`: the pair (recurrence index, its absolute time). The
/// recurrence lies at most one bar past `t`.
pub fn next_occurrence(grid: &AudioContext, target_bar_time: u64, t: u64) -> (r: (u64, u64))
    requires
        grid.wf(),
        target_bar_time < grid.bar_millis,
        t <= u64::MAX - grid.bar_millis,
    ensures
        r.0 == next_k(grid.bar_millis as int, target_bar_time as int, t as int),
        r.1 == next_time(grid.bar_millis as int, target_bar_time as int, t as int),
        t < r.1 <= t + grid.bar_millis,
{
    let bar = grid.bar_millis;
    if target_bar_time > t {
        proof {
            lemma_mul_by_zero_is_zero(bar as int);
        }
        (0, target_bar_time)
    } else {
        let q = (t - target_bar_time) / bar;
        proof {
            lemma_fundamental_div_mod((t - target_bar_time) as int, bar as int);
            lemma_mod_bound((t - target_bar_time) as int, bar as int);
            lemma_mul_is_commutative(bar as int, q as int);
            assert(q * bar <= t - target_bar_time);
            lemma_mul_is_distributive_add(bar as int, q as int, 1);
            lemma_mul_is_commutative(bar as int, q + 1 as int);
            assert((q + 1) * bar == q * bar + bar);
        }
        let k = q + 1;
        let occurrence = target_bar_time + k * bar;
        (k, occurrence)
    }
}

impl TargetStore {
    /// One scheduling pass: walks the lane definitions in order and, for each
    /// lane whose next recurrence lies inside the lookahead window and has no
    /// entity yet, materializes exactly one entity for that (lane,
    /// occurrence) pair. Never creates a second entity for a pair some
    /// entity already stands for.
    pub fn schedule(&mut self, grid: &AudioContext, lanes: &Vec<LaneDef>, t: u64, lookahead_ms: u64)
        requires
            grid.wf(),
            old(self).wf(),
            old(self).bounded(grid.bar_millis),
            t <= u64::MAX - grid.bar_millis,
            forall|i: int|
                0 <= i < lanes@.len() ==> (#[trigger] lanes@[i]).target_bar_time < grid.bar_millis,
            old(self).next_id + lanes@.len() <= u64::MAX,
        ensures
            final(self).wf(),
            final(self).bounded(grid.bar_millis),
            final(self).targets@ == schedule_spec(
                *grid,
                old(self).targets@,
                old(self).next_id as int,
                lanes@,
                t,
                lookahead_ms,
            ).0,
            final(self).next_id == schedule_spec(
                *grid,
                old(self).targets@,
                old(self).next_id as int,
                lanes@,
                t,
                lookahead_ms,
            ).1,
    {
        let ghost orig = self.targets@;
        let ghost orig_nid = self.next_id as int;
        let n = lanes.len();
        let mut i: usize = 0;
        while i < n
            invariant
                grid.wf(),
                self.wf(),
                self.bounded(grid.bar_millis),
                t <= u64::MAX - grid.bar_millis,
                n == lanes@.len(),
                i <= n,
                forall|j: int|
                    0 <= j < lanes@.len() ==> (#[trigger] lanes@[j]).target_bar_time
                        < grid.bar_millis,
                orig_nid + lanes@.len() <= u64::MAX,
                self.next_id <= orig_nid + i,
                self.targets@ == schedule_spec(
                    *grid,
                    orig,
                    orig_nid,
                    lanes@.subrange(0, i as int),
                    t,
                    lookahead_ms,
                ).0,
                self.next_id as int == schedule_spec(
                    *grid,
                    orig,
                    orig_nid,
                    lanes@.subrange(0, i as int),
                    t,
                    lookahead_ms,
                ).1,
            decreases n - i,
        {
            let lane = lanes[i];
            let found = next_occurrence(grid, lane.target_bar_time, t);
            let k = found.0;
            let occurrence = found.1;
            proof {
                assert(lanes@.subrange(0, i + 1 as int).drop_last() =~= lanes@.subrange(
                    0,
                    i as int,
                ));
                assert(lanes@.subrange(0, i + 1 as int).last() == lanes@[i as int]);
            }
            if occurrence - t < lookahead_ms {
                if !self.contains_slot(lane.target_bar_time, lane.input_lane, k) {
                    self.spawn(lane.target_bar_time, lane.input_lane, k);
                }
            }
            i = i + 1;
        }
        proof {
            assert(lanes@.subrange(0, n as int) =~= lanes@);
        }
    }
}

/// Materializing a (lane, occurrence) pair survives appending another
/// entity, and an appended entity materializes its own pair.
pub proof fn lemma_has_slot_push(
    s: Seq<TargetEntity>,
    e: TargetEntity,
    target_bar_time: u64,
    input_lane: u32,
    occurrence: u64,
)
    ensures
        has_slot(s, target_bar_time, input_lane, occurrence) ==> has_slot(
            s.push(e),
            target_bar_time,
            input_lane,
            occurrence,
        ),
        (e.target_bar_time == target_bar_time && e.input_lane == input_lane && e.occurrence
            == occurrence) ==> has_slot(s.push(e), target_bar_time, input_lane, occurrence),
{
    if has_slot(s, target_bar_time, input_lane, occurrence) {
        let i = choose|i: int|
            0 <= i < s.len() && (#[trigger] s[i]).target_bar_time == target_bar_time
                && s[i].input_lane == input_lane && s[i].occurrence == occurrence;
        assert(s.push(e)[i] == s[i]);
    }
    if e.target_bar_time == target_bar_time && e.input_lane == input_lane && e.occurrence
        == occurrence {
        assert(s.push(e)[s.len() as int] == e);
    }
}

/// After one scheduling pass, every due lane has an entity for its next
/// recurrence.
pub proof fn lemma_schedule_covers(
    grid: AudioContext,
    s: Seq<TargetEntity>,
    next_id: int,
    lanes: Seq<LaneDef>,
    t: u64,
    lookahead_ms: u64,
)
    ensures
        forall|li: int|
            0 <= li < lanes.len() && lane_due(grid, #[trigger] lanes[li], t, lookahead_ms)
                ==> has_slot(
                schedule_spec(grid, s, next_id, lanes, t, lookahead_ms).0,
                lanes[li].target_bar_time,
                lanes[li].input_lane,
                next_k(grid.bar_millis as int, lanes[li].target_bar_time as int, t as int) as u64,
            ),
    decreases lanes.len(),
{
    if lanes.len() > 0 {
        lemma_schedule_covers(grid, s, next_id, lanes.drop_last(), t, lookahead_ms);
        let prev = schedule_spec(grid, s, next_id, lanes.drop_last(), t, lookahead_ms);
        let lane = lanes.last();
        let k = next_k(grid.bar_millis as int, lane.target_bar_time as int, t as int) as u64;
        assert forall|li: int|
            0 <= li < lanes.len() && lane_due(grid, #[trigger] lanes[li], t, lookahead_ms)
                implies has_slot(
            schedule_spec(grid, s, next_id, lanes, t, lookahead_ms).0,
            lanes[li].target_bar_time,
            lanes[li].input_lane,
            next_k(grid.bar_millis as int, lanes[li].target_bar_time as int, t as int) as u64,
        ) by {
            let ki = next_k(
                grid.bar_millis as int,
                lanes[li].target_bar_time as int,
                t as int,
            ) as u64;
            if li < lanes.len() - 1 {
                assert(lanes.drop_last()[li] == lanes[li]);
                assert(has_slot(prev.0, lanes[li].target_bar_time, lanes[li].input_lane, ki));
                if lane_due(grid, lane, t, lookahead_ms) && !has_slot(
                    prev.0,
                    lane.target_bar_time,
                    lane.input_lane,
                    k,
                ) {
                    lemma_has_slot_push(
                        prev.0,
                        lane_entity(grid, lane, t, prev.1 as u64),
                        lanes[li].target_bar_time,
                        lanes[li].input_lane,
                        ki,
                    );
                }
            } else {
                if !has_slot(prev.0, lane.target_bar_time, lane.input_lane, k) {
                    lemma_has_slot_push(
                        prev.0,
                        lane_entity(grid, lane, t, prev.1 as u64),
                        lane.target_bar_time,
                        lane.input_lane,
                        k,
                    );
                }
            }
        }
    }
}

/// A scheduling pass over lanes whose due recurrences all have entities
/// already materializes nothing.
pub proof fn lemma_schedule_noop(
    grid: AudioContext,
    s: Seq<TargetEntity>,
    next_id: int,
    lanes: Seq<LaneDef>,
    t: u64,
    lookahead_ms: u64,
)
    requires
        forall|li: int|
            0 <= li < lanes.len() && lane_due(grid, #[trigger] lanes[li], t, lookahead_ms)
                ==> has_slot(
                s,
                lanes[li].target_bar_time,
                lanes[li].input_lane,
                next_k(grid.bar_millis as int, lanes[li].target_bar_time as int, t as int) as u64,
            ),
    ensures
        schedule_spec(grid, s, next_id, lanes, t, lookahead_ms) == (s, next_id),
    decreases lanes.len(),
{
    if lanes.len() > 0 {
        assert(forall|li: int|
            0 <= li < lanes.drop_last().len() ==> lanes.drop_last()[li] == #[trigger] lanes[li]);
        lemma_schedule_noop(grid, s, next_id, lanes.drop_last(), t, lookahead_ms);
        assert(lanes[lanes.len() - 1] == lanes.last());
    }
}

/// The scheduler is idempotent: a second pass at the same audio time, over
/// the same lanes, materializes nothing — so invoking it every tick never
/// creates two entities for the same (lane, occurrence) pair.
pub proof fn lemma_schedule_idempotent(
    grid: AudioContext,
    s: Seq<TargetEntity>,
    next_id: int,
    lanes: Seq<LaneDef>,
    t: u64,
    lookahead_ms: u64,
)
    ensures
        ({
            let once = schedule_spec(grid, s, next_id, lanes, t, lookahead_ms);
            schedule_spec(grid, once.0, once.1, lanes, t, lookahead_ms) == once
        }),
{
    let once = schedule_spec(grid, s, next_id, lanes, t, lookahead_ms);
    lemma_schedule_covers(grid, s, next_id, lanes, t, lookahead_ms);
    lemma_schedule_noop(grid, once.0, once.1, lanes, t, lookahead_ms);
}

} // verus!
