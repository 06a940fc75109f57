//! Retiring stale targets.
//!
//! Once per tick the reaper deletes every entity — resolved or not — whose
//! bar recurrence lies a full grace period or more in the past of the
//! current audio time, and keeps every entity still inside the grace window.
//! Together with the bounded lookahead of the scheduler this bounds the
//! entity count whether or not the player interacts.

use vstd::prelude::*;
use vstd::arithmetic::mul::lemma_mul_upper_bound;

use crate::grid::AudioContext;
use crate::store::TargetEntity;
use crate::store::TargetStore;

verus! {

/// Absolute time of the bar recurrence entity `e` was materialized for.
pub open spec fn entity_time(bar: int, e: TargetEntity) -> int {
    e.target_bar_time + e.occurrence * bar
}

/// Whether `e`'s recurrence lies `grace_ms` or more in the past of `t`.
pub open spec fn expired(grid: AudioContext, e: TargetEntity, t: u64, grace_ms: u64) -> bool {
    entity_time(grid.bar_millis as int, e) + grace_ms <= t
}

/// Computes the absolute time, in milliseconds, of the bar recurrence entity
/// `e` was materialized for, or `None` where it lies beyond the machine
/// word.
pub fn occurrence_time_ms(grid: &AudioContext, e: &TargetEntity) -> (r: Option<u64>)
    requires
        grid.wf(),
    ensures
        match r {
            Some(v) => v == entity_time(grid.bar_millis as int, *e),
            None => entity_time(grid.bar_millis as int, *e) > u64::MAX,
        },
{
    proof {
        lemma_mul_upper_bound(
            e.occurrence as int,
            u64::MAX as int,
            grid.bar_millis as int,
            u64::MAX as int,
        );
    }
    let recurrence = e.target_bar_time as u128 + (e.occurrence as u128) * (grid.bar_millis as u128);
    if recurrence > u64::MAX as u128 {
        None
    } else {
        Some(recurrence as u64)
    }
}

/// Store contents after the reaper: expired entities are deleted, the rest
/// keep their order.
pub open spec fn reap_spec(grid: AudioContext, s: Seq<TargetEntity>, t: u64, grace_ms: u64) -> Seq<
    TargetEntity,
>
    decreases s.len(),
{
    if s.len() == 0 {
        Seq::empty()
    } else {
        let rest = reap_spec(grid, s.drop_last(), t, grace_ms);
        if expired(grid, s.last(), t, grace_ms) {
            rest
        } else {
            rest.push(s.last())
        }
    }
}

/// An element a sequence contains is still contained after a push, and the
/// pushed element is contained.
pub proof fn lemma_contains_push(s: Seq<TargetEntity>, e: TargetEntity, x: TargetEntity)
    ensures
        s.contains(x) ==> s.push(e).contains(x),
        s.push(e).contains(e),
{
    if s.contains(x) {
        let i = choose|i: int| 0 <= i < s.len() && s[i] == x;
        assert(s.push(e)[i] == x);
    }
    assert(s.push(e)[s.len() as int] == e);
}

/// Every entity the reaper keeps comes, unexpired, from the old table, and
/// every unexpired old entity is kept.
pub proof fn lemma_reap_spec_membership(
    grid: AudioContext,
    s: Seq<TargetEntity>,
    t: u64,
    grace_ms: u64,
)
    ensures
        forall|j: int|
            0 <= j < reap_spec(grid, s, t, grace_ms).len() ==> exists|i: int|
                0 <= i < s.len() && #[trigger] reap_spec(grid, s, t, grace_ms)[j] == s[i]
                    && !expired(grid, s[i], t, grace_ms),
        forall|i: int|
            0 <= i < s.len() && !expired(grid, #[trigger] s[i], t, grace_ms) ==> reap_spec(
                grid,
                s,
                t,
                grace_ms,
            ).contains(s[i]),
    decreases s.len(),
{
    if s.len() > 0 {
        let rest = reap_spec(grid, s.drop_last(), t, grace_ms);
        let result = reap_spec(grid, s, t, grace_ms);
        lemma_reap_spec_membership(grid, s.drop_last(), t, grace_ms);
        assert(forall|i: int| 0 <= i < s.len() - 1 ==> s.drop_last()[i] == #[trigger] s[i]);
        assert forall|j: int| 0 <= j < result.len() implies exists|i: int|
            0 <= i < s.len() && #[trigger] result[j] == s[i] && !expired(grid, s[i], t, grace_ms) by {
            if j < rest.len() {
                let i = choose|i: int|
                    0 <= i < s.drop_last().len() && #[trigger] rest[j] == s.drop_last()[i]
                        && !expired(grid, s.drop_last()[i], t, grace_ms);
                assert(result[j] == s[i] && !expired(grid, s[i], t, grace_ms));
            } else {
                assert(result[j] == s[s.len() - 1] && !expired(grid, s[s.len() - 1], t, grace_ms));
            }
        }
        assert forall|i: int|
            0 <= i < s.len() && !expired(grid, #[trigger] s[i], t, grace_ms) implies result.contains(
            s[i],
        ) by {
            if i < s.len() - 1 {
                assert(rest.contains(s[i]));
                if !expired(grid, s.last(), t, grace_ms) {
                    lemma_contains_push(rest, s.last(), s[i]);
                }
            } else {
                lemma_contains_push(rest, s.last(), s.last());
            }
        }
    }
}

/// The reaper preserves the store's structural invariants: identifiers stay
/// strictly increasing and below the next identifier, no (lane, occurrence)
/// slot is duplicated, and target times stay inside the bar.
pub proof fn lemma_reap_spec_wf(
    grid: AudioContext,
    s: Seq<TargetEntity>,
    t: u64,
    grace_ms: u64,
    next_id: u64,
    bar_millis: u64,
)
    requires
        forall|i: int| 0 <= i < s.len() ==> (#[trigger] s[i]).id < next_id,
        forall|i: int, j: int| 0 <= i < j < s.len() ==> (#[trigger] s[i]).id < (#[trigger] s[j]).id,
        forall|i: int, j: int|
            0 <= i < j < s.len() ==> !(#[trigger] s[i]).same_slot(#[trigger] s[j]),
        forall|i: int| 0 <= i < s.len() ==> (#[trigger] s[i]).target_bar_time < bar_millis,
    ensures
        ({
            let r = reap_spec(grid, s, t, grace_ms);
            &&& forall|i: int| 0 <= i < r.len() ==> (#[trigger] r[i]).id < next_id
            &&& forall|i: int, j: int|
                0 <= i < j < r.len() ==> (#[trigger] r[i]).id < (#[trigger] r[j]).id
            &&& forall|i: int, j: int|
                0 <= i < j < r.len() ==> !(#[trigger] r[i]).same_slot(#[trigger] r[j])
            &&& forall|i: int| 0 <= i < r.len() ==> (#[trigger] r[i]).target_bar_time < bar_millis
        }),
    decreases s.len(),
{
    if s.len() > 0 {
        let rest = reap_spec(grid, s.drop_last(), t, grace_ms);
        let r = reap_spec(grid, s, t, grace_ms);
        assert(forall|i: int| 0 <= i < s.len() - 1 ==> s.drop_last()[i] == #[trigger] s[i]);
        lemma_reap_spec_wf(grid, s.drop_last(), t, grace_ms, next_id, bar_millis);
        lemma_reap_spec_membership(grid, s.drop_last(), t, grace_ms);
        if !expired(grid, s.last(), t, grace_ms) {
            assert forall|a: int| 0 <= a < rest.len() implies (#[trigger] rest[a]).id < s[s.len()
                - 1].id && !rest[a].same_slot(s[s.len() - 1]) by {
                let i = choose|i: int|
                    0 <= i < s.drop_last().len() && #[trigger] rest[a] == s.drop_last()[i]
                        && !expired(grid, s.drop_last()[i], t, grace_ms);
                assert(rest[a] == s[i]);
                assert(s[i].id < s[s.len() - 1].id);
                assert(!s[i].same_slot(s[s.len() - 1]));
            }
        }
    }
}

impl TargetStore {
    /// Deletes every entity — resolved or not — whose recurrence lies
    /// `grace_ms` or more in the past of the audio time `t`, and keeps every
    /// entity still inside the grace window, in order.
    pub fn reap(&mut self, grid: &AudioContext, t: u64, grace_ms: u64)
        requires
            grid.wf(),
            old(self).wf(),
            old(self).bounded(grid.bar_millis),
        ensures
            final(self).wf(),
            final(self).bounded(grid.bar_millis),
            final(self).next_id == old(self).next_id,
            final(self).targets@ == reap_spec(*grid, old(self).targets@, t, grace_ms),
            forall|j: int|
                0 <= j < final(self).targets@.len() ==> !expired(
                    *grid,
                    #[trigger] final(self).targets@[j],
                    t,
                    grace_ms,
                ),
            forall|i: int|
                0 <= i < old(self).targets@.len() && !expired(
                    *grid,
                    #[trigger] old(self).targets@[i],
                    t,
                    grace_ms,
                ) ==> final(self).targets@.contains(old(self).targets@[i]),
    {
        let ghost s = self.targets@;
        let n = self.targets.len();
        let mut kept: Vec<TargetEntity> = Vec::new();
        let mut i: usize = 0;
        while i < n
            invariant
                grid.wf(),
                s == self.targets@,
                n == s.len(),
                i <= n,
                self.bounded(grid.bar_millis),
                kept@ == reap_spec(*grid, s.subrange(0, i as int), t, grace_ms),
            decreases n - i,
        {
            let e = self.targets[i];
            proof {
                assert(s.subrange(0, i + 1 as int).drop_last() =~= s.subrange(0, i as int));
                assert(s.subrange(0, i + 1 as int).last() == s[i as int]);
                lemma_mul_upper_bound(
                    e.occurrence as int,
                    u64::MAX as int,
                    grid.bar_millis as int,
                    u64::MAX as int,
                );
            }
            let recurrence = e.target_bar_time as u128 + (e.occurrence as u128) * (
            grid.bar_millis as u128);
            if recurrence + (grace_ms as u128) > t as u128 {
                kept.push(e);
            }
            i = i + 1;
        }
        proof {
            assert(s.subrange(0, n as int) =~= s);
            lemma_reap_spec_membership(*grid, s, t, grace_ms);
            lemma_reap_spec_wf(*grid, s, t, grace_ms, self.next_id, grid.bar_millis);
        }
        self.targets = kept;
    }
}

} // verus!
