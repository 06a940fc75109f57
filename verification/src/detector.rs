//! Matching keystrokes against unresolved targets.
//!
//! Per key-down event: among the unresolved entities on the event's input
//! lane whose nearest bar recurrence lies within the matching tolerance of
//! the current audio time, the one with the smallest timing error is
//! resolved (ties go to the lowest entity identifier); a keystroke with no
//! such entity is a miss, an expected gameplay outcome that mutates nothing.

use vstd::prelude::*;

use crate::grid::AudioContext;
use crate::hit::judge;
use crate::hit::judgment_of;
use crate::hit::nearest_k;
use crate::hit::nearest_occurrence;
use crate::hit::timing_error;
use crate::hit::JudgmentThresholds;
use crate::store::BarIndex;
use crate::store::HitResult;
use crate::store::TargetEntity;
use crate::store::TargetStore;

verus! {

/// Whether `e` can satisfy a keystroke on `keycode` at audio time `t`:
/// unresolved, on the event's lane, and with its nearest recurrence within
/// the matching tolerance.
pub open spec fn is_candidate(
    grid: AudioContext,
    e: TargetEntity,
    t: u64,
    keycode: u32,
    tolerance_ms: u64,
) -> bool {
    &&& e.resolved is None
    &&& e.input_lane == keycode
    &&& timing_error(grid.bar_millis as int, e.target_bar_time as int, t as int) < tolerance_ms
}

/// Timing error of `e`'s nearest recurrence against audio time `t`.
pub open spec fn candidate_error(grid: AudioContext, e: TargetEntity, t: u64) -> int {
    timing_error(grid.bar_millis as int, e.target_bar_time as int, t as int)
}

/// Index of the candidate a keystroke resolves: the candidate of least
/// timing error, the earliest such (and so, identifiers increasing along the
/// store, the one of lowest entity id); `None` when no entity is within
/// tolerance.
pub open spec fn best_candidate(
    grid: AudioContext,
    s: Seq<TargetEntity>,
    t: u64,
    keycode: u32,
    tolerance_ms: u64,
) -> Option<int>
    decreases s.len(),
{
    if s.len() == 0 {
        None
    } else {
        let prev = best_candidate(grid, s.drop_last(), t, keycode, tolerance_ms);
        let last = s.len() - 1;
        if is_candidate(grid, s[last], t, keycode, tolerance_ms) {
            match prev {
                Option::None => Some(last),
                Option::Some(p) => if candidate_error(grid, s[last], t) < candidate_error(
                    grid,
                    s[p],
                    t,
                ) {
                    Some(last)
                } else {
                    Some(p)
                },
            }
        } else {
            prev
        }
    }
}

impl TargetStore {
    /// Finds the entity a keystroke on `keycode` at audio time `t` resolves,
    /// if any: the unresolved entity on that lane of least timing error
    /// within tolerance, ties broken towards the lowest entity id.
    pub fn detect_hit(&self, grid: &AudioContext, t: u64, keycode: u32, tolerance_ms: u64) -> (r:
        Option<usize>)
        requires
            grid.wf(),
            self.wf(),
            self.bounded(grid.bar_millis),
            t <= u64::MAX - grid.bar_millis,
        ensures
            ({
                let s = self.targets@;
                match r {
                    Option::None => {
                        &&& best_candidate(*grid, s, t, keycode, tolerance_ms) is None
                        &&& forall|j: int|
                            0 <= j < s.len() ==> !is_candidate(
                                *grid,
                                #[trigger] s[j],
                                t,
                                keycode,
                                tolerance_ms,
                            )
                    },
                    Option::Some(idx) => {
                        &&& idx < s.len()
                        &&& best_candidate(*grid, s, t, keycode, tolerance_ms) == Some(idx as int)
                        &&& is_candidate(*grid, s[idx as int], t, keycode, tolerance_ms)
                        &&& forall|j: int|
                            0 <= j < s.len() && is_candidate(
                                *grid,
                                #[trigger] s[j],
                                t,
                                keycode,
                                tolerance_ms,
                            ) ==> candidate_error(*grid, s[idx as int], t) <= candidate_error(
                                *grid,
                                s[j],
                                t,
                            )
                        &&& forall|j: int|
                            0 <= j < s.len() && is_candidate(
                                *grid,
                                #[trigger] s[j],
                                t,
                                keycode,
                                tolerance_ms,
                            ) && candidate_error(*grid, s[j], t) == candidate_error(
                                *grid,
                                s[idx as int],
                                t,
                            ) ==> s[idx as int].id <= s[j].id
                    },
                }
            }),
    {
        let ghost s = self.targets@;
        let n = self.targets.len();
        let mut best: Option<usize> = None;
        let mut best_err: u64 = 0;
        let mut i: usize = 0;
        while i < n
            invariant
                grid.wf(),
                self.wf(),
                self.bounded(grid.bar_millis),
                t <= u64::MAX - grid.bar_millis,
                s == self.targets@,
                n == s.len(),
                i <= n,
                best is None ==> {
                    &&& best_candidate(*grid, s.subrange(0, i as int), t, keycode, tolerance_ms)
                        is None
                    &&& forall|j: int|
                        0 <= j < i ==> !is_candidate(*grid, #[trigger] s[j], t, keycode, tolerance_ms)
                },
                best matches Some(b) ==> {
                    &&& b < i
                    &&& best_candidate(*grid, s.subrange(0, i as int), t, keycode, tolerance_ms)
                        == Some(b as int)
                    &&& is_candidate(*grid, s[b as int], t, keycode, tolerance_ms)
                    &&& best_err == candidate_error(*grid, s[b as int], t)
                    &&& forall|j: int|
                        0 <= j < i && is_candidate(*grid, #[trigger] s[j], t, keycode, tolerance_ms)
                            ==> best_err <= candidate_error(*grid, s[j], t)
                    &&& forall|j: int|
                        0 <= j < i && is_candidate(*grid, #[trigger] s[j], t, keycode, tolerance_ms)
                            && candidate_error(*grid, s[j], t) == best_err ==> b <= j
                },
            decreases n - i,
        {
            let e = self.targets[i];
            let found = nearest_occurrence(grid, e.target_bar_time, t);
            let err = found.2;
            let cand = e.resolved.is_none() && e.input_lane == keycode && err < tolerance_ms;
            proof {
                assert(s.subrange(0, i + 1 as int).drop_last() =~= s.subrange(0, i as int));
                assert(s.subrange(0, i + 1 as int).last() == s[i as int]);
            }
            if cand {
                match best {
                    Option::None => {
                        best = Some(i);
                        best_err = err;
                    },
                    Option::Some(_) => {
                        if err < best_err {
                            best = Some(i);
                            best_err = err;
                        }
                    },
                }
            }
            i = i + 1;
        }
        proof {
            assert(s.subrange(0, n as int) =~= s);
        }
        best
    }
}

/// The hit result recorded when a keystroke at audio time `t` resolves `e`:
/// the nearest recurrence's index, the absolute timing error, and its
/// judgment tier.
pub open spec fn hit_result_of(
    grid: AudioContext,
    e: TargetEntity,
    t: u64,
    thresholds: JudgmentThresholds,
) -> HitResult {
    let err = timing_error(grid.bar_millis as int, e.target_bar_time as int, t as int);
    HitResult {
        occurrence_index: BarIndex(
            nearest_k(grid.bar_millis as int, e.target_bar_time as int, t as int) as u64,
        ),
        error_ms: err as u64,
        judgment: judgment_of(thresholds, err as u64),
    }
}

/// The entity `e` marked resolved with `hit`.
pub open spec fn resolved_with(e: TargetEntity, hit: HitResult) -> TargetEntity {
    TargetEntity { resolved: Some(hit), ..e }
}

/// The store contents after one keystroke on `keycode` at audio time `t`:
/// the best candidate, if any, is marked resolved; a miss changes nothing.
pub open spec fn apply_keydown_spec(
    grid: AudioContext,
    s: Seq<TargetEntity>,
    t: u64,
    keycode: u32,
    tolerance_ms: u64,
    thresholds: JudgmentThresholds,
) -> Seq<TargetEntity> {
    match best_candidate(grid, s, t, keycode, tolerance_ms) {
        Option::None => s,
        Option::Some(p) => s.update(p, resolved_with(s[p], hit_result_of(grid, s[p], t, thresholds))),
    }
}

impl TargetStore {
    /// Resolves the entity matched by one keystroke on `keycode` at audio
    /// time `t`, if any, and reports the recorded hit. At most one entity is
    /// mutated; a miss returns `None` and leaves the store untouched.
    pub fn apply_keydown(
        &mut self,
        grid: &AudioContext,
        t: u64,
        keycode: u32,
        tolerance_ms: u64,
        thresholds: &JudgmentThresholds,
    ) -> (r: Option<HitResult>)
        requires
            grid.wf(),
            old(self).wf(),
            old(self).bounded(grid.bar_millis),
            t <= u64::MAX - grid.bar_millis,
        ensures
            final(self).wf(),
            final(self).bounded(grid.bar_millis),
            final(self).next_id == old(self).next_id,
            final(self).targets@ == apply_keydown_spec(
                *grid,
                old(self).targets@,
                t,
                keycode,
                tolerance_ms,
                *thresholds,
            ),
            ({
                let s = old(self).targets@;
                match best_candidate(*grid, s, t, keycode, tolerance_ms) {
                    Option::None => r is None && final(self).targets@ == s,
                    Option::Some(p) => r == Some(hit_result_of(*grid, s[p], t, *thresholds)),
                }
            }),
    {
        let ghost s = self.targets@;
        let found = self.detect_hit(grid, t, keycode, tolerance_ms);
        match found {
            Option::None => None,
            Option::Some(idx) => {
                let e = self.targets[idx];
                let near = nearest_occurrence(grid, e.target_bar_time, t);
                let hit = HitResult {
                    occurrence_index: BarIndex(near.0),
                    error_ms: near.2,
                    judgment: judge(thresholds, near.2),
                };
                let mut updated = e;
                updated.resolved = Some(hit);
                self.targets[idx] = updated;
                proof {
                    assert(self.targets@ =~= apply_keydown_spec(
                        *grid,
                        s,
                        t,
                        keycode,
                        tolerance_ms,
                        *thresholds,
                    ));
                    assert forall|i: int, j: int|
                        0 <= i < j < self.targets@.len() implies !(
                    #[trigger] self.targets@[i]).same_slot(#[trigger] self.targets@[j]) by {
                        assert(old(self).targets@[i].same_slot(self.targets@[i]));
                        assert(old(self).targets@[j].same_slot(self.targets@[j]));
                    }
                }
                Some(hit)
            },
        }
    }
}

/// One raw key-down event handed in by the input poller, with the poller's
/// own millisecond timestamp. A keycode of `None` stands for a key the
/// platform could not name; such events are ignored.
#[derive(Clone, Copy, Debug)]
pub struct InputEvent {
    /// Timestamp of the event on the input poller's clock, in milliseconds.
    pub timestamp: u32,
    /// Key that went down, as a plain keycode, if the platform named one.
    pub keycode: Option<u32>,
}

/// The per-tick ordered queue of raw key-down events.
#[derive(Debug)]
pub struct InputEvents(pub Vec<InputEvent>);

/// The two control keys read ahead of matching: one requests shutdown, one
/// raises the diagnostic flag for the tick.
#[derive(Clone, Copy, Debug)]
pub struct KeyBindings {
    /// Keycode that requests a cooperative stop of the session loop.
    pub stop_key: u32,
    /// Keycode that raises the per-tick diagnostic flag.
    pub debug_key: u32,
}

impl KeyBindings {
    /// The two control keys are distinct.
    pub open spec fn wf(&self) -> bool {
        self.stop_key != self.debug_key
    }
}

/// What one tick's event queue asked of the session loop.
#[derive(Clone, Copy, Debug, PartialEq, Eq, Structural)]
pub struct TickFlags {
    /// A stop key went down this tick; the loop should end after the tick.
    pub stop: bool,
    /// A diagnostic key went down this tick.
    pub debug: bool,
}

/// The store contents after one event: control keys and unnamed keys match
/// nothing; any other key-down resolves its best candidate, if any.
pub open spec fn apply_event_spec(
    grid: AudioContext,
    s: Seq<TargetEntity>,
    t: u64,
    ev: InputEvent,
    bindings: KeyBindings,
    tolerance_ms: u64,
    thresholds: JudgmentThresholds,
) -> Seq<TargetEntity> {
    match ev.keycode {
        Option::None => s,
        Option::Some(kc) => if kc == bindings.stop_key || kc == bindings.debug_key {
            s
        } else {
            apply_keydown_spec(grid, s, t, kc, tolerance_ms, thresholds)
        },
    }
}

/// The store contents after a queue of events, applied in arrival order.
pub open spec fn apply_events_spec(
    grid: AudioContext,
    s: Seq<TargetEntity>,
    t: u64,
    evs: Seq<InputEvent>,
    bindings: KeyBindings,
    tolerance_ms: u64,
    thresholds: JudgmentThresholds,
) -> Seq<TargetEntity>
    decreases evs.len(),
{
    if evs.len() == 0 {
        s
    } else {
        apply_event_spec(
            grid,
            apply_events_spec(grid, s, t, evs.drop_last(), bindings, tolerance_ms, thresholds),
            t,
            evs.last(),
            bindings,
            tolerance_ms,
            thresholds,
        )
    }
}

/// Whether some event of the queue presses `key`.
pub open spec fn queue_presses(evs: Seq<InputEvent>, key: u32) -> bool {
    exists|i: int| 0 <= i < evs.len() && (#[trigger] evs[i]).keycode == Some(key)
}

impl TargetStore {
    /// Processes one tick's event queue in arrival order against a single
    /// consistent audio time `t`: a stop key only requests shutdown, a
    /// diagnostic key only raises the debug flag, and every other named
    /// key-down resolves at most one target.
    pub fn process_events(
        &mut self,
        grid: &AudioContext,
        t: u64,
        events: &InputEvents,
        bindings: &KeyBindings,
        tolerance_ms: u64,
        thresholds: &JudgmentThresholds,
    ) -> (r: TickFlags)
        requires
            grid.wf(),
            bindings.wf(),
            old(self).wf(),
            old(self).bounded(grid.bar_millis),
            t <= u64::MAX - grid.bar_millis,
        ensures
            final(self).wf(),
            final(self).bounded(grid.bar_millis),
            final(self).next_id == old(self).next_id,
            final(self).targets@ == apply_events_spec(
                *grid,
                old(self).targets@,
                t,
                events.0@,
                *bindings,
                tolerance_ms,
                *thresholds,
            ),
            r.stop == queue_presses(events.0@, bindings.stop_key),
            r.debug == queue_presses(events.0@, bindings.debug_key),
    {
        let ghost orig = self.targets@;
        let ghost evs = events.0@;
        let mut stop = false;
        let mut debug = false;
        let n = events.0.len();
        let mut i: usize = 0;
        while i < n
            invariant
                grid.wf(),
                bindings.wf(),
                self.wf(),
                self.bounded(grid.bar_millis),
                t <= u64::MAX - grid.bar_millis,
                evs == events.0@,
                n == evs.len(),
                i <= n,
                self.next_id == old(self).next_id,
                self.targets@ == apply_events_spec(
                    *grid,
                    orig,
                    t,
                    evs.subrange(0, i as int),
                    *bindings,
                    tolerance_ms,
                    *thresholds,
                ),
                stop == queue_presses(evs.subrange(0, i as int), bindings.stop_key),
                debug == queue_presses(evs.subrange(0, i as int), bindings.debug_key),
            decreases n - i,
        {
            let ev = events.0[i];
            proof {
                assert(evs.subrange(0, i + 1 as int).drop_last() =~= evs.subrange(0, i as int));
                assert(evs.subrange(0, i + 1 as int).last() == evs[i as int]);
            }
            match ev.keycode {
                Option::None => {},
                Option::Some(kc) => {
                    if kc == bindings.stop_key {
                        stop = true;
                    } else if kc == bindings.debug_key {
                        debug = true;
                    } else {
                        let _ = self.apply_keydown(grid, t, kc, tolerance_ms, thresholds);
                    }
                },
            }
            proof {
                if !stop {
                    assert(forall|j: int|
                        0 <= j < i + 1 ==> (#[trigger] evs.subrange(0, i + 1 as int)[j]).keycode
                            != Some(bindings.stop_key));
                }
                if !debug {
                    assert(forall|j: int|
                        0 <= j < i + 1 ==> (#[trigger] evs.subrange(0, i + 1 as int)[j]).keycode
                            != Some(bindings.debug_key));
                }
            }
            i = i + 1;
        }
        proof {
            assert(evs.subrange(0, n as int) =~= evs);
        }
        TickFlags { stop, debug }
    }
}

} // verus!

