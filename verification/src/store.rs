//! Target entities and the arena that owns them.
//!
//! Target entities are owned exclusively by the store; other components refer
//! to them only through their stable integer identifier. The store keeps
//! entities in creation order, so identifiers are strictly increasing along
//! the table, and no two entities ever occupy the same
//! `(target_bar_time, input_lane, occurrence)` slot.

use vstd::prelude::*;

use crate::hit::Judgment;

verus! {

/// Index of one concrete bar recurrence of a bar-relative target time.
#[derive(Clone, Copy, Debug, PartialEq, Eq, Structural)]
pub struct BarIndex(pub u64);

/// Marker for entities that take part in rhythm matching.
#[derive(Clone, Copy, Debug, Default)]
pub struct RhythmCombo;

/// Outcome of a resolved target: which bar recurrence was matched, with what
/// absolute timing error, and in which accuracy tier.
#[derive(Clone, Copy, Debug, PartialEq, Eq, Structural)]
pub struct HitResult {
    /// The bar recurrence the keystroke was matched against.
    pub occurrence_index: BarIndex,
    /// Absolute timing error of the keystroke, in milliseconds.
    pub error_ms: u64,
    /// Accuracy tier of the hit.
    pub judgment: Judgment,
}

/// One upcoming rhythmic event a player must respond to.
#[derive(Clone, Copy, Debug)]
pub struct TargetEntity {
    /// Stable identifier, unique within the store.
    pub id: u64,
    /// Offset of the target within one bar, in `[0, bar_millis)`.
    pub target_bar_time: u64,
    /// Input channel (keycode) that satisfies this target.
    pub input_lane: u32,
    /// The bar recurrence this entity was materialized for.
    pub occurrence: u64,
    /// Present once the target is hit; an inert target cannot be re-hit.
    pub resolved: Option<HitResult>,
}

impl TargetEntity {
    /// Whether two entities stand for the same (lane, occurrence) pair.
    pub open spec fn same_slot(self, other: TargetEntity) -> bool {
        &&& self.target_bar_time == other.target_bar_time
        &&& self.input_lane == other.input_lane
        &&& self.occurrence == other.occurrence
    }
}

/// Whether some entity of `s` stands for the (lane, occurrence) pair given by
/// `target_bar_time`, `input_lane` and `occurrence`.
pub open spec fn has_slot(s: Seq<TargetEntity>, target_bar_time: u64, input_lane: u32, occurrence: u64) -> bool {
    exists|i: int|
        0 <= i < s.len() && (#[trigger] s[i]).target_bar_time == target_bar_time
            && s[i].input_lane == input_lane && s[i].occurrence == occurrence
}

/// Arena of target entities with stable, strictly increasing identifiers.
pub struct TargetStore {
    /// The entities, in creation order.
    pub targets: Vec<TargetEntity>,
    /// Identifier handed to the next created entity.
    pub next_id: u64,
}

impl TargetStore {
    /// Structural invariant: identifiers grow along the table and stay below
    /// `next_id`, and no two entities occupy the same (lane, occurrence)
    /// slot.
    pub open spec fn wf(&self) -> bool {
        &&& forall|i: int|
            0 <= i < self.targets@.len() ==> (#[trigger] self.targets@[i]).id < self.next_id
        &&& forall|i: int, j: int|
            0 <= i < j < self.targets@.len() ==> (#[trigger] self.targets@[i]).id < (
            #[trigger] self.targets@[j]).id
        &&& forall|i: int, j: int|
            0 <= i < j < self.targets@.len() ==> !(#[trigger] self.targets@[i]).same_slot(
                #[trigger] self.targets@[j])
    }

    /// All bar-relative target times lie inside one bar of `bar_millis`.
    pub open spec fn bounded(&self, bar_millis: u64) -> bool {
        forall|i: int|
            0 <= i < self.targets@.len() ==> (#[trigger] self.targets@[i]).target_bar_time
                < bar_millis
    }

    /// An empty store.
    pub fn new() -> (r: TargetStore)
        ensures
            r.wf(),
            r.targets@.len() == 0,
            r.next_id == 0,
    {
        TargetStore { targets: Vec::new(), next_id: 0 }
    }

    /// Materializes one entity for a (lane, occurrence) pair that no existing
    /// entity stands for, appending it with the next free identifier.
    pub fn spawn(&mut self, target_bar_time: u64, input_lane: u32, occurrence: u64)
        requires
            old(self).wf(),
            old(self).next_id < u64::MAX,
            !has_slot(old(self).targets@, target_bar_time, input_lane, occurrence),
        ensures
            final(self).wf(),
            final(self).targets@ == old(self).targets@.push(
                TargetEntity {
                    id: old(self).next_id,
                    target_bar_time,
                    input_lane,
                    occurrence,
                    resolved: None,
                },
            ),
            final(self).next_id == old(self).next_id + 1,
    {
        let entity = TargetEntity {
            id: self.next_id,
            target_bar_time,
            input_lane,
            occurrence,
            resolved: None,
        };
        self.targets.push(entity);
        self.next_id = self.next_id + 1;
    }

    /// Whether some entity already stands for the given (lane, occurrence)
    /// pair.
    pub fn contains_slot(&self, target_bar_time: u64, input_lane: u32, occurrence: u64) -> (r:
        bool)
        ensures
            r == has_slot(self.targets@, target_bar_time, input_lane, occurrence),
    {
        let n = self.targets.len();
        let mut i: usize = 0;
        while i < n
            invariant
                i <= n,
                n == self.targets@.len(),
                forall|j: int|
                    0 <= j < i ==> !((#[trigger] self.targets@[j]).target_bar_time
                        == target_bar_time && self.targets@[j].input_lane == input_lane
                        && self.targets@[j].occurrence == occurrence),
            decreases n - i,
        {
            let e = self.targets[i];
            if e.target_bar_time == target_bar_time && e.input_lane == input_lane && e.occurrence
                == occurrence {
                return true;
            }
            i = i + 1;
        }
        false
    }
}

} // verus!
