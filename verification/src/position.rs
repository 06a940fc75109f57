//! Mapping target times to screen-space scroll offsets.
//!
//! A pure derived projection, recomputed every tick for every unresolved
//! target: the offset grows linearly with how far the target's occurrence
//! lies ahead of the audio clock. It reads gameplay state and never mutates
//! it.

use vstd::prelude::*;

verus! {

/// Scroll offset of a target whose occurrence is at `occurrence_time_ms`
/// when the audio clock reads `t`: `baseline + (occurrence - now) * speed`.
pub open spec fn offset_of(baseline: i64, occurrence_time_ms: u64, t: u64, scroll_speed: i64) -> int {
    baseline + (occurrence_time_ms - t) * scroll_speed
}

/// Computes the scroll offset of one target. Offsets outside the machine
/// word are a configuration error (a scroll speed far beyond any screen) and
/// are excluded here.
pub fn vertical_offset(baseline: i64, occurrence_time_ms: u64, t: u64, scroll_speed: i64) -> (r:
    i64)
    requires
        i64::MIN <= offset_of(baseline, occurrence_time_ms, t, scroll_speed) <= i64::MAX,
    ensures
        r == offset_of(baseline, occurrence_time_ms, t, scroll_speed),
{
    let diff = occurrence_time_ms as i128 - t as i128;
    let speed = scroll_speed as i128;
    proof {
        assert((occurrence_time_ms as int - t as int) * scroll_speed
            <= 0x7fffffffffffffffffffffffffffffff
            && (occurrence_time_ms as int - t as int) * scroll_speed
            >= -0x7fffffffffffffffffffffffffffffff) by (nonlinear_arith)
            requires
                -0xffffffffffffffff <= occurrence_time_ms as int - t as int <= 0xffffffffffffffff,
                -0x8000000000000000 <= scroll_speed as int <= 0x7fffffffffffffff,
        ;
    }
    let prod = diff * speed;
    let sum = baseline as i128 + prod;
    sum as i64
}

} // verus!
