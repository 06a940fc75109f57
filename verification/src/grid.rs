//! The beat/bar grid: the musical time coordinate system.
//!
//! A session is configured with a tempo in milli-beats-per-minute, the
//! offset of the first beat from the start of the audio stream, and the
//! number of beats in a bar. From these two constants are derived once:
//! the length of a beat and the length of a bar, both in whole milliseconds.

use vstd::prelude::*;
use vstd::arithmetic::div_mod::lemma_div_non_zero;
use vstd::arithmetic::div_mod::lemma_div_nonincreasing;
use vstd::arithmetic::mul::lemma_mul_strictly_positive;
use vstd::arithmetic::mul::lemma_mul_upper_bound;

verus! {

/// Offset in milliseconds of a target within one bar, in `[0, bar_millis)`.
/// The absolute occurrence of such a target recurs every `bar_millis`.
#[derive(Clone, Copy, Debug, PartialEq, Eq, Structural)]
pub struct TargetBarTime(pub u64);

/// Immutable per-session musical time configuration and its derived
/// constants: `beat_millis = 60_000_000 / milli_bpm` (integer division) and
/// `bar_millis = beat_millis * beats_per_bar`, both exact in milliseconds.
#[derive(Clone, Copy, Debug)]
pub struct AudioContext {
    /// Beats per minute, times 1000 for fixed-point precision.
    pub milli_bpm: u64,
    /// Milliseconds from the start of the audio stream to the first beat.
    pub first_beat_offset: u64,
    /// Number of beats in one bar; at least 1.
    pub beats_per_bar: u8,
    /// Derived: length of one bar in milliseconds.
    pub bar_millis: u64,
    /// Derived: length of one beat in milliseconds.
    pub beat_millis: u64,
}

impl AudioContext {
    /// The derived constants agree exactly with the configuration and a bar
    /// has positive length.
    pub open spec fn wf(&self) -> bool {
        &&& 0 < self.milli_bpm <= 60_000_000
        &&& 1 <= self.beats_per_bar
        &&& self.beat_millis == 60_000_000 as int / self.milli_bpm as int
        &&& self.bar_millis == self.beat_millis * self.beats_per_bar
        &&& 1 <= self.beat_millis <= 60_000_000
        &&& 1 <= self.bar_millis
    }

    /// Builds the grid from its three configuration numbers. A tempo of zero
    /// or above 60_000_000 milli-bpm, or a bar of zero beats, is a
    /// configuration error rejected before the session starts, so it is
    /// excluded here.
    pub fn new(milli_bpm: u64, first_beat_offset: u64, beats_per_bar: u8) -> (r: AudioContext)
        requires
            0 < milli_bpm <= 60_000_000,
            1 <= beats_per_bar,
        ensures
            r.wf(),
            r.milli_bpm == milli_bpm,
            r.first_beat_offset == first_beat_offset,
            r.beats_per_bar == beats_per_bar,
            r.beat_millis == 60_000_000 as int / milli_bpm as int,
            r.bar_millis == r.beat_millis * beats_per_bar,
    {
        let beat_millis = 60_000_000u64 / milli_bpm;
        proof {
            lemma_div_non_zero(60_000_000, milli_bpm as int);
            lemma_div_nonincreasing(60_000_000, milli_bpm as int);
            lemma_mul_upper_bound(beat_millis as int, 60_000_000, beats_per_bar as int, 255);
            lemma_mul_strictly_positive(beat_millis as int, beats_per_bar as int);
        }
        let bar_millis = beat_millis * (beats_per_bar as u64);
        AudioContext { milli_bpm, first_beat_offset, beats_per_bar, bar_millis, beat_millis }
    }

    /// Places a target at a rational sub-beat offset inside a bar:
    /// `(beat_millis * index * multiple) / division`. A zero division is a
    /// configuration error rejected at setup, so it is excluded here, as are
    /// products beyond the machine word.
    pub fn make_bar_time(&self, multiple: u64, division: u64, index: u64) -> (r: TargetBarTime)
        requires
            0 < division,
            self.beat_millis * index <= u64::MAX,
            self.beat_millis * index * multiple <= u64::MAX,
        ensures
            r.0 == self.beat_millis * index * multiple / division as int,
    {
        TargetBarTime(self.beat_millis * index * multiple / division)
    }
}

} // verus!
