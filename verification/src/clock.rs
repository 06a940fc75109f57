//! The audio-driven musical clock.
//!
//! Once per tick the clock samples the audio output's monotonic frame
//! counter and converts it into elapsed musical time in milliseconds:
//! `frames / frames_per_second` seconds, shifted back by the first-beat
//! offset and clamped at zero. The audio clock is the sole authoritative
//! "now" for all rhythm logic — wall-clock time must not be used for
//! matching, because audio and display pipelines drift independently. A
//! frame counter that appears to run backwards is treated as a fatal
//! desynchronization and clamped to the previous reading, so the reported
//! time never decreases.

use vstd::prelude::*;

use crate::grid::AudioContext;

verus! {

/// Elapsed musical time, in milliseconds, of a frame counter reading:
/// `frames * 1000 / frames_per_second` shifted back by the first-beat
/// offset, clamped at zero.
pub open spec fn stream_time_ms(frames: u64, frames_per_second: u32, first_beat_offset_ms: u64) -> int
    recommends
        frames_per_second > 0,
{
    let raw = frames * 1000 / frames_per_second as int;
    if raw >= first_beat_offset_ms {
        raw - first_beat_offset_ms
    } else {
        0
    }
}

/// `stream_time_ms`, saturated at the largest machine-word time.
pub open spec fn clamped_stream_time_ms(
    frames: u64,
    frames_per_second: u32,
    first_beat_offset_ms: u64,
) -> int {
    let v = stream_time_ms(frames, frames_per_second, first_beat_offset_ms);
    if v > u64::MAX {
        u64::MAX as int
    } else {
        v
    }
}

/// The clock's numeric state. One component writes it per tick; all others
/// only read it.
#[derive(Clone, Copy, Debug)]
pub struct AudioClock {
    /// Elapsed musical time, in milliseconds, as of the last tick.
    pub audio_time_ms: u64,
    /// Largest frame counter reading seen so far.
    pub last_frames: u64,
}

impl AudioClock {
    /// A clock that has not yet seen the audio stream.
    pub fn new() -> (r: AudioClock)
        ensures
            r.audio_time_ms == 0,
            r.last_frames == 0,
    {
        AudioClock { audio_time_ms: 0, last_frames: 0 }
    }

    /// Refreshes the clock from a frame counter reading. The reading is
    /// clamped against the largest one seen, and the reported time against
    /// the last reported time, so the output never decreases — under a
    /// genuinely monotonic source, jittered reads cannot drag it backwards.
    pub fn tick(&mut self, frames_emitted: u64, frames_per_second: u32, first_beat_offset_ms: u64)
        requires
            frames_per_second > 0,
        ensures
            final(self).last_frames == if frames_emitted >= old(self).last_frames {
                frames_emitted
            } else {
                old(self).last_frames
            },
            final(self).audio_time_ms == ({
                let computed = clamped_stream_time_ms(
                    final(self).last_frames,
                    frames_per_second,
                    first_beat_offset_ms,
                );
                if computed > old(self).audio_time_ms {
                    computed
                } else {
                    old(self).audio_time_ms as int
                }
            }),
            final(self).audio_time_ms >= old(self).audio_time_ms,
    {
        let frames = if frames_emitted >= self.last_frames {
            frames_emitted
        } else {
            self.last_frames
        };
        self.last_frames = frames;
        let raw = (frames as u128) * 1000 / (frames_per_second as u128);
        let off = first_beat_offset_ms as u128;
        let shifted = if raw >= off {
            raw - off
        } else {
            0
        };
        let computed = if shifted > (u64::MAX as u128) {
            u64::MAX
        } else {
            shifted as u64
        };
        if computed > self.audio_time_ms {
            self.audio_time_ms = computed;
        }
    }

    /// Position of the clock inside the current beat, in milliseconds from
    /// the beat's start: the integer counterpart of a fractional beat phase,
    /// a derived read-only projection for visual pulsing.
    pub fn beat_phase_millis(&self, grid: &AudioContext) -> (r: u64)
        requires
            grid.wf(),
        ensures
            r == self.audio_time_ms as int % grid.beat_millis as int,
            r < grid.beat_millis,
    {
        self.audio_time_ms % grid.beat_millis
    }
}

} // verus!
