use rhythm_core::clock::AudioClock;
use rhythm_core::grid::AudioContext;
use rhythm_core::hit::nearest_occurrence;
use rhythm_core::position::vertical_offset;
use rhythm_core::scheduler::next_occurrence;

#[test]
fn grid_derives_exact_constants() {
    let grid = AudioContext::new(160_000, 110, 4);
    assert_eq!(grid.beat_millis, 375);
    assert_eq!(grid.bar_millis, 1500);
    assert_eq!(grid.bar_millis, grid.beat_millis * grid.beats_per_bar as u64);
    assert_eq!(grid.first_beat_offset, 110);
}

#[test]
fn bar_is_beat_times_beats_even_for_rough_tempo() {
    // 159.85 bpm does not divide the minute evenly; the bar is still an
    // exact multiple of the rounded beat.
    let grid = AudioContext::new(160_000 - 150, 110, 4);
    assert_eq!(grid.beat_millis, 60_000_000 / 159_850);
    assert_eq!(grid.beat_millis, 375);
    assert_eq!(grid.bar_millis, 1500);

    let odd = AudioContext::new(7_000, 0, 3);
    assert_eq!(odd.beat_millis, 8571);
    assert_eq!(odd.bar_millis, 8571 * 3);
}

#[test]
fn make_bar_time_places_rational_subbeat() {
    let grid = AudioContext::new(160_000, 110, 4);
    // An eighth note: half of one beat.
    assert_eq!(grid.make_bar_time(1, 2, 1).0, 187);
    assert_eq!(grid.make_bar_time(3, 2, 1).0, 562);
    assert_eq!(grid.make_bar_time(1, 1, 3).0, 1125);
    // The off-beat target of the session setup: half a beat before the bar
    // ends.
    assert_eq!(grid.bar_millis - grid.beat_millis / 2, 1313);
}

#[test]
fn audio_clock_converts_frames_to_milliseconds() {
    let mut clock = AudioClock::new();
    clock.tick(48_000, 48_000, 110);
    assert_eq!(clock.audio_time_ms, 890);
    assert_eq!(clock.last_frames, 48_000);
}

#[test]
fn audio_clock_clamps_before_first_beat() {
    let mut clock = AudioClock::new();
    clock.tick(1_000, 48_000, 110);
    assert_eq!(clock.audio_time_ms, 0);
}

#[test]
fn audio_clock_is_monotonic_under_jittered_reads() {
    let mut clock = AudioClock::new();
    let reads: [u64; 6] = [48_000, 24_000, 47_000, 50_000, 49_999, 96_000];
    let mut previous = 0u64;
    for frames in reads {
        clock.tick(frames, 48_000, 0);
        assert!(clock.audio_time_ms >= previous);
        previous = clock.audio_time_ms;
    }
    // A backwards frame counter never drags the reading down.
    assert_eq!(clock.last_frames, 96_000);
    assert_eq!(clock.audio_time_ms, 2_000);
}

#[test]
fn beat_phase_wraps_inside_one_beat() {
    let grid = AudioContext::new(160_000, 0, 4);
    let mut clock = AudioClock::new();
    clock.tick(3_460, 1_000, 0);
    assert_eq!(clock.audio_time_ms, 3_460);
    let phase = clock.beat_phase_millis(&grid);
    assert_eq!(phase, 3_460 % 375);
    assert!(phase < grid.beat_millis);
}

#[test]
fn nearest_occurrence_matches_modulo_the_bar() {
    let grid = AudioContext::new(160_000, 0, 4);
    assert_eq!(grid.bar_millis, 1500);
    let (k, time, error) = nearest_occurrence(&grid, 0, 3_100);
    assert_eq!(k, 2);
    assert_eq!(time, 3_000);
    assert_eq!(error, 100);
}

#[test]
fn nearest_occurrence_is_bar_periodic() {
    let grid = AudioContext::new(160_000, 0, 4);
    let (k, time, error) = nearest_occurrence(&grid, 0, 3_100);
    let (k2, time2, error2) = nearest_occurrence(&grid, 0, 3_100 + grid.bar_millis);
    assert_eq!(k2, k + 1);
    assert_eq!(time2, time + grid.bar_millis);
    assert_eq!(error2, error);
}

#[test]
fn nearest_occurrence_clamps_at_recurrence_zero() {
    let grid = AudioContext::new(160_000, 0, 4);
    // Half a bar before the first recurrence of a late target: the clamp
    // keeps the match on recurrence zero.
    let (k, time, error) = nearest_occurrence(&grid, 1_313, 100);
    assert_eq!(k, 0);
    assert_eq!(time, 1_313);
    assert_eq!(error, 1_213);
}

#[test]
fn next_occurrence_is_strictly_ahead() {
    let grid = AudioContext::new(160_000, 0, 4);
    assert_eq!(next_occurrence(&grid, 0, 600), (1, 1_500));
    assert_eq!(next_occurrence(&grid, 0, 1_500), (2, 3_000));
    assert_eq!(next_occurrence(&grid, 1_313, 600), (0, 1_313));
    assert_eq!(next_occurrence(&grid, 1_313, 1_313), (1, 2_813));
}

#[test]
fn vertical_offset_scrolls_with_time_to_occurrence() {
    assert_eq!(vertical_offset(200, 1_500, 1_000, 2), 1_200);
    assert_eq!(vertical_offset(200, 500, 1_000, 2), -800);
    assert_eq!(vertical_offset(200, 1_000, 1_000, 5), 200);
}
