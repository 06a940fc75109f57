use rhythm_core::clock::AudioClock;
use rhythm_core::detector::InputEvent;
use rhythm_core::detector::InputEvents;
use rhythm_core::detector::KeyBindings;
use rhythm_core::grid::AudioContext;
use rhythm_core::hit::judge;
use rhythm_core::hit::Judgment;
use rhythm_core::hit::JudgmentThresholds;
use rhythm_core::scheduler::LaneDef;
use rhythm_core::store::BarIndex;
use rhythm_core::store::TargetStore;

const LEFT: u32 = 7;
const RIGHT: u32 = 8;

fn thresholds() -> JudgmentThresholds {
    JudgmentThresholds { best_ms: 45, good_ms: 90, fair_ms: 135 }
}

#[test]
fn keystroke_within_tolerance_resolves_target() {
    let grid = AudioContext::new(160_000, 0, 4);
    let mut store = TargetStore::new();
    store.spawn(0, LEFT, 0);
    let hit = store.apply_keydown(&grid, 3_050, LEFT, 100, &thresholds());
    let hit = hit.expect("a keystroke 50 ms off the bar line must resolve");
    assert_eq!(hit.error_ms, 50);
    assert_eq!(hit.occurrence_index, BarIndex(2));
    assert_eq!(hit.judgment, Judgment::Good);
    assert!(store.targets[0].resolved.is_some());
}

#[test]
fn keystroke_out_of_tolerance_is_a_miss() {
    let grid = AudioContext::new(160_000, 0, 4);
    let mut store = TargetStore::new();
    store.spawn(0, LEFT, 0);
    // 1400 is 400 ms from the nearest bar line (1500): out of tolerance.
    let hit = store.apply_keydown(&grid, 1_400, LEFT, 100, &thresholds());
    assert!(hit.is_none());
    assert!(store.targets[0].resolved.is_none());
}

#[test]
fn keystroke_on_wrong_lane_is_a_miss() {
    let grid = AudioContext::new(160_000, 0, 4);
    let mut store = TargetStore::new();
    store.spawn(0, LEFT, 0);
    let hit = store.apply_keydown(&grid, 3_050, RIGHT, 100, &thresholds());
    assert!(hit.is_none());
    assert!(store.targets[0].resolved.is_none());
}

#[test]
fn resolved_target_cannot_be_rehit() {
    let grid = AudioContext::new(160_000, 0, 4);
    let mut store = TargetStore::new();
    store.spawn(0, LEFT, 0);
    assert!(store.apply_keydown(&grid, 3_050, LEFT, 100, &thresholds()).is_some());
    assert!(store.apply_keydown(&grid, 3_060, LEFT, 100, &thresholds()).is_none());
}

#[test]
fn detector_prefers_smallest_error() {
    let grid = AudioContext::new(160_000, 0, 4);
    let mut store = TargetStore::new();
    store.spawn(100, LEFT, 0);
    store.spawn(0, LEFT, 0);
    // At t=60 the first target is 40 ms away, the second 60 ms away.
    let hit = store.apply_keydown(&grid, 60, LEFT, 100, &thresholds()).unwrap();
    assert_eq!(hit.error_ms, 40);
    assert!(store.targets[0].resolved.is_some());
    assert!(store.targets[1].resolved.is_none());
}

#[test]
fn detector_breaks_error_ties_by_lowest_id() {
    let grid = AudioContext::new(160_000, 0, 4);
    let mut store = TargetStore::new();
    store.spawn(100, LEFT, 0);
    store.spawn(20, LEFT, 0);
    // At t=60 both targets are exactly 40 ms away; the earlier entity wins.
    let hit = store.apply_keydown(&grid, 60, LEFT, 100, &thresholds()).unwrap();
    assert_eq!(hit.error_ms, 40);
    assert!(store.targets[0].resolved.is_some());
    assert!(store.targets[1].resolved.is_none());
}

#[test]
fn judgment_buckets_by_ascending_thresholds() {
    let th = thresholds();
    assert_eq!(judge(&th, 0), Judgment::Best);
    assert_eq!(judge(&th, 45), Judgment::Best);
    assert_eq!(judge(&th, 46), Judgment::Good);
    assert_eq!(judge(&th, 90), Judgment::Good);
    assert_eq!(judge(&th, 91), Judgment::Fair);
    assert_eq!(judge(&th, 135), Judgment::Fair);
    assert_eq!(judge(&th, 136), Judgment::Poor);
}

#[test]
fn scheduler_materializes_due_lane_once() {
    let grid = AudioContext::new(160_000, 0, 4);
    let mut store = TargetStore::new();
    let lanes = vec![LaneDef { target_bar_time: 0, input_lane: LEFT }];
    // Next recurrence at 1500 is 900 ms ahead: inside a 1000 ms window.
    store.schedule(&grid, &lanes, 600, 1_000);
    assert_eq!(store.targets.len(), 1);
    assert_eq!(store.targets[0].occurrence, 1);
    // Scheduling every tick for an extended run creates no duplicate.
    for t in 600..700u64 {
        store.schedule(&grid, &lanes, t, 1_000);
    }
    assert_eq!(store.targets.len(), 1);
}

#[test]
fn scheduler_skips_lane_outside_lookahead() {
    let grid = AudioContext::new(160_000, 0, 4);
    let mut store = TargetStore::new();
    let lanes = vec![LaneDef { target_bar_time: 0, input_lane: LEFT }];
    // Next recurrence at 1500 is a full 1500 ms ahead of t=0.
    store.schedule(&grid, &lanes, 0, 1_000);
    assert_eq!(store.targets.len(), 0);
}

#[test]
fn scheduler_never_duplicates_a_lane_occurrence_pair() {
    let grid = AudioContext::new(160_000, 0, 4);
    let mut store = TargetStore::new();
    let lanes = vec![
        LaneDef { target_bar_time: 0, input_lane: LEFT },
        LaneDef { target_bar_time: 1_313, input_lane: RIGHT },
    ];
    // Run the scheduler on every tick of a long stretch of audio time.
    for t in 0..4_000u64 {
        store.schedule(&grid, &lanes, t, 1_000);
    }
    for i in 0..store.targets.len() {
        for j in 0..store.targets.len() {
            if i != j {
                let a = &store.targets[i];
                let b = &store.targets[j];
                assert!(
                    a.target_bar_time != b.target_bar_time || a.input_lane != b.input_lane
                        || a.occurrence != b.occurrence
                );
            }
        }
    }
    assert!(store.targets.len() >= 2);
}

#[test]
fn two_lanes_with_overlapping_windows_schedule_independently() {
    let grid = AudioContext::new(160_000, 0, 4);
    let mut store = TargetStore::new();
    let lanes = vec![
        LaneDef { target_bar_time: 0, input_lane: LEFT },
        LaneDef { target_bar_time: 1_313, input_lane: RIGHT },
    ];
    store.schedule(&grid, &lanes, 600, 1_000);
    assert_eq!(store.targets.len(), 2);
    assert_eq!(store.targets[0].target_bar_time, 0);
    assert_eq!(store.targets[0].occurrence, 1);
    assert_eq!(store.targets[1].target_bar_time, 1_313);
    assert_eq!(store.targets[1].occurrence, 0);
}

#[test]
fn reaper_deletes_expired_and_keeps_graced_targets() {
    let grid = AudioContext::new(160_000, 0, 4);
    let mut store = TargetStore::new();
    store.spawn(0, LEFT, 0);
    // Tick by tick: the target's recurrence is at 0; with a 1000 ms grace
    // period it must survive until t=999 and be gone at t=1000.
    for t in 0..1_000u64 {
        store.reap(&grid, t, 1_000);
        assert_eq!(store.targets.len(), 1, "still inside the grace window at {}", t);
    }
    store.reap(&grid, 1_000, 1_000);
    assert_eq!(store.targets.len(), 0);
}

#[test]
fn reaper_deletes_resolved_targets_too() {
    let grid = AudioContext::new(160_000, 0, 4);
    let mut store = TargetStore::new();
    store.spawn(0, LEFT, 0);
    assert!(store.apply_keydown(&grid, 40, LEFT, 100, &thresholds()).is_some());
    store.reap(&grid, 1_000, 1_000);
    assert_eq!(store.targets.len(), 0);
}

#[test]
fn reaper_keeps_targets_of_later_occurrences() {
    let grid = AudioContext::new(160_000, 0, 4);
    let mut store = TargetStore::new();
    store.spawn(0, LEFT, 0);
    store.spawn(0, LEFT, 2);
    store.reap(&grid, 1_000, 1_000);
    assert_eq!(store.targets.len(), 1);
    assert_eq!(store.targets[0].occurrence, 2);
}

#[test]
fn full_tick_scores_an_early_keystroke_as_best() {
    // One lane on the bar line at 160 bpm in four-four time; the audio
    // stream has just reached the first bar line.
    let grid = AudioContext::new(160_000, 0, 4);
    let mut clock = AudioClock::new();
    clock.tick(0, 1_000, 0);
    assert_eq!(clock.audio_time_ms, 0);
    let mut store = TargetStore::new();
    store.spawn(0, LEFT, 0);
    // 40 ms of audio later a keystroke arrives on the lane's key.
    clock.tick(40, 1_000, 0);
    assert_eq!(clock.audio_time_ms, 40);
    let events = InputEvents(vec![InputEvent { timestamp: 40, keycode: Some(LEFT) }]);
    let bindings = KeyBindings { stop_key: 27, debug_key: 96 };
    let flags = store.process_events(
        &grid,
        clock.audio_time_ms,
        &events,
        &bindings,
        100,
        &thresholds(),
    );
    assert!(!flags.stop);
    assert!(!flags.debug);
    let hit = store.targets[0].resolved.expect("the keystroke must resolve the target");
    assert_eq!(hit.error_ms, 40);
    assert_eq!(hit.judgment, Judgment::Best);
    assert_eq!(hit.occurrence_index, BarIndex(0));
}

#[test]
fn control_keys_raise_flags_and_match_nothing() {
    let grid = AudioContext::new(160_000, 0, 4);
    let mut store = TargetStore::new();
    // A lane listening on the stop key itself: the stop key must still only
    // request shutdown.
    store.spawn(0, 27, 0);
    let events = InputEvents(vec![
        InputEvent { timestamp: 1, keycode: Some(27) },
        InputEvent { timestamp: 2, keycode: Some(96) },
        InputEvent { timestamp: 3, keycode: None },
    ]);
    let bindings = KeyBindings { stop_key: 27, debug_key: 96 };
    let flags = store.process_events(&grid, 40, &events, &bindings, 100, &thresholds());
    assert!(flags.stop);
    assert!(flags.debug);
    assert!(store.targets[0].resolved.is_none());
}

#[test]
fn queued_events_resolve_at_most_one_target_each() {
    let grid = AudioContext::new(160_000, 0, 4);
    let mut store = TargetStore::new();
    store.spawn(0, LEFT, 0);
    store.spawn(20, LEFT, 0);
    let events = InputEvents(vec![
        InputEvent { timestamp: 1, keycode: Some(LEFT) },
        InputEvent { timestamp: 2, keycode: Some(LEFT) },
    ]);
    let bindings = KeyBindings { stop_key: 27, debug_key: 96 };
    store.process_events(&grid, 10, &events, &bindings, 100, &thresholds());
    // The first event takes the closer target, the second takes the other.
    assert!(store.targets[0].resolved.is_some());
    assert!(store.targets[1].resolved.is_some());
    assert_eq!(store.targets[0].resolved.unwrap().error_ms, 10);
    assert_eq!(store.targets[1].resolved.unwrap().error_ms, 10);
}
