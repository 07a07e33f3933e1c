use looper::tempo::TempoEngine;

#[test]
fn test_tempo_calculation() {
    let tempo = TempoEngine::new(44100, 120_000, 4);

    // At 120 BPM, each beat should be 0.5 seconds
    // 0.5 * 44100 = 22050 samples per beat
    assert_eq!(tempo.samples_per_beat, 22050);

    // 4 beats per measure = 88200 samples
    assert_eq!(tempo.samples_per_measure, 88200);
}

#[test]
fn test_beat_tracking() {
    let mut tempo = TempoEngine::new(44100, 120_000, 4);

    assert_eq!(tempo.get_current_beat(), 1);

    // Advance by one beat
    tempo.advance(22050);
    assert_eq!(tempo.get_current_beat(), 2);

    // Advance to beat 4
    tempo.advance(44100);
    assert_eq!(tempo.get_current_beat(), 4);

    // Advance to next measure (should wrap to beat 1)
    tempo.advance(22050);
    assert_eq!(tempo.get_current_beat(), 1);
}

#[test]
fn test_count_in() {
    let mut tempo = TempoEngine::new(44100, 120_000, 4);

    tempo.start_count_in(0, 4);
    assert!(tempo.count_in_active);
    assert_eq!(tempo.count_in_remaining_beats, 4);

    // Advance by one beat
    tempo.advance(22050);
    assert_eq!(tempo.count_in_remaining_beats, 3);

    // Advance by remaining beats
    tempo.advance(66150); // 3 beats
    assert!(!tempo.count_in_active);
    assert_eq!(tempo.count_in_remaining_beats, 0);
}

#[test]
fn test_set_bpm_clamps() {
    let mut tempo = TempoEngine::new(44100, 120_000, 4);
    tempo.set_bpm(5_000);
    assert_eq!(tempo.bpm_millis, 20_000);
    tempo.set_bpm(999_000);
    assert_eq!(tempo.bpm_millis, 300_000);
    tempo.set_bpm(60_000);
    assert_eq!(tempo.bpm_millis, 60_000);
    // One beat at 60 BPM lasts one second.
    assert_eq!(tempo.samples_per_beat, 44100);
}

#[test]
fn test_tap_tempo_sets_bpm_from_gap() {
    let mut tempo = TempoEngine::new(44100, 120_000, 4);
    // First tap only opens the session.
    tempo.tap_tempo(1_000);
    assert_eq!(tempo.bpm_millis, 120_000);
    // A 500 ms gap means 120 BPM.
    tempo.tap_tempo(1_500);
    assert_eq!(tempo.bpm_millis, 120_000);
    // A 600 ms gap means 100 BPM; blended 70/30 with the prior 120 BPM
    // gap: (7 * 100000 + 3 * 120000) / 10 = 106000.
    tempo.tap_tempo(2_100);
    assert_eq!(tempo.bpm_millis, 106_000);
}

#[test]
fn test_tap_tempo_resets_after_long_pause() {
    let mut tempo = TempoEngine::new(44100, 120_000, 4);
    tempo.tap_tempo(1_000);
    tempo.tap_tempo(1_500);
    assert_eq!(tempo.bpm_millis, 120_000);
    // Over three seconds later: a new session, tempo untouched.
    tempo.tap_tempo(9_000);
    assert_eq!(tempo.bpm_millis, 120_000);
    // The next gap counts from the new session's first tap.
    tempo.tap_tempo(9_250);
    assert_eq!(tempo.bpm_millis, 240_000);
}

#[test]
fn test_measure_queries() {
    let mut tempo = TempoEngine::new(44100, 120_000, 4);
    assert_eq!(tempo.get_current_measure(), 0);
    assert_eq!(tempo.get_next_measure_start(), 88200);
    assert_eq!(tempo.get_samples_until_next_measure(), 88200);
    assert!(tempo.is_on_measure_boundary(0));

    tempo.advance(88200);
    assert_eq!(tempo.get_current_measure(), 1);
    assert_eq!(tempo.get_next_measure_start(), 176400);
    assert!(tempo.is_on_measure_boundary(16));

    tempo.advance(100);
    assert!(!tempo.is_on_measure_boundary(16));

    tempo.reset_position();
    assert_eq!(tempo.global_position, 0);
    assert_eq!(tempo.get_current_measure(), 0);
}
