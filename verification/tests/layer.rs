use looper::layer::AudioLayer;

#[test]
fn test_record_append_stop() {
    let mut layer = AudioLayer::new(0);
    layer.start_recording();
    assert!(layer.is_recording);
    assert!(!layer.is_playing);

    let chunk = vec![10_000; 480];
    layer.append_samples(&chunk);
    layer.stop_recording();

    // Recording seamlessly becomes playback.
    assert_eq!(layer.get_buffer_length(), 480);
    assert_eq!(layer.loop_end, 480);
    assert!(layer.is_playing);
    assert!(!layer.is_recording);
}

#[test]
fn test_loop_playback_is_periodic() {
    let mut layer = AudioLayer::new(0);
    layer.buffer = vec![100_000, 200_000, 300_000];
    layer.loop_end = 3;
    layer.is_playing = true;

    // Two full periods reproduce the buffer content twice.
    let out = layer.get_next_samples(6);
    assert_eq!(
        out,
        vec![100_000, 200_000, 300_000, 100_000, 200_000, 300_000]
    );
}

#[test]
fn test_playback_wraps_into_loop_window() {
    let mut layer = AudioLayer::new(0);
    layer.buffer = vec![10, 20, 30, 40];
    layer.loop_end = 4;
    layer.set_loop_points(2, 4);
    layer.start_playing();

    // Playback runs to the buffer end, then wraps to the loop start.
    assert_eq!(layer.get_next_samples(4), vec![30, 40, 30, 40]);

    // A second call continues the same periodic stream.
    assert_eq!(layer.get_next_samples(3), vec![30, 40, 30]);
}

#[test]
fn test_playback_scales_by_volume_and_mute() {
    let mut layer = AudioLayer::new(0);
    layer.buffer = vec![400_000, -400_000];
    layer.loop_end = 2;
    layer.is_playing = true;
    layer.set_volume(500_000); // half volume
    assert_eq!(layer.get_next_samples(2), vec![200_000, -200_000]);

    layer.toggle_mute();
    assert_eq!(layer.get_next_samples(2), vec![0, 0]);
}

#[test]
fn test_silence_when_not_playing_or_empty() {
    let mut layer = AudioLayer::new(0);
    assert_eq!(layer.get_next_samples(3), vec![0, 0, 0]);

    layer.buffer = vec![1, 2, 3];
    layer.loop_end = 3;
    assert!(!layer.is_playing);
    assert_eq!(layer.get_next_samples(3), vec![0, 0, 0]);
}

#[test]
fn test_volume_clamped() {
    let mut layer = AudioLayer::new(0);
    layer.set_volume(2_000_000);
    assert_eq!(layer.volume, 1_000_000);
    layer.set_volume(-5);
    assert_eq!(layer.volume, 0);
}

#[test]
fn test_set_loop_points_clamped() {
    let mut layer = AudioLayer::new(0);
    layer.buffer = vec![0; 10];
    layer.loop_end = 10;

    layer.set_loop_points(2, 7);
    assert_eq!((layer.loop_start, layer.loop_end), (2, 7));
    assert_eq!(layer.get_loop_length(), 5);

    // Past the end: clamped to the buffer.
    layer.set_loop_points(3, 25);
    assert_eq!((layer.loop_start, layer.loop_end), (3, 10));

    // Inverted: forced into a one-sample window.
    layer.set_loop_points(6, 4);
    assert_eq!((layer.loop_start, layer.loop_end), (6, 7));
}

#[test]
fn test_layer_undo_redo_restores_buffer() {
    let mut layer = AudioLayer::new(0);
    layer.start_recording();
    layer.append_samples(&vec![11, 22, 33]);
    layer.stop_recording();

    layer.start_recording();
    layer.append_samples(&vec![44, 55]);
    layer.stop_recording();
    assert_eq!(layer.buffer, vec![44, 55]);

    // One step back is the state saved when the second take began.
    assert!(layer.can_undo());
    assert!(layer.undo());
    assert_eq!(layer.buffer, vec![11, 22, 33]);

    assert!(layer.can_redo());
    assert!(layer.redo());
    assert_eq!(layer.buffer, vec![44, 55]);
    assert!(!layer.redo());
}

#[test]
fn test_clear_resets_layer() {
    let mut layer = AudioLayer::new(0);
    layer.start_recording();
    layer.append_samples(&vec![9; 16]);
    layer.stop_recording();

    layer.clear();
    assert!(layer.is_empty());
    assert!(!layer.is_playing);
    assert!(!layer.is_recording);
    assert_eq!(layer.loop_end, 0);
    assert_eq!(layer.meter.get_peak(), 0);

    // The cleared state can be undone back to the recorded take.
    assert!(layer.undo());
    assert_eq!(layer.buffer, vec![9; 16]);
}

#[test]
fn test_stop_playing_rewinds() {
    let mut layer = AudioLayer::new(0);
    layer.buffer = vec![1, 2, 3, 4];
    layer.loop_end = 4;
    layer.start_playing();
    let _ = layer.get_next_samples(3);
    assert_eq!(layer.playback_position, 3);
    layer.stop_playing();
    assert!(!layer.is_playing);
    assert_eq!(layer.playback_position, layer.loop_start);
}
