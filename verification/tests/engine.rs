use looper::control::{AudioConfig, AudioEvent, IoRequest, LayerCommand, LooperError};
use looper::looper::LooperEngine;

fn test_engine() -> LooperEngine {
    LooperEngine::new(AudioConfig::default())
}

#[test]
fn test_out_of_range_commands_rejected() {
    let mut engine = test_engine();
    assert_eq!(
        engine.send_command(LayerCommand::Record(16)),
        Err(LooperError::LayerIndexOutOfRange)
    );
    assert_eq!(
        engine.send_command(LayerCommand::Play(99)),
        Err(LooperError::LayerIndexOutOfRange)
    );
    assert_eq!(
        engine.send_command(LayerCommand::SetVolume(16, 500_000)),
        Err(LooperError::LayerIndexOutOfRange)
    );
    // Nothing changed.
    assert!(engine.get_recording_layer().is_none());
}

#[test]
fn test_record_then_stop_via_commands() {
    let mut engine = test_engine();
    engine.send_command(LayerCommand::Record(2)).unwrap();
    assert!(engine.is_recording());
    assert_eq!(engine.get_recording_layer(), Some(2));

    engine
        .get_layers()
        .get(2)
        .map(|l| assert!(l.is_recording))
        .unwrap();

    engine.send_command(LayerCommand::StopRecording(2)).unwrap();
    assert!(!engine.is_recording());
    assert_eq!(engine.get_recording_layer(), None);
}

#[test]
fn test_commands_applied_through_channel_and_events_emitted() {
    let (cmd_tx, cmd_rx) = crossbeam::channel::unbounded();
    let (evt_tx, evt_rx) = crossbeam::channel::unbounded();

    let mut engine = test_engine();
    engine.send_command(LayerCommand::ToggleBeatSync(false)).unwrap();
    engine.set_command_channel(cmd_rx);
    engine.set_event_sender(evt_tx);

    cmd_tx.send(LayerCommand::Mute(3)).unwrap();
    cmd_tx.send(LayerCommand::SetVolume(3, 250_000)).unwrap();

    let input = vec![0; 64];
    let mut output = vec![0; 64];
    engine.process_audio(&input, &mut output);

    let layer = engine.get_layer(3).unwrap();
    assert!(layer.is_muted);
    assert_eq!(layer.volume, 250_000);

    let events: Vec<AudioEvent> = evt_rx.try_iter().collect();
    assert!(events.contains(&AudioEvent::LayerMuted(3)));
    assert!(events.contains(&AudioEvent::VolumeChanged(3, 250_000)));
}

#[test]
fn test_recording_captures_input() {
    let mut engine = test_engine();
    engine.send_command(LayerCommand::ToggleBeatSync(false)).unwrap();
    engine.send_command(LayerCommand::Record(0)).unwrap();

    let input = vec![123_456; 512];
    let mut output = vec![0; 512];
    engine.process_audio(&input, &mut output);
    engine.process_audio(&vec![654_321; 512], &mut output);

    let layer = engine.get_layer(0).unwrap();
    assert_eq!(layer.buffer.len(), 1024);
    assert_eq!(layer.buffer[0], 123_456);
    assert_eq!(layer.buffer[512], 654_321);

    // The first recorded content fixes the master loop length.
    assert!(engine.get_master_loop_length().is_some());
}

#[test]
fn test_playback_reaches_output() {
    let mut engine = test_engine();
    engine.send_command(LayerCommand::ToggleBeatSync(false)).unwrap();
    engine
        .load_audio_to_layer(1, vec![400_000; 256])
        .unwrap();
    engine.send_command(LayerCommand::Play(1)).unwrap();

    let input = vec![0; 128];
    let mut output = vec![0; 128];
    engine.process_audio(&input, &mut output);
    assert_eq!(output, vec![400_000; 128]);
}

#[test]
fn test_sync_play_waits_for_measure_boundary() {
    let mut engine = test_engine();
    engine.load_audio_to_layer(0, vec![300_000; 4096]).unwrap();

    // Beat sync is on by default: SyncPlay defers to the next measure.
    engine.send_command(LayerCommand::SyncPlay(0)).unwrap();
    assert!(!engine.get_layer(0).unwrap().is_playing);

    // One measure at 120 BPM 4/4 and 44100 Hz is 88200 samples.
    let input = vec![0; 512];
    let mut output = vec![0; 512];
    let mut crossed = false;
    for _ in 0..200 {
        engine.process_audio(&input, &mut output);
        if engine.get_layer(0).unwrap().is_playing {
            crossed = true;
            break;
        }
    }
    assert!(crossed);
}

#[test]
fn test_import_and_export_become_io_requests() {
    let mut engine = test_engine();
    engine
        .send_command(LayerCommand::ImportWav(5, String::from("take.wav")))
        .unwrap();
    engine
        .send_command(LayerCommand::ExportWav(String::from("mix.wav")))
        .unwrap();

    let requests = engine.take_io_requests();
    assert_eq!(
        requests,
        vec![
            IoRequest::ImportWav { layer_id: 5, path: String::from("take.wav") },
            IoRequest::ExportWav { path: String::from("mix.wav") },
        ]
    );
    assert!(engine.take_io_requests().is_empty());
}

#[test]
fn test_metronome_click_reaches_output() {
    let mut engine = test_engine();
    engine.set_metronome_sample(vec![700_000; 32]);
    engine.send_command(LayerCommand::ToggleMetronome(true)).unwrap();

    let input = vec![0; 512];
    let mut output = vec![0; 512];
    let mut heard = false;
    for _ in 0..100 {
        engine.process_audio(&input, &mut output);
        if output.iter().any(|&s| s != 0) {
            heard = true;
            break;
        }
    }
    assert!(heard);
    assert!(output.iter().all(|&s| s == 0 || s == 700_000));
}

#[test]
fn test_count_in_schedules_recording() {
    let mut engine = test_engine();
    engine.send_command(LayerCommand::ToggleCountInMode(true)).unwrap();
    engine.send_command(LayerCommand::SyncRecord(7)).unwrap();
    assert!(engine.tempo.count_in_active);
    assert_eq!(engine.tempo.count_in_layer, Some(7));
    assert_eq!(engine.tempo.count_in_remaining_beats, 4);

    // After the count-in elapses and a measure boundary passes, the
    // layer records.
    let input = vec![0; 512];
    let mut output = vec![0; 512];
    let mut recording = false;
    for _ in 0..400 {
        engine.process_audio(&input, &mut output);
        if engine.get_recording_layer() == Some(7) {
            recording = true;
            break;
        }
    }
    assert!(recording);
    assert!(engine.get_layer(7).unwrap().is_recording);
}

#[test]
fn test_clear_all_resets_layers() {
    let mut engine = test_engine();
    engine.load_audio_to_layer(0, vec![1; 8]).unwrap();
    engine.load_audio_to_layer(1, vec![2; 8]).unwrap();
    engine.send_command(LayerCommand::ClearAll).unwrap();
    assert!(engine.get_layer(0).unwrap().is_empty());
    assert!(engine.get_layer(1).unwrap().is_empty());
}

#[test]
fn test_stop_all() {
    let mut engine = test_engine();
    engine.send_command(LayerCommand::ToggleBeatSync(false)).unwrap();
    engine.load_audio_to_layer(0, vec![5; 8]).unwrap();
    engine.load_audio_to_layer(1, vec![6; 8]).unwrap();
    engine.send_command(LayerCommand::PlayAll).unwrap();
    assert!(engine.get_layer(0).unwrap().is_playing);
    assert!(engine.get_layer(1).unwrap().is_playing);

    engine.send_command(LayerCommand::StopAll).unwrap();
    assert!(!engine.get_layer(0).unwrap().is_playing);
    assert!(!engine.get_layer(1).unwrap().is_playing);
    assert!(!engine.is_recording());
}

#[test]
fn test_input_ring_round_trip() {
    let mut engine = test_engine();
    engine.store_input_samples(&vec![41, 42, 43]);
    let samples = engine.get_input_samples();
    assert_eq!(samples, vec![41, 42, 43]);
}
