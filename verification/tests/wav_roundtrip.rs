//! The WAV adapter scenario: samples written as a mono 32-bit float WAV
//! and read back are unchanged, a foreign rate is resampled to the
//! engine's rate, and the looper carries imported audio faithfully.

use std::io::Cursor;

use looper::control::AudioConfig;
use looper::export::mix_for_export;
use looper::looper::LooperEngine;
use rubato::Resampler;

const UNIT_F: f32 = 1_000_000.0;

fn to_fixed(samples: &[f32]) -> Vec<i32> {
    samples.iter().map(|&s| (s * UNIT_F).round() as i32).collect()
}

fn to_float(samples: &[i32]) -> Vec<f32> {
    samples.iter().map(|&s| s as f32 / UNIT_F).collect()
}

fn write_wav(samples: &[f32], sample_rate: u32) -> Vec<u8> {
    let spec = hound::WavSpec {
        channels: 1,
        sample_rate,
        bits_per_sample: 32,
        sample_format: hound::SampleFormat::Float,
    };
    let mut cursor = Cursor::new(Vec::new());
    {
        let mut writer = hound::WavWriter::new(&mut cursor, spec).unwrap();
        for &s in samples {
            writer.write_sample(s).unwrap();
        }
        writer.finalize().unwrap();
    }
    cursor.into_inner()
}

fn read_wav(bytes: Vec<u8>) -> (Vec<f32>, u32) {
    let mut reader = hound::WavReader::new(Cursor::new(bytes)).unwrap();
    let rate = reader.spec().sample_rate;
    let samples: Vec<f32> = reader.samples::<f32>().map(|s| s.unwrap()).collect();
    (samples, rate)
}

#[test]
fn test_wav_write_read_round_trip() {
    let original = vec![0.1f32, -0.2, 0.3, -0.4, 0.5];
    let bytes = write_wav(&original, 44100);
    let (imported, rate) = read_wav(bytes);
    assert_eq!(rate, 44100);
    assert_eq!(original.len(), imported.len());
    for (orig, imp) in original.iter().zip(imported.iter()) {
        assert!((orig - imp).abs() < 0.001);
    }
}

#[test]
fn test_import_at_foreign_rate_resamples_to_engine_rate() {
    // A two-second mono take at 22050 Hz ...
    let foreign_rate = 22050u32;
    let target_rate = 44100u32;
    let source: Vec<f32> = (0..(2 * foreign_rate))
        .map(|i| ((i % 100) as f32 / 100.0) - 0.5)
        .collect();

    // ... imported through the same resampler the WAV adapter uses ...
    let params = rubato::SincInterpolationParameters {
        sinc_len: 256,
        f_cutoff: Some(0.95),
        interpolation: rubato::SincInterpolationType::Linear,
        oversampling_factor: 256,
        window: rubato::WindowFunction::BlackmanHarris2,
    };
    let mut resampler = rubato::Async::<f32>::new_sinc(
        target_rate as f64 / foreign_rate as f64,
        2.0,
        &params,
        1024,
        1,
        rubato::FixedAsync::Input,
    )
    .unwrap();
    let input_data = vec![source.clone()];
    let adapted = rubato::audioadapter_buffers::direct::SequentialSliceOfVecs::new(
        &input_data,
        1,
        source.len(),
    )
    .unwrap();
    let resampled: Vec<f32> = resampler
        .process_all(&adapted, source.len(), None)
        .unwrap()
        .take_data();

    // ... has the resampled duration at the engine's configured rate.
    let expected = 2 * target_rate as i64;
    assert!((resampled.len() as i64 - expected).abs() <= 1);

    // Loading it into layer 0 keeps the length and arms the loop window.
    let mut engine = LooperEngine::new(AudioConfig::default());
    engine.load_audio_to_layer(0, to_fixed(&resampled)).unwrap();
    let layer = engine.get_layer(0).unwrap();
    assert_eq!(layer.buffer.len(), resampled.len());
    assert_eq!(layer.loop_end, resampled.len());
}

#[test]
fn test_export_round_trip_of_single_layer() {
    // A take whose peak already sits at the 0.95 headroom target is
    // reproduced exactly by the normalizing mixdown.
    let original = vec![0.1f32, -0.2, 0.95, -0.4, 0.5];
    let mixed = mix_for_export(&vec![to_fixed(&original)]).unwrap();

    let bytes = write_wav(&to_float(&mixed), 44100);
    let (reimported, _) = read_wav(bytes);
    assert_eq!(original.len(), reimported.len());
    for (orig, imp) in original.iter().zip(reimported.iter()) {
        assert!((orig - imp).abs() < 0.001);
    }
}
