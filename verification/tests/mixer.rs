use looper::layer::AudioLayer;
use looper::mixer::{ScalarMixer, SimdMixer};

fn create_test_layers(count: usize, buffer_size: usize) -> Vec<AudioLayer> {
    (0..count)
        .map(|i| {
            let mut layer = AudioLayer::new(i);
            layer.buffer = vec![500_000; buffer_size];
            layer.loop_end = buffer_size;
            layer.is_playing = true;
            layer
        })
        .collect()
}

#[test]
fn test_simd_correctness() {
    let mut layers = create_test_layers(4, 1024);
    let mut simd_output = vec![0; 1024];
    let mut scalar_output = vec![0; 1024];

    let mut simd_mixer = SimdMixer::new(1024);
    let mut scalar_mixer = ScalarMixer::new(1024);
    simd_mixer.mix_layers(&mut layers, &mut simd_output);
    scalar_mixer.mix_layers(&mut layers, &mut scalar_output);

    // Results should be very close (the two back ends are proved equal)
    for (simd, scalar) in simd_output.iter().zip(scalar_output.iter()) {
        assert!(
            (simd - scalar).abs() < 1_000,
            "SIMD mismatch: {} vs {}",
            simd,
            scalar
        );
    }
}

#[test]
fn test_soft_clipping() {
    let mixer = SimdMixer::new(128);
    // 1.5, -1.5, 0.5, -0.5, 0.9, -0.9 at fixed-point scale
    let mut buffer = vec![1_500_000, -1_500_000, 500_000, -500_000, 900_000, -900_000];
    mixer.soft_clip_simd(&mut buffer);

    // Check all values are in range
    for &sample in &buffer {
        assert!(sample >= -1_000_000 && sample <= 1_000_000);
    }

    // Values above threshold should be compressed
    assert!(buffer[0] < 1_500_000 && buffer[0] > 800_000);
    assert!(buffer[1] > -1_500_000 && buffer[1] < -800_000);
}

#[test]
fn test_mix_sums_and_clips() {
    // Four layers of 0.5 sum to 2.0 and are hard-clipped to 1.0.
    let mut layers = create_test_layers(4, 8);
    let mut output = vec![0; 8];
    let mut mixer = ScalarMixer::new(8);
    mixer.mix_layers(&mut layers, &mut output);
    assert_eq!(output, vec![1_000_000; 8]);

    // Two layers of 0.5 sum to exactly 1.0.
    let mut layers = create_test_layers(2, 8);
    let mut mixer = SimdMixer::new(8);
    mixer.mix_layers(&mut layers, &mut output);
    assert_eq!(output, vec![1_000_000; 8]);
}

#[test]
fn test_solo_overrides_mute_of_others() {
    // Mixing with layer 0 soloed ...
    let mut soloed = create_test_layers(3, 8);
    soloed[0].buffer = vec![300_000; 8];
    soloed[1].buffer = vec![500_000; 8];
    soloed[2].buffer = vec![700_000; 8];
    soloed[0].is_solo = true;

    // ... equals mixing with every other layer muted instead.
    let mut muted = create_test_layers(3, 8);
    muted[0].buffer = vec![300_000; 8];
    muted[1].buffer = vec![500_000; 8];
    muted[2].buffer = vec![700_000; 8];
    muted[1].is_muted = true;
    muted[2].is_muted = true;

    let mut out_soloed = vec![0; 8];
    let mut out_muted = vec![0; 8];
    let mut mixer = ScalarMixer::new(8);
    mixer.mix_layers(&mut soloed, &mut out_soloed);
    mixer.mix_layers(&mut muted, &mut out_muted);
    assert_eq!(out_soloed, out_muted);
    assert_eq!(out_soloed, vec![300_000; 8]);
}

#[test]
fn test_muted_layer_is_silent() {
    let mut layers = create_test_layers(1, 4);
    layers[0].is_muted = true;
    let mut output = vec![99; 4];
    let mut mixer = SimdMixer::new(4);
    mixer.mix_layers(&mut layers, &mut output);
    assert_eq!(output, vec![0; 4]);
}
