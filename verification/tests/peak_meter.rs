use looper::peak_meter::{int_sqrt, MeterColor, PeakMeter};

#[test]
fn test_peak_detection() {
    let mut meter = PeakMeter::new();

    // Silent samples
    let silent = vec![0; 100];
    meter.update(&silent);
    assert_eq!(meter.get_peak(), 0);

    // Full scale
    let full = vec![1_000_000; 100];
    meter.update(&full);
    assert!(meter.get_peak() > 900_000);
}

#[test]
fn test_peak_hold() {
    let mut meter = PeakMeter::new();

    // Send peak (0.8 full scale)
    let peak = vec![800_000; 10];
    meter.update(&peak);
    let initial_hold = meter.get_peak_hold();
    assert!(initial_hold >= 800_000);

    // Send lower level
    let lower = vec![200_000; 10];
    meter.update(&lower);

    // Peak hold should still be high
    assert!(meter.get_peak_hold() >= 700_000);
}

#[test]
fn test_color_mapping() {
    assert_eq!(PeakMeter::get_color(500_000), MeterColor::Normal);
    assert_eq!(PeakMeter::get_color(800_000), MeterColor::Warn);
    assert_eq!(PeakMeter::get_color(950_000), MeterColor::Hot);
    assert_eq!(PeakMeter::get_color(1_100_000), MeterColor::Clip);
}

#[test]
fn test_int_sqrt_exact() {
    assert_eq!(int_sqrt(0), 0);
    assert_eq!(int_sqrt(1), 1);
    assert_eq!(int_sqrt(3), 1);
    assert_eq!(int_sqrt(4), 2);
    assert_eq!(int_sqrt(1_000_000_000_000), 1_000_000);
    assert_eq!(int_sqrt(u64::MAX), 0xffff_ffff);
}

#[test]
fn test_rms_of_constant_signal() {
    let mut meter = PeakMeter::new();
    // A constant full-scale signal has RMS equal to its level; smoothing
    // admits 20% of it per update.
    meter.update(&vec![1_000_000; 64]);
    assert_eq!(meter.get_rms(), 200_000);
    meter.update(&vec![1_000_000; 64]);
    assert_eq!(meter.get_rms(), 360_000);
}
