use looper::ring::LockFreeAudioBuffer;

#[test]
fn test_lockfree_write_read() {
    let mut buffer = LockFreeAudioBuffer::new(1024);

    // Write samples (0.1, 0.2, 0.3, 0.4 at fixed-point scale)
    let input = vec![100_000, 200_000, 300_000, 400_000];
    assert!(buffer.write(&input));

    // Read samples
    let mut output = vec![0; 4];
    assert_eq!(buffer.read(&mut output), 4);
    assert_eq!(output, input);
}

#[test]
fn test_overrun_detection() {
    let mut buffer = LockFreeAudioBuffer::new(8);

    // Fill buffer
    let input = vec![1_000_000; 8];
    assert!(buffer.write(&input));

    // Try to overfill
    let overflow = vec![2_000_000; 8];
    assert!(!buffer.write(&overflow));

    // Check overrun flag
    assert!(buffer.check_and_clear_overrun());
    assert!(!buffer.check_and_clear_overrun()); // Should clear
}

#[test]
fn test_partial_read_and_available() {
    let mut buffer = LockFreeAudioBuffer::new(16);
    assert_eq!(buffer.capacity(), 16);
    assert!(buffer.write(&vec![7, 8, 9]));
    assert_eq!(buffer.available(), 3);

    // A larger output buffer is only filled with what is there.
    let mut output = vec![0; 5];
    assert_eq!(buffer.read(&mut output), 3);
    assert_eq!(&output[..3], &[7, 8, 9]);
    assert_eq!(&output[3..], &[0, 0]);
    assert_eq!(buffer.available(), 0);
}

#[test]
fn test_overflow_keeps_leading_samples() {
    let mut buffer = LockFreeAudioBuffer::new(4);
    assert!(!buffer.write(&vec![1, 2, 3, 4, 5, 6]));
    assert!(buffer.check_and_clear_overrun());

    // The excess was not retained: only the first four samples are there.
    let mut output = vec![0; 6];
    assert_eq!(buffer.read(&mut output), 4);
    assert_eq!(&output[..4], &[1, 2, 3, 4]);
}
