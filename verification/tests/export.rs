use looper::export::{mix_for_export, ExportError};

#[test]
fn test_export_requires_layers() {
    assert_eq!(mix_for_export(&vec![]), Err(ExportError::NoLayers));
}

#[test]
fn test_export_requires_content() {
    assert_eq!(
        mix_for_export(&vec![vec![], vec![]]),
        Err(ExportError::AllLayersEmpty)
    );
}

#[test]
fn test_export_normalizes_peak_to_headroom() {
    // Peak is 0.5; the mix is scaled so it lands at 0.95.
    let out = mix_for_export(&vec![vec![500_000, -250_000]]).unwrap();
    assert_eq!(out, vec![950_000, -475_000]);
}

#[test]
fn test_export_sums_layers_of_different_lengths() {
    let a = vec![100_000, 100_000, 100_000];
    let b = vec![300_000];
    let out = mix_for_export(&vec![a, b]).unwrap();
    // Sums are 0.4, 0.1, 0.1; normalized by peak 0.4 toward 0.95.
    assert_eq!(out.len(), 3);
    assert_eq!(out[0], 950_000);
    assert_eq!(out[1], 237_500);
    assert_eq!(out[2], 237_500);
}

#[test]
fn test_export_of_silence_stays_silent() {
    let out = mix_for_export(&vec![vec![0, 0, 0]]).unwrap();
    assert_eq!(out, vec![0, 0, 0]);
}
