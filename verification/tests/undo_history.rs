use looper::undo_history::{LayerSnapshot, UndoHistory};

#[test]
fn test_basic_undo_redo() {
    let mut history = UndoHistory::new();

    // Save initial state (1.0, 2.0, 3.0 at fixed-point scale)
    let mut snapshot = LayerSnapshot::new();
    snapshot.buffer = vec![1_000_000, 2_000_000, 3_000_000];
    history.save_state(snapshot);

    // Save second state
    let mut snapshot2 = LayerSnapshot::new();
    snapshot2.buffer = vec![4_000_000, 5_000_000, 6_000_000];
    history.save_state(snapshot2);

    // Test undo (should go back to first state)
    let undo_result = history.undo().unwrap();
    assert_eq!(undo_result.buffer, vec![1_000_000, 2_000_000, 3_000_000]);

    // Test redo (should go forward to second state)
    let redo_result = history.redo().unwrap();
    assert_eq!(redo_result.buffer, vec![4_000_000, 5_000_000, 6_000_000]);
}

#[test]
fn test_history_limits() {
    let mut history = UndoHistory::new_with_levels(3);

    // Add more than max levels
    for i in 0..6 {
        let mut snapshot = LayerSnapshot::new();
        snapshot.buffer = vec![i * 1_000_000];
        history.save_state(snapshot);
    }

    // Should only keep last 3 states
    assert_eq!(history.history_size(), 3);
    assert!(history.can_undo());
    assert!(!history.can_redo());

    // Should be able to undo 2 levels
    assert_eq!(history.undo_levels(), 2);
}

#[test]
fn test_can_undo_redo() {
    let mut history = UndoHistory::new();

    // Initially no undo/redo available
    assert!(!history.can_undo());
    assert!(!history.can_redo());

    // After one state, no undo available
    let snapshot = LayerSnapshot::new();
    history.save_state(snapshot);
    assert!(!history.can_undo());
    assert!(!history.can_redo());

    // After second state, undo available
    let snapshot2 = LayerSnapshot::new();
    history.save_state(snapshot2);
    assert!(history.can_undo());
    assert!(!history.can_redo());

    // After undo, redo available
    history.undo().unwrap();
    assert!(!history.can_undo());
    assert!(history.can_redo());
}

#[test]
fn test_future_truncation() {
    let mut history = UndoHistory::new();

    // Add 3 states
    for i in 0..3 {
        let mut snapshot = LayerSnapshot::new();
        snapshot.buffer = vec![i * 1_000_000];
        history.save_state(snapshot);
    }

    // Undo one step
    history.undo().unwrap();
    assert_eq!(history.redo_levels(), 1);

    // Save new state (should truncate future)
    let mut snapshot = LayerSnapshot::new();
    snapshot.buffer = vec![99_000_000];
    history.save_state(snapshot);

    // Should not be able to redo to old future state
    assert!(!history.can_redo());
}

#[test]
fn test_get_current_and_clear() {
    let mut history = UndoHistory::new();
    assert!(history.get_current().is_none());
    assert!(history.is_empty());

    let mut snapshot = LayerSnapshot::new();
    snapshot.buffer = vec![42];
    history.save_state(snapshot);
    assert_eq!(history.get_current().unwrap().buffer, vec![42]);
    assert!(!history.is_empty());

    history.clear();
    assert!(history.is_empty());
    assert!(history.get_current().is_none());
    assert_eq!(history.redo_levels(), 0);
}
