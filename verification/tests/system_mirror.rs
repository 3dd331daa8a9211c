use vision_lab::comm::ComponentIdentity;
use vision_lab::mirror::SequenceTracker;

#[test]
fn tracker_detects_sequence_gap() {
    let source = ComponentIdentity::new("vision", "main", "0");
    let mut tracker = SequenceTracker::default();
    assert!(!tracker.observe(&source, 1));
    assert!(!tracker.observe(&source, 2));
    assert!(tracker.observe(&source, 4));
    assert!(!tracker.observe(&source, 5));
}

#[test]
fn tracker_detects_restart_sequence_reset() {
    let source = ComponentIdentity::new("vision", "main", "0");
    let mut tracker = SequenceTracker::default();
    assert!(!tracker.observe(&source, 7));
    assert!(tracker.observe(&source, 1));
}
