//! Progress accounting and event throttling.

use swarmdrop::progress::{
    FileDesc, ProgressTracker, TransferDirection, THROTTLE_INTERVAL_MS,
};

fn tracker_with_two_files() -> ProgressTracker {
    let mut t = ProgressTracker::new(7, TransferDirection::Receive, 0, 2, 0);
    let descs = vec![
        FileDesc { file_id: 0, name: String::from("a.txt"), size: 100 },
        FileDesc { file_id: 1, name: String::from("b.txt"), size: 50 },
    ];
    t.init_files(&descs);
    t
}

#[test]
fn transferred_bytes_monotonic_and_bounded() {
    let mut t = tracker_with_two_files();
    assert_eq!(t.transferred_bytes(), 0);
    let mut last = 0;
    t.update_file_chunk(0, 60);
    assert!(t.transferred_bytes() >= last);
    last = t.transferred_bytes();
    t.update_file_chunk(1, 50);
    assert!(t.transferred_bytes() >= last);
    last = t.transferred_bytes();
    t.update_file_chunk(0, 60);
    assert!(t.transferred_bytes() >= last);
    // Never beyond the declared total.
    assert!(t.transferred_bytes() <= 150);
    assert_eq!(t.transferred_bytes(), 150);
}

#[test]
fn completion_pins_exact_size() {
    let mut t = tracker_with_two_files();
    // One chunk completes a 100-byte file even if the reported chunk is
    // larger: the figure is clamped to the declared size.
    t.update_file_chunk(0, 1000);
    assert_eq!(t.transferred_bytes(), 100);
}

#[test]
fn unknown_file_changes_nothing() {
    let mut t = tracker_with_two_files();
    t.update_file_chunk(99, 10);
    assert_eq!(t.transferred_bytes(), 0);
}

#[test]
fn duplicate_chunks_after_completion_change_nothing() {
    let mut t = tracker_with_two_files();
    t.update_file_chunk(1, 50);
    assert_eq!(t.transferred_bytes(), 50);
    t.update_file_chunk(1, 50);
    assert_eq!(t.transferred_bytes(), 50);
}

#[test]
fn progress_events_throttle_to_one_per_interval() {
    let mut t = tracker_with_two_files();
    // The first emission always passes.
    assert!(t.emit_progress(1000).is_some());
    // Inside the interval: suppressed.
    assert!(t.emit_progress(1000 + THROTTLE_INTERVAL_MS - 1).is_none());
    assert!(t.emit_progress(1100).is_none());
    // At the interval boundary: passes again.
    assert!(t.emit_progress(1000 + THROTTLE_INTERVAL_MS).is_some());
    // And the clock of the second emission starts the next interval.
    assert!(t.emit_progress(1000 + 2 * THROTTLE_INTERVAL_MS - 1).is_none());
}

#[test]
fn completion_event_bypasses_throttle() {
    let mut t = tracker_with_two_files();
    assert!(t.emit_progress(0).is_some());
    t.update_file_chunk(0, 100);
    let done = t.emit_complete(10, Some(String::from("/tmp")));
    assert_eq!(done.session_id, 7);
    assert_eq!(done.total_bytes, 100);
}

#[test]
fn progress_event_carries_totals() {
    let mut t = tracker_with_two_files();
    t.update_file_chunk(0, 100);
    let e = t.emit_progress(0).unwrap();
    assert_eq!(e.session_id, 7);
    assert_eq!(e.total_files, 2);
    assert_eq!(e.completed_files, 1);
    assert_eq!(e.total_bytes, 150);
    assert_eq!(e.transferred_bytes, 100);
    assert_eq!(e.files.len(), 2);
}
