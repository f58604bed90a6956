//! How far cursors move.

use pulsedb::sync::progress::{next_progress, SyncProgressCallback};

/// The policy, pinned by case rather than by prose.
#[test]
fn recovery_v5_next_progress_policy() {
    // A page that emitted nothing because everything was filtered is still
    // progress: the producer scanned to 20 and nothing failed.
    assert_eq!(next_progress(10, 20, 0, None), 20);
    // A failure caps the advance at the actual-success position — never the
    // filtered tail beyond it.
    assert_eq!(next_progress(10, 20, 1, Some(14)), 14);
    // A failure with no justified success leaves the cursor alone.
    assert_eq!(next_progress(10, 20, 1, None), 10);
    // And it never retreats.
    assert_eq!(next_progress(14, 20, 1, Some(12)), 14);
}

/// The no-failure arm is a max, not an assignment: a responder that hands
/// back a position below where this side already is cannot rewind it.
#[test]
fn recovery_v5_next_progress_never_retreats_on_success() {
    assert_eq!(next_progress(30, 20, 0, None), 30);
    assert_eq!(next_progress(0, 0, 0, None), 0);
}

/// Any type can listen.
struct Listener {
    seen: std::cell::RefCell<Vec<(usize, usize, bool)>>,
}

impl SyncProgressCallback for Listener {
    fn on_progress(&self, batch_complete: usize, total_pulled: usize, has_more: bool) {
        self.seen.borrow_mut().push((batch_complete, total_pulled, has_more));
    }
}

#[test]
fn a_listener_is_told_of_each_batch() {
    let listener = Listener { seen: std::cell::RefCell::new(Vec::new()) };
    let callback: &dyn SyncProgressCallback = &listener;
    callback.on_progress(3, 3, true);
    callback.on_progress(1, 4, false);
    assert_eq!(*listener.seen.borrow(), vec![(3, 3, true), (1, 4, false)]);
}
