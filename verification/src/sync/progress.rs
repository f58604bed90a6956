//! How far a cursor may move after one exchange, and who is told of it.

use vstd::prelude::*;

verus! {

/// Told after each batch of a catch-up.
pub trait SyncProgressCallback: Send {
    /// `batch_complete` changes were just applied, `total_pulled` in all, and the
    /// peer has more or not.
    fn on_progress(&self, batch_complete: usize, total_pulled: usize, has_more: bool);
}

/// The larger of two positions.
pub open spec fn later(a: u64, b: u64) -> u64 {
    if a >= b {
        a
    } else {
        b
    }
}

/// Where a cursor at `prior` moves after an exchange that scanned through
/// `scanned`, left `failed` changes unapplied, and applied everything through
/// `safe`.
pub open spec fn progress(prior: u64, scanned: u64, failed: nat, safe: Option<u64>) -> u64 {
    if failed == 0 {
        later(prior, scanned)
    } else {
        match safe {
            Some(s) => later(prior, s),
            None => prior,
        }
    }
}

/// How far a cursor may move. With nothing failed it takes the scan position, so
/// that an entirely filtered page is progress; with anything failed it takes only
/// what was actually applied, or stays.
pub fn next_progress(prior: u64, scanned: u64, failed: usize, safe: Option<u64>) -> (next: u64)
    ensures
        next == progress(prior, scanned, failed as nat, safe),
{
    if failed == 0 {
        if prior >= scanned {
            prior
        } else {
            scanned
        }
    } else {
        match safe {
            Some(s) => if prior >= s {
                prior
            } else {
                s
            },
            None => prior,
        }
    }
}

/// A cursor never retreats.
pub proof fn law_cursor_never_retreats(prior: u64, scanned: u64, failed: nat, safe: Option<u64>)
    ensures
        progress(prior, scanned, failed, safe) >= prior,
{
}

/// A cursor never passes a change that failed: where the safe position lies below
/// every failure, so does the cursor, unless it was past it already.
pub proof fn law_cursor_stays_below_failures(
    prior: u64,
    scanned: u64,
    failures: Seq<u64>,
    safe: Option<u64>,
    i: int,
)
    requires
        0 <= i < failures.len(),
        prior < failures[i],
        safe matches Some(s) ==> s < failures[i],
    ensures
        progress(prior, scanned, failures.len(), safe) < failures[i],
{
}

/// A page without failures moves the cursor at least to its scan position.
pub proof fn law_filtered_page_is_progress(prior: u64, scanned: u64)
    requires
        scanned > prior,
    ensures
        progress(prior, scanned, 0, None) == scanned,
{
}

} // verus!
