//! What pulls tell of a log.
//!
//! A peer that pulls sees the log only through pages. The laws here relate pages to the
//! log itself: which of its rows a page covers, what it tells of them, and that a run of
//! pulls tells everything behind its first position once and in order.

use vstd::prelude::*;

use crate::storage::schema::WatchEventRecord;
use crate::storage::wal::{in_order, polled, rows_through};
use crate::sync::batch::{kept, LogCandidate};
use crate::sync::error::SyncError;
use crate::sync::payload::Entity;
use crate::sync::server::{
    host_size, page_blocks, page_covers, page_extends, resolved, screened, SyncServer,
    PULL_PAGE_EVENT_LIMIT,
};
use crate::sync::types::{PullPage, PullRequest, SyncChange, WireReply, WireResult};
use crate::sync::wire::MIN_CONTROL_FRAME_BYTES;
use crate::types::{CollectiveId, InstanceId};

verus! {

/// What `source` tells a peer of one row of its log: the change the row stands for, if
/// its record still resolves and the peer asked for its collective. `found` gives the
/// record an event speaks of.
pub open spec fn told_one(
    row: (u64, WatchEventRecord),
    source: InstanceId,
    filter: Option<Vec<CollectiveId>>,
    found: spec_fn(WatchEventRecord) -> Option<Entity>,
) -> Option<SyncChange> {
    match resolved(row.0, row.1, source, found(row.1)) {
        Some(change) => if crate::sync::config::allowed(filter, change.collective_id) {
            Some(change)
        } else {
            None
        },
        None => None,
    }
}

/// What `source` tells a peer of rows of its log, in log order.
pub open spec fn told(
    rows: Seq<(u64, WatchEventRecord)>,
    source: InstanceId,
    filter: Option<Vec<CollectiveId>>,
    found: spec_fn(WatchEventRecord) -> Option<Entity>,
) -> Seq<SyncChange>
    decreases rows.len(),
{
    if rows.len() == 0 {
        Seq::empty()
    } else {
        let before = told(rows.drop_last(), source, filter, found);
        match told_one(rows.last(), source, filter, found) {
            Some(change) => before.push(change),
            None => before,
        }
    }
}

/// The rows of `log` behind `from`, through `through`.
pub open spec fn rows_between(
    log: Seq<(u64, WatchEventRecord)>,
    from: u64,
    through: u64,
) -> Seq<(u64, WatchEventRecord)> {
    log.subrange(rows_through(log, from) as int, rows_through(log, through) as int)
}

/// Whether `events` are what a pull behind `since` reads of `log`: the rows one poll
/// hands out, each with what its record resolves to, or why the record could not be read.
pub open spec fn reads_log(
    events: Seq<LogCandidate>,
    log: Seq<(u64, WatchEventRecord)>,
    since: u64,
    source: InstanceId,
    found: spec_fn(WatchEventRecord) -> Option<Entity>,
) -> bool {
    let rows = polled(log, since, PULL_PAGE_EVENT_LIMIT as nat);
    &&& events.len() == rows.len()
    &&& forall|i: int|
        #![trigger events[i]]
        0 <= i < events.len() ==> {
            &&& events[i].sequence == rows[i].0
            &&& events[i].change matches Ok(change) ==> change == resolved(
                rows[i].0,
                rows[i].1,
                source,
                found(rows[i].1),
            )
        }
}

/// Whether a page served behind `from` accounts for the log: it never retreats, it holds
/// exactly what there is to tell of the rows it covers, it reports the end only where no
/// row is left, and it covers at least one row where it reports more.
pub open spec fn accounts_for(
    page: PullPage,
    log: Seq<(u64, WatchEventRecord)>,
    from: u64,
    source: InstanceId,
    filter: Option<Vec<CollectiveId>>,
    found: spec_fn(WatchEventRecord) -> Option<Entity>,
) -> bool {
    let through = page.scan_position.sequence;
    &&& from <= through
    &&& page.changes@ == told(rows_between(log, from, through), source, filter, found)
    &&& !page.has_more ==> rows_through(log, through) == log.len()
    &&& page.has_more ==> from < through && rows_through(log, from) < rows_through(log, through)
}

proof fn lemma_kept_is_told(
    events: Seq<LogCandidate>,
    rows: Seq<(u64, WatchEventRecord)>,
    n: int,
    source: InstanceId,
    filter: Option<Vec<CollectiveId>>,
    found: spec_fn(WatchEventRecord) -> Option<Entity>,
)
    requires
        0 <= n <= events.len(),
        events.len() == rows.len(),
        forall|i: int|
            #![trigger events[i]]
            0 <= i < n ==> events[i].change == Ok::<Option<SyncChange>, SyncError>(
                resolved(rows[i].0, rows[i].1, source, found(rows[i].1)),
            ),
    ensures
        kept(screened(events, filter).take(n)) == told(rows.take(n), source, filter, found),
    decreases n,
{
    let candidates = screened(events, filter);
    if n == 0 {
        assert(candidates.take(0) =~= Seq::empty());
        assert(rows.take(0) =~= Seq::empty());
    } else {
        lemma_kept_is_told(events, rows, n - 1, source, filter, found);
        crate::sync::batch::lemma_take_next(candidates, n - 1);
        assert(rows.take(n).drop_last() =~= rows.take(n - 1));
        assert(rows.take(n).last() == rows[n - 1]);
        assert(candidates[n - 1] == crate::sync::server::screened_one(events[n - 1], filter));
        assert(events[n - 1].change is Ok);
    }
}

/// A served page accounts for the log it was read from. Of every row it covers it holds
/// the change exactly where the row's record resolves and the peer asked for it; a page
/// that reports no more leaves no row behind it; and one that reports more moves the
/// peer's position. What is asked of the server and of `base` is what
/// [`SyncServer::handle_pull`] asks, so the law holds of every page that it serves.
pub proof fn law_served_page_accounts_for_the_log(
    server: SyncServer,
    request: PullRequest,
    log: Seq<(u64, WatchEventRecord)>,
    found: spec_fn(WatchEventRecord) -> Option<Entity>,
    events: Seq<LogCandidate>,
    base: usize,
    reply: WireReply<PullPage>,
    page: PullPage,
)
    requires
        server.config.is_valid(),
        server.accepts_pull(request),
        in_order(log),
        reads_log(events, log, request.cursor.sequence, server.instance_id, found),
        base + 9 <= MIN_CONTROL_FRAME_BYTES,
        exists|n: int| #[trigger]
            server.is_pull_answer(
                request,
                screened(events, request.collectives),
                base,
                n,
                Ok::<WireReply<PullPage>, SyncError>(reply),
            ),
        reply.result == WireResult::Served(page),
    ensures
        accounts_for(
            page,
            log,
            request.cursor.sequence,
            server.instance_id,
            request.collectives,
            found,
        ),
{
    let n = choose|n: int| #[trigger]
        server.is_pull_answer(
            request,
            screened(events, request.collectives),
            base,
            n,
            Ok::<WireReply<PullPage>, SyncError>(reply),
        );
    let from = request.cursor.sequence;
    let source = server.instance_id;
    let filter = request.collectives;
    let cap = server.reply_budget(request.reply_limit_bytes);
    let batch_size = host_size(request.batch_size);
    let candidates = screened(events, filter);
    let rows = polled(log, from, PULL_PAGE_EVENT_LIMIT as nat);
    let k = rows_through(log, from) as int;
    crate::storage::wal::lemma_rows_through_split(log, from);
    assert(page_covers(candidates, n, base, from, cap, batch_size));
    assert forall|i: int| #![trigger events[i]] 0 <= i < n implies events[i].change == Ok::<
        Option<SyncChange>,
        SyncError,
    >(resolved(rows[i].0, rows[i].1, source, found(rows[i].1))) by {
        assert(page_extends(candidates, i, base, from, cap, batch_size));
        assert(candidates[i] == crate::sync::server::screened_one(events[i], filter));
    }
    lemma_kept_is_told(events, rows, n, source, filter, found);
    let through = page.scan_position.sequence;
    if n > 0 {
        assert(candidates.take(n).last() == candidates[n - 1]);
        assert(candidates[n - 1].sequence == events[n - 1].sequence);
        assert(rows[n - 1] == log[k + n - 1]);
        assert(through == log[k + n - 1].0);
        assert forall|i: int| #![trigger log[i]] 0 <= i < k + n implies log[i].0 <= through by {
            if i < k + n - 1 {
                assert(log[i].0 < log[k + n - 1].0);
            }
        }
        crate::storage::wal::lemma_rows_through(log, through, k + n);
    } else {
        assert(candidates.take(0) =~= Seq::empty());
    }
    assert(rows_through(log, through) == k + n);
    assert(rows_between(log, from, through) =~= rows.take(n));
    if page.has_more && n == 0 {
        assert(candidates.len() > 0);
        assert(candidates[0].change is Ok);
        assert(base + 9 <= cap);
        crate::sync::server::law_pull_progresses(candidates, n, base, from, cap, batch_size);
        assert(page_blocks(candidates, 0, base, from, cap, batch_size));
    }
}

proof fn lemma_told_concat(
    first: Seq<(u64, WatchEventRecord)>,
    second: Seq<(u64, WatchEventRecord)>,
    source: InstanceId,
    filter: Option<Vec<CollectiveId>>,
    found: spec_fn(WatchEventRecord) -> Option<Entity>,
)
    ensures
        told(first + second, source, filter, found) == told(first, source, filter, found) + told(
            second,
            source,
            filter,
            found,
        ),
    decreases second.len(),
{
    if second.len() == 0 {
        assert(first + second =~= first);
    } else {
        lemma_told_concat(first, second.drop_last(), source, filter, found);
        assert((first + second).drop_last() =~= first + second.drop_last());
        assert((first + second).last() == second.last());
    }
    assert(told(first + second, source, filter, found) =~= told(first, source, filter, found)
        + told(second, source, filter, found));
}

/// A change is among what is told of rows exactly where one of them stands for it.
pub proof fn law_told_row_by_row(
    rows: Seq<(u64, WatchEventRecord)>,
    source: InstanceId,
    filter: Option<Vec<CollectiveId>>,
    found: spec_fn(WatchEventRecord) -> Option<Entity>,
    change: SyncChange,
)
    ensures
        told(rows, source, filter, found).contains(change) <==> exists|i: int|
            0 <= i < rows.len() && #[trigger] told_one(rows[i], source, filter, found) == Some(
                change,
            ),
    decreases rows.len(),
{
    let all = told(rows, source, filter, found);
    if rows.len() > 0 {
        let init = rows.drop_last();
        let before = told(init, source, filter, found);
        law_told_row_by_row(init, source, filter, found, change);
        if all.contains(change) {
            let j = choose|j: int| 0 <= j < all.len() && all[j] == change;
            if j < before.len() {
                assert(before[j] == change);
                let i = choose|i: int|
                    0 <= i < init.len() && #[trigger] told_one(init[i], source, filter, found)
                        == Some(change);
                assert(told_one(rows[i], source, filter, found) == Some(change));
            } else {
                assert(told_one(rows[rows.len() - 1], source, filter, found) == Some(change));
            }
        }
        if exists|i: int|
            0 <= i < rows.len() && #[trigger] told_one(rows[i], source, filter, found) == Some(
                change,
            ) {
            let i = choose|i: int|
                0 <= i < rows.len() && #[trigger] told_one(rows[i], source, filter, found) == Some(
                    change,
                );
            if i < rows.len() - 1 {
                assert(told_one(init[i], source, filter, found) == Some(change));
                let j = choose|j: int| 0 <= j < before.len() && before[j] == change;
                assert(all[j] == change);
            } else {
                assert(all.last() == change);
            }
        }
    }
}

/// Of every row behind the position that was asked from and not beyond the position that
/// it reports, a page holds a change with that row's sequence exactly where the row's
/// record resolves and the peer asked for its collective; the change is the one the row
/// stands for.
pub proof fn law_page_tells_each_row(
    page: PullPage,
    log: Seq<(u64, WatchEventRecord)>,
    from: u64,
    source: InstanceId,
    filter: Option<Vec<CollectiveId>>,
    found: spec_fn(WatchEventRecord) -> Option<Entity>,
    i: int,
)
    requires
        in_order(log),
        accounts_for(page, log, from, source, filter, found),
        0 <= i < log.len(),
        from < log[i].0 <= page.scan_position.sequence,
    ensures
        (exists|j: int|
            0 <= j < page.changes@.len() && #[trigger] page.changes@[j].sequence == log[i].0) <==> (
        told_one(log[i], source, filter, found) is Some),
        told_one(log[i], source, filter, found) matches Some(change) ==> change.sequence
            == log[i].0 && page.changes@.contains(change),
{
    let through = page.scan_position.sequence;
    let rows = rows_between(log, from, through);
    let a = rows_through(log, from) as int;
    crate::storage::wal::lemma_rows_through_split(log, from);
    crate::storage::wal::lemma_rows_through_split(log, through);
    assert(rows[i - a] == log[i]);
    if let Some(change) = told_one(log[i], source, filter, found) {
        assert(told_one(rows[i - a], source, filter, found) == Some(change));
        law_told_row_by_row(rows, source, filter, found, change);
        let j = choose|j: int| 0 <= j < page.changes@.len() && page.changes@[j] == change;
        assert(page.changes@[j].sequence == log[i].0);
    }
    if exists|j: int|
        0 <= j < page.changes@.len() && #[trigger] page.changes@[j].sequence == log[i].0 {
        let j = choose|j: int|
            0 <= j < page.changes@.len() && #[trigger] page.changes@[j].sequence == log[i].0;
        let change = page.changes@[j];
        assert(page.changes@.contains(change));
        law_told_row_by_row(rows, source, filter, found, change);
        let k = choose|k: int|
            0 <= k < rows.len() && #[trigger] told_one(rows[k], source, filter, found) == Some(
                change,
            );
        assert(rows[k] == log[a + k]);
        assert(rows[k].0 == log[i].0);
        if a + k < i {
            assert(log[a + k].0 < log[i].0);
        } else if a + k > i {
            assert(log[i].0 < log[a + k].0);
        }
    }
}

/// A pull that is not served for a change too large names the first row behind the
/// peer's position: nothing before it is left untold.
pub proof fn law_too_large_names_the_next_row(
    server: SyncServer,
    request: PullRequest,
    log: Seq<(u64, WatchEventRecord)>,
    found: spec_fn(WatchEventRecord) -> Option<Entity>,
    events: Seq<LogCandidate>,
    base: usize,
    reply: WireReply<PullPage>,
)
    requires
        in_order(log),
        reads_log(events, log, request.cursor.sequence, server.instance_id, found),
        exists|n: int| #[trigger]
            server.is_pull_answer(
                request,
                screened(events, request.collectives),
                base,
                n,
                Ok::<WireReply<PullPage>, SyncError>(reply),
            ),
        reply.result is ChangeTooLarge,
    ensures
        ({
            let next = rows_through(log, request.cursor.sequence) as int;
            &&& next < log.len()
            &&& reply.result->ChangeTooLarge_sequence == log[next].0
            &&& told_one(log[next], server.instance_id, request.collectives, found) is Some
        }),
{
    let n = choose|n: int| #[trigger]
        server.is_pull_answer(
            request,
            screened(events, request.collectives),
            base,
            n,
            Ok::<WireReply<PullPage>, SyncError>(reply),
        );
    let from = request.cursor.sequence;
    let candidates = screened(events, request.collectives);
    let rows = polled(log, from, PULL_PAGE_EVENT_LIMIT as nat);
    crate::storage::wal::lemma_rows_through_split(log, from);
    assert(page_blocks(
        candidates,
        n,
        base,
        from,
        server.reply_budget(request.reply_limit_bytes),
        host_size(request.batch_size),
    ));
    if n > 0 {
        assert(candidates.take(n).last() == candidates[n - 1]);
        assert(candidates[n - 1].sequence == events[n - 1].sequence);
        assert(rows[n - 1] == log[rows_through(log, from) + n - 1]);
    }
    assert(candidates[0] == crate::sync::server::screened_one(events[0], request.collectives));
    assert(rows[0] == log[rows_through(log, from) as int]);
}

/// The position behind the first `k` pages of a run of pulls that began behind `from`.
pub open spec fn run_position(pages: Seq<PullPage>, from: u64, k: int) -> u64 {
    if k <= 0 {
        from
    } else {
        pages[k - 1].scan_position.sequence
    }
}

/// Whether each page of a run of pulls was served behind the page before it, the first
/// behind `from`.
pub open spec fn is_pull_run(
    pages: Seq<PullPage>,
    log: Seq<(u64, WatchEventRecord)>,
    from: u64,
    source: InstanceId,
    filter: Option<Vec<CollectiveId>>,
    found: spec_fn(WatchEventRecord) -> Option<Entity>,
) -> bool {
    forall|k: int|
        #![trigger pages[k]]
        0 <= k < pages.len() ==> accounts_for(
            pages[k],
            log,
            run_position(pages, from, k),
            source,
            filter,
            found,
        )
}

/// The changes of the first `k` pages, one page behind the other.
pub open spec fn run_changes(pages: Seq<PullPage>, k: int) -> Seq<SyncChange>
    decreases k,
{
    if k <= 0 {
        Seq::empty()
    } else {
        run_changes(pages, k - 1) + pages[k - 1].changes@
    }
}

/// A run of pulls tells everything between its first and its last position once and in
/// log order, and a page that reports no more is the last one a peer has to ask for:
/// nothing behind the first position is left untold.
pub proof fn law_pull_run_tells_the_log(
    pages: Seq<PullPage>,
    k: int,
    log: Seq<(u64, WatchEventRecord)>,
    from: u64,
    source: InstanceId,
    filter: Option<Vec<CollectiveId>>,
    found: spec_fn(WatchEventRecord) -> Option<Entity>,
)
    requires
        in_order(log),
        is_pull_run(pages, log, from, source, filter, found),
        0 <= k <= pages.len(),
    ensures
        from <= run_position(pages, from, k),
        rows_through(log, from) <= rows_through(log, run_position(pages, from, k)) <= log.len(),
        run_changes(pages, k) == told(
            rows_between(log, from, run_position(pages, from, k)),
            source,
            filter,
            found,
        ),
        k > 0 && !pages[k - 1].has_more ==> run_changes(pages, k) == told(
            log.skip(rows_through(log, from) as int),
            source,
            filter,
            found,
        ),
    decreases k,
{
    crate::storage::wal::lemma_rows_through_split(log, from);
    if k == 0 {
        assert(rows_between(log, from, from) =~= Seq::empty());
    } else {
        law_pull_run_tells_the_log(pages, k - 1, log, from, source, filter, found);
        let middle = run_position(pages, from, k - 1);
        let through = run_position(pages, from, k);
        assert(accounts_for(pages[k - 1], log, middle, source, filter, found));
        crate::storage::wal::lemma_rows_through_split(log, middle);
        crate::storage::wal::lemma_rows_through_split(log, through);
        let a = rows_through(log, from) as int;
        let b = rows_through(log, middle) as int;
        let c = rows_through(log, through) as int;
        if c < b {
            assert(log[c].0 <= middle);
            assert(log[c].0 > through);
        }
        assert(rows_between(log, from, through) =~= rows_between(log, from, middle) + rows_between(
            log,
            middle,
            through,
        ));
        lemma_told_concat(
            rows_between(log, from, middle),
            rows_between(log, middle, through),
            source,
            filter,
            found,
        );
        if !pages[k - 1].has_more {
            assert(rows_between(log, from, through) =~= log.skip(a));
        }
    }
}

/// A run of pulls ends: as long as every page reports more, each covers at least one row
/// of its own, so there are no more such pages than rows behind the first position.
pub proof fn law_pull_run_ends(
    pages: Seq<PullPage>,
    k: int,
    log: Seq<(u64, WatchEventRecord)>,
    from: u64,
    source: InstanceId,
    filter: Option<Vec<CollectiveId>>,
    found: spec_fn(WatchEventRecord) -> Option<Entity>,
)
    requires
        in_order(log),
        is_pull_run(pages, log, from, source, filter, found),
        0 <= k <= pages.len(),
        forall|i: int| #![trigger pages[i]] 0 <= i < k ==> pages[i].has_more,
    ensures
        rows_through(log, from) + k <= rows_through(log, run_position(pages, from, k)),
        rows_through(log, from) + k <= log.len(),
    decreases k,
{
    law_pull_run_tells_the_log(pages, k, log, from, source, filter, found);
    if k > 0 {
        law_pull_run_ends(pages, k - 1, log, from, source, filter, found);
        assert(accounts_for(
            pages[k - 1],
            log,
            run_position(pages, from, k - 1),
            source,
            filter,
            found,
        ));
    }
}

} // verus!
