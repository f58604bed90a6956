//! Rollback copies: where they go, and the protocol that publishes one.
//!
//! A copy is staged under a temporary name, made durable, and only then renamed
//! into place, so the published name always holds a complete copy or nothing.

use vstd::prelude::*;

use crate::error::{IoFault, PulseDBError, StorageError};

verus! {

/// File name of a store whose path has none.
pub open spec fn base_name(file_name: Option<&str>) -> Seq<char> {
    match file_name {
        Some(name) => name@,
        None => "pulsedb.redb"@,
    }
}

/// Name, beside the store file, of the copy kept before a schema migration.
pub fn pre_v3_backup_path(file_name: Option<&str>) -> (name: String)
    ensures
        name@ == base_name(file_name) + ".pre-v3.bak"@,
{
    match file_name {
        Some(name) => crate::text::join(name, ".pre-v3.bak"),
        None => crate::text::join("pulsedb.redb", ".pre-v3.bak"),
    }
}

/// Name, beside the store file, of the copy kept before a file-format migration.
pub fn pre_substrate_backup_path(file_name: Option<&str>) -> (name: String)
    ensures
        name@ == base_name(file_name) + ".pre-substrate.bak"@,
{
    match file_name {
        Some(name) => crate::text::join(name, ".pre-substrate.bak"),
        None => crate::text::join("pulsedb.redb", ".pre-substrate.bak"),
    }
}

/// Where the copy at `backup_path` is staged.
pub fn backup_temp_path(backup_path: &str) -> (path: String)
    ensures
        path@ == backup_path@ + ".tmp"@,
{
    crate::text::join(backup_path, ".tmp")
}

/// The lock that serializes migrations of the store at `db_path`.
pub fn migration_lock_path(db_path: &str) -> (path: String)
    ensures
        path@ == db_path@ + ".migrate.lock"@,
{
    crate::text::join(db_path, ".migrate.lock")
}

/// No two of a store's sidecar names coincide, nor with their staging names.
pub proof fn law_sidecar_names_distinct(name: Seq<char>)
    ensures
        name + ".pre-v3.bak"@ != name + ".pre-substrate.bak"@,
        name + ".pre-v3.bak"@ + ".tmp"@ != name + ".pre-v3.bak"@,
        name + ".pre-substrate.bak"@ + ".tmp"@ != name + ".pre-substrate.bak"@,
{
    reveal_strlit(".pre-v3.bak");
    reveal_strlit(".pre-substrate.bak");
    reveal_strlit(".tmp");
    assert((name + ".pre-v3.bak"@).len() == name.len() + 11);
    assert((name + ".pre-substrate.bak"@).len() == name.len() + 18);
}

/// Whether a file failure means that another process holds the database file. Only
/// Windows reports that by these codes; elsewhere they mean something else.
pub open spec fn is_contention(fault: IoFault, windows: bool) -> bool {
    windows && (fault.os_code == Some(32i32) || fault.os_code == Some(33i32))
}

/// Whether a file failure means that another process holds the database file.
pub fn is_lock_contention_io_error(fault: IoFault, windows: bool) -> (yes: bool)
    ensures
        yes == is_contention(fault, windows),
{
    match fault.os_code {
        Some(code) => windows && (code == 32 || code == 33),
        None => false,
    }
}

/// The failure reported for a failed read of the database file.
pub open spec fn source_error(fault: IoFault, windows: bool) -> PulseDBError {
    if is_contention(fault, windows) {
        PulseDBError::Storage(StorageError::DatabaseLocked)
    } else {
        PulseDBError::Io(fault)
    }
}

/// The failure reported for a failed read of the database file: contention is the
/// retryable lock failure, everything else passes through.
pub fn migration_io_error(fault: IoFault, windows: bool) -> (e: PulseDBError)
    ensures
        e == source_error(fault, windows),
{
    if is_lock_contention_io_error(fault, windows) {
        PulseDBError::Storage(StorageError::DatabaseLocked)
    } else {
        PulseDBError::Io(fault)
    }
}

/// How a copy came to be in place.
#[derive(Clone, Copy, Debug, PartialEq, Eq, Structural)]
pub enum BackupOutcome {
    /// This attempt published it.
    Created,
    /// It was there already and was left alone.
    Preserved,
}

/// Where the protocol stands: which file operation is under way.
#[derive(Clone, Copy, Debug, PartialEq, Eq, Structural)]
pub enum BackupState {
    /// Asking whether the published name is taken.
    Checking,
    /// Removing whatever holds the staging name.
    Clearing,
    /// Creating the staging file.
    Creating,
    /// Opening the database file.
    Opening,
    /// Reading a chunk of the database file.
    Reading,
    /// Writing a chunk to the staging file.
    Writing,
    /// Making the staging file durable.
    Syncing,
    /// Renaming the staging file to the published name.
    Publishing,
    /// Making the directory durable, as far as the system can.
    SyncingDirectory,
    /// Removing the staging file after a failure.
    Abandoning {
        /// The failure.
        fault: IoFault,
        /// Whether it was a read of the database file that failed.
        on_source: bool,
    },
    /// Nothing is under way.
    Finished,
}

/// What the file operation under way reported.
#[derive(Clone, Copy, Debug, PartialEq, Eq, Structural)]
pub enum BackupEvent {
    /// Whether the published name is taken.
    Exists(bool),
    /// The operation succeeded.
    Done,
    /// The read found the end of the file.
    EndOfFile,
    /// The operation failed.
    Failed(IoFault),
}

/// The file operation to perform next, or how the protocol ended.
#[derive(Debug)]
pub enum BackupAction {
    /// Ask whether the published name is taken.
    Check,
    /// Remove whatever holds the staging name, without following it.
    RemoveTemp,
    /// Create the staging file, which must not exist.
    CreateTemp,
    /// Open the database file.
    OpenSource,
    /// Read a chunk of the database file.
    ReadChunk,
    /// Write the chunk to the staging file.
    WriteChunk,
    /// Make the staging file durable.
    SyncTemp,
    /// Rename the staging file to the published name.
    Publish,
    /// Make the directory durable, as far as the system can.
    SyncDirectory,
    /// The copy is in place.
    Finish(BackupOutcome),
    /// The protocol failed.
    Fail(PulseDBError),
}

/// What follows when the operation under way in `state` reports `event`.
pub open spec fn backup_next(state: BackupState, event: BackupEvent, windows: bool) -> (
    BackupState,
    BackupAction,
) {
    match (state, event) {
        (BackupState::Checking, BackupEvent::Exists(true)) => (
            BackupState::Finished,
            BackupAction::Finish(BackupOutcome::Preserved),
        ),
        (BackupState::Checking, BackupEvent::Exists(false)) => (
            BackupState::Clearing,
            BackupAction::RemoveTemp,
        ),
        (BackupState::Checking, BackupEvent::Failed(f)) => (
            BackupState::Finished,
            BackupAction::Fail(PulseDBError::Io(f)),
        ),
        // A staging name that was free is as good as one that was freed.
        (BackupState::Clearing, _) => (BackupState::Creating, BackupAction::CreateTemp),
        (BackupState::Creating, BackupEvent::Failed(f)) => (
            BackupState::Finished,
            BackupAction::Fail(PulseDBError::Io(f)),
        ),
        (BackupState::Creating, _) => (BackupState::Opening, BackupAction::OpenSource),
        (BackupState::Opening, BackupEvent::Failed(f)) => (
            BackupState::Abandoning { fault: f, on_source: true },
            BackupAction::RemoveTemp,
        ),
        (BackupState::Opening, _) => (BackupState::Reading, BackupAction::ReadChunk),
        (BackupState::Reading, BackupEvent::Failed(f)) => (
            BackupState::Abandoning { fault: f, on_source: true },
            BackupAction::RemoveTemp,
        ),
        (BackupState::Reading, BackupEvent::EndOfFile) => (
            BackupState::Syncing,
            BackupAction::SyncTemp,
        ),
        (BackupState::Reading, _) => (BackupState::Writing, BackupAction::WriteChunk),
        (BackupState::Writing, BackupEvent::Failed(f)) => (
            BackupState::Abandoning { fault: f, on_source: false },
            BackupAction::RemoveTemp,
        ),
        (BackupState::Writing, _) => (BackupState::Reading, BackupAction::ReadChunk),
        (BackupState::Syncing, BackupEvent::Failed(f)) => (
            BackupState::Abandoning { fault: f, on_source: false },
            BackupAction::RemoveTemp,
        ),
        (BackupState::Syncing, _) => (BackupState::Publishing, BackupAction::Publish),
        (BackupState::Publishing, BackupEvent::Failed(f)) => (
            BackupState::Abandoning { fault: f, on_source: false },
            BackupAction::RemoveTemp,
        ),
        (BackupState::Publishing, _) => (
            BackupState::SyncingDirectory,
            BackupAction::SyncDirectory,
        ),
        // The copy itself is durable; a directory that cannot be synced is not fatal.
        (BackupState::SyncingDirectory, _) => (
            BackupState::Finished,
            BackupAction::Finish(BackupOutcome::Created),
        ),
        (BackupState::Abandoning { fault, on_source }, _) => (
            BackupState::Finished,
            BackupAction::Fail(
                if on_source {
                    source_error(fault, windows)
                } else {
                    PulseDBError::Io(fault)
                },
            ),
        ),
        // Asked again before it is answered, or after it is over: ask anew.
        (BackupState::Checking, _) => (BackupState::Checking, BackupAction::Check),
        (BackupState::Finished, _) => (BackupState::Checking, BackupAction::Check),
    }
}

/// Begins the protocol.
pub fn backup_once() -> (start: (BackupState, BackupAction))
    ensures
        start == (BackupState::Checking, BackupAction::Check),
{
    (BackupState::Checking, BackupAction::Check)
}

/// Advances the protocol.
pub fn backup_step(state: BackupState, event: BackupEvent, windows: bool) -> (next: (
    BackupState,
    BackupAction,
))
    ensures
        next == backup_next(state, event, windows),
{
    match state {
        BackupState::Checking => match event {
            BackupEvent::Exists(true) => (
                BackupState::Finished,
                BackupAction::Finish(BackupOutcome::Preserved),
            ),
            BackupEvent::Exists(false) => (BackupState::Clearing, BackupAction::RemoveTemp),
            BackupEvent::Failed(f) => (
                BackupState::Finished,
                BackupAction::Fail(PulseDBError::Io(f)),
            ),
            _ => (BackupState::Checking, BackupAction::Check),
        },
        BackupState::Clearing => (BackupState::Creating, BackupAction::CreateTemp),
        BackupState::Creating => match event {
            BackupEvent::Failed(f) => (
                BackupState::Finished,
                BackupAction::Fail(PulseDBError::Io(f)),
            ),
            _ => (BackupState::Opening, BackupAction::OpenSource),
        },
        BackupState::Opening => match event {
            BackupEvent::Failed(f) => (
                BackupState::Abandoning { fault: f, on_source: true },
                BackupAction::RemoveTemp,
            ),
            _ => (BackupState::Reading, BackupAction::ReadChunk),
        },
        BackupState::Reading => match event {
            BackupEvent::Failed(f) => (
                BackupState::Abandoning { fault: f, on_source: true },
                BackupAction::RemoveTemp,
            ),
            BackupEvent::EndOfFile => (BackupState::Syncing, BackupAction::SyncTemp),
            _ => (BackupState::Writing, BackupAction::WriteChunk),
        },
        BackupState::Writing => match event {
            BackupEvent::Failed(f) => (
                BackupState::Abandoning { fault: f, on_source: false },
                BackupAction::RemoveTemp,
            ),
            _ => (BackupState::Reading, BackupAction::ReadChunk),
        },
        BackupState::Syncing => match event {
            BackupEvent::Failed(f) => (
                BackupState::Abandoning { fault: f, on_source: false },
                BackupAction::RemoveTemp,
            ),
            _ => (BackupState::Publishing, BackupAction::Publish),
        },
        BackupState::Publishing => match event {
            BackupEvent::Failed(f) => (
                BackupState::Abandoning { fault: f, on_source: false },
                BackupAction::RemoveTemp,
            ),
            _ => (BackupState::SyncingDirectory, BackupAction::SyncDirectory),
        },
        BackupState::SyncingDirectory => (
            BackupState::Finished,
            BackupAction::Finish(BackupOutcome::Created),
        ),
        BackupState::Abandoning { fault, on_source } => (
            BackupState::Finished,
            BackupAction::Fail(
                if on_source {
                    migration_io_error(fault, windows)
                } else {
                    PulseDBError::Io(fault)
                },
            ),
        ),
        BackupState::Finished => (BackupState::Checking, BackupAction::Check),
    }
}

/// The state and the action after `events`, from the start.
pub open spec fn backup_run(events: Seq<BackupEvent>, windows: bool) -> (BackupState, BackupAction)
    decreases events.len(),
{
    if events.len() == 0 {
        (BackupState::Checking, BackupAction::Check)
    } else {
        backup_next(backup_run(events.drop_last(), windows).0, events.last(), windows)
    }
}

/// A run that reports a new copy has, in this order, made the staged copy durable,
/// renamed it into place, and synced the directory, and neither of the first two
/// failed.
pub proof fn law_created_means_published(events: Seq<BackupEvent>, windows: bool)
    requires
        backup_run(events, windows).1 == BackupAction::Finish(BackupOutcome::Created),
    ensures
        ({
            let n = events.len() as int;
            &&& n >= 3
            &&& backup_run(events.take(n - 1), windows).1 is SyncDirectory
            &&& backup_run(events.take(n - 2), windows).1 is Publish
            &&& !(events[n - 2] is Failed)
            &&& backup_run(events.take(n - 3), windows).1 is SyncTemp
            &&& !(events[n - 3] is Failed)
        }),
{
    let n = events.len() as int;
    let a = events.drop_last();
    assert(backup_run(a, windows).0 == BackupState::SyncingDirectory);
    let b = a.drop_last();
    assert(backup_run(b, windows).0 == BackupState::Publishing);
    let c = b.drop_last();
    assert(backup_run(c, windows).0 == BackupState::Syncing);
    assert(a =~= events.take(n - 1));
    assert(b =~= events.take(n - 2));
    assert(c =~= events.take(n - 3));
    assert(a.last() == events[n - 2]);
    assert(b.last() == events[n - 3]);
}

/// The published name is written to by a rename alone, and a rename happens only
/// right after the staged copy was made durable. A taken name ends the protocol
/// at once, with the copy untouched.
pub proof fn law_publish_only_a_durable_copy(state: BackupState, event: BackupEvent, windows: bool)
    ensures
        backup_next(state, event, windows).1 is Publish ==> state == BackupState::Syncing
            && !(event is Failed),
        backup_next(state, event, windows).1 == BackupAction::Finish(BackupOutcome::Created)
            ==> state == BackupState::SyncingDirectory,
        backup_next(BackupState::Checking, BackupEvent::Exists(true), windows).1
            == BackupAction::Finish(BackupOutcome::Preserved),
{
}

/// Every failure after the staging file was created removes it before the failure
/// is reported, and the lock failure is reported for reads of the database file
/// alone.
pub proof fn law_failures_leave_no_temp(state: BackupState, event: BackupEvent, windows: bool)
    ensures
        backup_next(state, event, windows).1 is Fail ==> state is Checking || state is Creating
            || state is Abandoning,
        backup_next(state, event, windows).0 is Abandoning ==> backup_next(
            state,
            event,
            windows,
        ).1 is RemoveTemp,
        (backup_next(state, event, windows).1 matches BackupAction::Fail(e) && e.is_lock()) ==> (
        state matches BackupState::Abandoning { on_source, .. } && on_source),
{
}

} // verus!
