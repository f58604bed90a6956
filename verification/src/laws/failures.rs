//! How failures are told apart.

use vstd::prelude::*;

use crate::error::{PulseDBError, StorageError};
use crate::sync::error::SyncError;
use crate::types::InstanceId;

verus! {

/// Each question about a failure of an exchange is answered yes for the failures of its own
/// kind and for no other. Peers are incompatible where they differ in the wire format, in the
/// operation or in the protocol version.
pub proof fn law_kinds_of_failure(
    e: &SyncError,
    peer_changed: bool,
    change_too_large: bool,
    request_too_large: bool,
    operation_mismatch: bool,
    missing_dependency: bool,
    config: bool,
    incompatible: bool,
    transport: bool,
    timeout: bool,
    connection_lost: bool,
    shutdown: bool,
    format_mismatch: bool,
    payload_too_large: bool,
    catch_up_incomplete: bool,
)
    requires
        call_ensures(SyncError::is_peer_changed, (e,), peer_changed),
        call_ensures(SyncError::is_change_too_large, (e,), change_too_large),
        call_ensures(SyncError::is_request_too_large, (e,), request_too_large),
        call_ensures(SyncError::is_wire_operation_mismatch, (e,), operation_mismatch),
        call_ensures(SyncError::is_missing_dependency, (e,), missing_dependency),
        call_ensures(SyncError::is_config, (e,), config),
        call_ensures(SyncError::is_protocol_incompatible, (e,), incompatible),
        call_ensures(SyncError::is_transport, (e,), transport),
        call_ensures(SyncError::is_timeout, (e,), timeout),
        call_ensures(SyncError::is_connection_lost, (e,), connection_lost),
        call_ensures(SyncError::is_shutdown, (e,), shutdown),
        call_ensures(SyncError::is_wire_format_mismatch, (e,), format_mismatch),
        call_ensures(SyncError::is_payload_too_large, (e,), payload_too_large),
        call_ensures(SyncError::is_catch_up_incomplete, (e,), catch_up_incomplete),
    ensures
        peer_changed <==> *e is PeerChanged,
        change_too_large <==> *e is ChangeTooLarge,
        request_too_large <==> *e is RequestTooLarge,
        operation_mismatch <==> *e is WireOperationMismatch,
        missing_dependency <==> *e is MissingDependency,
        config <==> *e is Config,
        transport <==> *e is Transport,
        timeout <==> *e is Timeout,
        connection_lost <==> *e is ConnectionLost,
        shutdown <==> *e is Shutdown,
        format_mismatch <==> *e is WireFormatMismatch,
        payload_too_large <==> *e is PayloadTooLarge,
        catch_up_incomplete <==> *e is CatchUpIncomplete,
        incompatible <==> format_mismatch || operation_mismatch || *e is ProtocolVersion,
{
}

/// A failure that is told with a message carries that message, under the kind that it is told
/// as.
pub proof fn law_told_failure(
    message: &str,
    transport: SyncError,
    handshake: SyncError,
    serialization: SyncError,
    invalid_payload: SyncError,
    config: SyncError,
    missing: SyncError,
    corrupted: StorageError,
    unreadable: StorageError,
)
    requires
        call_ensures(SyncError::transport, (message,), transport),
        call_ensures(SyncError::handshake, (message,), handshake),
        call_ensures(SyncError::serialization, (message,), serialization),
        call_ensures(SyncError::invalid_payload, (message,), invalid_payload),
        call_ensures(SyncError::config, (message,), config),
        call_ensures(SyncError::missing_experience, (message,), missing),
        call_ensures(StorageError::corrupted, (message,), corrupted),
        call_ensures(StorageError::serialization, (message,), unreadable),
    ensures
        transport matches SyncError::Transport(m) && m@ == message@,
        handshake matches SyncError::Handshake(m) && m@ == message@,
        serialization matches SyncError::Serialization(m) && m@ == message@,
        invalid_payload matches SyncError::InvalidPayload(m) && m@ == message@,
        config matches SyncError::Config(m) && m@ == message@,
        missing matches SyncError::MissingDependency { id, .. } && id@ == message@,
        corrupted matches StorageError::Corrupted(m) && m@ == message@,
        unreadable matches StorageError::Serialization(m) && m@ == message@,
{
}

/// A frame without the magic and a frame of another version are both told as a mismatch of
/// the wire format, the second with the version that was found. A catch-up that stopped is
/// told with the peer and the position it stopped at.
pub proof fn law_told_position(
    expected: u8,
    got: u8,
    peer: InstanceId,
    position: u64,
    failed: usize,
    no_magic: SyncError,
    version: SyncError,
    stalled: SyncError,
    unapplied: SyncError,
)
    requires
        call_ensures(SyncError::wire_format_bad_magic, (expected,), no_magic),
        call_ensures(SyncError::wire_format_version, (expected, got), version),
        call_ensures(SyncError::catch_up_stalled, (peer, position), stalled),
        call_ensures(SyncError::catch_up_apply_failed, (peer, position, failed), unapplied),
    ensures
        no_magic == (SyncError::WireFormatMismatch { expected, got: None }),
        version == (SyncError::WireFormatMismatch { expected, got: Some(got) }),
        stalled matches SyncError::CatchUpIncomplete { peer: p, position: n, .. } && p == peer && n
            == position,
        unapplied matches SyncError::CatchUpIncomplete { peer: p, position: n, .. } && p == peer
            && n == position,
{
}

/// A database counts as locked exactly where the store reports that another process holds its
/// file.
pub proof fn law_locked_database(e: &PulseDBError, yes: bool)
    requires
        call_ensures(PulseDBError::is_database_locked, (e,), yes),
    ensures
        yes <==> *e is Storage && e->Storage_0 is DatabaseLocked,
{
}

} // verus!
