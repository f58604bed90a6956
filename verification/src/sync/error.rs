//! Failures of the sync protocol.

use vstd::prelude::*;
use vstd::string::StringExecFns;

use crate::sync::types::WireErrorCode;
use crate::sync::wire::WireOperation;
use crate::text::decimal_text;
use crate::types::InstanceId;

verus! {

/// A sync failure.
#[derive(Debug)]
#[allow(inconsistent_fields)]
pub enum SyncError {
    /// The transport failed: network I/O, a refused connection, and the like.
    Transport(String),
    /// The remote peer rejected the handshake.
    Handshake(String),
    /// A message could not be serialized or deserialized.
    Serialization(String),
    /// No answer arrived in time.
    Timeout,
    /// The connection to the peer was lost.
    ConnectionLost,
    /// The peers speak different protocol versions.
    ProtocolVersion {
        /// The version spoken here.
        local: u32,
        /// The version spoken there.
        remote: u32,
    },
    /// The leading bytes are not a frame this peer can trust to decode.
    WireFormatMismatch {
        /// The wire format spoken here.
        expected: u8,
        /// The wire format found, or `None` where the magic was absent.
        got: Option<u8>,
    },
    /// A body exceeded the byte cap and was refused before any decode.
    PayloadTooLarge {
        /// Observed body length.
        size: usize,
        /// The cap in force.
        max: usize,
    },
    /// A well-framed payload made no sense.
    InvalidPayload(String),
    /// A well-formed frame named another operation than the endpoint serves.
    WireOperationMismatch {
        /// The operation the endpoint serves.
        expected: u8,
        /// The operation the frame named.
        got: u8,
    },
    /// The endpoint answered under an identity other than the addressed one.
    PeerChanged {
        /// The identity the exchange was addressed to.
        expected: InstanceId,
        /// The identity that answered.
        responder: InstanceId,
    },
    /// One change does not fit a body on its own; no retry repairs that.
    ChangeTooLarge {
        /// Sequence of the change.
        sequence: u64,
        /// Frame size the change alone requires.
        needed: u64,
        /// The cap it was measured against.
        cap: u64,
    },
    /// A request built here does not fit what its reader accepts.
    RequestTooLarge {
        /// Which request.
        operation: WireOperation,
        /// Frame size the request requires.
        needed: u64,
        /// The cap it was measured against.
        cap: u64,
    },
    /// The peer refused the request with a structured reason.
    RemoteRejected {
        /// Machine-readable reason.
        code: WireErrorCode,
        /// Bounded human-readable reason.
        detail: String,
    },
    /// The record a change depends on is absent.
    MissingDependency {
        /// Kind of the missing record.
        entity: &'static str,
        /// Its identifier, as text.
        id: String,
    },
    /// A configuration was refused at construction.
    Config(String),
    /// A one-shot catch-up stopped before it was complete.
    CatchUpIncomplete {
        /// The peer being caught up with.
        peer: InstanceId,
        /// The pull position it stopped at.
        position: u64,
        /// What stopped it.
        reason: String,
    },
    /// No cursor is on record for the peer.
    CursorNotFound {
        /// The peer.
        instance: InstanceId,
    },
    /// The sync system is shutting down.
    Shutdown,
}

/// Why a stalled catch-up stopped.
pub open spec fn stalled_reason() -> Seq<char> {
    "the peer reported more changes but did not advance the cursor (a fully-filtered page; see issue #90)"@
}

/// Why a catch-up that left `failed` changes unapplied stopped.
pub open spec fn apply_failed_reason(failed: nat) -> Seq<char> {
    crate::text::decimal(failed) + " change(s) failed to apply"@
}

impl SyncError {
    /// The text of the failure.
    pub open spec fn message(self) -> Seq<char> {
        match self {
            SyncError::Transport(m) => "Sync transport error: "@ + m@,
            SyncError::Handshake(m) => "Sync handshake failed: "@ + m@,
            SyncError::Serialization(m) => "Sync serialization error: "@ + m@,
            SyncError::Timeout => "Sync operation timed out"@,
            SyncError::ConnectionLost => "Connection to sync peer lost"@,
            SyncError::ProtocolVersion { local, remote } =>
                "Sync protocol version mismatch: local v"@ + crate::text::decimal(local as nat)
                    + ", remote v"@ + crate::text::decimal(remote as nat),
            SyncError::WireFormatMismatch { expected, got } =>
                "Sync wire-format mismatch: expected wire format v"@ + crate::text::decimal(
                    expected as nat,
                ) + ", got "@ + (match got {
                    Some(v) => "v"@ + crate::text::decimal(v as nat),
                    None => "bad/absent magic"@,
                }),
            SyncError::PayloadTooLarge { size, max } =>
                "Sync payload too large: "@ + crate::text::decimal(size as nat)
                    + " bytes exceeds the "@ + crate::text::decimal(max as nat) + "-byte cap"@,
            SyncError::InvalidPayload(m) => "Invalid sync payload: "@ + m@,
            SyncError::WireOperationMismatch { expected, got } =>
                "Sync wire operation mismatch: this endpoint serves operation "@
                    + crate::text::decimal(expected as nat) + ", got "@ + crate::text::decimal(
                    got as nat,
                ),
            SyncError::PeerChanged { expected, responder } =>
                "Sync peer changed: expected instance "@ + crate::types::uuid_chars(
                    expected.value as nat,
                ) + ", endpoint answered as "@ + crate::types::uuid_chars(responder.value as nat),
            SyncError::ChangeTooLarge { sequence, needed, cap } =>
                "Sync change "@ + crate::text::decimal(sequence as nat) + " needs "@
                    + crate::text::decimal(needed as nat) + " bytes on its own, over the "@
                    + crate::text::decimal(cap as nat) + "-byte body cap"@,
            SyncError::RequestTooLarge { operation, needed, cap } =>
                "Sync "@ + operation.name_chars() + " request needs "@ + crate::text::decimal(
                    needed as nat,
                ) + " bytes, over the "@ + crate::text::decimal(cap as nat)
                    + "-byte send budget"@,
            SyncError::RemoteRejected { code, detail } =>
                "Sync request rejected by peer: "@ + code.name_chars() + ": "@ + detail@,
            SyncError::MissingDependency { entity, id } =>
                "Sync change depends on "@ + entity@ + " "@ + id@ + ", which is absent locally"@,
            SyncError::Config(m) => "Invalid sync configuration: "@ + m@,
            SyncError::CatchUpIncomplete { peer, position, reason } =>
                "Initial sync with peer "@ + crate::types::uuid_chars(peer.value as nat)
                    + " stopped at position "@ + crate::text::decimal(position as nat)
                    + " without completing: "@ + reason@,
            SyncError::CursorNotFound { instance } =>
                "No sync cursor found for instance "@ + crate::types::uuid_chars(
                    instance.value as nat,
                ),
            SyncError::Shutdown => "Sync system is shutting down"@,
        }
    }

    /// Renders the failure as text.
    pub fn to_string(&self) -> (s: String)
        ensures
            s@ == self.message(),
    {
        match self {
            SyncError::Transport(m) => crate::text::join("Sync transport error: ", m.as_str()),
            SyncError::Handshake(m) => crate::text::join("Sync handshake failed: ", m.as_str()),
            SyncError::Serialization(m) => crate::text::join(
                "Sync serialization error: ",
                m.as_str(),
            ),
            SyncError::Timeout => String::from_str("Sync operation timed out"),
            SyncError::ConnectionLost => String::from_str("Connection to sync peer lost"),
            SyncError::ProtocolVersion { local, remote } => {
                let mut s = String::from_str("Sync protocol version mismatch: local v");
                s.append(decimal_text(*local as u64).as_str());
                s.append(", remote v");
                s.append(decimal_text(*remote as u64).as_str());
                s
            },
            SyncError::WireFormatMismatch { expected, got } => {
                let mut s = String::from_str("Sync wire-format mismatch: expected wire format v");
                s.append(decimal_text(*expected as u64).as_str());
                s.append(", got ");
                match got {
                    Some(v) => {
                        let found = crate::text::join("v", decimal_text(*v as u64).as_str());
                        s.append(found.as_str());
                    },
                    None => {
                        s.append("bad/absent magic");
                    },
                }
                s
            },
            SyncError::PayloadTooLarge { size, max } => {
                let mut s = String::from_str("Sync payload too large: ");
                s.append(decimal_text(*size as u64).as_str());
                s.append(" bytes exceeds the ");
                s.append(decimal_text(*max as u64).as_str());
                s.append("-byte cap");
                s
            },
            SyncError::InvalidPayload(m) => crate::text::join(
                "Invalid sync payload: ",
                m.as_str(),
            ),
            SyncError::WireOperationMismatch { expected, got } => {
                let mut s = String::from_str(
                    "Sync wire operation mismatch: this endpoint serves operation ",
                );
                s.append(decimal_text(*expected as u64).as_str());
                s.append(", got ");
                s.append(decimal_text(*got as u64).as_str());
                s
            },
            SyncError::PeerChanged { expected, responder } => {
                let mut s = String::from_str("Sync peer changed: expected instance ");
                s.append(expected.to_string().as_str());
                s.append(", endpoint answered as ");
                s.append(responder.to_string().as_str());
                s
            },
            SyncError::ChangeTooLarge { sequence, needed, cap } => {
                let mut s = String::from_str("Sync change ");
                s.append(decimal_text(*sequence).as_str());
                s.append(" needs ");
                s.append(decimal_text(*needed).as_str());
                s.append(" bytes on its own, over the ");
                s.append(decimal_text(*cap).as_str());
                s.append("-byte body cap");
                s
            },
            SyncError::RequestTooLarge { operation, needed, cap } => {
                let mut s = String::from_str("Sync ");
                s.append(operation.name());
                s.append(" request needs ");
                s.append(decimal_text(*needed).as_str());
                s.append(" bytes, over the ");
                s.append(decimal_text(*cap).as_str());
                s.append("-byte send budget");
                s
            },
            SyncError::RemoteRejected { code, detail } => {
                let mut s = String::from_str("Sync request rejected by peer: ");
                s.append(code.name());
                s.append(": ");
                s.append(detail.as_str());
                s
            },
            SyncError::MissingDependency { entity, id } => {
                let mut s = String::from_str("Sync change depends on ");
                s.append(entity);
                s.append(" ");
                s.append(id.as_str());
                s.append(", which is absent locally");
                s
            },
            SyncError::Config(m) => crate::text::join("Invalid sync configuration: ", m.as_str()),
            SyncError::CatchUpIncomplete { peer, position, reason } => {
                let mut s = String::from_str("Initial sync with peer ");
                s.append(peer.to_string().as_str());
                s.append(" stopped at position ");
                s.append(decimal_text(*position).as_str());
                s.append(" without completing: ");
                s.append(reason.as_str());
                s
            },
            SyncError::CursorNotFound { instance } => {
                let mut s = String::from_str("No sync cursor found for instance ");
                s.append(instance.to_string().as_str());
                s
            },
            SyncError::Shutdown => String::from_str("Sync system is shutting down"),
        }
    }

    /// A transport failure with the given message.
    pub fn transport(msg: &str) -> (e: Self)
        ensures
            e matches SyncError::Transport(m) && m@ == msg@,
    {
        SyncError::Transport(String::from_str(msg))
    }

    /// A handshake rejection with the given message.
    pub fn handshake(msg: &str) -> (e: Self)
        ensures
            e matches SyncError::Handshake(m) && m@ == msg@,
    {
        SyncError::Handshake(String::from_str(msg))
    }

    /// A serialization failure with the given message.
    pub fn serialization(msg: &str) -> (e: Self)
        ensures
            e matches SyncError::Serialization(m) && m@ == msg@,
    {
        SyncError::Serialization(String::from_str(msg))
    }

    /// An invalid payload with the given message.
    pub fn invalid_payload(msg: &str) -> (e: Self)
        ensures
            e matches SyncError::InvalidPayload(m) && m@ == msg@,
    {
        SyncError::InvalidPayload(String::from_str(msg))
    }

    /// A frame whose magic is absent or wrong.
    pub fn wire_format_bad_magic(expected: u8) -> (e: Self)
        ensures
            e == (SyncError::WireFormatMismatch { expected, got: None }),
    {
        SyncError::WireFormatMismatch { expected, got: None }
    }

    /// A frame of another wire format.
    pub fn wire_format_version(expected: u8, got: u8) -> (e: Self)
        ensures
            e == (SyncError::WireFormatMismatch { expected, got: Some(got) }),
    {
        SyncError::WireFormatMismatch { expected, got: Some(got) }
    }

    /// A catch-up whose peer reported more changes without moving its cursor.
    pub fn catch_up_stalled(peer: InstanceId, position: u64) -> (e: Self)
        ensures
            e matches SyncError::CatchUpIncomplete { peer: p, position: n, reason } && p == peer
                && n == position && reason@ == stalled_reason(),
    {
        SyncError::CatchUpIncomplete {
            peer,
            position,
            reason: String::from_str(
                "the peer reported more changes but did not advance the cursor (a fully-filtered page; see issue #90)",
            ),
        }
    }

    /// A catch-up that left `failed` changes unapplied.
    pub fn catch_up_apply_failed(peer: InstanceId, position: u64, failed: usize) -> (e: Self)
        ensures
            e matches SyncError::CatchUpIncomplete { peer: p, position: n, reason } && p == peer
                && n == position && reason@ == apply_failed_reason(failed as nat),
    {
        let count = decimal_text(failed as u64);
        SyncError::CatchUpIncomplete {
            peer,
            position,
            reason: crate::text::join(count.as_str(), " change(s) failed to apply"),
        }
    }

    /// A refused configuration with the given message.
    pub fn config(msg: &str) -> (e: Self)
        ensures
            e matches SyncError::Config(m) && m@ == msg@,
    {
        SyncError::Config(String::from_str(msg))
    }

    /// An absent experience that a change depends on.
    pub fn missing_experience(id: &str) -> (e: Self)
        ensures
            e matches SyncError::MissingDependency { entity, id: text } && entity@ == "experience"@
                && text@ == id@,
    {
        SyncError::MissingDependency { entity: "experience", id: String::from_str(id) }
    }

    /// Whether the exchange reached another identity.
    pub fn is_peer_changed(&self) -> (yes: bool)
        ensures
            yes == (self is PeerChanged),
    {
        matches!(self, SyncError::PeerChanged { .. })
    }

    /// Whether one change is too large ever to be sent.
    pub fn is_change_too_large(&self) -> (yes: bool)
        ensures
            yes == (self is ChangeTooLarge),
    {
        matches!(self, SyncError::ChangeTooLarge { .. })
    }

    /// Whether a request built here is too large for its reader.
    pub fn is_request_too_large(&self) -> (yes: bool)
        ensures
            yes == (self is RequestTooLarge),
    {
        matches!(self, SyncError::RequestTooLarge { .. })
    }

    /// Whether a frame named another operation.
    pub fn is_wire_operation_mismatch(&self) -> (yes: bool)
        ensures
            yes == (self is WireOperationMismatch),
    {
        matches!(self, SyncError::WireOperationMismatch { .. })
    }

    /// Whether a record that a change depends on is absent.
    pub fn is_missing_dependency(&self) -> (yes: bool)
        ensures
            yes == (self is MissingDependency),
    {
        matches!(self, SyncError::MissingDependency { .. })
    }

    /// Whether a constructor refused the configuration.
    pub fn is_config(&self) -> (yes: bool)
        ensures
            yes == (self is Config),
    {
        matches!(self, SyncError::Config(_))
    }

    /// Whether the peers cannot speak to each other at all: another wire format,
    /// another operation, or another protocol version.
    pub fn is_protocol_incompatible(&self) -> (yes: bool)
        ensures
            yes == (self is WireFormatMismatch || self is WireOperationMismatch
                || self is ProtocolVersion),
    {
        matches!(
            self,
            SyncError::WireFormatMismatch { .. } | SyncError::WireOperationMismatch { .. }
            | SyncError::ProtocolVersion { .. }
        )
    }

    /// Whether the transport failed.
    pub fn is_transport(&self) -> (yes: bool)
        ensures
            yes == (self is Transport),
    {
        matches!(self, SyncError::Transport(_))
    }

    /// Whether no answer arrived in time.
    pub fn is_timeout(&self) -> (yes: bool)
        ensures
            yes == (self is Timeout),
    {
        matches!(self, SyncError::Timeout)
    }

    /// Whether the connection was lost.
    pub fn is_connection_lost(&self) -> (yes: bool)
        ensures
            yes == (self is ConnectionLost),
    {
        matches!(self, SyncError::ConnectionLost)
    }

    /// Whether the sync system is shutting down.
    pub fn is_shutdown(&self) -> (yes: bool)
        ensures
            yes == (self is Shutdown),
    {
        matches!(self, SyncError::Shutdown)
    }

    /// Whether the frame could not be trusted to decode.
    pub fn is_wire_format_mismatch(&self) -> (yes: bool)
        ensures
            yes == (self is WireFormatMismatch),
    {
        matches!(self, SyncError::WireFormatMismatch { .. })
    }

    /// Whether a body exceeded the byte cap.
    pub fn is_payload_too_large(&self) -> (yes: bool)
        ensures
            yes == (self is PayloadTooLarge),
    {
        matches!(self, SyncError::PayloadTooLarge { .. })
    }

    /// Whether a one-shot catch-up stopped short.
    pub fn is_catch_up_incomplete(&self) -> (yes: bool)
        ensures
            yes == (self is CatchUpIncomplete),
    {
        matches!(self, SyncError::CatchUpIncomplete { .. })
    }

    /// Whether retrying cannot help: the same change, or the same request, will
    /// be just as large next time.
    pub open spec fn is_terminal(self) -> bool {
        self is ChangeTooLarge || self is RequestTooLarge
    }
}

impl From<postcard::Error> for SyncError {
    fn from(err: postcard::Error) -> (e: Self)
        ensures
            e matches SyncError::Serialization(m) && m@ == crate::codec::postcard_error_chars(err),
    {
        SyncError::Serialization(crate::codec::postcard_error_text(err))
    }
}

impl vstd::std_specs::convert::FromSpecImpl<postcard::Error> for SyncError {
    open spec fn obeys_from_spec() -> bool {
        false
    }

    open spec fn from_spec(err: postcard::Error) -> SyncError {
        arbitrary()
    }
}

} // verus!
