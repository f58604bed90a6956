//! Peer sync: framing, packing, acknowledgement and catch-up decisions.

use vstd::prelude::*;

use crate::sync::error::SyncError;
use crate::sync::wire::WireOperation;

pub mod applier;
pub mod batch;
pub mod config;
pub mod coverage;
pub mod error;
pub mod manager;
pub mod payload;
pub mod progress;
pub mod pusher;
pub mod server;
pub mod types;
pub mod wire;

verus! {

/// Version of the sync protocol; peers of different versions do not interoperate.
pub const SYNC_PROTOCOL_VERSION: u32 = 5;

/// Capability advertised by peers that sync reinforcement counters. Purely
/// informational: nothing is negotiated from it.
pub const SYNC_CAPABILITY_GCOUNTER_APPLICATIONS: &'static str = "gcounter-applications";

/// First byte of every sync frame.
pub const SYNC_WIRE_MAGIC_0: u8 = 0xFE;

/// Second byte of every sync frame.
pub const SYNC_WIRE_MAGIC_1: u8 = 0xED;

/// Version of the frame layout.
pub const WIRE_FORMAT_VERSION: u8 = 4;

/// Length of the frame header: two magic bytes, the format, the operation.
pub const SYNC_WIRE_PREAMBLE_LEN: usize = 4;

/// Puts the frame header of `operation` in front of `body`.
pub fn write_wire_preamble(operation: WireOperation, body: &[u8]) -> (framed: Vec<u8>)
    ensures
        framed@ == wire::frame_header(operation) + body@,
{
    let mut framed: Vec<u8> = Vec::with_capacity(SYNC_WIRE_PREAMBLE_LEN);
    let header: [u8; 4] = wire::write_header(operation);
    framed.extend_from_slice(header.as_slice());
    framed.extend_from_slice(body);
    assert(framed@ =~= wire::frame_header(operation) + body@);
    framed
}

/// Checks the frame header at the endpoint of `operation` and returns the body.
pub fn read_wire_preamble(operation: WireOperation, framed: &[u8]) -> (body: Result<
    &[u8],
    SyncError,
>)
    ensures
        body is Ok <==> wire::header_read(operation, framed@) is Ok,
        body matches Ok(b) ==> b@ == framed@.skip(SYNC_WIRE_PREAMBLE_LEN as int),
        body matches Err(e) ==> wire::header_read(operation, framed@) == Err::<
            Seq<u8>,
            SyncError,
        >(e),
{
    wire::read_header(operation, framed)
}

/// A frame read at the endpoint it was written for gives back its body, and at
/// any other endpoint is refused by name.
pub proof fn law_frame_round_trip(written: WireOperation, read: WireOperation, body: Seq<u8>)
    ensures
        ({
            let framed = wire::frame_header(written) + body;
            wire::header_read(read, framed) == if read == written {
                Ok::<Seq<u8>, SyncError>(body)
            } else {
                Err(
                    SyncError::WireOperationMismatch { expected: read.byte(), got: written.byte() },
                )
            }
        }),
{
    let framed = wire::frame_header(written) + body;
    assert(framed.skip(SYNC_WIRE_PREAMBLE_LEN as int) =~= body);
}

} // verus!
