//! Frames: the fixed header on every sync body, and exact frame sizing.

use vstd::prelude::*;

use crate::bytes::varint_len;
use crate::sync::error::SyncError;
use crate::sync::{SYNC_WIRE_MAGIC_0, SYNC_WIRE_MAGIC_1, SYNC_WIRE_PREAMBLE_LEN, WIRE_FORMAT_VERSION};

verus! {

/// The smallest body budget a peer may work with: every bounded control frame
/// fits in it.
pub const MIN_CONTROL_FRAME_BYTES: usize = 1024;

/// What a sync body asks for or answers.
#[derive(Clone, Copy, Debug, PartialEq, Eq, Structural)]
pub enum WireOperation {
    /// Identity and version exchange.
    Handshake,
    /// Changes sent to the peer.
    Push,
    /// Changes fetched from the peer.
    Pull,
}

impl WireOperation {
    /// The byte that stands for the operation in a frame header.
    pub open spec fn byte(self) -> u8 {
        match self {
            WireOperation::Handshake => 1,
            WireOperation::Push => 2,
            WireOperation::Pull => 3,
        }
    }

    /// The byte that stands for the operation in a frame header.
    pub fn code(self) -> (byte: u8)
        ensures
            byte == self.byte(),
    {
        match self {
            WireOperation::Handshake => 1,
            WireOperation::Push => 2,
            WireOperation::Pull => 3,
        }
    }

    /// The operation's name.
    pub open spec fn name_chars(self) -> Seq<char> {
        match self {
            WireOperation::Handshake => "Handshake"@,
            WireOperation::Push => "Push"@,
            WireOperation::Pull => "Pull"@,
        }
    }

    /// The operation's name.
    pub fn name(self) -> (s: &'static str)
        ensures
            s@ == self.name_chars(),
    {
        match self {
            WireOperation::Handshake => "Handshake",
            WireOperation::Push => "Push",
            WireOperation::Pull => "Pull",
        }
    }
}

/// The header of every frame of `operation`.
pub open spec fn frame_header(operation: WireOperation) -> Seq<u8> {
    seq![SYNC_WIRE_MAGIC_0, SYNC_WIRE_MAGIC_1, WIRE_FORMAT_VERSION, operation.byte()]
}

/// The header of every frame of `operation`.
pub fn write_header(operation: WireOperation) -> (header: [u8; 4])
    ensures
        header@ == frame_header(operation),
{
    let header: [u8; 4] = [
        SYNC_WIRE_MAGIC_0,
        SYNC_WIRE_MAGIC_1,
        WIRE_FORMAT_VERSION,
        operation.code(),
    ];
    assert(header@ =~= frame_header(operation));
    header
}

/// Whether `framed` opens with the two magic bytes of a long-enough header.
pub open spec fn has_magic(framed: Seq<u8>) -> bool {
    framed.len() >= SYNC_WIRE_PREAMBLE_LEN && framed[0] == SYNC_WIRE_MAGIC_0 && framed[1]
        == SYNC_WIRE_MAGIC_1
}

/// What reading the header of `framed` at the endpoint of `operation` gives.
pub open spec fn header_read(operation: WireOperation, framed: Seq<u8>) -> Result<
    Seq<u8>,
    SyncError,
> {
    if !has_magic(framed) {
        Err(SyncError::WireFormatMismatch { expected: WIRE_FORMAT_VERSION, got: None })
    } else if framed[2] != WIRE_FORMAT_VERSION {
        Err(SyncError::WireFormatMismatch { expected: WIRE_FORMAT_VERSION, got: Some(framed[2]) })
    } else if framed[3] != operation.byte() {
        Err(SyncError::WireOperationMismatch { expected: operation.byte(), got: framed[3] })
    } else {
        Ok(framed.skip(SYNC_WIRE_PREAMBLE_LEN as int))
    }
}

/// Checks the header of `framed` byte by byte, magic first, then format, then
/// operation, and returns the body behind it.
pub fn read_header(operation: WireOperation, framed: &[u8]) -> (body: Result<&[u8], SyncError>)
    ensures
        body is Ok <==> header_read(operation, framed@) is Ok,
        body matches Ok(b) ==> b@ == framed@.skip(SYNC_WIRE_PREAMBLE_LEN as int),
        body matches Err(e) ==> header_read(operation, framed@) == Err::<Seq<u8>, SyncError>(e),
{
    if framed.len() < SYNC_WIRE_PREAMBLE_LEN {
        return Err(SyncError::wire_format_bad_magic(WIRE_FORMAT_VERSION));
    }
    if framed[0] != SYNC_WIRE_MAGIC_0 || framed[1] != SYNC_WIRE_MAGIC_1 {
        return Err(SyncError::wire_format_bad_magic(WIRE_FORMAT_VERSION));
    }
    if framed[2] != WIRE_FORMAT_VERSION {
        return Err(SyncError::wire_format_version(WIRE_FORMAT_VERSION, framed[2]));
    }
    if framed[3] != operation.code() {
        return Err(
            SyncError::WireOperationMismatch { expected: operation.code(), got: framed[3] },
        );
    }
    let body: &[u8] = vstd::slice::slice_subrange(framed, SYNC_WIRE_PREAMBLE_LEN, framed.len());
    assert(body@ =~= framed@.skip(SYNC_WIRE_PREAMBLE_LEN as int));
    Ok(body)
}

/// `n`, or the largest machine size where `n` exceeds it.
pub open spec fn saturated(n: nat) -> nat {
    if n > usize::MAX {
        usize::MAX as nat
    } else {
        n
    }
}

/// Length of a frame whose list holds `count` items of `items` bytes in all, where
/// the same frame with an empty list takes `envelope` bytes: the list's length
/// prefix is a varint, and one byte of it is already part of the envelope.
pub open spec fn frame_len(envelope: nat, count: nat, items: nat) -> nat {
    saturated((envelope + (crate::bytes::varint(count).len() - 1) + items) as nat)
}

/// Running size of a frame under construction.
#[derive(Clone, Copy, Debug, PartialEq, Eq, Structural)]
pub struct FrameSizer {
    /// Length of the frame with an empty list.
    pub envelope: usize,
    /// Number of items in the list.
    pub count: usize,
    /// Bytes of the items, saturating.
    pub items: usize,
}

impl FrameSizer {
    /// Length of the frame as it stands.
    pub open spec fn spec_len(self) -> nat {
        frame_len(self.envelope as nat, self.count as nat, self.items as nat)
    }

    /// The sizer after `item` bytes more.
    pub open spec fn with_item(self, item: usize) -> FrameSizer {
        FrameSizer {
            envelope: self.envelope,
            count: saturated((self.count + 1) as nat) as usize,
            items: saturated((self.items + item) as nat) as usize,
        }
    }

    /// A frame with an empty list.
    pub fn new(envelope: usize) -> (sizer: Self)
        ensures
            sizer == (FrameSizer { envelope, count: 0, items: 0 }),
            sizer.spec_len() == envelope,
    {
        assert(crate::bytes::varint(0).len() == 1);
        FrameSizer { envelope, count: 0, items: 0 }
    }

    /// Length of the frame with an empty list.
    pub fn envelope(&self) -> (n: usize)
        ensures
            n == self.envelope,
    {
        self.envelope
    }

    /// Length of the frame as it stands.
    pub fn len(&self) -> (n: usize)
        ensures
            n == self.spec_len(),
    {
        let prefix: usize = varint_len(self.count as u64);
        self.envelope.saturating_add(prefix - 1).saturating_add(self.items)
    }

    /// Length of the frame with `item` bytes more.
    pub fn len_with(&self, item: usize) -> (n: usize)
        ensures
            n == self.with_item(item).spec_len(),
    {
        let mut next: FrameSizer = *self;
        next.push(item);
        next.len()
    }

    /// Adds an item of `item` bytes.
    pub fn push(&mut self, item: usize)
        ensures
            *final(self) == old(self).with_item(item),
    {
        self.count = self.count.saturating_add(1);
        self.items = self.items.saturating_add(item);
    }

    /// Replaces the length of the frame with an empty list.
    pub fn rebase(&mut self, envelope: usize)
        ensures
            *final(self) == (FrameSizer { envelope, ..*old(self) }),
    {
        self.envelope = envelope;
    }
}

/// Refuses a body over the byte cap before its header is read, then checks the
/// header.
pub open spec fn bounded_read(operation: WireOperation, body: Seq<u8>, max: usize) -> Result<
    Seq<u8>,
    SyncError,
> {
    if body.len() > max {
        Err(SyncError::PayloadTooLarge { size: body.len() as usize, max })
    } else {
        header_read(operation, body)
    }
}

/// The ordered checks in front of every decode: byte cap, then magic, format and
/// operation. What is returned is the serialized message itself.
pub fn unframe_bounded(operation: WireOperation, body: &[u8], max: usize) -> (inner: Result<
    &[u8],
    SyncError,
>)
    ensures
        inner is Ok <==> bounded_read(operation, body@, max) is Ok,
        inner matches Ok(b) ==> b@ == body@.skip(SYNC_WIRE_PREAMBLE_LEN as int),
        inner matches Err(e) ==> bounded_read(operation, body@, max) == Err::<Seq<u8>, SyncError>(
            e,
        ),
{
    if body.len() > max {
        return Err(SyncError::PayloadTooLarge { size: body.len(), max });
    }
    read_header(operation, body)
}

/// Refuses a message that left `rest` bytes of its body unread.
pub fn check_consumed(rest: usize) -> (r: Result<(), SyncError>)
    ensures
        r is Ok <==> rest == 0,
        r matches Err(e) ==> (e matches SyncError::Serialization(m) && m@
            == crate::text::decimal(rest as nat) + " trailing bytes after the message"@),
{
    if rest != 0 {
        let count = crate::text::decimal_text(rest as u64);
        let text = crate::text::join(count.as_str(), " trailing bytes after the message");
        return Err(SyncError::serialization(text.as_str()));
    }
    Ok(())
}

/// Frames a serialized message, refusing a frame over the byte cap.
pub fn frame_bounded(operation: WireOperation, body: &[u8], cap: usize) -> (framed: Result<
    Vec<u8>,
    SyncError,
>)
    ensures
        framed is Ok <==> saturated(body@.len() + SYNC_WIRE_PREAMBLE_LEN as nat) <= cap,
        framed matches Ok(f) ==> f@ == frame_header(operation) + body@,
        framed matches Err(e) ==> e == (SyncError::PayloadTooLarge {
            size: saturated(body@.len() + SYNC_WIRE_PREAMBLE_LEN as nat) as usize,
            max: cap,
        }),
{
    let size: usize = body.len().saturating_add(SYNC_WIRE_PREAMBLE_LEN);
    if size > cap {
        return Err(SyncError::PayloadTooLarge { size, max: cap });
    }
    Ok(crate::sync::write_wire_preamble(operation, body))
}

/// A frame built within a cap is accepted at its own endpoint under that
/// cap, and yields the message it was built from.
pub proof fn law_bounded_frame_round_trip(operation: WireOperation, body: Seq<u8>, cap: usize)
    requires
        body.len() + SYNC_WIRE_PREAMBLE_LEN <= cap,
    ensures
        bounded_read(operation, frame_header(operation) + body, cap) == Ok::<Seq<u8>, SyncError>(
            body,
        ),
{
    crate::sync::law_frame_round_trip(operation, operation, body);
}

/// Adding an item never shortens a frame, and neither does widening its envelope.
pub proof fn law_frames_only_grow(
    envelope: nat,
    count: nat,
    items: nat,
    envelope2: nat,
    count2: nat,
    items2: nat,
)
    requires
        envelope <= envelope2,
        count <= count2,
        items <= items2,
    ensures
        frame_len(envelope, count, items) <= frame_len(envelope2, count2, items2),
{
    crate::bytes::law_varint_len_monotonic(count, count2);
    crate::bytes::lemma_varint_len_pos(count);
}

} // verus!
