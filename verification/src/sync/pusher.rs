//! Sending local changes to a peer.
//!
//! The pusher decides; the caller reads the log, sends the request and stores the
//! cursor. A push is: [`LocalChangePusher::push_pending`] picks what to send,
//! [`LocalChangePusher::conclude`] judges the answer, and
//! [`LocalChangePusher::saved`] moves on once the new position is stored.

use vstd::prelude::*;
use vstd::string::StringExecFns;

use crate::storage::schema::{EntityTypeTag, WatchEventRecord};
use crate::sync::batch::LogCandidate;
use crate::sync::config::{is_allowed, SyncConfig};
use crate::sync::error::SyncError;
use crate::sync::payload::{build_payload, make_change, Entity};
use crate::sync::progress::next_progress;
use crate::sync::types::{PushAck, PushRequest, SyncChange, WireReply};
use crate::sync::wire::FrameSizer;
use crate::sync::SYNC_PROTOCOL_VERSION;
use crate::text::decimal_text;
use crate::types::{CollectiveId, InstanceId};

verus! {

/// What one push came to.
#[derive(Clone, Copy, Debug, PartialEq, Eq, Structural)]
pub enum PushOutcome {
    /// The peer acknowledged this many changes.
    Pushed(usize),
    /// Another identity answered; nothing was stored.
    PeerChanged(InstanceId),
}

/// A batch that was packed.
#[derive(Debug)]
pub struct PackedPush {
    /// The changes to send.
    pub changes: Vec<SyncChange>,
    /// The last event the batch covers.
    pub scanned: u64,
    /// How many events the batch covers.
    pub taken: usize,
}

/// How to go on after an answer arrived.
#[derive(Debug)]
pub enum PushStep {
    /// Store this position for the peer, then report the count.
    Save {
        /// The position to store.
        next: u64,
        /// Changes that were sent.
        count: usize,
    },
    /// The push is over; nothing is stored.
    Over(Result<PushOutcome, SyncError>),
}

/// Length of the frame that carries the changes among `candidates`.
pub open spec fn kept_frame_len(candidates: Seq<LogCandidate>, envelope: usize) -> nat {
    crate::sync::wire::frame_len(
        envelope as nat,
        crate::sync::batch::kept(candidates).len(),
        crate::sync::batch::kept_bytes(candidates),
    )
}

/// Whether a batch that covers the first `k` events can cover the next one too:
/// an event that tells the peer nothing always, a change within both the count
/// and the byte budget.
pub open spec fn extends(
    candidates: Seq<LogCandidate>,
    k: int,
    envelope: usize,
    cap: usize,
    batch_size: usize,
) -> bool {
    match candidates[k].change {
        Ok(None) => true,
        Ok(Some(_)) => crate::sync::batch::kept(candidates.take(k)).len() < batch_size && kept_frame_len(
            candidates.take(k + 1),
            envelope,
        ) <= cap,
        Err(_) => false,
    }
}

/// Whether the longest batch covers exactly the first `n` events.
pub open spec fn covers(
    candidates: Seq<LogCandidate>,
    n: int,
    envelope: usize,
    cap: usize,
    batch_size: usize,
) -> bool {
    &&& 0 <= n <= candidates.len()
    &&& forall|j: int|
        0 <= j < n ==> #[trigger] extends(candidates, j, envelope, cap, batch_size)
    &&& n < candidates.len() ==> !extends(candidates, n, envelope, cap, batch_size)
}

/// Whether event `n` is a change that no batch can carry: it comes first, and
/// alone exceeds the byte budget.
pub open spec fn blocks(
    candidates: Seq<LogCandidate>,
    n: int,
    prior: u64,
    envelope: usize,
    cap: usize,
    batch_size: usize,
) -> bool {
    &&& n < candidates.len()
    &&& candidates[n].change matches Ok(Some(_))
    &&& batch_size > 0
    &&& crate::sync::batch::kept(candidates.take(n)).len() == 0
    &&& crate::sync::batch::covered(candidates.take(n), prior) <= prior
    &&& kept_frame_len(candidates.take(n + 1), envelope) > cap
}

/// Packs the longest ordered run of events that fits the count and byte budgets.
pub fn pack(
    candidates: Vec<LogCandidate>,
    prior: u64,
    envelope: usize,
    cap: usize,
    batch_size: usize,
) -> (packed: Result<PackedPush, SyncError>)
    ensures
        packed matches Ok(p) ==> {
            &&& covers(candidates@, p.taken as int, envelope, cap, batch_size)
            &&& p.taken < candidates@.len() ==> candidates@[p.taken as int].change is Ok
            &&& !blocks(candidates@, p.taken as int, prior, envelope, cap, batch_size)
            &&& p.changes@ == crate::sync::batch::kept(candidates@.take(p.taken as int))
            &&& p.scanned == crate::sync::batch::covered(candidates@.take(p.taken as int), prior)
        },
        packed matches Err(e) ==> exists|n: int|
            {
                &&& #[trigger] covers(candidates@, n, envelope, cap, batch_size)
                &&& n < candidates@.len()
                &&& match candidates@[n].change {
                    Err(fault) => e == fault,
                    Ok(_) => blocks(candidates@, n, prior, envelope, cap, batch_size) && (
                    candidates@[n].change matches Ok(Some(change)) && e == (
                    SyncError::ChangeTooLarge {
                        sequence: change.sequence,
                        needed: kept_frame_len(candidates@.take(n + 1), envelope) as u64,
                        cap: cap as u64,
                    })),
                }
            },
{
    let ghost all = candidates@;
    let mut sizer = FrameSizer::new(envelope);
    let mut changes: Vec<SyncChange> = Vec::new();
    let mut scanned: u64 = prior;
    let mut taken: usize = 0;
    let total: usize = candidates.len();
    proof {
        assert(all.take(0) =~= Seq::empty());
    }
    for candidate in it: candidates
        invariant
            it.seq() == all,
            all.len() == total,
            taken == it.index(),
            sizer.envelope == envelope,
            sizer.count == crate::sync::batch::kept(all.take(taken as int)).len(),
            sizer.items as nat == crate::sync::wire::saturated(crate::sync::batch::kept_bytes(all.take(taken as int))),
            changes@ == crate::sync::batch::kept(all.take(taken as int)),
            scanned == crate::sync::batch::covered(all.take(taken as int), prior),
            forall|j: int|
                0 <= j < taken ==> #[trigger] extends(all, j, envelope, cap, batch_size),
    {
        let ghost k: int = taken as int;
        proof {
            assert(candidate == all[k]);
            crate::sync::batch::lemma_take_next(all, k);
            crate::sync::batch::lemma_kept_len(all.take(k));
        }
        let sequence: u64 = candidate.sequence;
        let item: usize = candidate.item_len;
        match candidate.change {
            Err(e) => {
                assert(covers(all, k, envelope, cap, batch_size));
                return Err(e);
            },
            Ok(None) => {
                assert(extends(all, k, envelope, cap, batch_size));
            },
            Ok(Some(change)) => {
                if changes.len() >= batch_size {
                    assert(covers(all, k, envelope, cap, batch_size));
                    return Ok(PackedPush { changes, scanned, taken });
                }
                let needed: usize = sizer.len_with(item);
                assert(needed as nat == kept_frame_len(all.take(k + 1), envelope));
                if needed > cap {
                    assert(covers(all, k, envelope, cap, batch_size));
                    if changes.len() == 0 && scanned <= prior {
                        assert(blocks(all, k, prior, envelope, cap, batch_size));
                        return Err(
                            SyncError::ChangeTooLarge {
                                sequence: change.sequence,
                                needed: needed as u64,
                                cap: cap as u64,
                            },
                        );
                    }
                    return Ok(PackedPush { changes, scanned, taken });
                }
                assert(extends(all, k, envelope, cap, batch_size));
                sizer.push(item);
                changes.push(change);
            },
        }
        scanned = sequence;
        taken = taken + 1;
    }
    proof {
        assert(covers(all, taken as int, envelope, cap, batch_size));
    }
    Ok(PackedPush { changes, scanned, taken })
}

/// What is packed fits the byte budget, and the count ceiling.
pub proof fn law_packed_push_fits(
    candidates: Seq<LogCandidate>,
    n: int,
    envelope: usize,
    cap: usize,
    batch_size: usize,
)
    requires
        covers(candidates, n, envelope, cap, batch_size),
        envelope <= cap,
    ensures
        kept_frame_len(candidates.take(n), envelope) <= cap,
        crate::sync::batch::kept(candidates.take(n)).len() <= batch_size,
{
    lemma_prefix_fits(candidates, n, envelope, cap, batch_size);
}

proof fn lemma_prefix_fits(
    candidates: Seq<LogCandidate>,
    k: int,
    envelope: usize,
    cap: usize,
    batch_size: usize,
)
    requires
        0 <= k <= candidates.len(),
        forall|j: int|
            0 <= j < k ==> #[trigger] extends(candidates, j, envelope, cap, batch_size),
        envelope <= cap,
    ensures
        kept_frame_len(candidates.take(k), envelope) <= cap,
        crate::sync::batch::kept(candidates.take(k)).len() <= batch_size,
    decreases k,
{
    if k == 0 {
        assert(candidates.take(0) =~= Seq::empty());
        assert(crate::bytes::varint(0).len() == 1);
    } else {
        assert(extends(candidates, k - 1, envelope, cap, batch_size));
        crate::sync::batch::lemma_take_next(candidates, k - 1);
        lemma_prefix_fits(candidates, k - 1, envelope, cap, batch_size);
    }
}

/// A push never spins: where there are events, none of them unreadable, either
/// the batch covers at least one of them, or its first event is a change that no
/// batch can carry.
pub proof fn law_push_progresses(
    candidates: Seq<LogCandidate>,
    n: int,
    prior: u64,
    envelope: usize,
    cap: usize,
    batch_size: usize,
)
    requires
        covers(candidates, n, envelope, cap, batch_size),
        candidates.len() > 0,
        candidates[0].change is Ok,
        batch_size > 0,
    ensures
        n > 0 || blocks(candidates, 0, prior, envelope, cap, batch_size),
{
    assert(candidates.take(0) =~= Seq::empty());
    if n == 0 {
        assert(!extends(candidates, 0, envelope, cap, batch_size));
    }
}

// ---------------------------------------------------------------------------
// Acknowledgements
// ---------------------------------------------------------------------------

/// Changes an acknowledgement accounts for, saturating.
pub open spec fn settled(ack: PushAck) -> nat {
    if ack.accepted + ack.rejected > u64::MAX {
        u64::MAX as nat
    } else {
        (ack.accepted + ack.rejected) as nat
    }
}

/// Whether an acknowledgement matches what was sent: it speaks of this instance's
/// log, its counts add up, and its position was in the batch.
pub open spec fn ack_matches(ack: PushAck, local: InstanceId, sent: Seq<u64>) -> bool {
    &&& ack.wal_owner == local
    &&& ack.total == sent.len()
    &&& settled(ack) == ack.total
    &&& ack.safe_through matches Some(position) ==> sent.contains(position)
}

/// Whether the counts of an acknowledgement do not add up to what was sent.
pub open spec fn counts_off(ack: PushAck, sent: Seq<u64>) -> bool {
    ack.total != sent.len() || settled(ack) != ack.total
}

/// What is said of an acknowledgement that does not match.
pub open spec fn ack_fault(ack: PushAck, local: InstanceId, sent: Seq<u64>) -> Seq<char> {
    if ack.wal_owner != local {
        "push acknowledgement names WAL owner "@ + crate::types::uuid_chars(
            ack.wal_owner.value as nat,
        ) + " but this instance is "@ + crate::types::uuid_chars(local.value as nat)
    } else if counts_off(ack, sent) {
        "push acknowledgement counts "@ + crate::text::decimal(ack.accepted as nat) + "+"@
            + crate::text::decimal(ack.rejected as nat) + "="@ + crate::text::decimal(
            ack.total as nat,
        ) + " do not match the "@ + crate::text::decimal(sent.len()) + " changes sent"@
    } else {
        "push acknowledgement names position "@ + crate::text::decimal(
            ack.safe_through.unwrap() as nat,
        ) + ", which was not in the batch"@
    }
}

/// Refuses an acknowledgement that does not match what was sent.
pub fn validate_ack(ack: &PushAck, local: InstanceId, sent: &Vec<u64>) -> (r: Result<
    (),
    SyncError,
>)
    ensures
        r is Ok <==> ack_matches(*ack, local, sent@),
        r matches Err(e) ==> (e matches SyncError::InvalidPayload(m) && m@ == ack_fault(
            *ack,
            local,
            sent@,
        )),
{
    if ack.wal_owner != local {
        let mut s = String::from_str("push acknowledgement names WAL owner ");
        s.append(ack.wal_owner.to_string().as_str());
        s.append(" but this instance is ");
        s.append(local.to_string().as_str());
        return Err(SyncError::InvalidPayload(s));
    }
    let submitted: u64 = sent.len() as u64;
    let settled: u64 = ack.accepted.saturating_add(ack.rejected);
    if ack.total != submitted || settled != ack.total {
        let mut s = String::from_str("push acknowledgement counts ");
        s.append(decimal_text(ack.accepted).as_str());
        s.append("+");
        s.append(decimal_text(ack.rejected).as_str());
        s.append("=");
        s.append(decimal_text(ack.total).as_str());
        s.append(" do not match the ");
        s.append(decimal_text(submitted).as_str());
        s.append(" changes sent");
        return Err(SyncError::InvalidPayload(s));
    }
    if let Some(position) = ack.safe_through {
        let mut i: usize = 0;
        while i < sent.len()
            invariant
                i <= sent@.len(),
                forall|j: int| 0 <= j < i ==> sent@[j] != position,
            ensures
                i <= sent@.len(),
                i < sent@.len() <==> sent@.contains(position),
            decreases sent@.len() - i,
        {
            if sent[i] == position {
                assert(sent@.contains(sent@[i as int]));
                break;
            }
            i = i + 1;
        }
        if i == sent.len() {
            let mut s = String::from_str("push acknowledgement names position ");
            s.append(decimal_text(position).as_str());
            s.append(", which was not in the batch");
            return Err(SyncError::InvalidPayload(s));
        }
    }
    Ok(())
}

// ---------------------------------------------------------------------------
// The pusher
// ---------------------------------------------------------------------------

/// Sends the local log to one peer, from a stored position on.
#[derive(Debug)]
pub struct LocalChangePusher {
    /// Settings.
    pub config: SyncConfig,
    /// The stored position: the next push starts behind it.
    pub position: u64,
    /// This instance.
    pub local_instance_id: InstanceId,
    /// The peer.
    pub peer_instance_id: InstanceId,
    /// Most bytes of a body the peer accepts.
    pub peer_receive_limit_bytes: usize,
}

/// The smaller of two budgets.
pub open spec fn tighter(a: usize, b: usize) -> usize {
    if a <= b {
        a
    } else {
        b
    }
}

/// The smaller of two budgets.
pub fn tighter_budget(a: usize, b: usize) -> (n: usize)
    ensures
        n == tighter(a, b),
{
    if a <= b {
        a
    } else {
        b
    }
}

/// Whether the settings leave an event out of what is sent.
pub open spec fn filtered(config: SyncConfig, record: WatchEventRecord) -> bool {
    ||| !config.allows(
        CollectiveId { value: crate::sync::payload::id_value(record.collective_id) },
    )
    ||| record.entity_type == EntityTypeTag::Relation && !config.sync_relations
    ||| record.entity_type == EntityTypeTag::Insight && !config.sync_insights
}

/// How a valid answer moves the position.
pub open spec fn push_step(
    pusher: LocalChangePusher,
    scanned: u64,
    sent: Seq<u64>,
    ack: PushAck,
) -> PushStep {
    PushStep::Save {
        next: crate::sync::progress::progress(
            pusher.position,
            scanned,
            ack.rejected as nat,
            ack.safe_through,
        ),
        count: sent.len() as usize,
    }
}

impl LocalChangePusher {
    /// A pusher that starts behind `start_sequence`.
    pub fn new(
        config: SyncConfig,
        local_instance_id: InstanceId,
        peer_instance_id: InstanceId,
        peer_receive_limit_bytes: usize,
        start_sequence: u64,
    ) -> (pusher: Self)
        ensures
            pusher == (LocalChangePusher {
                config,
                position: start_sequence,
                local_instance_id,
                peer_instance_id,
                peer_receive_limit_bytes,
            }),
    {
        LocalChangePusher {
            config,
            position: start_sequence,
            local_instance_id,
            peer_instance_id,
            peer_receive_limit_bytes,
        }
    }

    /// Most bytes of a request: what this instance may build and the peer accepts.
    pub fn push_cap_bytes(&self) -> (n: usize)
        ensures
            n == tighter(self.config.max_request_bytes, self.peer_receive_limit_bytes),
    {
        tighter_budget(self.config.max_request_bytes, self.peer_receive_limit_bytes)
    }

    /// Most bytes of an answer: what this instance accepts and its transport reads.
    pub fn reply_limit_bytes(&self, transport_limit: usize) -> (n: u64)
        ensures
            n == tighter(self.config.max_request_bytes, transport_limit),
    {
        tighter_budget(self.config.max_request_bytes, transport_limit) as u64
    }

    /// Turns an event of the local log into a change, or into nothing where the
    /// settings leave it out or its record is gone. `found` is that record, or why
    /// it could not be read, which is a failure and not a skip.
    pub fn record_to_change(
        &self,
        sequence: u64,
        record: &WatchEventRecord,
        found: Result<Option<Entity>, String>,
    ) -> (change: Result<Option<SyncChange>, SyncError>)
        ensures
            change is Err <==> !filtered(self.config, *record) && crate::sync::payload::needed(
                *record,
            ) is Some && found is Err,
            change matches Err(e) ==> (e matches SyncError::Transport(m) && (found matches Err(t)
                && m@ == "Failed to load entity for sync: "@ + t@)),
            change matches Ok(c) ==> c == (if filtered(self.config, *record) {
                None
            } else {
                match crate::sync::payload::payload(
                    *record,
                    if crate::sync::payload::needed(*record) is Some {
                        found->Ok_0
                    } else {
                        None
                    },
                ) {
                    Some(p) => Some(
                        crate::sync::payload::change_of(
                            sequence,
                            *record,
                            self.local_instance_id,
                            p,
                        ),
                    ),
                    None => None,
                }
            }),
    {
        let collective_id = CollectiveId::from_bytes(record.collective_id);
        if !is_allowed(&self.config.collectives, collective_id) {
            return Ok(None);
        }
        match record.entity_type {
            EntityTypeTag::Relation => {
                if !self.config.sync_relations {
                    return Ok(None);
                }
            },
            EntityTypeTag::Insight => {
                if !self.config.sync_insights {
                    return Ok(None);
                }
            },
            _ => {},
        }
        match build_payload(record, found, "Failed to load entity for sync: ") {
            Err(e) => Err(e),
            Ok(None) => Ok(None),
            Ok(Some(payload)) => Ok(
                Some(make_change(sequence, record, self.local_instance_id, payload)),
            ),
        }
    }

    /// Picks what to send of the events behind the position. `envelope` is the
    /// encoded length of the request without changes.
    pub fn push_pending(&self, candidates: Vec<LogCandidate>, envelope: usize) -> (packed: Result<
        PackedPush,
        SyncError,
    >)
        ensures
            ({
                let cap = tighter(self.config.max_request_bytes, self.peer_receive_limit_bytes);
                let batch_size = self.config.batch_size;
                &&& packed matches Ok(p) ==> {
                    &&& covers(candidates@, p.taken as int, envelope, cap, batch_size)
                    &&& p.taken < candidates@.len() ==> candidates@[p.taken as int].change is Ok
                    &&& !blocks(
                        candidates@,
                        p.taken as int,
                        self.position,
                        envelope,
                        cap,
                        batch_size,
                    )
                    &&& p.changes@ == crate::sync::batch::kept(candidates@.take(p.taken as int))
                    &&& p.scanned == crate::sync::batch::covered(candidates@.take(p.taken as int), self.position)
                }
                &&& packed matches Err(e) ==> exists|n: int|
                    {
                        &&& #[trigger] covers(candidates@, n, envelope, cap, batch_size)
                        &&& n < candidates@.len()
                        &&& match candidates@[n].change {
                            Err(fault) => e == fault,
                            Ok(_) => blocks(
                                candidates@,
                                n,
                                self.position,
                                envelope,
                                cap,
                                batch_size,
                            ) && (candidates@[n].change matches Ok(Some(change)) && e == (
                            SyncError::ChangeTooLarge {
                                sequence: change.sequence,
                                needed: kept_frame_len(candidates@.take(n + 1), envelope) as u64,
                                cap: cap as u64,
                            })),
                        }
                    }
            }),
    {
        pack(
            candidates,
            self.position,
            envelope,
            self.push_cap_bytes(),
            self.config.batch_size,
        )
    }

    /// The request that carries `changes`; without any it still checks who answers.
    pub fn request(&self, changes: Vec<SyncChange>, transport_limit: usize) -> (request: PushRequest)
        ensures
            request == (PushRequest {
                protocol_version: SYNC_PROTOCOL_VERSION,
                source_instance: self.local_instance_id,
                target_instance: self.peer_instance_id,
                reply_limit_bytes: tighter(self.config.max_request_bytes, transport_limit) as u64,
                changes,
            }),
    {
        PushRequest {
            protocol_version: SYNC_PROTOCOL_VERSION,
            source_instance: self.local_instance_id,
            target_instance: self.peer_instance_id,
            reply_limit_bytes: self.reply_limit_bytes(transport_limit),
            changes,
        }
    }

    /// Judges the answer to a push of the changes `sent` that covered the log
    /// through `scanned`.
    pub fn conclude(
        &self,
        scanned: u64,
        sent: &Vec<u64>,
        reply: Result<WireReply<PushAck>, SyncError>,
    ) -> (step: PushStep)
        ensures
            match reply {
                Err(e) => step == PushStep::Over(Err::<PushOutcome, SyncError>(e)),
                Ok(r) => match r.outcome(self.peer_instance_id) {
                    Err(SyncError::PeerChanged { .. }) => step == PushStep::Over(
                        Ok::<PushOutcome, SyncError>(PushOutcome::PeerChanged(r.responder)),
                    ),
                    Err(e) => step == PushStep::Over(Err::<PushOutcome, SyncError>(e)),
                    Ok(ack) => if ack_matches(ack, self.local_instance_id, sent@) {
                        step == push_step(*self, scanned, sent@, ack)
                    } else {
                        step matches PushStep::Over(Err(SyncError::InvalidPayload(m))) && m@
                            == ack_fault(ack, self.local_instance_id, sent@)
                    },
                },
            },
    {
        let answer = match reply {
            Ok(answer) => answer,
            Err(e) => {
                return PushStep::Over(Err(e));
            },
        };
        let responder = answer.responder;
        let ack = match answer.into_result(self.peer_instance_id) {
            Ok(ack) => ack,
            Err(e) => {
                if e.is_peer_changed() {
                    return PushStep::Over(Ok(PushOutcome::PeerChanged(responder)));
                }
                return PushStep::Over(Err(e));
            },
        };
        if let Err(e) = validate_ack(&ack, self.local_instance_id, sent) {
            return PushStep::Over(Err(e));
        }
        let next = next_progress(
            self.position,
            scanned,
            ack.rejected as usize,
            ack.safe_through,
        );
        PushStep::Save { next, count: sent.len() }
    }

    /// Moves on once the new position was stored; where storing it failed, the
    /// next push starts from the old one.
    pub fn saved(&mut self, next: u64, count: usize, stored: Result<(), String>) -> (outcome: Result<
        PushOutcome,
        SyncError,
    >)
        ensures
            *final(self) == (LocalChangePusher {
                position: if stored is Ok {
                    next
                } else {
                    old(self).position
                },
                ..*old(self)
            }),
            stored is Ok ==> outcome == Ok::<PushOutcome, SyncError>(PushOutcome::Pushed(count)),
            stored matches Err(t) ==> (outcome matches Err(SyncError::Transport(m)) && m@
                == "Failed to save push cursor: "@ + t@),
    {
        match stored {
            Ok(_) => {
                self.reset_to(next);
                Ok(PushOutcome::Pushed(count))
            },
            Err(text) => Err(
                SyncError::Transport(
                    crate::text::join("Failed to save push cursor: ", text.as_str()),
                ),
            ),
        }
    }

    /// Continues behind a stored position.
    pub fn reset_to(&mut self, sequence: u64)
        ensures
            *final(self) == (LocalChangePusher { position: sequence, ..*old(self) }),
    {
        self.position = sequence;
    }
}

/// A pusher never moves past a change its peer did not take: with anything
/// rejected it resumes at or below the acknowledged position, or where it was.
pub proof fn law_rejected_suffix_is_resent(
    pusher: LocalChangePusher,
    scanned: u64,
    sent: Seq<u64>,
    ack: PushAck,
)
    requires
        ack_matches(ack, pusher.local_instance_id, sent),
        ack.rejected > 0,
    ensures
        push_step(pusher, scanned, sent, ack) matches PushStep::Save { next, .. } && (next
            == pusher.position || ack.safe_through == Some(next)),
{
}

/// An empty push, sent only to learn who answers, moves the position exactly to what
/// was scanned.
pub proof fn law_probe_saves_scan_progress(pusher: LocalChangePusher, scanned: u64, ack: PushAck)
    requires
        ack_matches(ack, pusher.local_instance_id, Seq::empty()),
    ensures
        push_step(pusher, scanned, Seq::empty(), ack) == (PushStep::Save {
            next: crate::sync::progress::later(pusher.position, scanned),
            count: 0,
        }),
{
}

} // verus!
