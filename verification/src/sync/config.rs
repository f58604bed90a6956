//! Sync settings.

use vstd::prelude::*;

use crate::error::ValidationError;
use crate::sync::wire::MIN_CONTROL_FRAME_BYTES;
use crate::types::CollectiveId;

verus! {

/// Default byte budget of one sync body: 64 MiB.
pub const DEFAULT_MAX_REQUEST_BYTES: usize = 64 * 1024 * 1024;

/// Default clock-skew allowance: five minutes.
pub const DEFAULT_MAX_CLOCK_SKEW_MS: u64 = 300_000;

/// Which way changes flow.
#[derive(Clone, Copy, Debug, PartialEq, Eq, Structural)]
pub enum SyncDirection {
    /// Local changes are sent; none are fetched.
    PushOnly,
    /// Remote changes are fetched; none are sent.
    PullOnly,
    /// Both.
    Bidirectional,
}

impl SyncDirection {
    /// Whether remote changes are fetched.
    pub open spec fn spec_pulls(self) -> bool {
        self != SyncDirection::PushOnly
    }

    /// Whether local changes are sent.
    pub open spec fn spec_pushes(self) -> bool {
        self != SyncDirection::PullOnly
    }

    /// Whether remote changes are fetched.
    pub fn pulls(self) -> (yes: bool)
        ensures
            yes == self.spec_pulls(),
    {
        match self {
            SyncDirection::PushOnly => false,
            SyncDirection::PullOnly => true,
            SyncDirection::Bidirectional => true,
        }
    }

    /// Whether local changes are sent.
    pub fn pushes(self) -> (yes: bool)
        ensures
            yes == self.spec_pushes(),
    {
        match self {
            SyncDirection::PushOnly => true,
            SyncDirection::PullOnly => false,
            SyncDirection::Bidirectional => true,
        }
    }
}

impl Default for SyncDirection {
    fn default() -> (direction: Self)
        ensures
            direction == SyncDirection::Bidirectional,
    {
        SyncDirection::Bidirectional
    }
}

/// Who wins when both peers changed the same experience.
#[derive(Clone, Copy, Debug, PartialEq, Eq, Structural)]
pub enum ConflictResolution {
    /// The remote change always wins.
    ServerWins,
    /// The later change wins.
    LastWriteWins,
}

impl Default for ConflictResolution {
    fn default() -> (resolution: Self)
        ensures
            resolution == ConflictResolution::ServerWins,
    {
        ConflictResolution::ServerWins
    }
}

/// How transient failures are retried.
#[derive(Clone, Copy, Debug, PartialEq, Eq, Structural)]
pub struct RetryConfig {
    /// Consecutive failures that are tolerated quietly.
    pub max_retries: u32,
    /// First backoff.
    pub initial_backoff_ms: u64,
    /// Longest backoff.
    pub max_backoff_ms: u64,
    /// Growth of the backoff per failure, as the bit pattern of a double.
    pub backoff_multiplier: u64,
}

/// Bit pattern of the double two, the default backoff growth.
pub const DOUBLE_TWO_BITS: u64 = 0x4000_0000_0000_0000;

impl RetryConfig {
    /// The default retry policy.
    pub open spec fn spec_default() -> RetryConfig {
        RetryConfig {
            max_retries: 5,
            initial_backoff_ms: 500,
            max_backoff_ms: 30_000,
            backoff_multiplier: DOUBLE_TWO_BITS,
        }
    }
}

impl Default for RetryConfig {
    fn default() -> (retry: Self)
        ensures
            retry == RetryConfig::spec_default(),
    {
        RetryConfig {
            max_retries: 5,
            initial_backoff_ms: 500,
            max_backoff_ms: 30_000,
            backoff_multiplier: DOUBLE_TWO_BITS,
        }
    }
}

/// Sync settings of one instance.
#[derive(Clone, Debug)]
pub struct SyncConfig {
    /// Which way changes flow.
    pub direction: SyncDirection,
    /// Who wins a conflict.
    pub conflict_resolution: ConflictResolution,
    /// Most changes per batch: a ceiling on the count, not on the bytes.
    pub batch_size: usize,
    /// Time between pushes.
    pub push_interval_ms: u64,
    /// Time between pulls.
    pub pull_interval_ms: u64,
    /// How failures are retried.
    pub retry: RetryConfig,
    /// The collectives to sync, or all of them.
    pub collectives: Option<Vec<CollectiveId>>,
    /// Whether relations are synced.
    pub sync_relations: bool,
    /// Whether insights are synced.
    pub sync_insights: bool,
    /// Most bytes of one sync body, accepted or built.
    pub max_request_bytes: usize,
    /// How far into the future a reinforcement may be dated unremarked.
    pub max_clock_skew_ms: u64,
}

/// The fallback for a settings file that names no byte budget.
pub fn default_max_request_bytes() -> (n: usize)
    ensures
        n == DEFAULT_MAX_REQUEST_BYTES,
{
    DEFAULT_MAX_REQUEST_BYTES
}

/// The fallback for a settings file that names no skew allowance.
pub fn default_max_clock_skew_ms() -> (n: u64)
    ensures
        n == DEFAULT_MAX_CLOCK_SKEW_MS,
{
    DEFAULT_MAX_CLOCK_SKEW_MS
}

impl Default for SyncConfig {
    fn default() -> (config: Self)
        ensures
            config == (SyncConfig {
                direction: SyncDirection::Bidirectional,
                conflict_resolution: ConflictResolution::ServerWins,
                batch_size: 250,
                push_interval_ms: 1000,
                pull_interval_ms: 1000,
                retry: RetryConfig::spec_default(),
                collectives: None,
                sync_relations: true,
                sync_insights: true,
                max_request_bytes: DEFAULT_MAX_REQUEST_BYTES,
                max_clock_skew_ms: DEFAULT_MAX_CLOCK_SKEW_MS,
            }),
            config.is_valid(),
    {
        SyncConfig {
            direction: SyncDirection::default(),
            conflict_resolution: ConflictResolution::default(),
            batch_size: 250,
            push_interval_ms: 1000,
            pull_interval_ms: 1000,
            retry: RetryConfig::default(),
            collectives: None,
            sync_relations: true,
            sync_insights: true,
            max_request_bytes: DEFAULT_MAX_REQUEST_BYTES,
            max_clock_skew_ms: DEFAULT_MAX_CLOCK_SKEW_MS,
        }
    }
}

/// What is said of a setting that must not be zero.
pub const MUST_BE_POSITIVE: &'static str = "must be greater than 0";

/// What is said of a byte budget below the control minimum.
pub const MUST_HOLD_A_CONTROL_FRAME: &'static str =
    "must be at least MIN_CONTROL_FRAME_BYTES (1024 bytes), the budget the largest bounded control frame needs";

impl SyncConfig {
    /// Whether the settings are usable.
    pub open spec fn is_valid(self) -> bool {
        self.batch_size > 0 && self.push_interval_ms > 0 && self.pull_interval_ms > 0
            && self.max_request_bytes >= MIN_CONTROL_FRAME_BYTES
    }

    /// The first unusable setting and what is said of it.
    pub open spec fn fault(self) -> (Seq<char>, Seq<char>) {
        if self.batch_size == 0 {
            ("batch_size"@, MUST_BE_POSITIVE@)
        } else if self.push_interval_ms == 0 {
            ("push_interval_ms"@, MUST_BE_POSITIVE@)
        } else if self.pull_interval_ms == 0 {
            ("pull_interval_ms"@, MUST_BE_POSITIVE@)
        } else {
            ("max_request_bytes"@, MUST_HOLD_A_CONTROL_FRAME@)
        }
    }

    /// Refuses unusable settings, naming the first of them.
    pub fn validate(&self) -> (r: Result<(), ValidationError>)
        ensures
            r is Ok <==> self.is_valid(),
            r matches Err(e) ==> (e matches ValidationError::InvalidField { field, reason }
                && field@ == self.fault().0 && reason@ == self.fault().1),
    {
        if self.batch_size == 0 {
            return Err(ValidationError::invalid_field("batch_size", MUST_BE_POSITIVE));
        }
        if self.push_interval_ms == 0 {
            return Err(ValidationError::invalid_field("push_interval_ms", MUST_BE_POSITIVE));
        }
        if self.pull_interval_ms == 0 {
            return Err(ValidationError::invalid_field("pull_interval_ms", MUST_BE_POSITIVE));
        }
        if self.max_request_bytes < MIN_CONTROL_FRAME_BYTES {
            return Err(
                ValidationError::invalid_field("max_request_bytes", MUST_HOLD_A_CONTROL_FRAME),
            );
        }
        Ok(())
    }

    /// Whether the settings let changes of `collective` through.
    pub open spec fn allows(self, collective: CollectiveId) -> bool {
        allowed(self.collectives, collective)
    }
}

/// Whether a collective filter lets `collective` through: no filter lets all.
pub open spec fn allowed(filter: Option<Vec<CollectiveId>>, collective: CollectiveId) -> bool {
    filter matches Some(ids) ==> ids@.contains(collective)
}

/// Whether a collective filter lets `collective` through.
pub fn is_allowed(filter: &Option<Vec<CollectiveId>>, collective: CollectiveId) -> (yes: bool)
    ensures
        yes == allowed(*filter, collective),
{
    match filter {
        None => true,
        Some(ids) => {
            let mut i: usize = 0;
            while i < ids.len()
                invariant
                    *filter == Some::<Vec<CollectiveId>>(*ids),
                    i <= ids@.len(),
                    forall|j: int| 0 <= j < i ==> ids@[j] != collective,
                decreases ids@.len() - i,
            {
                if ids[i] == collective {
                    assert(ids@.contains(ids@[i as int]));
                    return true;
                }
                i = i + 1;
            }
            false
        },
    }
}

} // verus!
