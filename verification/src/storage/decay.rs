//! Decay configuration as it is stored.

use vstd::prelude::*;
use vstd::string::StringExecFns;

use crate::error::StorageError;

verus! {

/// Nanoseconds in a second.
pub const NANOS_PER_SEC: u32 = 1_000_000_000;

/// How fast experiences of a collective lose weight. Floating-point components
/// are bit patterns.
#[derive(Clone, Copy, Debug, PartialEq, Eq, Structural)]
pub struct DecayConfig {
    /// Whole seconds of the half life.
    pub half_life_secs: u64,
    /// Nanoseconds of the half life beyond its whole seconds.
    pub half_life_nanos: u32,
    /// Weight of application frequency.
    pub freq_weight: u32,
    /// Energy below which an experience counts as decayed.
    pub floor: u32,
    /// Whether decayed experiences are archived.
    pub auto_archive_below_floor: bool,
    /// Recall weights to use where a query gives none.
    pub default_recall_weights: Option<RecallWeights>,
}

/// Weights of recall criteria, as bit patterns.
#[derive(Clone, Copy, Debug, PartialEq, Eq, Structural)]
pub struct RecallWeights {
    /// Weight of similarity.
    pub similarity: u32,
    /// Weight of energy.
    pub energy: u32,
}

/// The stored form, with sub-second precision.
#[derive(Clone, Copy, Debug, PartialEq, Eq, Structural)]
pub struct StoredDecayConfig {
    /// Whole seconds of the half life.
    pub half_life_secs: u64,
    /// Nanoseconds of the half life beyond its whole seconds.
    pub half_life_nanos: u32,
    /// Weight of application frequency.
    pub freq_weight: u32,
    /// Energy below which an experience counts as decayed.
    pub floor: u32,
    /// Whether decayed experiences are archived.
    pub auto_archive_below_floor: bool,
    /// Recall weights to use where a query gives none.
    pub default_recall_weights: Option<RecallWeights>,
}

/// The first stored form, with whole seconds only.
#[derive(Clone, Copy, Debug, PartialEq, Eq, Structural)]
pub struct StoredDecayConfigV1 {
    /// Whole seconds of the half life.
    pub half_life_secs: u64,
    /// Weight of application frequency.
    pub freq_weight: u32,
    /// Energy below which an experience counts as decayed.
    pub floor: u32,
    /// Whether decayed experiences are archived.
    pub auto_archive_below_floor: bool,
    /// Recall weights to use where a query gives none.
    pub default_recall_weights: Option<RecallWeights>,
}

impl StoredDecayConfig {
    /// The stored form of a configuration.
    pub open spec fn of(config: DecayConfig) -> StoredDecayConfig {
        StoredDecayConfig {
            half_life_secs: config.half_life_secs,
            half_life_nanos: config.half_life_nanos,
            freq_weight: config.freq_weight,
            floor: config.floor,
            auto_archive_below_floor: config.auto_archive_below_floor,
            default_recall_weights: config.default_recall_weights,
        }
    }

    /// The stored form of a configuration.
    pub fn from_config(config: &DecayConfig) -> (stored: Self)
        ensures
            stored == StoredDecayConfig::of(*config),
    {
        StoredDecayConfig {
            half_life_secs: config.half_life_secs,
            half_life_nanos: config.half_life_nanos,
            freq_weight: config.freq_weight,
            floor: config.floor,
            auto_archive_below_floor: config.auto_archive_below_floor,
            default_recall_weights: config.default_recall_weights,
        }
    }
}

impl DecayConfig {
    /// A half life whose nanoseconds are below one second.
    pub open spec fn well_formed(self) -> bool {
        self.half_life_nanos < NANOS_PER_SEC
    }

    /// The configuration a stored form stands for: nanoseconds of a second and
    /// more carry into the seconds.
    pub open spec fn stored_meaning(stored: StoredDecayConfig) -> DecayConfig {
        DecayConfig {
            half_life_secs: (stored.half_life_secs + stored.half_life_nanos
                / NANOS_PER_SEC) as u64,
            half_life_nanos: stored.half_life_nanos % NANOS_PER_SEC,
            freq_weight: stored.freq_weight,
            floor: stored.floor,
            auto_archive_below_floor: stored.auto_archive_below_floor,
            default_recall_weights: stored.default_recall_weights,
        }
    }

    /// The configuration a stored form stands for. Nanoseconds of a second and
    /// more carry into the seconds, which must not overflow.
    pub fn from_stored(stored: StoredDecayConfig) -> (config: Self)
        requires
            stored.half_life_secs + stored.half_life_nanos / NANOS_PER_SEC <= u64::MAX,
        ensures
            config.well_formed(),
            config == DecayConfig::stored_meaning(stored),
    {
        DecayConfig {
            half_life_secs: stored.half_life_secs + (stored.half_life_nanos / NANOS_PER_SEC) as u64,
            half_life_nanos: stored.half_life_nanos % NANOS_PER_SEC,
            freq_weight: stored.freq_weight,
            floor: stored.floor,
            auto_archive_below_floor: stored.auto_archive_below_floor,
            default_recall_weights: stored.default_recall_weights,
        }
    }

    /// The configuration a first-form record stands for: whole seconds.
    pub fn from_stored_v1(stored: StoredDecayConfigV1) -> (config: Self)
        ensures
            config == (DecayConfig {
                half_life_secs: stored.half_life_secs,
                half_life_nanos: 0,
                freq_weight: stored.freq_weight,
                floor: stored.floor,
                auto_archive_below_floor: stored.auto_archive_below_floor,
                default_recall_weights: stored.default_recall_weights,
            }),
    {
        DecayConfig {
            half_life_secs: stored.half_life_secs,
            half_life_nanos: 0,
            freq_weight: stored.freq_weight,
            floor: stored.floor,
            auto_archive_below_floor: stored.auto_archive_below_floor,
            default_recall_weights: stored.default_recall_weights,
        }
    }
}

/// What is said of a decay record that decodes in neither form.
pub open spec fn undecodable(current: Seq<char>, first: Seq<char>) -> Seq<char> {
    "decay config current format: "@ + current + "; legacy format: "@ + first
}

/// The decay configuration of a collective, from its stored record as the current
/// form and as the first form decoded it, or why they did not. The first form is
/// consulted only where the current one fails.
pub fn get_decay_config(
    row: Option<(Result<StoredDecayConfig, String>, Result<StoredDecayConfigV1, String>)>,
) -> (config: Result<Option<DecayConfig>, StorageError>)
    requires
        row matches Some((Ok(stored), _)) ==> stored.half_life_secs + stored.half_life_nanos
            / NANOS_PER_SEC <= u64::MAX,
    ensures
        match row {
            None => config == Ok::<Option<DecayConfig>, StorageError>(None),
            Some((Ok(stored), _)) => config == Ok::<Option<DecayConfig>, StorageError>(
                Some(DecayConfig::stored_meaning(stored)),
            ),
            Some((Err(_), Ok(v1))) => config == Ok::<Option<DecayConfig>, StorageError>(
                Some(
                    DecayConfig {
                        half_life_secs: v1.half_life_secs,
                        half_life_nanos: 0,
                        freq_weight: v1.freq_weight,
                        floor: v1.floor,
                        auto_archive_below_floor: v1.auto_archive_below_floor,
                        default_recall_weights: v1.default_recall_weights,
                    },
                ),
            ),
            Some((Err(c), Err(f))) => config matches Err(StorageError::Serialization(m)) && m@
                == undecodable(c@, f@),
        },
{
    match row {
        None => Ok(None),
        Some((Ok(stored), _)) => Ok(Some(DecayConfig::from_stored(stored))),
        Some((Err(_), Ok(v1))) => Ok(Some(DecayConfig::from_stored_v1(v1))),
        Some((Err(current), Err(first))) => {
            let mut s = String::from_str("decay config current format: ");
            s.append(current.as_str());
            s.append("; legacy format: ");
            s.append(first.as_str());
            Err(StorageError::Serialization(s))
        },
    }
}

/// Storing a configuration and reading it back gives the configuration,
/// sub-second half lives included.
pub proof fn law_decay_config_round_trip(config: DecayConfig)
    requires
        config.well_formed(),
    ensures
        DecayConfig::stored_meaning(StoredDecayConfig::of(config)) == config,
{
}

} // verus!
