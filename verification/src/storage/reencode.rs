//! The one-time pass that rewrites every serialized table in the current codec.

use vstd::prelude::*;
use vstd::string::StringExecFns;

use crate::error::{PulseDBError, StorageError};
use crate::model::{
    Activity, Collective, DerivedInsight, Experience, ExperienceRelation, ExperienceV2, SyncCursor,
};
use crate::storage::decay::{DecayConfig, StoredDecayConfig, StoredDecayConfigV1};
use crate::storage::experiences::{is_reshaped, reshape_experience};
use crate::storage::schema::{DatabaseMetadata, WatchEventRecord, WatchEventRecordV1};
use crate::storage::store::{Plan, StoreOp, StoreView};
use crate::storage::wal::{upgrade_event, upgraded_event};
use crate::types::{CollectiveId, ExperienceId, InsightId, InstanceId, RelationId};

verus! {

/// A table of the store.
#[derive(Clone, Copy, Debug, PartialEq, Eq, Structural)]
pub enum Table {
    /// Metadata keys; only the `db_metadata` key is serialized.
    Metadata,
    /// Collectives.
    Collectives,
    /// Decay configurations.
    DecayConfigs,
    /// Experience records.
    Experiences,
    /// Relation records.
    Relations,
    /// Insight records.
    Insights,
    /// Activities.
    Activities,
    /// The watch-event log.
    WatchEvents,
    /// Sync cursors.
    SyncCursors,
    /// Embedding bytes.
    Embeddings,
    /// Index of experiences by collective.
    ExperiencesByCollective,
    /// Index of experiences by kind.
    ExperiencesByType,
    /// Index of relations by source.
    RelationsBySource,
    /// Index of relations by target.
    RelationsByTarget,
    /// Index of insights by collective.
    InsightsByCollective,
}

impl Table {
    /// Whether the table holds serialized records, as opposed to raw bytes that are
    /// copied through untouched.
    pub open spec fn serialized(self) -> bool {
        match self {
            Table::Metadata | Table::Collectives | Table::DecayConfigs | Table::Experiences
            | Table::Relations | Table::Insights | Table::Activities | Table::WatchEvents
            | Table::SyncCursors => true,
            _ => false,
        }
    }

    /// Whether the table holds serialized records.
    pub fn is_serde_blob(self) -> (yes: bool)
        ensures
            yes == self.serialized(),
    {
        match self {
            Table::Metadata => true,
            Table::Collectives => true,
            Table::DecayConfigs => true,
            Table::Experiences => true,
            Table::Relations => true,
            Table::Insights => true,
            Table::Activities => true,
            Table::WatchEvents => true,
            Table::SyncCursors => true,
            _ => false,
        }
    }

    /// The table's name in the database file.
    pub open spec fn name_chars(self) -> Seq<char> {
        match self {
            Table::Metadata => "metadata"@,
            Table::Collectives => "collectives"@,
            Table::DecayConfigs => "decay_configs"@,
            Table::Experiences => "experiences"@,
            Table::Relations => "relations"@,
            Table::Insights => "insights"@,
            Table::Activities => "activities"@,
            Table::WatchEvents => "watch_events"@,
            Table::SyncCursors => "sync_cursors"@,
            Table::Embeddings => "embeddings"@,
            Table::ExperiencesByCollective => "experiences_by_collective"@,
            Table::ExperiencesByType => "experiences_by_type"@,
            Table::RelationsBySource => "relations_by_source"@,
            Table::RelationsByTarget => "relations_by_target"@,
            Table::InsightsByCollective => "insights_by_collective"@,
        }
    }

    /// The table's name in the database file.
    pub fn name(self) -> (s: &'static str)
        ensures
            s@ == self.name_chars(),
    {
        match self {
            Table::Metadata => "metadata",
            Table::Collectives => "collectives",
            Table::DecayConfigs => "decay_configs",
            Table::Experiences => "experiences",
            Table::Relations => "relations",
            Table::Insights => "insights",
            Table::Activities => "activities",
            Table::WatchEvents => "watch_events",
            Table::SyncCursors => "sync_cursors",
            Table::Embeddings => "embeddings",
            Table::ExperiencesByCollective => "experiences_by_collective",
            Table::ExperiencesByType => "experiences_by_type",
            Table::RelationsBySource => "relations_by_source",
            Table::RelationsByTarget => "relations_by_target",
            Table::InsightsByCollective => "insights_by_collective",
        }
    }
}

/// The serialized tables in the order the pass visits them.
pub open spec fn spec_serde_blob_tables() -> Seq<Table> {
    seq![
        Table::Metadata,
        Table::Collectives,
        Table::DecayConfigs,
        Table::Experiences,
        Table::Relations,
        Table::Insights,
        Table::Activities,
        Table::WatchEvents,
        Table::SyncCursors,
    ]
}

/// The words the records of the serialized tables go by in messages.
pub open spec fn blob_words() -> Seq<Seq<char>> {
    seq![
        "db_metadata"@,
        "collective"@,
        "decay_config"@,
        "experience"@,
        "relation"@,
        "insight"@,
        "activity"@,
        "watch_event"@,
        "sync_cursor"@,
    ]
}

/// The serialized tables in the order the pass visits them, each with the word
/// its records go by in messages.
pub fn serde_blob_tables() -> (tables: [(Table, &'static str); 9])
    ensures
        tables@.map_values(|t: (Table, &'static str)| t.0) == spec_serde_blob_tables(),
        tables@.map_values(|t: (Table, &'static str)| t.1@) == blob_words(),
{
    let tables: [(Table, &'static str); 9] = [
        (Table::Metadata, "db_metadata"),
        (Table::Collectives, "collective"),
        (Table::DecayConfigs, "decay_config"),
        (Table::Experiences, "experience"),
        (Table::Relations, "relation"),
        (Table::Insights, "insight"),
        (Table::Activities, "activity"),
        (Table::WatchEvents, "watch_event"),
        (Table::SyncCursors, "sync_cursor"),
    ];
    assert(tables@.map_values(|t: (Table, &'static str)| t.0) =~= spec_serde_blob_tables());
    assert(tables@.map_values(|t: (Table, &'static str)| t.1@) =~= blob_words());
    tables
}

/// The pass visits exactly the serialized tables, each once.
pub proof fn law_registry_is_exhaustive(t: Table)
    ensures
        spec_serde_blob_tables().contains(t) <==> t.serialized(),
        spec_serde_blob_tables().no_duplicates(),
{
    let r = spec_serde_blob_tables();
    assert(r[0] == Table::Metadata);
    assert(r[1] == Table::Collectives);
    assert(r[2] == Table::DecayConfigs);
    assert(r[3] == Table::Experiences);
    assert(r[4] == Table::Relations);
    assert(r[5] == Table::Insights);
    assert(r[6] == Table::Activities);
    assert(r[7] == Table::WatchEvents);
    assert(r[8] == Table::SyncCursors);
}

/// The message for a record that neither codec decodes.
pub open spec fn undecodable_chars(
    what: Seq<char>,
    legacy: Seq<char>,
    current: Seq<char>,
) -> Seq<char> {
    what + ": legacy bincode decode failed ("@ + legacy + "); postcard decode also failed ("@
        + current + ")"@
}

/// A record decoded by the legacy codec where that succeeds, else by the current
/// one. Rows are expected in the legacy codec; one that an earlier step of the same
/// transaction rewrote is in the current one.
pub fn decode_blob_legacy_or_postcard<T>(
    what: &str,
    legacy: Result<T, String>,
    current: Result<T, String>,
) -> (value: Result<T, StorageError>)
    ensures
        match (legacy, current, value) {
            (Ok(a), _, Ok(v)) => v == a,
            (Err(_), Ok(b), Ok(v)) => v == b,
            (Err(x), Err(y), Err(e)) => e matches StorageError::Serialization(m) && m@
                == undecodable_chars(what@, x@, y@),
            _ => false,
        },
{
    match legacy {
        Ok(v) => Ok(v),
        Err(legacy_text) => match current {
            Ok(v) => Ok(v),
            Err(current_text) => {
                let mut text = String::from_str(what);
                text.append(": legacy bincode decode failed (");
                text.append(legacy_text.as_str());
                text.append("); postcard decode also failed (");
                text.append(current_text.as_str());
                text.append(")");
                Err(StorageError::Serialization(text))
            },
        },
    }
}

/// A decay row: its current form where it decodes so, else its first form brought
/// up to date.
pub fn reencode_decay_row(
    current: Result<StoredDecayConfig, StorageError>,
    first: Result<StoredDecayConfigV1, StorageError>,
) -> (row: Result<StoredDecayConfig, StorageError>)
    ensures
        match (current, first, row) {
            (Ok(c), _, Ok(r)) => r == c,
            (Err(_), Ok(v1), Ok(r)) => r == (StoredDecayConfig {
                half_life_secs: v1.half_life_secs,
                half_life_nanos: 0,
                freq_weight: v1.freq_weight,
                floor: v1.floor,
                auto_archive_below_floor: v1.auto_archive_below_floor,
                default_recall_weights: v1.default_recall_weights,
            }),
            (Err(_), Err(f), Err(e)) => e == f,
            _ => false,
        },
{
    match current {
        Ok(c) => Ok(c),
        Err(_) => match first {
            Ok(v1) => {
                let config = DecayConfig::from_stored_v1(v1);
                Ok(StoredDecayConfig::from_config(&config))
            },
            Err(f) => Err(f),
        },
    }
}

/// An experience row: its current form where it decodes so, else its second-schema
/// form reshaped.
pub fn reencode_experience_row(
    current: Result<Experience, StorageError>,
    second: Result<ExperienceV2, StorageError>,
) -> (row: Result<Experience, StorageError>)
    ensures
        match (current, second, row) {
            (Ok(c), _, Ok(r)) => r == c,
            (Err(_), Ok(v2), Ok(r)) => is_reshaped(v2, r),
            (Err(_), Err(f), Err(e)) => e == f,
            _ => false,
        },
{
    match current {
        Ok(c) => Ok(c),
        Err(_) => match second {
            Ok(v2) => Ok(reshape_experience(v2)),
            Err(f) => Err(f),
        },
    }
}

/// A log row: its current form where it decodes so, else its first-schema form
/// brought up to date.
pub fn reencode_event_row(
    current: Result<WatchEventRecord, StorageError>,
    first: Result<WatchEventRecordV1, StorageError>,
) -> (row: Result<WatchEventRecord, StorageError>)
    ensures
        match (current, first, row) {
            (Ok(c), _, Ok(r)) => r == c,
            (Err(_), Ok(v1), Ok(r)) => r == upgraded_event(v1),
            (Err(_), Err(f), Err(e)) => e == f,
            _ => false,
        },
{
    match current {
        Ok(c) => Ok(c),
        Err(_) => match first {
            Ok(v1) => Ok(upgrade_event(&v1)),
            Err(f) => Err(f),
        },
    }
}

/// Whether every row decoded.
pub open spec fn all_decoded<T>(rows: Seq<Result<T, StorageError>>) -> bool {
    forall|i: int| #![trigger rows[i]] 0 <= i < rows.len() ==> rows[i] is Ok
}

/// The decoded rows.
pub open spec fn decoded<T>(rows: Seq<Result<T, StorageError>>) -> Seq<T> {
    rows.map_values(|r: Result<T, StorageError>| r->Ok_0)
}

/// Whether `e` is the fault of the first row that did not decode.
pub open spec fn first_fault<T>(rows: Seq<Result<T, StorageError>>, e: StorageError) -> bool {
    exists|i: int|
        #![trigger rows[i]]
        0 <= i < rows.len() && rows[i] == Err::<T, StorageError>(e) && all_decoded(rows.take(i))
}

/// Every row of a table, or the fault of the first that did not decode.
pub fn collect_rows<T>(rows: Vec<Result<T, StorageError>>) -> (values: Result<Vec<T>, StorageError>)
    ensures
        values is Ok <==> all_decoded(rows@),
        values matches Ok(v) ==> v@ == decoded(rows@),
        values matches Err(e) ==> first_fault(rows@, e),
{
    let ghost all = rows@;
    let mut values: Vec<T> = Vec::new();
    for row in it: rows
        invariant
            it.seq() == all,
            values@.len() == it.index(),
            forall|i: int|
                #![trigger all[i]]
                0 <= i < it.index() ==> all[i] is Ok && values@[i] == all[i]->Ok_0,
    {
        let ghost n: int = values@.len() as int;
        assert(row == all[n]);
        match row {
            Ok(v) => {
                values.push(v);
            },
            Err(e) => {
                proof {
                    assert(all[n] == Err::<T, StorageError>(e));
                    assert forall|i: int| #![trigger all.take(n)[i]] 0 <= i < n implies all.take(
                        n,
                    )[i] is Ok by {
                        assert(all[i] is Ok);
                    }
                }
                return Err(e);
            },
        }
    }
    assert(values@ =~= decoded(all));
    Ok(values)
}

/// The rows of a build's sync-cursor table.
#[derive(Debug)]
pub enum CursorRows {
    /// A build that syncs decodes them.
    Decoded(Vec<Result<(InstanceId, SyncCursor), StorageError>>),
    /// A build that does not sync only knows whether there are any.
    Opaque {
        /// Whether there are any.
        present: bool,
    },
}

/// Every row of every serialized table, each under the key it was read with, and
/// decoded or with the reason it was not.
#[derive(Debug)]
pub struct BlobRows {
    /// The `db_metadata` record, where there is one.
    pub metadata: Option<Result<DatabaseMetadata, StorageError>>,
    /// Collectives.
    pub collectives: Vec<Result<(CollectiveId, Collective), StorageError>>,
    /// Decay configurations.
    pub decay_configs: Vec<Result<(CollectiveId, StoredDecayConfig), StorageError>>,
    /// Experience records.
    pub experiences: Vec<Result<(ExperienceId, Experience), StorageError>>,
    /// Relation records.
    pub relations: Vec<Result<(RelationId, ExperienceRelation), StorageError>>,
    /// Insight records.
    pub insights: Vec<Result<(InsightId, DerivedInsight), StorageError>>,
    /// Activities under their keys.
    pub activities: Vec<Result<(Vec<u8>, Activity), StorageError>>,
    /// Log rows under their keys.
    pub events: Vec<Result<([u8; 8], WatchEventRecord), StorageError>>,
    /// Sync cursors.
    pub cursors: CursorRows,
}

/// A table after `rows` were written to it in order, each under its own key.
pub open spec fn put_all<K, V>(table: Map<K, V>, rows: Seq<(K, V)>) -> Map<K, V>
    decreases rows.len(),
{
    if rows.len() == 0 {
        table
    } else {
        put_all(table, rows.drop_last()).insert(rows.last().0, rows.last().1)
    }
}

proof fn lemma_put_next<K, V>(table: Map<K, V>, rows: Seq<(K, V)>, n: int)
    requires
        0 <= n < rows.len(),
    ensures
        put_all(table, rows.take(n + 1)) == put_all(table, rows.take(n)).insert(
            rows[n].0,
            rows[n].1,
        ),
{
    assert(rows.take(n + 1).drop_last() =~= rows.take(n));
}

/// Activities with their keys as byte strings.
pub open spec fn activity_rows(values: Seq<(Vec<u8>, Activity)>) -> Seq<(Seq<u8>, Activity)> {
    values.map_values(|x: (Vec<u8>, Activity)| (x.0@, x.1))
}

/// Log rows with their keys as byte strings.
pub open spec fn event_rows(values: Seq<([u8; 8], WatchEventRecord)>) -> Seq<
    (Seq<u8>, WatchEventRecord),
> {
    values.map_values(|x: ([u8; 8], WatchEventRecord)| (x.0@, x.1))
}

/// Writes the rows back into their table.
fn push_collectives(plan: &mut Plan, values: Vec<(CollectiveId, Collective)>)
    ensures
        forall|s: StoreView| #[trigger]
            final(plan).effect(s) == (StoreView {
                collectives: put_all(old(plan).effect(s).collectives, values@),
                ..old(plan).effect(s)
            }),
{
    let ghost start = *plan;
    let ghost all = values@;
    let ghost given = values@;
    assert(all.take(0) =~= Seq::empty());
    for x in it: values
        invariant
            it.seq() == given,
            all == given,
            forall|s: StoreView| #[trigger]
                plan.effect(s) == (StoreView {
                    collectives: put_all(start.effect(s).collectives, all.take(it.index() as int)),
                    ..start.effect(s)
                }),
    {
        let ghost n: int = it.index() as int;
        assert(x == given[n]);
        plan.push(StoreOp::PutCollective(x.0, x.1));
        assert forall|s: StoreView| #[trigger]
            plan.effect(s) == (StoreView {
                collectives: put_all(start.effect(s).collectives, all.take(n + 1)),
                ..start.effect(s)
            }) by {
            lemma_put_next(start.effect(s).collectives, all, n);
        }
    }
    assert(all.take(all.len() as int) =~= all);
}

/// Writes the rows back into their table.
fn push_decay_configs(plan: &mut Plan, values: Vec<(CollectiveId, StoredDecayConfig)>)
    ensures
        forall|s: StoreView| #[trigger]
            final(plan).effect(s) == (StoreView {
                decay_configs: put_all(old(plan).effect(s).decay_configs, values@),
                ..old(plan).effect(s)
            }),
{
    let ghost start = *plan;
    let ghost all = values@;
    let ghost given = values@;
    assert(all.take(0) =~= Seq::empty());
    for x in it: values
        invariant
            it.seq() == given,
            all == given,
            forall|s: StoreView| #[trigger]
                plan.effect(s) == (StoreView {
                    decay_configs: put_all(start.effect(s).decay_configs, all.take(it.index() as int)),
                    ..start.effect(s)
                }),
    {
        let ghost n: int = it.index() as int;
        assert(x == given[n]);
        plan.push(StoreOp::PutDecayConfig(x.0, x.1));
        assert forall|s: StoreView| #[trigger]
            plan.effect(s) == (StoreView {
                decay_configs: put_all(start.effect(s).decay_configs, all.take(n + 1)),
                ..start.effect(s)
            }) by {
            lemma_put_next(start.effect(s).decay_configs, all, n);
        }
    }
    assert(all.take(all.len() as int) =~= all);
}

/// Writes the rows back into their table.
fn push_experiences(plan: &mut Plan, values: Vec<(ExperienceId, Experience)>)
    ensures
        forall|s: StoreView| #[trigger]
            final(plan).effect(s) == (StoreView {
                experiences: put_all(old(plan).effect(s).experiences, values@),
                ..old(plan).effect(s)
            }),
{
    let ghost start = *plan;
    let ghost all = values@;
    let ghost given = values@;
    assert(all.take(0) =~= Seq::empty());
    for x in it: values
        invariant
            it.seq() == given,
            all == given,
            forall|s: StoreView| #[trigger]
                plan.effect(s) == (StoreView {
                    experiences: put_all(start.effect(s).experiences, all.take(it.index() as int)),
                    ..start.effect(s)
                }),
    {
        let ghost n: int = it.index() as int;
        assert(x == given[n]);
        plan.push(StoreOp::PutExperience(x.0, x.1));
        assert forall|s: StoreView| #[trigger]
            plan.effect(s) == (StoreView {
                experiences: put_all(start.effect(s).experiences, all.take(n + 1)),
                ..start.effect(s)
            }) by {
            lemma_put_next(start.effect(s).experiences, all, n);
        }
    }
    assert(all.take(all.len() as int) =~= all);
}

/// Writes the rows back into their table.
fn push_relations(plan: &mut Plan, values: Vec<(RelationId, ExperienceRelation)>)
    ensures
        forall|s: StoreView| #[trigger]
            final(plan).effect(s) == (StoreView {
                relations: put_all(old(plan).effect(s).relations, values@),
                ..old(plan).effect(s)
            }),
{
    let ghost start = *plan;
    let ghost all = values@;
    let ghost given = values@;
    assert(all.take(0) =~= Seq::empty());
    for x in it: values
        invariant
            it.seq() == given,
            all == given,
            forall|s: StoreView| #[trigger]
                plan.effect(s) == (StoreView {
                    relations: put_all(start.effect(s).relations, all.take(it.index() as int)),
                    ..start.effect(s)
                }),
    {
        let ghost n: int = it.index() as int;
        assert(x == given[n]);
        plan.push(StoreOp::PutRelation(x.0, x.1));
        assert forall|s: StoreView| #[trigger]
            plan.effect(s) == (StoreView {
                relations: put_all(start.effect(s).relations, all.take(n + 1)),
                ..start.effect(s)
            }) by {
            lemma_put_next(start.effect(s).relations, all, n);
        }
    }
    assert(all.take(all.len() as int) =~= all);
}

/// Writes the rows back into their table.
fn push_insights(plan: &mut Plan, values: Vec<(InsightId, DerivedInsight)>)
    ensures
        forall|s: StoreView| #[trigger]
            final(plan).effect(s) == (StoreView {
                insights: put_all(old(plan).effect(s).insights, values@),
                ..old(plan).effect(s)
            }),
{
    let ghost start = *plan;
    let ghost all = values@;
    let ghost given = values@;
    assert(all.take(0) =~= Seq::empty());
    for x in it: values
        invariant
            it.seq() == given,
            all == given,
            forall|s: StoreView| #[trigger]
                plan.effect(s) == (StoreView {
                    insights: put_all(start.effect(s).insights, all.take(it.index() as int)),
                    ..start.effect(s)
                }),
    {
        let ghost n: int = it.index() as int;
        assert(x == given[n]);
        plan.push(StoreOp::PutInsight(x.0, x.1));
        assert forall|s: StoreView| #[trigger]
            plan.effect(s) == (StoreView {
                insights: put_all(start.effect(s).insights, all.take(n + 1)),
                ..start.effect(s)
            }) by {
            lemma_put_next(start.effect(s).insights, all, n);
        }
    }
    assert(all.take(all.len() as int) =~= all);
}

/// Writes the rows back into their table.
fn push_activities(plan: &mut Plan, values: Vec<(Vec<u8>, Activity)>)
    ensures
        forall|s: StoreView| #[trigger]
            final(plan).effect(s) == (StoreView {
                activities: put_all(old(plan).effect(s).activities, activity_rows(values@)),
                ..old(plan).effect(s)
            }),
{
    let ghost start = *plan;
    let ghost all = activity_rows(values@);
    let ghost given = values@;
    assert(all.take(0) =~= Seq::empty());
    for x in it: values
        invariant
            it.seq() == given,
            all == activity_rows(given),
            forall|s: StoreView| #[trigger]
                plan.effect(s) == (StoreView {
                    activities: put_all(start.effect(s).activities, all.take(it.index() as int)),
                    ..start.effect(s)
                }),
    {
        let ghost n: int = it.index() as int;
        assert(x == given[n]);
        plan.push(StoreOp::PutActivity(x.0, x.1));
        assert forall|s: StoreView| #[trigger]
            plan.effect(s) == (StoreView {
                activities: put_all(start.effect(s).activities, all.take(n + 1)),
                ..start.effect(s)
            }) by {
            lemma_put_next(start.effect(s).activities, all, n);
        }
    }
    assert(all.take(all.len() as int) =~= all);
}

/// Writes the rows back into their table.
fn push_events(plan: &mut Plan, values: Vec<([u8; 8], WatchEventRecord)>)
    ensures
        forall|s: StoreView| #[trigger]
            final(plan).effect(s) == (StoreView {
                events: put_all(old(plan).effect(s).events, event_rows(values@)),
                ..old(plan).effect(s)
            }),
{
    let ghost start = *plan;
    let ghost all = event_rows(values@);
    let ghost given = values@;
    assert(all.take(0) =~= Seq::empty());
    for x in it: values
        invariant
            it.seq() == given,
            all == event_rows(given),
            forall|s: StoreView| #[trigger]
                plan.effect(s) == (StoreView {
                    events: put_all(start.effect(s).events, all.take(it.index() as int)),
                    ..start.effect(s)
                }),
    {
        let ghost n: int = it.index() as int;
        assert(x == given[n]);
        plan.push(StoreOp::PutEvent(x.0, x.1));
        assert forall|s: StoreView| #[trigger]
            plan.effect(s) == (StoreView {
                events: put_all(start.effect(s).events, all.take(n + 1)),
                ..start.effect(s)
            }) by {
            lemma_put_next(start.effect(s).events, all, n);
        }
    }
    assert(all.take(all.len() as int) =~= all);
}

/// Writes the rows back into their table.
fn push_cursors(plan: &mut Plan, values: Vec<(InstanceId, SyncCursor)>)
    ensures
        forall|s: StoreView| #[trigger]
            final(plan).effect(s) == (StoreView {
                cursors: put_all(old(plan).effect(s).cursors, values@),
                ..old(plan).effect(s)
            }),
{
    let ghost start = *plan;
    let ghost all = values@;
    let ghost given = values@;
    assert(all.take(0) =~= Seq::empty());
    for x in it: values
        invariant
            it.seq() == given,
            all == given,
            forall|s: StoreView| #[trigger]
                plan.effect(s) == (StoreView {
                    cursors: put_all(start.effect(s).cursors, all.take(it.index() as int)),
                    ..start.effect(s)
                }),
    {
        let ghost n: int = it.index() as int;
        assert(x == given[n]);
        plan.push(StoreOp::PutCursor(x.0, x.1));
        assert forall|s: StoreView| #[trigger]
            plan.effect(s) == (StoreView {
                cursors: put_all(start.effect(s).cursors, all.take(n + 1)),
                ..start.effect(s)
            }) by {
            lemma_put_next(start.effect(s).cursors, all, n);
        }
    }
    assert(all.take(all.len() as int) =~= all);
}

/// The store after the pass: every row of every serialized table written back under
/// the key it was read with, and nothing else touched.
pub open spec fn reencoded(s: StoreView, rows: BlobRows) -> StoreView {
    StoreView {
        metadata: match rows.metadata {
            Some(Ok(m)) => Some(m),
            _ => s.metadata,
        },
        collectives: put_all(s.collectives, decoded(rows.collectives@)),
        decay_configs: put_all(s.decay_configs, decoded(rows.decay_configs@)),
        experiences: put_all(s.experiences, decoded(rows.experiences@)),
        relations: put_all(s.relations, decoded(rows.relations@)),
        insights: put_all(s.insights, decoded(rows.insights@)),
        activities: put_all(s.activities, activity_rows(decoded(rows.activities@))),
        events: put_all(s.events, event_rows(decoded(rows.events@))),
        cursors: match rows.cursors {
            CursorRows::Decoded(c) => put_all(s.cursors, decoded(c@)),
            CursorRows::Opaque { .. } => s.cursors,
        },
        ..s
    }
}

/// Whether the pass succeeds: every row decodes, and no cursor is left that this
/// build cannot decode.
pub open spec fn reencodable(rows: BlobRows) -> bool {
    &&& rows.metadata matches Some(m) ==> m is Ok
    &&& all_decoded(rows.collectives@)
    &&& all_decoded(rows.decay_configs@)
    &&& all_decoded(rows.experiences@)
    &&& all_decoded(rows.relations@)
    &&& all_decoded(rows.insights@)
    &&& all_decoded(rows.activities@)
    &&& all_decoded(rows.events@)
    &&& match rows.cursors {
        CursorRows::Decoded(c) => all_decoded(c@),
        CursorRows::Opaque { present } => !present,
    }
}

/// Whether `e` is why the pass fails: the first fault in visiting order.
pub open spec fn reencode_fault(rows: BlobRows, e: StorageError) -> bool {
    if rows.metadata matches Some(m) && m is Err {
        rows.metadata == Some(Err::<DatabaseMetadata, StorageError>(e))
    } else if !all_decoded(rows.collectives@) {
        first_fault(rows.collectives@, e)
    } else if !all_decoded(rows.decay_configs@) {
        first_fault(rows.decay_configs@, e)
    } else if !all_decoded(rows.experiences@) {
        first_fault(rows.experiences@, e)
    } else if !all_decoded(rows.relations@) {
        first_fault(rows.relations@, e)
    } else if !all_decoded(rows.insights@) {
        first_fault(rows.insights@, e)
    } else if !all_decoded(rows.activities@) {
        first_fault(rows.activities@, e)
    } else if !all_decoded(rows.events@) {
        first_fault(rows.events@, e)
    } else {
        match rows.cursors {
            CursorRows::Decoded(c) => first_fault(c@, e),
            CursorRows::Opaque { .. } => e == StorageError::SubstrateMigrationRequiresSync,
        }
    }
}

/// Rewrites every serialized record in the current codec, table by table in the
/// order of the registry. Raw tables are never touched. One record that does not
/// decode fails the whole pass, and with it the transaction.
pub fn reencode_serde_blobs_to_postcard(rows: BlobRows) -> (plan: Result<Plan, PulseDBError>)
    ensures
        plan is Ok <==> reencodable(rows),
        plan matches Ok(p) ==> forall|s: StoreView| #[trigger] p.effect(s) == reencoded(s, rows),
        plan matches Err(e) ==> (e matches PulseDBError::Storage(f) && reencode_fault(rows, f)),
{
    let mut plan = Plan::new();
    match rows.metadata {
        Some(Ok(m)) => {
            plan.push(StoreOp::PutMetadata(m));
        },
        Some(Err(e)) => {
            return Err(PulseDBError::Storage(e));
        },
        None => {},
    }
    match collect_rows(rows.collectives) {
        Ok(values) => push_collectives(&mut plan, values),
        Err(e) => {
            return Err(PulseDBError::Storage(e));
        },
    }
    match collect_rows(rows.decay_configs) {
        Ok(values) => push_decay_configs(&mut plan, values),
        Err(e) => {
            return Err(PulseDBError::Storage(e));
        },
    }
    match collect_rows(rows.experiences) {
        Ok(values) => push_experiences(&mut plan, values),
        Err(e) => {
            return Err(PulseDBError::Storage(e));
        },
    }
    match collect_rows(rows.relations) {
        Ok(values) => push_relations(&mut plan, values),
        Err(e) => {
            return Err(PulseDBError::Storage(e));
        },
    }
    match collect_rows(rows.insights) {
        Ok(values) => push_insights(&mut plan, values),
        Err(e) => {
            return Err(PulseDBError::Storage(e));
        },
    }
    match collect_rows(rows.activities) {
        Ok(values) => push_activities(&mut plan, values),
        Err(e) => {
            return Err(PulseDBError::Storage(e));
        },
    }
    match collect_rows(rows.events) {
        Ok(values) => push_events(&mut plan, values),
        Err(e) => {
            return Err(PulseDBError::Storage(e));
        },
    }
    match rows.cursors {
        CursorRows::Decoded(cursors) => match collect_rows(cursors) {
            Ok(values) => push_cursors(&mut plan, values),
            Err(e) => {
                return Err(PulseDBError::Storage(e));
            },
        },
        CursorRows::Opaque { present } => {
            if present {
                return Err(PulseDBError::Storage(StorageError::SubstrateMigrationRequiresSync));
            }
        },
    }
    assert(forall|s: StoreView| #[trigger] plan.effect(s) == reencoded(s, rows));
    Ok(plan)
}

/// Whether `rows` are the rows of a table: each key of it once, and no other key.
pub open spec fn rows_of_table<K, V>(table: Map<K, V>, rows: Seq<(K, V)>) -> bool {
    &&& forall|i: int, j: int|
        #![trigger rows[i], rows[j]]
        0 <= i < j < rows.len() ==> rows[i].0 != rows[j].0
    &&& forall|i: int|
        #![trigger rows[i]]
        0 <= i < rows.len() ==> table.dom().contains(rows[i].0)
    &&& forall|k: K| #[trigger]
        table.dom().contains(k) ==> exists|i: int|
            #![trigger rows[i]]
            0 <= i < rows.len() && rows[i].0 == k
}

/// Whether each key of a table holds the record of its own row, and there is no other
/// key than `before`'s.
pub open spec fn keeps_rows<K, V>(before: Map<K, V>, rows: Seq<(K, V)>, after: Map<K, V>) -> bool {
    &&& after.dom() == before.dom()
    &&& forall|i: int|
        #![trigger rows[i]]
        0 <= i < rows.len() ==> after.dom().contains(rows[i].0) && after[rows[i].0] == rows[i].1
}

proof fn lemma_put_all<K, V>(table: Map<K, V>, rows: Seq<(K, V)>, n: int)
    requires
        0 <= n <= rows.len(),
        forall|i: int, j: int|
            #![trigger rows[i], rows[j]]
            0 <= i < j < rows.len() ==> rows[i].0 != rows[j].0,
        forall|i: int|
            #![trigger rows[i]]
            0 <= i < rows.len() ==> table.dom().contains(rows[i].0),
    ensures
        put_all(table, rows.take(n)).dom() == table.dom(),
        forall|i: int|
            #![trigger rows[i]]
            0 <= i < n ==> put_all(table, rows.take(n))[rows[i].0] == rows[i].1,
    decreases n,
{
    if n == 0 {
        assert(rows.take(0) =~= Seq::empty());
    } else {
        lemma_put_all(table, rows, n - 1);
        lemma_put_next(table, rows, n - 1);
        assert(put_all(table, rows.take(n)).dom() =~= table.dom());
    }
}

/// Writing the rows of a table back, whatever records they now carry, leaves its key
/// set as it was and each key with the record of its own row.
pub proof fn law_rewriting_a_table_keeps_its_keys<K, V>(table: Map<K, V>, rows: Seq<(K, V)>)
    requires
        rows_of_table(table, rows),
    ensures
        keeps_rows(table, rows, put_all(table, rows)),
{
    lemma_put_all(table, rows, rows.len() as int);
    assert(rows.take(rows.len() as int) =~= rows);
}

/// Whether `rows` are the rows of the store's tables.
pub open spec fn rows_of_store(s: StoreView, rows: BlobRows) -> bool {
    &&& s.metadata is Some <==> rows.metadata is Some
    &&& rows_of_table(s.collectives, decoded(rows.collectives@))
    &&& rows_of_table(s.decay_configs, decoded(rows.decay_configs@))
    &&& rows_of_table(s.experiences, decoded(rows.experiences@))
    &&& rows_of_table(s.relations, decoded(rows.relations@))
    &&& rows_of_table(s.insights, decoded(rows.insights@))
    &&& rows_of_table(s.activities, activity_rows(decoded(rows.activities@)))
    &&& rows_of_table(s.events, event_rows(decoded(rows.events@)))
    &&& match rows.cursors {
        CursorRows::Decoded(c) => rows_of_table(s.cursors, decoded(c@)),
        CursorRows::Opaque { present } => present <==> s.cursors
            != Map::<InstanceId, SyncCursor>::empty(),
    }
}

/// The pass keeps every row of every serialized table under its key, with the record
/// it decoded to, adds no key, and touches no embedding, no index and none of the raw
/// metadata values.
pub proof fn law_reencode_keeps_keys(s: StoreView, rows: BlobRows)
    requires
        rows_of_store(s, rows),
        reencodable(rows),
    ensures
        ({
            let after = reencoded(s, rows);
            &&& rows.metadata matches Some(Ok(m)) ==> after.metadata == Some(m)
            &&& keeps_rows(s.collectives, decoded(rows.collectives@), after.collectives)
            &&& keeps_rows(s.decay_configs, decoded(rows.decay_configs@), after.decay_configs)
            &&& keeps_rows(s.experiences, decoded(rows.experiences@), after.experiences)
            &&& keeps_rows(s.relations, decoded(rows.relations@), after.relations)
            &&& keeps_rows(s.insights, decoded(rows.insights@), after.insights)
            &&& keeps_rows(
                s.activities,
                activity_rows(decoded(rows.activities@)),
                after.activities,
            )
            &&& keeps_rows(s.events, event_rows(decoded(rows.events@)), after.events)
            &&& rows.cursors matches CursorRows::Decoded(c) ==> keeps_rows(
                s.cursors,
                decoded(c@),
                after.cursors,
            )
            &&& after == (StoreView {
                metadata: after.metadata,
                collectives: after.collectives,
                decay_configs: after.decay_configs,
                experiences: after.experiences,
                relations: after.relations,
                insights: after.insights,
                activities: after.activities,
                events: after.events,
                cursors: after.cursors,
                ..s
            })
        }),
{
    law_rewriting_a_table_keeps_its_keys(s.collectives, decoded(rows.collectives@));
    law_rewriting_a_table_keeps_its_keys(s.decay_configs, decoded(rows.decay_configs@));
    law_rewriting_a_table_keeps_its_keys(s.experiences, decoded(rows.experiences@));
    law_rewriting_a_table_keeps_its_keys(s.relations, decoded(rows.relations@));
    law_rewriting_a_table_keeps_its_keys(s.insights, decoded(rows.insights@));
    law_rewriting_a_table_keeps_its_keys(s.activities, activity_rows(decoded(rows.activities@)));
    law_rewriting_a_table_keeps_its_keys(s.events, event_rows(decoded(rows.events@)));
    if let CursorRows::Decoded(c) = rows.cursors {
        law_rewriting_a_table_keeps_its_keys(s.cursors, decoded(c@));
    }
}

/// Whether every row holds what its table already has under its key.
pub open spec fn same_rows<K, V>(table: Map<K, V>, rows: Seq<(K, V)>) -> bool {
    forall|i: int|
        #![trigger rows[i]]
        0 <= i < rows.len() ==> table.dom().contains(rows[i].0) && table[rows[i].0] == rows[i].1
}

proof fn lemma_same_rows<K, V>(table: Map<K, V>, rows: Seq<(K, V)>)
    requires
        same_rows(table, rows),
    ensures
        put_all(table, rows) == table,
    decreases rows.len(),
{
    if rows.len() > 0 {
        let init = rows.drop_last();
        assert(rows.last() == rows[rows.len() - 1]);
        assert forall|i: int| #![trigger init[i]] 0 <= i < init.len() implies table.dom().contains(
            init[i].0,
        ) && table[init[i].0] == init[i].1 by {
            assert(init[i] == rows[i]);
        }
        lemma_same_rows(table, init);
        assert(table.insert(rows.last().0, rows.last().1) =~= table);
    }
}

/// Re-encoding changes how records are written and nothing else: a pass whose rows
/// are the store's own records leaves the store's contents as they were. A second
/// pass is such a pass.
pub proof fn law_reencode_keeps_contents(s: StoreView, rows: BlobRows)
    requires
        rows.metadata matches Some(Ok(m)) ==> s.metadata == Some(m),
        same_rows(s.collectives, decoded(rows.collectives@)),
        same_rows(s.decay_configs, decoded(rows.decay_configs@)),
        same_rows(s.experiences, decoded(rows.experiences@)),
        same_rows(s.relations, decoded(rows.relations@)),
        same_rows(s.insights, decoded(rows.insights@)),
        same_rows(s.activities, activity_rows(decoded(rows.activities@))),
        same_rows(s.events, event_rows(decoded(rows.events@))),
        rows.cursors matches CursorRows::Decoded(c) ==> same_rows(s.cursors, decoded(c@)),
    ensures
        reencoded(s, rows) == s,
{
    lemma_same_rows(s.collectives, decoded(rows.collectives@));
    lemma_same_rows(s.decay_configs, decoded(rows.decay_configs@));
    lemma_same_rows(s.experiences, decoded(rows.experiences@));
    lemma_same_rows(s.relations, decoded(rows.relations@));
    lemma_same_rows(s.insights, decoded(rows.insights@));
    lemma_same_rows(s.activities, activity_rows(decoded(rows.activities@)));
    lemma_same_rows(s.events, event_rows(decoded(rows.events@)));
    if let CursorRows::Decoded(c) = rows.cursors {
        lemma_same_rows(s.cursors, decoded(c@));
    }
}

} // verus!
