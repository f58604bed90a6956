//! What keys, identifiers, moments and numbers are written as, and read back as.

use vstd::prelude::*;

use crate::bytes::{from_be, to_be, varint_len};
use crate::storage::experiences::{
    bytes_to_f32_vec, decode_entry_id, decode_entry_time, encode_recency_entry, f32_slice_to_bytes,
};
use crate::storage::schema::{
    collective_range_end, collective_range_start, decode_agent_id_from_activity_key,
    decode_collective_from_activity_key, decode_collective_from_type_key,
    decode_timestamp_from_key, decode_type_tag_from_key, encode_activity_key,
    encode_collective_timestamp_key, encode_type_index_key, EntityTypeTag, ExperienceTypeTag,
    WatchEventTypeTag,
};
use crate::sync::wire::{FrameSizer, WireOperation};
use crate::text::{decimal, decimal_text, hex, hex_text};
use crate::types::{
    uuid_text, CollectiveId, EmbeddingDimension, ExperienceId, InsightId, InstanceId, RelationId,
    Timestamp,
};

verus! {

// ---------------------------------------------------------------------------
// Numbers as bytes
// ---------------------------------------------------------------------------

/// Bytes are read most significant first: each further byte multiplies what was read by 256 and
/// adds itself. What is written of a number in eight or sixteen bytes reads back as it.
pub proof fn law_numbers_as_bytes(
    read: Seq<u8>,
    byte: u8,
    x: u128,
    eight: [u8; 8],
    sixteen: [u8; 16],
    back: u128,
    bytes: &[u8],
)
    requires
        x < 0x1_0000_0000_0000_0000,
        call_ensures(to_be::<8>, (x,), eight),
        call_ensures(to_be::<16>, (x,), sixteen),
        bytes@ == eight@ || bytes@ == sixteen@,
        call_ensures(from_be, (bytes,), back),
    ensures
        crate::bytes::be_value(Seq::empty()) == 0,
        crate::bytes::be_value(read.push(byte)) == 256 * crate::bytes::be_value(read) + byte,
        back == x,
{
    assert(read.push(byte).drop_last() =~= read);
    crate::bytes::lemma_pow256_values();
    crate::bytes::lemma_be_round_trip(x as nat, 8);
    crate::bytes::lemma_be_round_trip(x as nat, 16);
}

/// A varint takes one byte for a number below 128, and for any other one byte more than for a
/// 128th of it.
pub proof fn law_varint_length(x: u64, len: usize, part: u64, part_len: usize)
    requires
        part == x / 128,
        call_ensures(varint_len, (x,), len),
        call_ensures(varint_len, (part,), part_len),
    ensures
        x < 128 ==> len == 1,
        x >= 128 ==> len == 1 + part_len,
{
}

/// A varint gives back its number: each byte holds seven bits, least significant first, and
/// every byte but the last has its top bit set.
pub proof fn law_varint_value(x: nat)
    ensures
        crate::bytes::varint(x).len() >= 1,
        x < 128 ==> crate::bytes::varint(x).len() == 1 && crate::bytes::varint(x)[0] == x,
        x >= 128 ==> crate::bytes::varint(x)[0] >= 128 && x == (crate::bytes::varint(x)[0] - 128)
            + 128 * (x / 128) && crate::bytes::varint(x).skip(1) == crate::bytes::varint(x / 128),
{
    crate::bytes::lemma_varint_len_pos(x);
    if x >= 128 {
        assert(crate::bytes::varint(x).skip(1) =~= crate::bytes::varint(x / 128));
    }
}

/// A frame under construction counts its items and their bytes, and measures its envelope, its
/// items and what the length of its list takes beyond one byte.
pub proof fn law_frame_under_construction(
    envelope: usize,
    fresh: FrameSizer,
    sizer: &mut FrameSizer,
    item: usize,
    pushed: (),
    before: &FrameSizer,
    with_item: usize,
    after: &FrameSizer,
    len: usize,
)
    requires
        call_ensures(FrameSizer::new, (envelope,), fresh),
        call_ensures(FrameSizer::push, (sizer, item), pushed),
        *before == *old(sizer),
        *after == *final(sizer),
        call_ensures(FrameSizer::len_with, (before, item), with_item),
        call_ensures(FrameSizer::len, (after,), len),
        old(sizer).count < usize::MAX,
        old(sizer).envelope + old(sizer).items + item + 10 <= usize::MAX,
    ensures
        fresh.envelope == envelope && fresh.count == 0 && fresh.items == 0,
        final(sizer).envelope == old(sizer).envelope,
        final(sizer).count == old(sizer).count + 1,
        final(sizer).items == old(sizer).items + item,
        with_item == len,
        len == final(sizer).envelope + final(sizer).items + crate::bytes::varint(
            final(sizer).count as nat,
        ).len() - 1,
{
    crate::bytes::lemma_varint_len_pos(final(sizer).count as nat);
    assert(crate::bytes::varint(final(sizer).count as nat).len() <= 10) by {
        crate::bytes::law_varint_len_monotonic(final(sizer).count as nat, u64::MAX as nat);
        reveal_with_fuel(crate::bytes::varint, 10);
    }
}

// ---------------------------------------------------------------------------
// Identifiers
// ---------------------------------------------------------------------------

/// An identifier is its sixteen bytes: made of bytes it gives those bytes back, and made of the
/// bytes of an identifier it is that identifier.
pub proof fn law_identifier_bytes(
    bytes: [u8; 16],
    collective: CollectiveId,
    experience: ExperienceId,
    relation: RelationId,
    insight: InsightId,
    instance: InstanceId,
)
    requires
        call_ensures(CollectiveId::from_bytes, (bytes,), collective),
        call_ensures(ExperienceId::from_bytes, (bytes,), experience),
        call_ensures(RelationId::from_bytes, (bytes,), relation),
        call_ensures(InsightId::from_bytes, (bytes,), insight),
        call_ensures(InstanceId::from_bytes, (bytes,), instance),
    ensures
        crate::bytes::be_value(bytes@) == collective.value,
        crate::bytes::be_value(bytes@) == experience.value,
        crate::bytes::be_value(bytes@) == relation.value,
        crate::bytes::be_value(bytes@) == insight.value,
        crate::bytes::be_value(bytes@) == instance.value,
        crate::bytes::be(collective.value as nat, 16) == bytes@,
{
}

/// The bytes of an identifier are the sixteen bytes of its number, most significant first.
pub proof fn law_bytes_of_identifiers(
    collective: &CollectiveId,
    a: [u8; 16],
    experience: &ExperienceId,
    b: [u8; 16],
    relation: &RelationId,
    c: [u8; 16],
    insight: &InsightId,
    d: [u8; 16],
    instance: &InstanceId,
    e: [u8; 16],
)
    requires
        call_ensures(CollectiveId::as_bytes, (collective,), a),
        call_ensures(ExperienceId::as_bytes, (experience,), b),
        call_ensures(RelationId::as_bytes, (relation,), c),
        call_ensures(InsightId::as_bytes, (insight,), d),
        call_ensures(InstanceId::as_bytes, (instance,), e),
    ensures
        crate::bytes::be_value(a@) == collective.value,
        crate::bytes::be_value(b@) == experience.value,
        crate::bytes::be_value(c@) == relation.value,
        crate::bytes::be_value(d@) == insight.value,
        crate::bytes::be_value(e@) == instance.value,
{
    crate::bytes::lemma_pow256_values();
    crate::bytes::lemma_be_round_trip(collective.value as nat, 16);
    crate::bytes::lemma_be_round_trip(experience.value as nat, 16);
    crate::bytes::lemma_be_round_trip(relation.value as nat, 16);
    crate::bytes::lemma_be_round_trip(insight.value as nat, 16);
    crate::bytes::lemma_be_round_trip(instance.value as nat, 16);
}

// ---------------------------------------------------------------------------
// Moments
// ---------------------------------------------------------------------------

/// A moment reads back from its eight bytes, before the epoch too.
pub proof fn law_moment_bytes(t: &Timestamp, bytes: [u8; 8], back: Timestamp)
    requires
        call_ensures(Timestamp::to_be_bytes, (t,), bytes),
        call_ensures(Timestamp::from_be_bytes, (bytes,), back),
    ensures
        back == *t,
{
    crate::bytes::lemma_pow256_values();
    crate::bytes::lemma_be_round_trip(crate::types::millis_bits(t.millis), 8);
}

/// The later of two moments is one of them, and before neither. A clock's reading is the moment
/// it shows as far as there is such a moment; a clock set before the epoch shows the epoch.
pub proof fn law_moments(
    a: Timestamp,
    b: Timestamp,
    later: Timestamp,
    reading: Option<u128>,
    shown: Timestamp,
    millis: i64,
    made: Timestamp,
)
    requires
        call_ensures(Timestamp::max, (a, b), later),
        call_ensures(Timestamp::from_clock, (reading,), shown),
        call_ensures(Timestamp::from_millis, (millis,), made),
    ensures
        later.millis >= a.millis,
        later.millis >= b.millis,
        later == a || later == b,
        reading is None ==> shown.millis == 0,
        reading is Some && reading->Some_0 <= i64::MAX ==> shown.millis == reading->Some_0,
        reading is Some && reading->Some_0 > i64::MAX ==> shown.millis == i64::MAX,
        made.millis == millis,
{
}

// ---------------------------------------------------------------------------
// Tags
// ---------------------------------------------------------------------------

/// The bytes that stand for what happened: a creation, an update, an archiving and a deletion,
/// in this order from zero on; each byte reads back as what it stands for, and no other byte
/// stands for any.
pub proof fn law_event_tags(
    tag: WatchEventTypeTag,
    byte: u8,
    value: u8,
    read: Option<WatchEventTypeTag>,
)
    requires
        call_ensures(WatchEventTypeTag::to_u8, (tag,), byte),
        call_ensures(WatchEventTypeTag::from_u8, (value,), read),
    ensures
        byte == match tag {
            WatchEventTypeTag::Created => 0u8,
            WatchEventTypeTag::Updated => 1u8,
            WatchEventTypeTag::Archived => 2u8,
            WatchEventTypeTag::Deleted => 3u8,
        },
        value == byte ==> read == Some(tag),
        value > 3 ==> read is None,
{
}

/// The bytes that stand for what something happened to: an experience, a relation, an insight
/// and a collective, in this order from zero on; each byte reads back as what it stands for, and
/// no other byte stands for any.
pub proof fn law_entity_tags(
    tag: EntityTypeTag,
    byte: u8,
    value: u8,
    read: Option<EntityTypeTag>,
)
    requires
        call_ensures(EntityTypeTag::to_u8, (tag,), byte),
        call_ensures(EntityTypeTag::from_u8, (value,), read),
    ensures
        byte == match tag {
            EntityTypeTag::Experience => 0u8,
            EntityTypeTag::Relation => 1u8,
            EntityTypeTag::Insight => 2u8,
            EntityTypeTag::Collective => 3u8,
        },
        value == byte ==> read == Some(tag),
        value > 3 ==> read is None,
{
}

/// The bytes that stand for the kinds of an experience, from zero on in the order in which the
/// kinds are laid down; each byte reads back as its kind, and no other byte stands for any.
pub proof fn law_kind_tags(
    tag: ExperienceTypeTag,
    byte: u8,
    value: u8,
    read: Option<ExperienceTypeTag>,
    all: [ExperienceTypeTag; 9],
)
    requires
        call_ensures(ExperienceTypeTag::to_u8, (tag,), byte),
        call_ensures(ExperienceTypeTag::from_u8, (value,), read),
        call_ensures(ExperienceTypeTag::all, (), all),
    ensures
        byte == match tag {
            ExperienceTypeTag::Difficulty => 0u8,
            ExperienceTypeTag::Solution => 1u8,
            ExperienceTypeTag::ErrorPattern => 2u8,
            ExperienceTypeTag::SuccessPattern => 3u8,
            ExperienceTypeTag::UserPreference => 4u8,
            ExperienceTypeTag::ArchitecturalDecision => 5u8,
            ExperienceTypeTag::TechInsight => 6u8,
            ExperienceTypeTag::Fact => 7u8,
            ExperienceTypeTag::Generic => 8u8,
        },
        value == byte ==> read == Some(tag),
        value > 8 ==> read is None,
        all@[byte as int] == tag,
{
    assert(all[byte as int].byte() == byte);
}

/// The bytes that stand for the operations of a frame, and the number of components of the
/// embedding sizes.
pub proof fn law_operation_codes(
    operation: WireOperation,
    byte: u8,
    dimension: &EmbeddingDimension,
    n: usize,
)
    requires
        call_ensures(WireOperation::code, (operation,), byte),
        call_ensures(EmbeddingDimension::size, (dimension,), n),
    ensures
        operation is Handshake ==> byte == 1,
        operation is Push ==> byte == 2,
        operation is Pull ==> byte == 3,
        *dimension is D384 ==> n == 384,
        *dimension is D768 ==> n == 768,
        *dimension is Custom ==> n == dimension->Custom_0,
{
}

// ---------------------------------------------------------------------------
// Keys
// ---------------------------------------------------------------------------

/// The key of a collective and a moment is the collective's bytes and then the moment's, and the
/// moment reads back from it; the keys of a collective reach from the epoch to the last moment.
pub proof fn law_moment_keys(
    collective: &[u8; 16],
    t: Timestamp,
    key: [u8; 24],
    stored: &[u8; 24],
    back: Timestamp,
    first: [u8; 24],
    last: [u8; 24],
)
    requires
        call_ensures(encode_collective_timestamp_key, (collective, t), key),
        stored@ == key@,
        call_ensures(decode_timestamp_from_key, (stored,), back),
        call_ensures(collective_range_start, (collective,), first),
        call_ensures(collective_range_end, (collective,), last),
    ensures
        key@.take(16) == collective@,
        back == t,
        first@.take(16) == collective@,
        last@.take(16) == collective@,
        t.millis >= 0 ==> !crate::bytes::lex_lt(key@, first@) && !crate::bytes::lex_lt(last@, key@),
{
    let c = collective@;
    crate::storage::schema::law_timestamp_key_round_trip(c, t);
    crate::storage::schema::law_timestamp_key_round_trip(c, Timestamp { millis: 0 });
    crate::storage::schema::law_timestamp_key_round_trip(c, Timestamp { millis: i64::MAX });
    assert(key@.take(16) =~= key@.subrange(0, 16));
    assert(first@.take(16) =~= first@.subrange(0, 16));
    assert(last@.take(16) =~= last@.subrange(0, 16));
    if t.millis >= 0 {
        crate::storage::schema::law_collective_range_covers(c, t);
    }
}

/// The key of a collective and a kind gives both back.
pub proof fn law_kind_keys(
    collective: &[u8; 16],
    tag: ExperienceTypeTag,
    key: [u8; 17],
    stored: &[u8; 17],
    back: Option<ExperienceTypeTag>,
    owner: [u8; 16],
)
    requires
        call_ensures(encode_type_index_key, (collective, tag), key),
        stored@ == key@,
        call_ensures(decode_type_tag_from_key, (stored,), back),
        call_ensures(decode_collective_from_type_key, (stored,), owner),
    ensures
        back == Some(tag),
        owner@ == collective@,
{
    assert(key@[16] == tag.byte());
    assert(key@.subrange(0, 16) =~= collective@);
}

/// The key of an agent's activity in a collective gives both back, for names whose length two
/// bytes can hold.
pub proof fn law_activity_keys(
    collective: &[u8; 16],
    agent: &str,
    key: Vec<u8>,
    stored: &[u8],
    owner: [u8; 16],
    back: &str,
)
    requires
        vstd::utf8::encode_utf8(agent@).len() < 0x1_0000,
        call_ensures(encode_activity_key, (collective, agent), key),
        stored@ == key@,
        call_ensures(decode_collective_from_activity_key, (stored,), owner),
        call_ensures(decode_agent_id_from_activity_key, (stored,), back),
    ensures
        owner@ == collective@,
        vstd::utf8::encode_utf8(back@) == vstd::utf8::encode_utf8(agent@),
{
    crate::storage::schema::law_activity_key_round_trip(collective@, agent@);
}

/// An index entry of an experience gives back its identifier and its moment.
pub proof fn law_index_entries(
    t: Timestamp,
    id: ExperienceId,
    entry: [u8; 24],
    stored: &[u8; 24],
    back_id: ExperienceId,
    back_time: Timestamp,
)
    requires
        call_ensures(encode_recency_entry, (t, id), entry),
        stored@ == entry@,
        call_ensures(decode_entry_id, (stored,), back_id),
        call_ensures(decode_entry_time, (stored,), back_time),
    ensures
        back_id == id,
        back_time == t,
{
    crate::storage::experiences::law_recency_entry_round_trip(t, id);
}

/// The number that four bytes from `at` on stand for, the lowest first.
pub open spec fn low_first(bytes: Seq<u8>, at: int) -> int {
    bytes[at] + 0x100 * bytes[at + 1] + 0x1_0000 * bytes[at + 2] + 0x100_0000 * bytes[at + 3]
}

/// Each component of an embedding is written as four bytes, the lowest first, and read from
/// four such bytes; up to three bytes beyond the last whole component are not read.
pub proof fn law_embedding_components(
    data: &[u32],
    bytes: Vec<u8>,
    stored: &[u8],
    read: Vec<u32>,
    i: int,
)
    requires
        call_ensures(f32_slice_to_bytes, (data,), bytes),
        call_ensures(bytes_to_f32_vec, (stored,), read),
    ensures
        bytes@.len() == 4 * data@.len(),
        0 <= i < data@.len() ==> data@[i] == low_first(bytes@, 4 * i),
        read@.len() == stored@.len() / 4,
        0 <= i < read@.len() ==> read@[i] == low_first(stored@, 4 * i),
{
    if data@.len() > 0 {
        crate::storage::experiences::lemma_embedding_bytes(
            data@,
            if 0 <= i < data@.len() {
                i
            } else {
                0
            },
        );
    }
}

/// An embedding reads back component by component from its bytes, four for each.
pub proof fn law_embedding_bytes(data: &[u32], bytes: Vec<u8>, stored: &[u8], back: Vec<u32>)
    requires
        call_ensures(f32_slice_to_bytes, (data,), bytes),
        stored@ == bytes@,
        call_ensures(bytes_to_f32_vec, (stored,), back),
    ensures
        back@ == data@,
{
    crate::storage::experiences::law_embedding_round_trip(data@, back@);
}

// ---------------------------------------------------------------------------
// Text
// ---------------------------------------------------------------------------

/// The number that decimal digits stand for.
pub open spec fn decimal_value(text: Seq<char>) -> int
    decreases text.len(),
{
    if text.len() == 0 {
        0
    } else {
        10 * decimal_value(text.drop_last()) + (text.last() as int - '0' as int)
    }
}

/// A number in decimal is made of decimal digits that stand for it, without a leading zero.
pub proof fn law_decimal_text(n: u64, text: String)
    requires
        call_ensures(decimal_text, (n,), text),
    ensures
        decimal_value(text@) == n,
        forall|i: int| 0 <= i < text@.len() ==> '0' <= (#[trigger] text@[i]) <= '9',
        n > 0 ==> text@.len() > 0 && text@[0] != '0',
        n == 0 ==> text@.len() == 1,
{
    lemma_decimal(n as nat);
}

proof fn lemma_decimal(n: nat)
    ensures
        decimal(n).len() > 0,
        decimal_value(decimal(n)) == n,
        forall|i: int| 0 <= i < decimal(n).len() ==> '0' <= (#[trigger] decimal(n)[i]) <= '9',
        n > 0 ==> decimal(n)[0] != '0',
    decreases n,
{
    if n < 10 {
        assert(decimal(n).drop_last() =~= Seq::empty());
        assert(decimal_value(decimal(n).drop_last()) == 0);
    } else {
        lemma_decimal(n / 10);
        assert(decimal(n).drop_last() =~= decimal(n / 10));
        assert forall|i: int| 0 <= i < decimal(n).len() implies '0' <= (#[trigger] decimal(n)[i])
            <= '9' by {
            if i < decimal(n / 10).len() {
                assert(decimal(n)[i] == decimal(n / 10)[i]);
            }
        }
        assert(decimal(n)[0] == decimal(n / 10)[0]);
    }
}

/// The number that a hexadecimal digit stands for.
pub open spec fn hex_digit_value(c: char) -> int {
    if c <= '9' {
        c as int - '0' as int
    } else {
        c as int - 'a' as int + 10
    }
}

/// The number that hexadecimal digits stand for.
pub open spec fn hex_value(text: Seq<char>) -> int
    decreases text.len(),
{
    if text.len() == 0 {
        0
    } else {
        16 * hex_value(text.drop_last()) + hex_digit_value(text.last())
    }
}

proof fn lemma_hex(x: nat, n: nat)
    ensures
        hex(x, n).len() == n,
        n > 0 ==> hex_value(hex(x, n)) == 16 * hex_value(hex(x / 16, (n - 1) as nat)) + x % 16,
        n == 0 ==> hex_value(hex(x, n)) == 0,
        forall|i: int|
            0 <= i < n ==> ('0' <= (#[trigger] hex(x, n)[i]) <= '9' || 'a' <= hex(x, n)[i] <= 'f'),
    decreases n,
{
    if n > 0 {
        lemma_hex(x / 16, (n - 1) as nat);
        assert(hex(x, n).drop_last() =~= hex(x / 16, (n - 1) as nat));
        assert forall|i: int| 0 <= i < n implies ('0' <= (#[trigger] hex(x, n)[i]) <= '9' || 'a'
            <= hex(x, n)[i] <= 'f') by {
            if i < n - 1 {
                assert(hex(x, n)[i] == hex(x / 16, (n - 1) as nat)[i]);
            }
        }
    }
}

proof fn lemma_hex_value(x: nat, n: nat)
    requires
        x < pow16(n),
    ensures
        hex_value(hex(x, n)) == x,
    decreases n,
{
    lemma_hex(x, n);
    if n > 0 {
        lemma_hex_value(x / 16, (n - 1) as nat);
    }
}

/// How many numbers `n` hexadecimal digits can stand for.
pub open spec fn pow16(n: nat) -> nat
    decreases n,
{
    if n == 0 {
        1
    } else {
        16 * pow16((n - 1) as nat)
    }
}

/// A number in hexadecimal is made of as many lower-case digits as asked for, and they stand for
/// it wherever it fits them.
pub proof fn law_hex_text(x: u128, n: u8, text: String)
    requires
        call_ensures(hex_text, (x, n), text),
    ensures
        text@.len() == n,
        (x as nat) < pow16(n as nat) ==> hex_value(text@) == x,
        forall|i: int|
            0 <= i < n ==> ('0' <= (#[trigger] text@[i]) <= '9' || 'a' <= text@[i] <= 'f'),
{
    lemma_hex(x as nat, n as nat);
    if (x as nat) < pow16(n as nat) {
        lemma_hex_value(x as nat, n as nat);
    }
}

/// The text of an identifier has five groups of eight, four, four, four and twelve digits, with
/// hyphens between; without them the digits stand for the identifier.
pub proof fn law_identifier_text(value: u128, text: String)
    requires
        call_ensures(uuid_text, (value,), text),
    ensures
        text@.len() == 36,
        text@[8] == '-' && text@[13] == '-' && text@[18] == '-' && text@[23] == '-',
        hex_value(
            text@.take(8) + text@.subrange(9, 13) + text@.subrange(14, 18) + text@.subrange(19, 23)
                + text@.skip(24),
        ) == value,
{
    reveal_strlit("-");
    let digits = hex(value as nat, 32);
    lemma_hex(value as nat, 32);
    assert(pow16(32) == 0x1_0000_0000_0000_0000_0000_0000_0000_0000) by {
        reveal_with_fuel(pow16, 33);
    }
    lemma_hex_value(value as nat, 32);
    assert(text@.take(8) =~= digits.subrange(0, 8));
    assert(text@.subrange(9, 13) =~= digits.subrange(8, 12));
    assert(text@.subrange(14, 18) =~= digits.subrange(12, 16));
    assert(text@.subrange(19, 23) =~= digits.subrange(16, 20));
    assert(text@.skip(24) =~= digits.subrange(20, 32));
    assert(text@.take(8) + text@.subrange(9, 13) + text@.subrange(14, 18) + text@.subrange(19, 23)
        + text@.skip(24) =~= digits);
}

} // verus!
