//! Identifiers, dimensions and clock values.

use vstd::prelude::*;
use vstd::string::{StringExecFns, StrSliceExecFns};

use crate::bytes::{from_be, to_be};
use crate::text::hex_text;

verus! {

/// The canonical text of a 128-bit identifier: 32 lower-case hexadecimal
/// digits in groups of 8, 4, 4, 4 and 12.
pub open spec fn uuid_chars(value: nat) -> Seq<char> {
    let digits = crate::text::hex(value, 32);
    digits.subrange(0, 8) + "-"@ + digits.subrange(8, 12) + "-"@ + digits.subrange(12, 16) + "-"@
        + digits.subrange(16, 20) + "-"@ + digits.subrange(20, 32)
}

proof fn lemma_hex_len(x: nat, n: nat)
    ensures
        crate::text::hex(x, n).len() == n,
    decreases n,
{
    if n > 0 {
        lemma_hex_len(x / 16, (n - 1) as nat);
    }
}

/// Renders a 128-bit identifier in its canonical text form.
pub fn uuid_text(value: u128) -> (s: String)
    ensures
        s@ == uuid_chars(value as nat),
{
    let digits = hex_text(value, 32);
    proof {
        lemma_hex_len(value as nat, 32);
    }
    let all: &str = digits.as_str();
    let mut s = String::from_str(all.substring_char(0, 8));
    s.append("-");
    s.append(all.substring_char(8, 12));
    s.append("-");
    s.append(all.substring_char(12, 16));
    s.append("-");
    s.append(all.substring_char(16, 20));
    s.append("-");
    s.append(all.substring_char(20, 32));
    s
}

/// Identifies one store instance (one database file, one sync peer).
///
/// The sixteen identifier bytes are held as one number, most significant byte
/// first, so equality and order are those of the bytes.
#[derive(Clone, Copy, Debug, PartialEq, Eq, PartialOrd, Ord, Hash, Structural)]
pub struct InstanceId {
    /// The identifier bytes read as a big-endian number.
    pub value: u128,
}

impl InstanceId {
    /// The sixteen identifier bytes.
    pub open spec fn spec_bytes(self) -> Seq<u8> {
        crate::bytes::be(self.value as nat, 16)
    }

    /// Wraps sixteen identifier bytes.
    pub fn from_bytes(bytes: [u8; 16]) -> (id: Self)
        ensures
            id.spec_bytes() == bytes@,
            id.value as nat == crate::bytes::be_value(bytes@),
    {
        let value: u128 = from_be(bytes.as_slice());
        proof {
            crate::bytes::lemma_be_of_value(bytes@);
        }
        InstanceId { value }
    }

    /// The sixteen identifier bytes.
    pub fn as_bytes(&self) -> (bytes: [u8; 16])
        ensures
            bytes@ == self.spec_bytes(),
    {
        proof {
            crate::bytes::lemma_pow256_values();
        }
        to_be::<16>(self.value)
    }

    /// The canonical text of the identifier.
    pub fn to_string(&self) -> (s: String)
        ensures
            s@ == uuid_chars(self.value as nat),
    {
        uuid_text(self.value)
    }
}

/// Identifies one collective.
///
/// The sixteen identifier bytes are held as one number, most significant byte
/// first, so equality and order are those of the bytes.
#[derive(Clone, Copy, Debug, PartialEq, Eq, PartialOrd, Ord, Hash, Structural)]
pub struct CollectiveId {
    /// The identifier bytes read as a big-endian number.
    pub value: u128,
}

impl CollectiveId {
    /// The sixteen identifier bytes.
    pub open spec fn spec_bytes(self) -> Seq<u8> {
        crate::bytes::be(self.value as nat, 16)
    }

    /// Wraps sixteen identifier bytes.
    pub fn from_bytes(bytes: [u8; 16]) -> (id: Self)
        ensures
            id.spec_bytes() == bytes@,
            id.value as nat == crate::bytes::be_value(bytes@),
    {
        let value: u128 = from_be(bytes.as_slice());
        proof {
            crate::bytes::lemma_be_of_value(bytes@);
        }
        CollectiveId { value }
    }

    /// The sixteen identifier bytes.
    pub fn as_bytes(&self) -> (bytes: [u8; 16])
        ensures
            bytes@ == self.spec_bytes(),
    {
        proof {
            crate::bytes::lemma_pow256_values();
        }
        to_be::<16>(self.value)
    }

    /// The all-zero identifier, standing for an unknown collective.
    pub fn nil() -> (id: Self)
        ensures
            id.value == 0,
    {
        CollectiveId { value: 0 }
    }

    /// The canonical text of the identifier.
    pub fn to_string(&self) -> (s: String)
        ensures
            s@ == uuid_chars(self.value as nat),
    {
        uuid_text(self.value)
    }
}

/// Identifies one experience.
///
/// The sixteen identifier bytes are held as one number, most significant byte
/// first, so equality and order are those of the bytes.
#[derive(Clone, Copy, Debug, PartialEq, Eq, PartialOrd, Ord, Hash, Structural)]
pub struct ExperienceId {
    /// The identifier bytes read as a big-endian number.
    pub value: u128,
}

impl ExperienceId {
    /// The sixteen identifier bytes.
    pub open spec fn spec_bytes(self) -> Seq<u8> {
        crate::bytes::be(self.value as nat, 16)
    }

    /// Wraps sixteen identifier bytes.
    pub fn from_bytes(bytes: [u8; 16]) -> (id: Self)
        ensures
            id.spec_bytes() == bytes@,
            id.value as nat == crate::bytes::be_value(bytes@),
    {
        let value: u128 = from_be(bytes.as_slice());
        proof {
            crate::bytes::lemma_be_of_value(bytes@);
        }
        ExperienceId { value }
    }

    /// The sixteen identifier bytes.
    pub fn as_bytes(&self) -> (bytes: [u8; 16])
        ensures
            bytes@ == self.spec_bytes(),
    {
        proof {
            crate::bytes::lemma_pow256_values();
        }
        to_be::<16>(self.value)
    }

    /// The canonical text of the identifier.
    pub fn to_string(&self) -> (s: String)
        ensures
            s@ == uuid_chars(self.value as nat),
    {
        uuid_text(self.value)
    }
}

/// Identifies one relation between experiences.
///
/// The sixteen identifier bytes are held as one number, most significant byte
/// first, so equality and order are those of the bytes.
#[derive(Clone, Copy, Debug, PartialEq, Eq, PartialOrd, Ord, Hash, Structural)]
pub struct RelationId {
    /// The identifier bytes read as a big-endian number.
    pub value: u128,
}

impl RelationId {
    /// The sixteen identifier bytes.
    pub open spec fn spec_bytes(self) -> Seq<u8> {
        crate::bytes::be(self.value as nat, 16)
    }

    /// Wraps sixteen identifier bytes.
    pub fn from_bytes(bytes: [u8; 16]) -> (id: Self)
        ensures
            id.spec_bytes() == bytes@,
            id.value as nat == crate::bytes::be_value(bytes@),
    {
        let value: u128 = from_be(bytes.as_slice());
        proof {
            crate::bytes::lemma_be_of_value(bytes@);
        }
        RelationId { value }
    }

    /// The sixteen identifier bytes.
    pub fn as_bytes(&self) -> (bytes: [u8; 16])
        ensures
            bytes@ == self.spec_bytes(),
    {
        proof {
            crate::bytes::lemma_pow256_values();
        }
        to_be::<16>(self.value)
    }
}

/// Identifies one derived insight.
///
/// The sixteen identifier bytes are held as one number, most significant byte
/// first, so equality and order are those of the bytes.
#[derive(Clone, Copy, Debug, PartialEq, Eq, PartialOrd, Ord, Hash, Structural)]
pub struct InsightId {
    /// The identifier bytes read as a big-endian number.
    pub value: u128,
}

impl InsightId {
    /// The sixteen identifier bytes.
    pub open spec fn spec_bytes(self) -> Seq<u8> {
        crate::bytes::be(self.value as nat, 16)
    }

    /// Wraps sixteen identifier bytes.
    pub fn from_bytes(bytes: [u8; 16]) -> (id: Self)
        ensures
            id.spec_bytes() == bytes@,
            id.value as nat == crate::bytes::be_value(bytes@),
    {
        let value: u128 = from_be(bytes.as_slice());
        proof {
            crate::bytes::lemma_be_of_value(bytes@);
        }
        InsightId { value }
    }

    /// The sixteen identifier bytes.
    pub fn as_bytes(&self) -> (bytes: [u8; 16])
        ensures
            bytes@ == self.spec_bytes(),
    {
        proof {
            crate::bytes::lemma_pow256_values();
        }
        to_be::<16>(self.value)
    }
}

/// A moment in milliseconds since the Unix epoch.
#[derive(Clone, Copy, Debug, PartialEq, Eq, PartialOrd, Ord, Hash, Structural)]
pub struct Timestamp {
    /// Milliseconds since the Unix epoch; negative before it.
    pub millis: i64,
}

/// The 64-bit two's complement pattern of `millis`, as a number.
pub open spec fn millis_bits(millis: i64) -> nat {
    if millis >= 0 {
        millis as nat
    } else {
        (millis + 0x1_0000_0000_0000_0000) as nat
    }
}

/// The number whose two's complement pattern is `bits`.
pub open spec fn bits_millis(bits: nat) -> int {
    if bits < 0x8000_0000_0000_0000 {
        bits as int
    } else {
        bits - 0x1_0000_0000_0000_0000
    }
}

/// Reads the machine clock: milliseconds since the Unix epoch, by
/// `std::time::SystemTime::elapsed` on the epoch itself, or nothing where the clock
/// is set before the epoch. Nothing is claimed of the value.
#[verifier::external_body]
fn clock_millis() -> (millis: Option<u128>) {
    match std::time::SystemTime::UNIX_EPOCH.elapsed() {
        Ok(since_epoch) => Some(since_epoch.as_millis()),
        Err(_) => None,
    }
}

impl Timestamp {
    /// The eight bytes a timestamp takes inside an index key: big-endian two's
    /// complement.
    pub open spec fn spec_bytes(self) -> Seq<u8> {
        crate::bytes::be(millis_bits(self.millis), 8)
    }

    /// The moment that a reading of the clock stands for: milliseconds since the
    /// epoch, up to the latest moment there is. A clock set before the epoch reads
    /// nothing, which stands for the epoch.
    pub fn from_clock(reading: Option<u128>) -> (t: Self)
        ensures
            t.millis == match reading {
                Some(millis) => if millis <= i64::MAX {
                    millis as int
                } else {
                    i64::MAX as int
                },
                None => 0,
            },
    {
        match reading {
            Some(millis) => {
                if millis <= i64::MAX as u128 {
                    Timestamp { millis: millis as i64 }
                } else {
                    Timestamp { millis: i64::MAX }
                }
            },
            None => Timestamp { millis: 0 },
        }
    }

    /// The current moment. It is never before the epoch, whatever the clock says, so
    /// keys built from it sort by time; which moment it is cannot be stated.
    pub fn now() -> (t: Self)
        ensures
            t.millis >= 0,
    {
        Self::from_clock(clock_millis())
    }

    /// The moment `millis` milliseconds after the epoch.
    pub fn from_millis(millis: i64) -> (t: Self)
        ensures
            t.millis == millis,
    {
        Timestamp { millis }
    }

    /// Milliseconds since the epoch.
    pub fn as_millis(&self) -> (millis: i64)
        ensures
            millis == self.millis,
    {
        self.millis
    }

    /// The later of the two.
    pub fn max(self, other: Self) -> (t: Self)
        ensures
            t == if other.millis >= self.millis { other } else { self },
    {
        if other.millis >= self.millis {
            other
        } else {
            self
        }
    }

    /// The big-endian two's complement bytes.
    pub fn to_be_bytes(&self) -> (bytes: [u8; 8])
        ensures
            bytes@ == self.spec_bytes(),
    {
        let bits: u128 = if self.millis >= 0 {
            self.millis as u128
        } else {
            (self.millis as i128 + 0x1_0000_0000_0000_0000i128) as u128
        };
        proof {
            crate::bytes::lemma_pow256_values();
        }
        to_be::<8>(bits)
    }

    /// Reads big-endian two's complement bytes.
    pub fn from_be_bytes(bytes: [u8; 8]) -> (t: Self)
        ensures
            t.spec_bytes() == bytes@,
            t.millis == bits_millis(crate::bytes::be_value(bytes@)),
    {
        let bits: u128 = from_be(bytes.as_slice());
        proof {
            crate::bytes::lemma_be_of_value(bytes@);
            crate::bytes::lemma_pow256_values();
        }
        let millis: i64 = if bits < 0x8000_0000_0000_0000u128 {
            bits as i64
        } else {
            (bits as i128 - 0x1_0000_0000_0000_0000i128) as i64
        };
        Timestamp { millis }
    }
}

/// For moments at or after the epoch, byte order of the key form is time order.
pub proof fn law_timestamp_bytes_order(a: Timestamp, b: Timestamp)
    requires
        a.millis >= 0,
        b.millis >= 0,
    ensures
        crate::bytes::lex_lt(a.spec_bytes(), b.spec_bytes()) <==> a.millis < b.millis,
{
    crate::bytes::lemma_pow256_values();
    crate::bytes::lemma_be_len(a.millis as nat, 8);
    crate::bytes::lemma_be_len(b.millis as nat, 8);
    crate::bytes::lemma_be_round_trip(a.millis as nat, 8);
    crate::bytes::lemma_be_round_trip(b.millis as nat, 8);
    crate::bytes::lemma_be_value_order(a.spec_bytes(), b.spec_bytes());
}

/// Number of components in every embedding of a store.
#[derive(Clone, Copy, Debug, PartialEq, Eq, Structural)]
pub enum EmbeddingDimension {
    /// 384 components.
    D384,
    /// 768 components.
    D768,
    /// A size chosen by the embedder.
    Custom(usize),
}

impl EmbeddingDimension {
    /// The number of components.
    pub open spec fn spec_size(self) -> usize {
        match self {
            EmbeddingDimension::D384 => 384,
            EmbeddingDimension::D768 => 768,
            EmbeddingDimension::Custom(n) => n,
        }
    }

    /// The number of components.
    pub fn size(&self) -> (n: usize)
        ensures
            n == self.spec_size(),
    {
        match self {
            EmbeddingDimension::D384 => 384,
            EmbeddingDimension::D768 => 768,
            EmbeddingDimension::Custom(n) => *n,
        }
    }
}

} // verus!
