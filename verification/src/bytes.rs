//! Byte encodings shared by keys, frames and embeddings.
//!
//! Everything that reaches disk or the wire as raw bytes is defined here as a
//! mathematical function on naturals, so key order and round trips can be
//! argued about without mentioning shifts.

use vstd::prelude::*;

verus! {

/// `256^n`: the number of distinct `n`-byte strings.
pub open spec fn pow256(n: nat) -> nat
    decreases n,
{
    if n == 0 {
        1
    } else {
        256 * pow256((n - 1) as nat)
    }
}

/// The `n` low-order base-256 digits of `x`, most significant first.
pub open spec fn be(x: nat, n: nat) -> Seq<u8>
    decreases n,
{
    if n == 0 {
        Seq::empty()
    } else {
        be(x / 256, (n - 1) as nat).push((x % 256) as u8)
    }
}

/// The number whose base-256 digits are `s`, most significant first.
pub open spec fn be_value(s: Seq<u8>) -> nat
    decreases s.len(),
{
    if s.len() == 0 {
        0
    } else {
        be_value(s.drop_last()) * 256 + s.last() as nat
    }
}

/// The `n` low-order base-256 digits of `x`, least significant first.
pub open spec fn le(x: nat, n: nat) -> Seq<u8>
    decreases n,
{
    if n == 0 {
        Seq::empty()
    } else {
        seq![(x % 256) as u8] + le(x / 256, (n - 1) as nat)
    }
}

/// Strict byte-string order: the first differing byte decides, and a proper
/// prefix sorts before the longer string.
pub open spec fn lex_lt(a: Seq<u8>, b: Seq<u8>) -> bool {
    ||| exists|k: int|
        #![trigger a[k], b[k]]
        0 <= k < a.len() && k < b.len() && a[k] < b[k] && a.take(k) == b.take(k)
    ||| a.len() < b.len() && b.take(a.len() as int) == a
}

pub proof fn lemma_pow256_pos(n: nat)
    ensures
        pow256(n) > 0,
    decreases n,
{
    if n > 0 {
        lemma_pow256_pos((n - 1) as nat);
    }
}

pub proof fn lemma_pow256_values()
    ensures
        pow256(1) == 0x100,
        pow256(2) == 0x1_0000,
        pow256(4) == 0x1_0000_0000,
        pow256(8) == 0x1_0000_0000_0000_0000,
        pow256(16) == 0x1_0000_0000_0000_0000_0000_0000_0000_0000,
{
    reveal_with_fuel(pow256, 17);
}

pub proof fn lemma_be_len(x: nat, n: nat)
    ensures
        be(x, n).len() == n,
    decreases n,
{
    if n > 0 {
        lemma_be_len(x / 256, (n - 1) as nat);
    }
}

/// Reading back the big-endian digits of a number that fits gives the number.
pub proof fn lemma_be_round_trip(x: nat, n: nat)
    requires
        x < pow256(n),
    ensures
        be_value(be(x, n)) == x,
    decreases n,
{
    if n > 0 {
        let head = be(x / 256, (n - 1) as nat);
        lemma_be_round_trip(x / 256, (n - 1) as nat);
        assert(be(x, n).drop_last() =~= head);
    }
}

/// A byte string is the big-endian encoding of its own value.
pub proof fn lemma_be_of_value(s: Seq<u8>)
    ensures
        be(be_value(s), s.len()) == s,
        be_value(s) < pow256(s.len()),
    decreases s.len(),
{
    if s.len() > 0 {
        lemma_be_of_value(s.drop_last());
        let v = be_value(s.drop_last());
        let d = s.last() as nat;
        assert((v * 256 + d) / 256 == v && (v * 256 + d) % 256 == d);
        assert(be(be_value(s), s.len()) =~= s.drop_last().push(s.last()));
        assert(s =~= s.drop_last().push(s.last()));
    } else {
        assert(be(be_value(s), s.len()) =~= s);
    }
}

/// Two byte strings of one length with equal values are equal.
pub proof fn lemma_be_value_injective(a: Seq<u8>, b: Seq<u8>)
    requires
        a.len() == b.len(),
        be_value(a) == be_value(b),
    ensures
        a == b,
{
    lemma_be_of_value(a);
    lemma_be_of_value(b);
}

/// Byte order on equal-length strings is numeric order of their values.
pub proof fn lemma_be_value_order(a: Seq<u8>, b: Seq<u8>)
    requires
        a.len() == b.len(),
    ensures
        lex_lt(a, b) <==> be_value(a) < be_value(b),
    decreases a.len(),
{
    if a.len() > 0 {
        let n: int = a.len() as int;
        let a1 = a.drop_last();
        let b1 = b.drop_last();
        lemma_be_value_order(a1, b1);
        if be_value(a1) == be_value(b1) {
            lemma_be_value_injective(a1, b1);
        }
        if be_value(a) < be_value(b) {
            if be_value(a1) < be_value(b1) {
                let k = choose|k: int|
                    #![trigger a1[k], b1[k]]
                    0 <= k < a1.len() && k < b1.len() && a1[k] < b1[k] && a1.take(k) == b1.take(k);
                assert(a[k] == a1[k] && b[k] == b1[k]);
                assert(a.take(k) =~= a1.take(k));
                assert(b.take(k) =~= b1.take(k));
            } else {
                assert(a1 == b1);
                assert(a[n - 1] < b[n - 1]);
                assert(a.take(n - 1) =~= a1);
                assert(b.take(n - 1) =~= b1);
            }
        }
        if lex_lt(a, b) {
            let k = choose|k: int|
                #![trigger a[k], b[k]]
                0 <= k < a.len() && k < b.len() && a[k] < b[k] && a.take(k) == b.take(k);
            if k < n - 1 {
                assert(a1[k] == a[k] && b1[k] == b[k]);
                assert(a1.take(k) =~= a.take(k));
                assert(b1.take(k) =~= b.take(k));
                assert(lex_lt(a1, b1));
            } else {
                assert(a1 =~= a.take(k));
                assert(b1 =~= b.take(k));
            }
        }
    }
}

/// Prefixing two strings with the same bytes keeps their order.
pub proof fn lemma_lex_same_prefix(p: Seq<u8>, a: Seq<u8>, b: Seq<u8>)
    ensures
        lex_lt(p + a, p + b) <==> lex_lt(a, b),
{
    let pa = p + a;
    let pb = p + b;
    let m: int = p.len() as int;
    if lex_lt(a, b) {
        if a.len() < b.len() && b.take(a.len() as int) == a {
            assert(pb.take(pa.len() as int) =~= p + b.take(a.len() as int));
        } else {
            let k = choose|k: int|
                #![trigger a[k], b[k]]
                0 <= k < a.len() && k < b.len() && a[k] < b[k] && a.take(k) == b.take(k);
            assert(pa[m + k] == a[k] && pb[m + k] == b[k]);
            assert(pa.take(m + k) =~= p + a.take(k));
            assert(pb.take(m + k) =~= p + b.take(k));
        }
    }
    if lex_lt(pa, pb) {
        if pa.len() < pb.len() && pb.take(pa.len() as int) == pa {
            assert(b.take(a.len() as int) =~= pb.take(pa.len() as int).skip(m));
            assert(a =~= pa.skip(m));
        } else {
            let k = choose|k: int|
                #![trigger pa[k], pb[k]]
                0 <= k < pa.len() && k < pb.len() && pa[k] < pb[k] && pa.take(k) == pb.take(k);
            if k < m {
                assert(pa[k] == p[k] && pb[k] == p[k]);
            } else {
                assert(a[k - m] == pa[k] && b[k - m] == pb[k]);
                assert(a.take(k - m) =~= pa.take(k).skip(m));
                assert(b.take(k - m) =~= pb.take(k).skip(m));
            }
        }
    }
}

/// Encodes `x` big-endian in exactly `N` bytes.
pub fn to_be<const N: usize>(x: u128) -> (out: [u8; N])
    requires
        (x as nat) < pow256(N as nat),
    ensures
        out@ == be(x as nat, N as nat),
{
    let mut out: [u8; N] = [0u8; N];
    let mut rest: u128 = x;
    let mut i: usize = N;
    while i > 0
        invariant
            i <= N,
            out@.len() == N,
            be(x as nat, N as nat) == be(rest as nat, i as nat) + out@.skip(i as int),
        decreases i,
    {
        i = i - 1;
        let ghost before = out@;
        out[i] = (rest % 256) as u8;
        proof {
            lemma_be_len(rest as nat / 256, i as nat);
            let d = (rest as nat % 256) as u8;
            assert(out@.skip(i as int) =~= seq![d] + before.skip(i + 1));
            assert(be(rest as nat, (i + 1) as nat) == be(rest as nat / 256, i as nat).push(d));
            assert(be(rest as nat / 256, i as nat).push(d) + before.skip(i + 1) =~= be(
                rest as nat / 256,
                i as nat,
            ) + (seq![d] + before.skip(i + 1)));
        }
        rest = rest / 256;
    }
    proof {
        assert(out@.skip(0) =~= out@);
        assert(be(rest as nat, 0) + out@ =~= out@);
    }
    out
}

/// Reads at most sixteen big-endian bytes.
pub fn from_be(bytes: &[u8]) -> (x: u128)
    requires
        bytes@.len() <= 16,
    ensures
        x as nat == be_value(bytes@),
{
    let mut x: u128 = 0;
    let mut i: usize = 0;
    proof {
        lemma_pow256_values();
        assert(bytes@.take(0) =~= Seq::<u8>::empty());
    }
    while i < bytes.len()
        invariant
            i <= bytes@.len() <= 16,
            x as nat == be_value(bytes@.take(i as int)),
        decreases bytes@.len() - i,
    {
        proof {
            let next = bytes@.take(i + 1);
            assert(next.drop_last() =~= bytes@.take(i as int));
            assert(next.last() == bytes@[i as int]);
            lemma_be_of_value(next);
            lemma_pow256_monotonic((i + 1) as nat, 16);
            lemma_pow256_values();
        }
        x = x * 256 + bytes[i] as u128;
        i = i + 1;
    }
    proof {
        assert(bytes@.take(bytes@.len() as int) =~= bytes@);
    }
    x
}

pub proof fn lemma_pow256_monotonic(m: nat, n: nat)
    requires
        m <= n,
    ensures
        pow256(m) <= pow256(n),
    decreases n,
{
    if m < n {
        lemma_pow256_monotonic(m, (n - 1) as nat);
        lemma_pow256_pos((n - 1) as nat);
    }
}

/// The variable-length encoding of `x`: seven bits per byte, least significant
/// group first, the top bit set on every byte but the last.
pub open spec fn varint(x: nat) -> Seq<u8>
    decreases x,
{
    if x < 128 {
        seq![x as u8]
    } else {
        seq![(x % 128 + 128) as u8] + varint(x / 128)
    }
}

/// The number of bytes the variable-length encoding of `x` takes.
pub fn varint_len(x: u64) -> (len: usize)
    ensures
        len == varint(x as nat).len(),
        1 <= len <= 10,
{
    let mut len: usize = 1;
    let mut rest: u64 = x;
    proof {
        lemma_varint_len_bound(x as nat);
    }
    while rest >= 128
        invariant
            1 <= len,
            varint(x as nat).len() == (len - 1) + varint(rest as nat).len(),
            varint(x as nat).len() <= 10,
        decreases rest,
    {
        rest = rest / 128;
        len = len + 1;
    }
    len
}

pub proof fn lemma_varint_len_pos(x: nat)
    ensures
        varint(x).len() >= 1,
    decreases x,
{
    if x >= 128 {
        lemma_varint_len_pos(x / 128);
    }
}

proof fn lemma_varint_len_bound(x: nat)
    requires
        x <= u64::MAX,
    ensures
        varint(x).len() <= 10,
{
    reveal_with_fuel(varint, 10);
}

/// A larger number never takes fewer bytes.
pub proof fn law_varint_len_monotonic(x: nat, y: nat)
    requires
        x <= y,
    ensures
        varint(x).len() <= varint(y).len(),
    decreases y,
{
    if x >= 128 {
        law_varint_len_monotonic(x / 128, y / 128);
    } else {
        lemma_varint_len_pos(y);
    }
}

} // verus!
