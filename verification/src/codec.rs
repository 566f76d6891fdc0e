//! Endian-aware integer byte codec.
//!
//! A typed accessor over a mapped region is, by contract, exactly "slice
//! `size_of(T)` bytes and decode them in the named byte order". This module
//! gives that decoding a mathematical definition (`le_bytes` / `le_decode`
//! and their big-endian mirrors) and verified executable encoders and
//! decoders for unsigned values of up to sixteen bytes, which every typed
//! accessor in the crate is specified against.

use vstd::arithmetic::div_mod::{lemma_mod_breakdown, lemma_small_mod};
use vstd::prelude::*;

verus! {

/// The number of distinct values of an `n`-byte unsigned integer: `256^n`.
pub open spec fn pow256(n: nat) -> nat
    decreases n,
{
    if n == 0 {
        1
    } else {
        256 * pow256((n - 1) as nat)
    }
}

/// The little-endian encoding of `v % pow256(n)` in exactly `n` bytes:
/// least-significant byte first.
pub open spec fn le_bytes(v: nat, n: nat) -> Seq<u8>
    decreases n,
{
    if n == 0 {
        Seq::empty()
    } else {
        seq![(v % 256) as u8] + le_bytes(v / 256, (n - 1) as nat)
    }
}

/// The value of a byte sequence read as a little-endian unsigned integer.
pub open spec fn le_decode(s: Seq<u8>) -> nat
    decreases s.len(),
{
    if s.len() == 0 {
        0
    } else {
        (s[0] as nat) + 256 * le_decode(s.subrange(1, s.len() as int))
    }
}

/// The big-endian encoding of `v % pow256(n)` in exactly `n` bytes:
/// most-significant byte first.
pub open spec fn be_bytes(v: nat, n: nat) -> Seq<u8> {
    le_bytes(v, n).reverse()
}

/// The value of a byte sequence read as a big-endian unsigned integer.
pub open spec fn be_decode(s: Seq<u8>) -> nat {
    le_decode(s.reverse())
}

pub proof fn lemma_pow256_positive(n: nat)
    ensures
        pow256(n) >= 1,
    decreases n,
{
    if n > 0 {
        lemma_pow256_positive((n - 1) as nat);
    }
}

pub proof fn lemma_pow256_increases(m: nat, n: nat)
    requires
        m <= n,
    ensures
        pow256(m) <= pow256(n),
    decreases n,
{
    if m < n {
        lemma_pow256_increases(m, (n - 1) as nat);
        lemma_pow256_positive((n - 1) as nat);
    }
}

/// `pow256(16)` is one more than the largest `u128`.
pub proof fn lemma_pow256_16()
    ensures
        pow256(16) == 0x1_0000_0000_0000_0000_0000_0000_0000_0000,
{
    reveal_with_fuel(pow256, 17);
}

pub proof fn lemma_le_bytes_len(v: nat, n: nat)
    ensures
        le_bytes(v, n).len() == n,
    decreases n,
{
    if n > 0 {
        lemma_le_bytes_len(v / 256, (n - 1) as nat);
    }
}

pub proof fn lemma_be_bytes_len(v: nat, n: nat)
    ensures
        be_bytes(v, n).len() == n,
{
    lemma_le_bytes_len(v, n);
}

/// Decoding any byte sequence yields a value below `pow256` of its length.
pub proof fn lemma_le_decode_bound(s: Seq<u8>)
    ensures
        le_decode(s) < pow256(s.len()),
    decreases s.len(),
{
    if s.len() > 0 {
        lemma_le_decode_bound(s.subrange(1, s.len() as int));
    }
}

pub proof fn lemma_be_decode_bound(s: Seq<u8>)
    ensures
        be_decode(s) < pow256(s.len()),
{
    lemma_le_decode_bound(s.reverse());
}

/// Decoding an encoding gives the value back, truncated to `n` bytes.
pub proof fn lemma_le_decode_le_bytes(v: nat, n: nat)
    ensures
        le_decode(le_bytes(v, n)) == v % pow256(n),
    decreases n,
{
    if n == 0 {
        assert(v % 1 == 0) by {
            lemma_small_mod(0, 1);
            lemma_mod_breakdown(v as int, 1, 1);
        }
    } else {
        let rest: Seq<u8> = le_bytes(v / 256, (n - 1) as nat);
        let whole: Seq<u8> = le_bytes(v, n);
        lemma_le_bytes_len(v / 256, (n - 1) as nat);
        assert(whole.subrange(1, whole.len() as int) =~= rest);
        lemma_le_decode_le_bytes(v / 256, (n - 1) as nat);
        lemma_pow256_positive((n - 1) as nat);
        lemma_mod_breakdown(v as int, 256, pow256((n - 1) as nat) as int);
    }
}

/// Round trip: an `n`-byte value survives little-endian encode plus decode.
pub proof fn lemma_le_round_trip(v: nat, n: nat)
    requires
        v < pow256(n),
    ensures
        le_decode(le_bytes(v, n)) == v,
{
    lemma_le_decode_le_bytes(v, n);
    lemma_small_mod(v, pow256(n));
}

/// Round trip: an `n`-byte value survives big-endian encode plus decode.
pub proof fn lemma_be_round_trip(v: nat, n: nat)
    requires
        v < pow256(n),
    ensures
        be_decode(be_bytes(v, n)) == v,
{
    lemma_le_bytes_len(v, n);
    assert(le_bytes(v, n).reverse().reverse() =~= le_bytes(v, n));
    lemma_le_round_trip(v, n);
}

/// Encode `v` as `n` little-endian bytes.
pub fn encode_le(v: u128, n: usize) -> (r: Vec<u8>)
    requires
        n <= 16,
    ensures
        r@ == le_bytes(v as nat, n as nat),
        r.len() == n,
{
    let mut out: Vec<u8> = Vec::new();
    let mut x: u128 = v;
    let mut i: usize = 0;
    proof {
        assert(out@ + le_bytes(x as nat, n as nat) =~= le_bytes(v as nat, n as nat));
    }
    while i < n
        invariant
            i <= n,
            out@.len() == i,
            out@ + le_bytes(x as nat, (n - i) as nat) == le_bytes(v as nat, n as nat),
        decreases n - i,
    {
        let b: u8 = (x % 256) as u8;
        proof {
            let tail: Seq<u8> = le_bytes(x as nat, (n - i) as nat);
            let tail2: Seq<u8> = le_bytes((x as nat) / 256, (n - i - 1) as nat);
            assert(tail =~= seq![b] + tail2);
            assert((out@ + tail) =~= (out@.push(b) + tail2));
        }
        out.push(b);
        x = x / 256;
        i = i + 1;
    }
    proof {
        assert(out@ + le_bytes(x as nat, 0) =~= out@);
    }
    out
}

/// Encode `v` as `n` big-endian bytes.
pub fn encode_be(v: u128, n: usize) -> (r: Vec<u8>)
    requires
        n <= 16,
    ensures
        r@ == be_bytes(v as nat, n as nat),
        r.len() == n,
{
    let little: Vec<u8> = encode_le(v, n);
    let mut out: Vec<u8> = Vec::new();
    let mut i: usize = 0;
    while i < n
        invariant
            i <= n,
            n == little@.len(),
            little@ == le_bytes(v as nat, n as nat),
            out@.len() == i,
            forall|k: int| 0 <= k < i ==> out@[k] == little@[n - 1 - k],
        decreases n - i,
    {
        let b: u8 = little[n - 1 - i];
        out.push(b);
        i = i + 1;
    }
    proof {
        assert(out@ =~= le_bytes(v as nat, n as nat).reverse());
    }
    out
}

/// Decode a byte vector of up to sixteen bytes as a little-endian unsigned
/// integer.
pub fn decode_le(bytes: &Vec<u8>) -> (r: u128)
    requires
        bytes@.len() <= 16,
    ensures
        r as nat == le_decode(bytes@),
{
    let n: usize = bytes.len();
    let mut acc: u128 = 0;
    let mut i: usize = n;
    proof {
        assert(bytes@.subrange(n as int, n as int) =~= Seq::<u8>::empty());
    }
    while i > 0
        invariant
            i <= n,
            n == bytes@.len(),
            n <= 16,
            acc as nat == le_decode(bytes@.subrange(i as int, n as int)),
            (acc as nat) < pow256((n - i) as nat),
        decreases i,
    {
        i = i - 1;
        let ghost prev: nat = acc as nat;
        proof {
            let s: Seq<u8> = bytes@.subrange(i as int, n as int);
            assert(s.subrange(1, s.len() as int) =~= bytes@.subrange(i + 1, n as int));
            lemma_pow256_increases((n - i - 1) as nat, 15);
            reveal_with_fuel(pow256, 17);
        }
        acc = acc * 256 + (bytes[i] as u128);
    }
    proof {
        assert(bytes@.subrange(0, n as int) =~= bytes@);
    }
    acc
}

/// Decode a byte vector of up to sixteen bytes as a big-endian unsigned
/// integer.
pub fn decode_be(bytes: &Vec<u8>) -> (r: u128)
    requires
        bytes@.len() <= 16,
    ensures
        r as nat == be_decode(bytes@),
{
    let n: usize = bytes.len();
    let mut rev: Vec<u8> = Vec::new();
    let mut i: usize = 0;
    while i < n
        invariant
            i <= n,
            n == bytes@.len(),
            rev@.len() == i,
            forall|k: int| 0 <= k < i ==> rev@[k] == bytes@[n - 1 - k],
        decreases n - i,
    {
        let b: u8 = bytes[n - 1 - i];
        rev.push(b);
        i = i + 1;
    }
    proof {
        assert(rev@ =~= bytes@.reverse());
    }
    decode_le(&rev)
}

} // verus!
