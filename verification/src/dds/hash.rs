//! Hashes: arithmetic on 32-bit words, FNV-1a and MurmurHash3.
use vstd::prelude::*;

use crate::wire::{le32, low_u32, u32_le_at};

verus! {

// ---------------------------------------------------------------------------
// 32-bit words
// ---------------------------------------------------------------------------

/// The sum of two words, modulo 2^32.
pub open spec fn sum32(a: u32, b: u32) -> u32 {
    ((a + b) % 0x1_0000_0000) as u32
}

/// The product of two words, modulo 2^32.
pub open spec fn product32(a: u32, b: u32) -> u32 {
    ((a * b) % 0x1_0000_0000) as u32
}

/// A word rotated left by `n` bits.
pub open spec fn rotated32(a: u32, n: u32) -> u32 {
    (a << n) | (a >> ((32 - n) as u32))
}

/// Adds two words, modulo 2^32.
pub fn add32(a: u32, b: u32) -> (r: u32)
    ensures
        r == sum32(a, b),
{
    a.wrapping_add(b)
}

/// Multiplies two words, modulo 2^32.
pub fn mul32(a: u32, b: u32) -> (r: u32)
    ensures
        r == product32(a, b),
{
    a.wrapping_mul(b)
}

/// Rotates a word left by `n` bits.
pub fn rotate32(a: u32, n: u32) -> (r: u32)
    requires
        0 < n < 32,
    ensures
        r == rotated32(a, n),
{
    (a << n) | (a >> (32 - n))
}

// ---------------------------------------------------------------------------
// FNV-1a
// ---------------------------------------------------------------------------

/// The FNV-1a hash of `bytes` that starts from `start`.
pub open spec fn fnv1a(start: u32, bytes: Seq<u8>) -> u32
    decreases bytes.len(),
{
    if bytes.len() == 0 {
        start
    } else {
        product32(fnv1a(start, bytes.drop_last()) ^ (bytes.last() as u32), 16777619)
    }
}

/// Hashing two pieces one after the other is hashing them joined.
pub proof fn lemma_fnv1a_join(start: u32, a: Seq<u8>, b: Seq<u8>)
    ensures
        fnv1a(fnv1a(start, a), b) == fnv1a(start, a + b),
    decreases b.len(),
{
    if b.len() == 0 {
        assert(a + b =~= a);
    } else {
        lemma_fnv1a_join(start, a, b.drop_last());
        assert((a + b).drop_last() =~= a + b.drop_last());
        assert((a + b).last() == b.last());
    }
}

/// Hashes `bytes`, starting from `start`.
pub fn fnv1a_hash(start: u32, bytes: &[u8]) -> (hash: u32)
    ensures
        hash == fnv1a(start, bytes@),
{
    let mut hash: u32 = start;
    let mut i: usize = 0;
    assert(bytes@.take(0) =~= Seq::<u8>::empty());
    while i < bytes.len()
        invariant
            i <= bytes@.len(),
            hash == fnv1a(start, bytes@.take(i as int)),
        decreases bytes@.len() - i,
    {
        hash = mul32(hash ^ (bytes[i] as u32), 16777619);
        i = i + 1;
        proof {
            let now = bytes@.take(i as int);
            assert(now.drop_last() =~= bytes@.take(i - 1));
            assert(now.last() == bytes@[i - 1]);
        }
    }
    assert(bytes@.take(i as int) =~= bytes@);
    hash
}

// ---------------------------------------------------------------------------
// MurmurHash3, 32 bits
// ---------------------------------------------------------------------------

/// A word of the input as it enters the hash.
pub open spec fn murmur_scramble(k: u32) -> u32 {
    product32(rotated32(product32(k, 0xcc9e2d51), 15), 0x1b873593)
}

/// The hash after one more word of the input.
pub open spec fn murmur_block(h: u32, k: u32) -> u32 {
    sum32(product32(rotated32(h ^ murmur_scramble(k), 13), 5), 0xe6546b64)
}

/// The hash after the first `n` words of the input.
pub open spec fn murmur_blocks(data: Seq<u8>, seed: u32, n: nat) -> u32
    decreases n,
{
    if n == 0 {
        seed
    } else {
        murmur_block(
            murmur_blocks(data, seed, (n - 1) as nat),
            le32(data.skip(4 * (n - 1))) as u32,
        )
    }
}

/// The up to three bytes behind the last word, as a number.
pub open spec fn murmur_tail(tail: Seq<u8>) -> u32 {
    ((if tail.len() >= 1 {
        tail[0] as int
    } else {
        0
    }) + (if tail.len() >= 2 {
        0x100 * tail[1]
    } else {
        0
    }) + (if tail.len() >= 3 {
        0x1_0000 * tail[2]
    } else {
        0
    })) as u32
}

/// The last mixing of the hash.
pub open spec fn murmur_finish(h: u32) -> u32 {
    let h1 = product32(h ^ (h >> 16u32), 0x85ebca6b);
    let h2 = product32(h1 ^ (h1 >> 13u32), 0xc2b2ae35);
    h2 ^ (h2 >> 16u32)
}

/// The 32-bit MurmurHash3 of `data`.
pub open spec fn murmur3(data: Seq<u8>, seed: u32) -> u32 {
    let words = data.len() / 4;
    let tail = data.skip(4 * words as int);
    let h1 = murmur_blocks(data, seed, words);
    let h2 = if tail.len() > 0 {
        h1 ^ murmur_scramble(murmur_tail(tail))
    } else {
        h1
    };
    murmur_finish(h2 ^ ((data.len() as int % 0x1_0000_0000) as u32))
}

fn scramble(k: u32) -> (r: u32)
    ensures
        r == murmur_scramble(k),
{
    mul32(rotate32(mul32(k, 0xcc9e2d51), 15), 0x1b873593)
}

/// MurmurHash3 32-bit, as Cyclone DDS uses it for key hashes.
pub fn murmurhash3(data: &[u8], seed: u32) -> (hash: u32)
    ensures
        hash == murmur3(data@, seed),
{
    let words: usize = data.len() / 4;
    let mut h: u32 = seed;
    let mut i: usize = 0;
    while i < words
        invariant
            i <= words,
            words == data@.len() / 4,
            4 * words <= usize::MAX,
            h == murmur_blocks(data@, seed, i as nat),
        decreases words - i,
    {
        let k: u32 = u32_le_at(data, 4 * i);
        h = add32(mul32(rotate32(h ^ scramble(k), 13), 5), 0xe6546b64);
        i = i + 1;
    }
    let start: usize = 4 * words;
    let left: usize = data.len() - start;
    let ghost tail = data@.skip(start as int);
    if left > 0 {
        let mut k: u32 = data[start] as u32;
        assert(tail[0] == data@[start as int]);
        if left >= 2 {
            assert(tail[1] == data@[start + 1]);
            k = k + 0x100 * (data[start + 1] as u32);
        }
        if left >= 3 {
            assert(tail[2] == data@[start + 2]);
            k = k + 0x1_0000 * (data[start + 2] as u32);
        }
        assert(k == murmur_tail(tail));
        h = h ^ scramble(k);
    }
    h = h ^ low_u32(data.len());
    let h1: u32 = mul32(h ^ (h >> 16u32), 0x85ebca6b);
    let h2: u32 = mul32(h1 ^ (h1 >> 13u32), 0xc2b2ae35);
    h2 ^ (h2 >> 16u32)
}

} // verus!
