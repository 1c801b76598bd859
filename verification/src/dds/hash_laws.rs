//! What the hashes are for: every byte counts, wherever it stands, and so do
//! the seed and the order.
use vstd::arithmetic::div_mod::{lemma_mod_multiples_vanish, lemma_mul_mod_noop_left};
use vstd::prelude::*;

use crate::dds::hash::{
    fnv1a, lemma_fnv1a_join, murmur3, murmur_block, murmur_blocks, murmur_finish, murmur_scramble,
    murmur_tail, product32, rotated32, sum32,
};
use crate::dds::md5::{
    block_word, digest_block, digest_blocks, initial_state, md5, mix, padded, steps,
    word_index, State,
};
use crate::dds::sertype::name_hash;
use crate::protocol::layout::{
    law_integers_are_little_endian, law_integers_are_read_little_endian, little_endian,
};
use crate::wire::{le32, le32_bytes, le64_bytes};

verus! {

broadcast use crate::wire::group_le_lengths;

// ---------------------------------------------------------------------------
// Words
// ---------------------------------------------------------------------------

/// Words are added and multiplied modulo 2^32, and rotated to the left: the bits
/// that leave at the top come back at the bottom.
pub proof fn law_word_arithmetic(a: u32, b: u32)
    ensures
        sum32(a, b) == (a + b) % 0x1_0000_0000,
        product32(a, b) == (a * b) % 0x1_0000_0000,
        rotated32(a, 1) == (2 * a) % 0x1_0000_0000 + a / 0x8000_0000,
        rotated32(a, 15) == (0x8000 * a) % 0x1_0000_0000 + a / 0x2_0000,
        rotated32(a, 13) == (0x2000 * a) % 0x1_0000_0000 + a / 0x8_0000,
{
    assert((a << 1u32) | (a >> 31u32) == (2 * a) % 0x1_0000_0000 + a / 0x8000_0000)
        by (bit_vector);
    assert((a << 15u32) | (a >> 17u32) == (0x8000 * a) % 0x1_0000_0000 + a / 0x2_0000)
        by (bit_vector);
    assert((a << 13u32) | (a >> 19u32) == (0x2000 * a) % 0x1_0000_0000 + a / 0x8_0000)
        by (bit_vector);
}

/// A multiplication by a number that has an inverse can be undone.
proof fn lemma_product_undone(x: u32, c: u32, inverse: u32, k: int)
    requires
        c * inverse == 1 + 0x1_0000_0000 * k,
    ensures
        product32(product32(x, c), inverse) == x,
{
    let m: int = 0x1_0000_0000;
    lemma_mul_mod_noop_left(x * c, inverse as int, m);
    assert((x * c) * inverse == m * (x * k) + x) by (nonlinear_arith)
        requires
            c * inverse == 1 + 0x1_0000_0000 * k,
            m == 0x1_0000_0000,
    ;
    lemma_mod_multiples_vanish(x * k, x as int, m);
}

proof fn lemma_xor_injective(a: u32, b: u32, c: u32)
    ensures
        a ^ c == b ^ c <==> a == b,
{
    assert(a ^ c == b ^ c <==> a == b) by (bit_vector);
}

proof fn lemma_fnv_step(a: u32, b: u32, x: u32, y: u32)
    ensures
        product32(a ^ x, 16777619) == product32(b ^ y, 16777619) <==> a ^ x == b ^ y,
{
    assert(16777619u32 * 0x359c449bu32 == 1 + 0x1_0000_0000 * 3513497);
    lemma_product_undone(a ^ x, 16777619, 0x359c449b, 3513497);
    lemma_product_undone(b ^ y, 16777619, 0x359c449b, 3513497);
}

// ---------------------------------------------------------------------------
// FNV-1a
// ---------------------------------------------------------------------------

/// FNV-1a takes in bytes one by one: nothing leaves the hash as it is, one byte is
/// mixed in by an exclusive or and a multiplication by the prime, and bytes behind
/// others go on from their hash.
pub proof fn law_fnv1a_takes_in_every_byte(start: u32, a: Seq<u8>, b: Seq<u8>, byte: u8)
    ensures
        fnv1a(start, Seq::empty()) == start,
        fnv1a(start, seq![byte]) == ((start ^ (byte as u32)) * 16777619) % 0x1_0000_0000,
        fnv1a(start, a + b) == fnv1a(fnv1a(start, a), b),
{
    reveal_with_fuel(fnv1a, 2);
    assert(seq![byte].drop_last() =~= Seq::<u8>::empty());
    lemma_fnv1a_join(start, a, b);
}

/// FNV-1a tells apart inputs that differ in one byte, wherever it stands, and
/// starts that differ.
pub proof fn law_fnv1a_tells_bytes_apart(
    start: u32,
    other: u32,
    before: Seq<u8>,
    x: u8,
    y: u8,
    after: Seq<u8>,
)
    ensures
        fnv1a(start, after) == fnv1a(other, after) <==> start == other,
        fnv1a(start, before + seq![x] + after) == fnv1a(start, before + seq![y] + after)
            <==> x == y,
{
    lemma_fnv1a_injective(start, other, after);
    let h = fnv1a(start, before);
    law_fnv1a_takes_in_every_byte(start, before, seq![x], x);
    law_fnv1a_takes_in_every_byte(start, before, seq![y], y);
    law_fnv1a_takes_in_every_byte(h, before, before, x);
    law_fnv1a_takes_in_every_byte(h, before, before, y);
    law_fnv1a_takes_in_every_byte(start, before + seq![x], after, x);
    law_fnv1a_takes_in_every_byte(start, before + seq![y], after, y);
    lemma_fnv_step(h, h, x as u32, y as u32);
    assert(h ^ (x as u32) == h ^ (y as u32) <==> x == y) by (bit_vector);
    lemma_fnv1a_injective(fnv1a(h, seq![x]), fnv1a(h, seq![y]), after);
}

proof fn lemma_fnv1a_injective(a: u32, b: u32, bytes: Seq<u8>)
    ensures
        fnv1a(a, bytes) == fnv1a(b, bytes) <==> a == b,
    decreases bytes.len(),
{
    if bytes.len() > 0 {
        let most = bytes.drop_last();
        let last = bytes.last() as u32;
        lemma_fnv1a_injective(a, b, most);
        lemma_fnv_step(fnv1a(a, most), fnv1a(b, most), last, last);
        lemma_xor_injective(fnv1a(a, most), fnv1a(b, most), last);
    }
}

// ---------------------------------------------------------------------------
// The hash of a name
// ---------------------------------------------------------------------------

/// The hash of a name takes in its bytes in order: each is added to 31 times the
/// hash so far, modulo 2^32.
pub proof fn law_name_hash_takes_in_every_byte(name: Seq<u8>, byte: u8)
    ensures
        name_hash(Seq::empty()) == 0,
        name_hash(name.push(byte)) == (31 * name_hash(name) + byte) % 0x1_0000_0000,
{
    assert(name.push(byte).drop_last() =~= name);
}

// ---------------------------------------------------------------------------
// MurmurHash3
// ---------------------------------------------------------------------------

proof fn lemma_scramble_injective(k: u32, l: u32)
    ensures
        murmur_scramble(k) == murmur_scramble(l) <==> k == l,
{
    assert(0xcc9e2d51u32 * 0xdee13bb1u32 == 1 + 0x1_0000_0000 * 2988782088);
    assert(0x1b873593u32 * 0x56ed309bu32 == 1 + 0x1_0000_0000 * 156822886);
    lemma_product_undone(k, 0xcc9e2d51, 0xdee13bb1, 2988782088);
    lemma_product_undone(l, 0xcc9e2d51, 0xdee13bb1, 2988782088);
    let a = product32(k, 0xcc9e2d51);
    let b = product32(l, 0xcc9e2d51);
    assert((a << 15u32) | (a >> 17u32) == (b << 15u32) | (b >> 17u32) <==> a == b)
        by (bit_vector);
    lemma_product_undone(rotated32(a, 15), 0x1b873593, 0x56ed309b, 156822886);
    lemma_product_undone(rotated32(b, 15), 0x1b873593, 0x56ed309b, 156822886);
}

proof fn lemma_block_injective(h: u32, g: u32, k: u32, l: u32)
    ensures
        murmur_block(h, k) == murmur_block(g, k) <==> h == g,
        murmur_block(h, k) == murmur_block(h, l) <==> k == l,
{
    lemma_scramble_injective(k, l);
    lemma_mix_in_injective(h ^ murmur_scramble(k), g ^ murmur_scramble(k));
    lemma_mix_in_injective(h ^ murmur_scramble(k), h ^ murmur_scramble(l));
    lemma_xor_injective(h, g, murmur_scramble(k));
    let x = murmur_scramble(k);
    let y = murmur_scramble(l);
    assert(h ^ x == h ^ y <==> x == y) by (bit_vector);
}

proof fn lemma_mix_in_injective(x: u32, y: u32)
    ensures
        sum32(product32(rotated32(x, 13), 5), 0xe6546b64) == sum32(
            product32(rotated32(y, 13), 5),
            0xe6546b64,
        ) <==> x == y,
{
    assert((x << 13u32) | (x >> 19u32) == (y << 13u32) | (y >> 19u32) <==> x == y)
        by (bit_vector);
    assert(5u32 * 0xcccccccdu32 == 1 + 0x1_0000_0000 * 4);
    lemma_product_undone(rotated32(x, 13), 5, 0xcccccccd, 4);
    lemma_product_undone(rotated32(y, 13), 5, 0xcccccccd, 4);
}

proof fn lemma_finish_injective(h: u32, g: u32)
    ensures
        murmur_finish(h) == murmur_finish(g) <==> h == g,
{
    assert(0x85ebca6bu32 * 0xa5cb9243u32 == 1 + 0x1_0000_0000 * 1455126516);
    assert(0xc2b2ae35u32 * 0x7ed1b41du32 == 1 + 0x1_0000_0000 * 1618177690);
    assert(h ^ (h >> 16u32) == g ^ (g >> 16u32) <==> h == g) by (bit_vector);
    let h0 = h ^ (h >> 16u32);
    let g0 = g ^ (g >> 16u32);
    lemma_product_undone(h0, 0x85ebca6b, 0xa5cb9243, 1455126516);
    lemma_product_undone(g0, 0x85ebca6b, 0xa5cb9243, 1455126516);
    let h1 = product32(h0, 0x85ebca6b);
    let g1 = product32(g0, 0x85ebca6b);
    assert(h1 ^ (h1 >> 13u32) == g1 ^ (g1 >> 13u32) <==> h1 == g1) by (bit_vector);
    let h2 = h1 ^ (h1 >> 13u32);
    let g2 = g1 ^ (g1 >> 13u32);
    lemma_product_undone(h2, 0xc2b2ae35, 0x7ed1b41d, 1618177690);
    lemma_product_undone(g2, 0xc2b2ae35, 0x7ed1b41d, 1618177690);
    let h3 = product32(h2, 0xc2b2ae35);
    let g3 = product32(g2, 0xc2b2ae35);
    assert(h3 ^ (h3 >> 16u32) == g3 ^ (g3 >> 16u32) <==> h3 == g3) by (bit_vector);
}

proof fn lemma_blocks_seed(data: Seq<u8>, a: u32, b: u32, n: nat)
    ensures
        murmur_blocks(data, a, n) == murmur_blocks(data, b, n) <==> a == b,
    decreases n,
{
    if n > 0 {
        let before = (n - 1) as nat;
        lemma_blocks_seed(data, a, b, before);
        let k = le32(data.skip(4 * before as int)) as u32;
        lemma_block_injective(
            murmur_blocks(data, a, before),
            murmur_blocks(data, b, before),
            k,
            k,
        );
    }
}

/// MurmurHash3 tells seeds apart: the same bytes under two seeds never have the
/// same hash.
pub proof fn law_murmur3_tells_seeds_apart(data: Seq<u8>, a: u32, b: u32)
    ensures
        murmur3(data, a) == murmur3(data, b) <==> a == b,
{
    let words = data.len() / 4;
    let tail = data.skip(4 * words as int);
    lemma_blocks_seed(data, a, b, words);
    let ha = murmur_blocks(data, a, words);
    let hb = murmur_blocks(data, b, words);
    let t = murmur_scramble(murmur_tail(tail));
    let n = (data.len() as int % 0x1_0000_0000) as u32;
    lemma_xor_injective(ha, hb, t);
    lemma_xor_injective(ha, hb, n);
    lemma_xor_injective(ha ^ t, hb ^ t, n);
    lemma_finish_injective(ha ^ n, hb ^ n);
    lemma_finish_injective(ha ^ t ^ n, hb ^ t ^ n);
}

proof fn lemma_blocks_one_word(a: Seq<u8>, b: Seq<u8>, seed: u32, n: nat, w: nat)
    requires
        a.len() == b.len(),
        4 * n <= a.len(),
        forall|i: int| 0 <= i < a.len() && i / 4 != w ==> a[i] == #[trigger] b[i],
    ensures
        w >= n ==> murmur_blocks(a, seed, n) == murmur_blocks(b, seed, n),
        w < n ==> (murmur_blocks(a, seed, n) == murmur_blocks(b, seed, n) <==> le32(
            a.skip(4 * w as int),
        ) == le32(b.skip(4 * w as int))),
    decreases n,
{
    if n > 0 {
        let before = (n - 1) as nat;
        let at = 4 * before as int;
        lemma_blocks_one_word(a, b, seed, before, w);
        let sa = a.skip(at);
        let sb = b.skip(at);
        assert(sa[0] == a[at] && sa[1] == a[at + 1] && sa[2] == a[at + 2] && sa[3] == a[at + 3]);
        assert(sb[0] == b[at] && sb[1] == b[at + 1] && sb[2] == b[at + 2] && sb[3] == b[at + 3]);
        assert(at / 4 == before && (at + 1) / 4 == before);
        assert((at + 2) / 4 == before && (at + 3) / 4 == before);
        if w != before {
            assert(le32(sa) == le32(sb));
        }
        lemma_block_injective(
            murmur_blocks(a, seed, before),
            murmur_blocks(b, seed, before),
            le32(sa) as u32,
            le32(sb) as u32,
        );
        lemma_block_injective(
            murmur_blocks(b, seed, before),
            murmur_blocks(b, seed, before),
            le32(sa) as u32,
            le32(sb) as u32,
        );
    }
}

proof fn lemma_le32_injective(a: Seq<u8>, b: Seq<u8>)
    requires
        a.len() >= 4,
        b.len() >= 4,
    ensures
        le32(a) == le32(b) <==> a[0] == b[0] && a[1] == b[1] && a[2] == b[2] && a[3] == b[3],
{
}

/// MurmurHash3 takes in every byte: two inputs of the same length that differ
/// only within one group of four bytes, the last and shorter one among them,
/// never have the same hash.
pub proof fn law_murmur3_takes_in_every_byte(a: Seq<u8>, b: Seq<u8>, seed: u32, w: nat)
    requires
        a.len() == b.len(),
        forall|i: int| 0 <= i < a.len() && i / 4 != w ==> a[i] == #[trigger] b[i],
    ensures
        murmur3(a, seed) == murmur3(b, seed) <==> a == b,
{
    let words = a.len() / 4;
    lemma_blocks_one_word(a, b, seed, words, w);
    let at = 4 * words as int;
    let ta = a.skip(at);
    let tb = b.skip(at);
    let ha = murmur_blocks(a, seed, words);
    let hb = murmur_blocks(b, seed, words);
    let n = (a.len() as int % 0x1_0000_0000) as u32;
    let xa = murmur_scramble(murmur_tail(ta));
    let xb = murmur_scramble(murmur_tail(tb));
    assert forall|i: int| 0 <= i < ta.len() implies #[trigger] ta[i] == a[at + i] && tb[i] == b[at
        + i] && (at + i) / 4 == words by {}
    lemma_xor_injective(ha, hb, n);
    lemma_finish_injective(ha ^ n, hb ^ n);
    lemma_xor_injective(ha, hb, xa);
    lemma_xor_injective(ha ^ xa, hb ^ xa, n);
    lemma_finish_injective(ha ^ xa ^ n, hb ^ xa ^ n);
    lemma_xor_injective(ha ^ xa, ha ^ xb, n);
    lemma_finish_injective(ha ^ xa ^ n, ha ^ xb ^ n);
    assert(ha ^ xa == ha ^ xb <==> xa == xb) by (bit_vector);
    if w < words {
        assert(ta =~= tb);
        let wa = a.skip(4 * w as int);
        let wb = b.skip(4 * w as int);
        lemma_le32_injective(wa, wb);
        if le32(wa) == le32(wb) {
            assert forall|i: int| 0 <= i < a.len() implies a[i] == b[i] by {
                if i / 4 == w {
                    assert(a[i] == wa[i - 4 * w] && b[i] == wb[i - 4 * w]);
                }
            }
            assert(a =~= b);
        }
    } else {
        assert(ha == hb);
        if murmur3(a, seed) == murmur3(b, seed) {
            if ta.len() > 0 {
                lemma_scramble_injective(murmur_tail(ta), murmur_tail(tb));
                lemma_tail_injective(ta, tb);
            }
            assert forall|i: int| 0 <= i < a.len() implies a[i] == b[i] by {
                if i >= at {
                    assert(ta[i - at] == a[i] && tb[i - at] == b[i]);
                } else {
                    assert(i / 4 != w);
                }
            }
            assert(a =~= b);
        }
    }
}

proof fn lemma_tail_injective(a: Seq<u8>, b: Seq<u8>)
    requires
        a.len() == b.len(),
        0 < a.len() < 4,
        murmur_tail(a) == murmur_tail(b),
    ensures
        a == b,
{
    assert(a =~= b);
}

/// MurmurHash3 takes in words in order: words behind others go on from their
/// hash.
pub proof fn law_murmur3_goes_on_from_word_to_word(
    a: Seq<u8>,
    b: Seq<u8>,
    seed: u32,
    m: nat,
    n: nat,
)
    requires
        a.len() == 4 * m,
        4 * n <= b.len(),
    ensures
        murmur_blocks(a + b, seed, m + n) == murmur_blocks(b, murmur_blocks(a, seed, m), n),
        murmur_blocks(a, seed, 0) == seed,
    decreases m + n,
{
    if n > 0 {
        let before = (n - 1) as nat;
        law_murmur3_goes_on_from_word_to_word(a, b, seed, m, before);
        assert((a + b).skip(4 * (m + n - 1)) =~= b.skip(4 * (n - 1)));
    } else {
        lemma_blocks_prefix(a, b, seed, m);
    }
}

proof fn lemma_blocks_prefix(a: Seq<u8>, b: Seq<u8>, seed: u32, m: nat)
    requires
        4 * m <= a.len(),
    ensures
        murmur_blocks(a + b, seed, m) == murmur_blocks(a, seed, m),
    decreases m,
{
    if m > 0 {
        lemma_blocks_prefix(a, b, seed, (m - 1) as nat);
        let at = 4 * (m - 1);
        let s = (a + b).skip(at);
        let t = a.skip(at);
        assert(s[0] == t[0] && s[1] == t[1] && s[2] == t[2] && s[3] == t[3]);
    }
}

// ---------------------------------------------------------------------------
// MD5
// ---------------------------------------------------------------------------

/// A message is filled up for MD5 to a multiple of 64 bytes, by no more than it
/// takes: its bytes, unchanged, the byte 0x80, zeros, and its length in bits in
/// the last eight bytes.
pub proof fn law_md5_padding(data: Seq<u8>)
    ensures
        ({
            let m = padded(data);
            let n = data.len() as int;
            &&& m.len() % 64 == 0
            &&& n + 9 <= m.len() < n + 73
            &&& m.take(n) == data
            &&& m[n] == 0x80
            &&& forall|i: int| n < i < m.len() - 8 ==> #[trigger] m[i] == 0
            &&& n < 0x2000_0000_0000_0000 ==> little_endian(m.skip(m.len() - 8)) == 8 * n
        }),
{
    let m = padded(data);
    let n = data.len() as int;
    let bits = 8 * n % 0x1_0000_0000_0000_0000;
    law_integers_are_little_endian(bits);
    assert(m.take(n) =~= data);
    assert(m.skip(m.len() - 8) =~= le64_bytes(bits));
}

/// The digest is the four words of the last state, the lowest byte of each first;
/// it has sixteen bytes.
pub proof fn law_md5_is_the_last_state(data: Seq<u8>)
    ensures
        ({
            let d = md5(data);
            let s = digest_blocks(padded(data), padded(data).len() / 64);
            &&& d.len() == 16
            &&& little_endian(d.subrange(0, 4)) == s.a
            &&& little_endian(d.subrange(4, 8)) == s.b
            &&& little_endian(d.subrange(8, 12)) == s.c
            &&& little_endian(d.subrange(12, 16)) == s.d
        }),
{
    let d = md5(data);
    let s = digest_blocks(padded(data), padded(data).len() / 64);
    law_integers_are_little_endian(s.a as int);
    law_integers_are_little_endian(s.b as int);
    law_integers_are_little_endian(s.c as int);
    law_integers_are_little_endian(s.d as int);
    assert(d.subrange(0, 4) =~= le32_bytes(s.a as int));
    assert(d.subrange(4, 8) =~= le32_bytes(s.b as int));
    assert(d.subrange(8, 12) =~= le32_bytes(s.c as int));
    assert(d.subrange(12, 16) =~= le32_bytes(s.d as int));
}

/// Blocks are taken in one after the other, all in the same way: the state after
/// one more block depends on the state before it and on its 64 bytes alone.
pub proof fn law_md5_takes_in_blocks_alike(msg: Seq<u8>, block: Seq<u8>, n: nat)
    requires
        msg.len() == 64 * n,
        block.len() == 64,
    ensures
        digest_blocks(msg, 0) == initial_state(),
        digest_blocks(msg + block, n + 1) == digest_block(digest_blocks(msg, n), block, 0),
{
    lemma_digest_prefix(msg, block, n);
    assert((msg + block).subrange(64 * n as int, 64 * n as int + 64) =~= block);
    lemma_steps_moved(digest_blocks(msg, n), msg + block, 64 * n as int, block, 64);
}

proof fn lemma_digest_prefix(msg: Seq<u8>, rest: Seq<u8>, n: nat)
    requires
        64 * n <= msg.len(),
    ensures
        digest_blocks(msg + rest, n) == digest_blocks(msg, n),
    decreases n,
{
    if n > 0 {
        let before = (n - 1) as nat;
        lemma_digest_prefix(msg, rest, before);
        let s = digest_blocks(msg, before);
        let at = 64 * before as int;
        let block = msg.subrange(at, at + 64);
        assert((msg + rest).subrange(at, at + 64) =~= block);
        lemma_steps_moved(s, msg + rest, at, block, 64);
        lemma_steps_moved(s, msg, at, block, 64);
    }
}

proof fn lemma_steps_moved(s: State, msg: Seq<u8>, at: int, block: Seq<u8>, n: nat)
    requires
        0 <= at,
        at + 64 <= msg.len(),
        block.len() == 64,
        msg.subrange(at, at + 64) == block,
        n <= 64,
    ensures
        steps(s, msg, at, n) == steps(s, block, 0, n),
    decreases n,
{
    if n > 0 {
        lemma_steps_moved(s, msg, at, block, (n - 1) as nat);
        let g = word_index(n - 1);
        assert(0 <= g < 16);
        let a = msg.skip(at + 4 * g);
        let b = block.skip(4 * g);
        let part = msg.subrange(at, at + 64);
        assert(a[0] == part[4 * g] && b[0] == block[4 * g]);
        assert(a[1] == part[4 * g + 1] && b[1] == block[4 * g + 1]);
        assert(a[2] == part[4 * g + 2] && b[2] == block[4 * g + 2]);
        assert(a[3] == part[4 * g + 3] && b[3] == block[4 * g + 3]);
        assert(block_word(msg, at, g) == block_word(block, 0, g));
    }
}

/// In each of the four rounds of sixteen steps every word of the block is taken
/// in once.
pub proof fn law_md5_takes_in_every_word_in_every_round(i: int, j: int)
    requires
        0 <= i < 64,
        0 <= j < 64,
        i / 16 == j / 16,
    ensures
        0 <= word_index(i) < 16,
        word_index(i) == word_index(j) <==> i == j,
{
}

/// How the rounds mix: the first takes each bit from the second word or the third
/// as the first says, the next as the third says, the third is the parity of all
/// three, and the last is what RFC 1321 calls I.
pub proof fn law_md5_mixing(b: u32, c: u32, d: u32, i: int)
    ensures
        0 <= i < 16 ==> mix(i, b, c, d) & b == c & b && mix(i, b, c, d) & !b == d & !b,
        16 <= i < 32 ==> mix(i, b, c, d) & d == b & d && mix(i, b, c, d) & !d == c & !d,
        32 <= i < 48 ==> mix(i, b, c, d) ^ b ^ c ^ d == 0,
        48 <= i < 64 ==> mix(i, b, c, d) ^ c == b | !d,
{
    let f = (b & c) | (!b & d);
    let g = (d & b) | (!d & c);
    let h = b ^ c ^ d;
    let k = c ^ (b | !d);
    assert(f & b == c & b && f & !b == d & !b) by (bit_vector)
        requires
            f == (b & c) | (!b & d),
    ;
    assert(g & d == b & d && g & !d == c & !d) by (bit_vector)
        requires
            g == (d & b) | (!d & c),
    ;
    assert(h ^ b ^ c ^ d == 0) by (bit_vector)
        requires
            h == b ^ c ^ d,
    ;
    assert(k ^ c == b | !d) by (bit_vector)
        requires
            k == c ^ (b | !d),
    ;
}

/// The bytes behind the last whole word count as a word that zeros fill up.
pub proof fn law_murmur3_fills_up_the_last_word(tail: Seq<u8>, zeros: Seq<u8>)
    requires
        tail.len() < 4,
        tail.len() + zeros.len() == 4,
        forall|i: int| 0 <= i < zeros.len() ==> #[trigger] zeros[i] == 0,
    ensures
        murmur_tail(tail) == le32(tail + zeros),
        murmur_tail(tail) == little_endian(tail + zeros),
        tail.len() == 0 ==> murmur_tail(tail) == 0,
{
    let word = tail + zeros;
    let n = tail.len();
    assert(n < 1 ==> word[0] == zeros[0 - n]);
    assert(n < 2 ==> word[1] == zeros[1 - n]);
    assert(n < 3 ==> word[2] == zeros[2 - n]);
    assert(word[3] == zeros[3 - n]);
    law_integers_are_read_little_endian(word);
    assert(word.take(4) =~= word);
}

/// What MurmurHash3 makes of a word, in arithmetic modulo 2^32.
pub proof fn law_murmur3_mixing_of_a_word(k: u32)
    ensures
        ({
            let a = (k * 0xcc9e2d51int) % 0x1_0000_0000;
            let r = (0x8000 * a) % 0x1_0000_0000 + a / 0x2_0000;
            murmur_scramble(k) == (r * 0x1b873593) % 0x1_0000_0000
        }),
{
    let a = product32(k, 0xcc9e2d51);
    law_word_arithmetic(k, 0xcc9e2d51);
    law_word_arithmetic(a, 0);
    law_word_arithmetic(rotated32(a, 15), 0x1b873593);
}

/// What MurmurHash3 makes of a state and a word.
pub proof fn law_murmur3_mixing_of_a_state(h: u32, k: u32, x: u32, r: u32)
    requires
        x == h ^ murmur_scramble(k),
        r == (0x2000 * x) % 0x1_0000_0000 + x / 0x8_0000,
    ensures
        murmur_block(h, k) == ((5 * r) % 0x1_0000_0000 + 0xe6546b64int) % 0x1_0000_0000,
{
    law_word_arithmetic(x, 0);
    assert(r == rotated32(x, 13));
    law_word_arithmetic(r, 5);
    law_word_arithmetic(product32(r, 5), 0xe6546b64);
}

/// What MurmurHash3 makes of the last state.
pub proof fn law_murmur3_mixing_of_the_last_state(h: u32)
    ensures
        ({
            let a = product32(h ^ (h / 0x1_0000), 0x85ebca6b);
            let b = product32(a ^ (a / 0x2000), 0xc2b2ae35);
            murmur_finish(h) == b ^ (b / 0x1_0000)
        }),
{
    assert(h >> 16u32 == h / 0x1_0000) by (bit_vector);
    let h1 = product32(h ^ (h >> 16u32), 0x85ebca6b);
    assert(h1 >> 13u32 == h1 / 0x2000) by (bit_vector);
    let h2 = product32(h1 ^ (h1 >> 13u32), 0xc2b2ae35);
    assert(h2 >> 16u32 == h2 / 0x1_0000) by (bit_vector);
}

/// MurmurHash3 takes in the whole words, then the bytes behind them where there are
/// any, then the number of bytes, whatever that is.
pub proof fn law_murmur3_takes_in_words_tail_and_length(
    whole: Seq<u8>,
    tail: Seq<u8>,
    seed: u32,
    n: nat,
)
    requires
        whole.len() == 4 * n,
        tail.len() < 4,
    ensures
        ({
            let h = murmur_blocks(whole, seed, n);
            let len = ((whole.len() + tail.len()) % 0x1_0000_0000) as u32;
            &&& tail.len() == 0 ==> murmur3(whole + tail, seed) == murmur_finish(h ^ len)
            &&& tail.len() > 0 ==> murmur3(whole + tail, seed) == murmur_finish(
                h ^ murmur_scramble(murmur_tail(tail)) ^ len,
            )
        }),
{
    lemma_blocks_prefix(whole, tail, seed, n);
    assert((whole + tail).len() / 4 == n);
    assert((whole + tail).skip(4 * n as int) =~= tail);
}

} // verus!
