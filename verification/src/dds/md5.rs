//! MD5 (RFC 1321).
use vstd::prelude::*;

use crate::dds::hash::{add32, rotate32, rotated32, sum32};
use crate::wire::{le32, le32_bytes, le64_bytes, u32_le_array, u32_le_at, u64_le_array};

verus! {

broadcast use crate::wire::group_le_lengths;

/// The number of bits that each step rotates by.
pub const SHIFTS: [u32; 64] = [
    7, 12, 17, 22, 7, 12, 17, 22, 7, 12, 17, 22, 7, 12, 17, 22,
    5, 9, 14, 20, 5, 9, 14, 20, 5, 9, 14, 20, 5, 9, 14, 20,
    4, 11, 16, 23, 4, 11, 16, 23, 4, 11, 16, 23, 4, 11, 16, 23,
    6, 10, 15, 21, 6, 10, 15, 21, 6, 10, 15, 21, 6, 10, 15, 21,
];

/// The constant that each step adds.
pub const SINES: [u32; 64] = [
    0xd76aa478, 0xe8c7b756, 0x242070db, 0xc1bdceee,
    0xf57c0faf, 0x4787c62a, 0xa8304613, 0xfd469501,
    0x698098d8, 0x8b44f7af, 0xffff5bb1, 0x895cd7be,
    0x6b901122, 0xfd987193, 0xa679438e, 0x49b40821,
    0xf61e2562, 0xc040b340, 0x265e5a51, 0xe9b6c7aa,
    0xd62f105d, 0x02441453, 0xd8a1e681, 0xe7d3fbc8,
    0x21e1cde6, 0xc33707d6, 0xf4d50d87, 0x455a14ed,
    0xa9e3e905, 0xfcefa3f8, 0x676f02d9, 0x8d2a4c8a,
    0xfffa3942, 0x8771f681, 0x6d9d6122, 0xfde5380c,
    0xa4beea44, 0x4bdecfa9, 0xf6bb4b60, 0xbebfbc70,
    0x289b7ec6, 0xeaa127fa, 0xd4ef3085, 0x04881d05,
    0xd9d4d039, 0xe6db99e5, 0x1fa27cf8, 0xc4ac5665,
    0xf4292244, 0x432aff97, 0xab9423a7, 0xfc93a039,
    0x655b59c3, 0x8f0ccc92, 0xffeff47d, 0x85845dd1,
    0x6fa87e4f, 0xfe2ce6e0, 0xa3014314, 0x4e0811a1,
    0xf7537e82, 0xbd3af235, 0x2ad7d2bb, 0xeb86d391,
];

/// The four words that the digest is built up in.
#[derive(Debug, Clone, Copy, PartialEq, Eq, Structural)]
pub struct State {
    pub a: u32,
    pub b: u32,
    pub c: u32,
    pub d: u32,
}

/// The state before the first block.
pub open spec fn initial_state() -> State {
    State { a: 0x67452301, b: 0xefcdab89, c: 0x98badcfe, d: 0x10325476 }
}

/// The number of zero bytes between the end mark and the length.
pub open spec fn padding_zeros(len: nat) -> nat {
    ((55 - len as int) % 64) as nat
}

/// The message as it is hashed: its bytes, the byte 0x80, zeros up to eight
/// bytes below a multiple of 64, and the length in bits in eight bytes.
pub open spec fn padded(data: Seq<u8>) -> Seq<u8> {
    data + seq![0x80u8] + Seq::new(padding_zeros(data.len()), |i: int| 0u8) + le64_bytes(
        8 * data.len() as int % 0x1_0000_0000_0000_0000,
    )
}

/// How step `i` mixes three words.
pub open spec fn mix(i: int, b: u32, c: u32, d: u32) -> u32 {
    if i < 16 {
        (b & c) | (!b & d)
    } else if i < 32 {
        (d & b) | (!d & c)
    } else if i < 48 {
        b ^ c ^ d
    } else {
        c ^ (b | !d)
    }
}

/// The word of the block that step `i` takes in.
pub open spec fn word_index(i: int) -> int {
    if i < 16 {
        i
    } else if i < 32 {
        (5 * i + 1) % 16
    } else if i < 48 {
        (3 * i + 5) % 16
    } else {
        7 * i % 16
    }
}

/// The word at index `g` of the block that starts at `at`.
pub open spec fn block_word(msg: Seq<u8>, at: int, g: int) -> u32 {
    le32(msg.skip(at + 4 * g)) as u32
}

/// The state after step `i` on the block that starts at `at`.
pub open spec fn step(s: State, msg: Seq<u8>, at: int, i: int) -> State {
    let f = sum32(
        sum32(sum32(mix(i, s.b, s.c, s.d), s.a), SINES[i]),
        block_word(msg, at, word_index(i)),
    );
    State { a: s.d, b: sum32(s.b, rotated32(f, SHIFTS[i])), c: s.b, d: s.c }
}

/// The state after the first `n` steps on the block that starts at `at`.
pub open spec fn steps(s: State, msg: Seq<u8>, at: int, n: nat) -> State
    decreases n,
{
    if n == 0 {
        s
    } else {
        step(steps(s, msg, at, (n - 1) as nat), msg, at, n - 1)
    }
}

/// The state after the block that starts at `at`.
pub open spec fn digest_block(s: State, msg: Seq<u8>, at: int) -> State {
    let t = steps(s, msg, at, 64);
    State { a: sum32(s.a, t.a), b: sum32(s.b, t.b), c: sum32(s.c, t.c), d: sum32(s.d, t.d) }
}

/// The state after the first `n` blocks of the message.
pub open spec fn digest_blocks(msg: Seq<u8>, n: nat) -> State
    decreases n,
{
    if n == 0 {
        initial_state()
    } else {
        digest_block(digest_blocks(msg, (n - 1) as nat), msg, 64 * (n - 1))
    }
}

/// The MD5 digest of `data`.
pub open spec fn md5(data: Seq<u8>) -> Seq<u8> {
    let msg = padded(data);
    let s = digest_blocks(msg, msg.len() / 64);
    le32_bytes(s.a as int) + le32_bytes(s.b as int) + le32_bytes(s.c as int) + le32_bytes(
        s.d as int,
    )
}

proof fn lemma_shift_range(i: int)
    requires
        0 <= i < 64,
    ensures
        0 < SHIFTS[i] < 32,
{
}

proof fn lemma_word_index_range(i: int)
    requires
        0 <= i < 64,
    ensures
        0 <= word_index(i) < 16,
{
}

/// Runs one step.
fn run_step(s: State, msg: &[u8], at: usize, i: usize) -> (t: State)
    requires
        i < 64,
        at + 64 <= msg@.len(),
    ensures
        t == step(s, msg@, at as int, i as int),
{
    let mixed: u32 = if i < 16 {
        (s.b & s.c) | (!s.b & s.d)
    } else if i < 32 {
        (s.d & s.b) | (!s.d & s.c)
    } else if i < 48 {
        s.b ^ s.c ^ s.d
    } else {
        s.c ^ (s.b | !s.d)
    };
    let g: usize = if i < 16 {
        i
    } else if i < 32 {
        (5 * i + 1) % 16
    } else if i < 48 {
        (3 * i + 5) % 16
    } else {
        7 * i % 16
    };
    let sine: u32 = SINES[i];
    let shift: u32 = SHIFTS[i];
    proof {
        lemma_shift_range(i as int);
        lemma_word_index_range(i as int);
        assert(msg.len() == msg@.len());
    }
    let f: u32 = add32(add32(add32(mixed, s.a), sine), u32_le_at(msg, at + 4 * g));
    State { a: s.d, b: add32(s.b, rotate32(f, shift)), c: s.b, d: s.c }
}

/// Takes in one block.
fn run_block(s: State, msg: &[u8], at: usize) -> (t: State)
    requires
        at + 64 <= msg@.len(),
    ensures
        t == digest_block(s, msg@, at as int),
{
    let mut t: State = s;
    let mut i: usize = 0;
    while i < 64
        invariant
            i <= 64,
            at + 64 <= msg@.len(),
            t == steps(s, msg@, at as int, i as nat),
        decreases 64 - i,
    {
        t = run_step(t, msg, at, i);
        i = i + 1;
    }
    State { a: add32(s.a, t.a), b: add32(s.b, t.b), c: add32(s.c, t.c), d: add32(s.d, t.d) }
}

/// Pads a message.
fn pad(data: &[u8]) -> (msg: Vec<u8>)
    ensures
        msg@ == padded(data@),
        msg@.len() % 64 == 0,
{
    let zeros: usize = (119 - data.len() % 64) % 64;
    assert(zeros == padding_zeros(data@.len()));
    let bits: u64 = (data.len() as u64).wrapping_mul(8);
    let mut msg: Vec<u8> = Vec::new();
    msg.extend_from_slice(data);
    msg.push(0x80);
    let ghost head = msg@;
    let mut i: usize = 0;
    while i < zeros
        invariant
            i <= zeros,
            msg@ == head + Seq::new(i as nat, |j: int| 0u8),
        decreases zeros - i,
    {
        msg.push(0);
        i = i + 1;
        assert(msg@ =~= head + Seq::new(i as nat, |j: int| 0u8));
    }
    let length: [u8; 8] = u64_le_array(bits);
    msg.extend_from_slice(&length);
    assert(head =~= data@ + seq![0x80u8]);
    assert(msg@ =~= padded(data@));
    assert(msg@.len() == data@.len() + 1 + zeros + 8);
    msg
}

/// Compute MD5 hash (for keyhash of keys > 16 bytes).
pub fn md5_hash(data: &[u8]) -> (digest: [u8; 16])
    ensures
        digest@ == md5(data@),
{
    let msg = pad(data);
    let blocks: usize = msg.len() / 64;
    let mut s: State = State { a: 0x67452301, b: 0xefcdab89, c: 0x98badcfe, d: 0x10325476 };
    let mut n: usize = 0;
    while n < blocks
        invariant
            n <= blocks,
            blocks == msg@.len() / 64,
            64 * blocks <= usize::MAX,
            s == digest_blocks(msg@, n as nat),
        decreases blocks - n,
    {
        s = run_block(s, msg.as_slice(), 64 * n);
        n = n + 1;
    }
    let a: [u8; 4] = u32_le_array(s.a);
    let b: [u8; 4] = u32_le_array(s.b);
    let c: [u8; 4] = u32_le_array(s.c);
    let d: [u8; 4] = u32_le_array(s.d);
    let digest: [u8; 16] = [
        a[0], a[1], a[2], a[3], b[0], b[1], b[2], b[3],
        c[0], c[1], c[2], c[3], d[0], d[1], d[2], d[3],
    ];
    assert(digest@ =~= md5(data@));
    digest
}

} // verus!
