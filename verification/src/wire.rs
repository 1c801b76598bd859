//! Byte buffers: little-endian integers, the cursor that payloads are read
//! from and the growable buffer that payloads are written to.
use bytes::{Buf, BufMut, BytesMut};
use vstd::prelude::*;
use vstd::slice::slice_subrange;
use vstd::utf8::{decode_utf8, valid_utf8};

verus! {

// ---------------------------------------------------------------------------
// Little-endian integers
// ---------------------------------------------------------------------------

/// The unsigned integer whose two little-endian bytes start `s`.
pub open spec fn le16(s: Seq<u8>) -> int {
    s[0] + 0x100 * s[1]
}

/// The unsigned integer whose four little-endian bytes start `s`.
pub open spec fn le32(s: Seq<u8>) -> int {
    s[0] + 0x100 * s[1] + 0x1_0000 * s[2] + 0x100_0000 * s[3]
}

/// The unsigned integer whose eight little-endian bytes start `s`.
pub open spec fn le64(s: Seq<u8>) -> int {
    le32(s) + 0x1_0000_0000 * le32(s.skip(4))
}

/// The two low bytes of `v`, least significant first.
#[verifier::opaque]
pub open spec fn le16_bytes(v: int) -> Seq<u8> {
    seq![(v % 0x100) as u8, (v / 0x100 % 0x100) as u8]
}

/// The four low bytes of `v`, least significant first.
#[verifier::opaque]
pub open spec fn le32_bytes(v: int) -> Seq<u8> {
    seq![
        (v % 0x100) as u8,
        (v / 0x100 % 0x100) as u8,
        (v / 0x1_0000 % 0x100) as u8,
        (v / 0x100_0000 % 0x100) as u8,
    ]
}

/// The eight low bytes of `v`, least significant first.
#[verifier::opaque]
pub open spec fn le64_bytes(v: int) -> Seq<u8> {
    le32_bytes(v % 0x1_0000_0000) + le32_bytes(v / 0x1_0000_0000)
}

/// Integers are written in a fixed number of bytes.
pub broadcast proof fn lemma_le16_bytes_len(v: int)
    ensures
        #[trigger] le16_bytes(v).len() == 2,
{
    reveal(le16_bytes);
}

/// Integers are written in a fixed number of bytes.
pub broadcast proof fn lemma_le32_bytes_len(v: int)
    ensures
        #[trigger] le32_bytes(v).len() == 4,
{
    reveal(le32_bytes);
}

/// Integers are written in a fixed number of bytes.
pub broadcast proof fn lemma_le64_bytes_len(v: int)
    ensures
        #[trigger] le64_bytes(v).len() == 8,
{
    broadcast use lemma_le32_bytes_len;

    reveal(le64_bytes);
}

pub broadcast group group_le_lengths {
    lemma_le16_bytes_len,
    lemma_le32_bytes_len,
    lemma_le64_bytes_len,
}

/// Reading the two bytes of a 16-bit value gives the value back, whatever
/// bytes follow.
pub proof fn lemma_le16_of_bytes(v: int, rest: Seq<u8>)
    requires
        0 <= v < 0x1_0000,
    ensures
        le16(le16_bytes(v) + rest) == v,
{
    reveal(le16_bytes);
    let s = le16_bytes(v) + rest;
    assert(s[0] == (v % 0x100) as u8 && s[1] == (v / 0x100 % 0x100) as u8);
}

/// Reading the four bytes of a 32-bit value gives the value back, whatever
/// bytes follow.
pub proof fn lemma_le32_of_bytes(v: int, rest: Seq<u8>)
    requires
        0 <= v < 0x1_0000_0000,
    ensures
        le32(le32_bytes(v) + rest) == v,
{
    reveal(le32_bytes);
    let s = le32_bytes(v) + rest;
    assert(s[0] == (v % 0x100) as u8 && s[1] == (v / 0x100 % 0x100) as u8);
    assert(s[2] == (v / 0x1_0000 % 0x100) as u8 && s[3] == (v / 0x100_0000 % 0x100) as u8);
}

/// Reading the eight bytes of a 64-bit value gives the value back, whatever
/// bytes follow.
pub proof fn lemma_le64_of_bytes(v: int, rest: Seq<u8>)
    requires
        0 <= v < 0x1_0000_0000_0000_0000,
    ensures
        le64(le64_bytes(v) + rest) == v,
{
    broadcast use lemma_le32_bytes_len;

    reveal(le64_bytes);
    let low = le32_bytes(v % 0x1_0000_0000);
    let high = le32_bytes(v / 0x1_0000_0000);
    lemma_le32_of_bytes(v % 0x1_0000_0000, high + rest);
    lemma_le32_of_bytes(v / 0x1_0000_0000, rest);
    assert(le64_bytes(v) + rest =~= low + (high + rest));
    assert((low + (high + rest)).skip(4) =~= high + rest);
}

proof fn lemma_four_digits(a: int, b: int, c: int, d: int, v: int)
    requires
        0 <= a < 0x100,
        0 <= b < 0x100,
        0 <= c < 0x100,
        0 <= d < 0x100,
        v == a + 0x100 * b + 0x1_0000 * c + 0x100_0000 * d,
    ensures
        v % 0x100 == a,
        v / 0x100 % 0x100 == b,
        v / 0x1_0000 % 0x100 == c,
        v / 0x100_0000 % 0x100 == d,
{
    assert(v / 0x100 == b + 0x100 * c + 0x1_0000 * d);
    assert(v / 0x1_0000 == c + 0x100 * d);
    assert(v / 0x100_0000 == d);
}

/// Writing the value of two bytes gives the bytes back.
pub proof fn lemma_bytes_of_le16(s: Seq<u8>)
    requires
        s.len() >= 2,
    ensures
        le16_bytes(le16(s)) == s.take(2),
        0 <= le16(s) < 0x1_0000,
{
    reveal(le16_bytes);
    let v = le16(s);
    assert(v / 0x100 == s[1]);
    assert(le16_bytes(v) =~= s.take(2));
}

/// Writing the value of four bytes gives the bytes back.
pub proof fn lemma_bytes_of_le32(s: Seq<u8>)
    requires
        s.len() >= 4,
    ensures
        le32_bytes(le32(s)) == s.take(4),
        0 <= le32(s) < 0x1_0000_0000,
{
    reveal(le32_bytes);
    lemma_four_digits(s[0] as int, s[1] as int, s[2] as int, s[3] as int, le32(s));
    assert(le32_bytes(le32(s)) =~= s.take(4));
}

proof fn lemma_two_halves(low: int, high: int)
    requires
        0 <= low < 0x1_0000_0000,
        0 <= high < 0x1_0000_0000,
    ensures
        (low + 0x1_0000_0000 * high) % 0x1_0000_0000 == low,
        (low + 0x1_0000_0000 * high) / 0x1_0000_0000 == high,
        0 <= low + 0x1_0000_0000 * high < 0x1_0000_0000_0000_0000,
{
}

/// Writing the value of eight bytes gives the bytes back.
pub proof fn lemma_bytes_of_le64(s: Seq<u8>)
    requires
        s.len() >= 8,
    ensures
        le64_bytes(le64(s)) == s.take(8),
        0 <= le64(s) < 0x1_0000_0000_0000_0000,
{
    reveal(le64_bytes);
    lemma_bytes_of_le32(s);
    lemma_bytes_of_le32(s.skip(4));
    lemma_two_halves(le32(s), le32(s.skip(4)));
    assert(s.take(4) + s.skip(4).take(4) =~= s.take(8));
}

/// Reads the little-endian 32-bit integer that starts at index `at`.
pub fn u32_le_at(data: &[u8], at: usize) -> (n: u32)
    requires
        at + 4 <= data@.len(),
    ensures
        n == le32(data@.skip(at as int)),
{
    let ghost s = data@.skip(at as int);
    assert(s[0] == data@[at as int] && s[1] == data@[at + 1]);
    assert(s[2] == data@[at + 2] && s[3] == data@[at + 3]);
    data[at] as u32 + 0x100 * (data[at + 1] as u32) + 0x1_0000 * (data[at + 2] as u32) + 0x100_0000
        * (data[at + 3] as u32)
}

/// The four little-endian bytes of `v`.
pub fn u32_le_array(v: u32) -> (bytes: [u8; 4])
    ensures
        bytes@ == le32_bytes(v as int),
{
    let bytes: [u8; 4] = [
        (v % 0x100) as u8,
        (v / 0x100 % 0x100) as u8,
        (v / 0x1_0000 % 0x100) as u8,
        (v / 0x100_0000 % 0x100) as u8,
    ];
    proof {
        reveal(le32_bytes);
    }
    assert(bytes@ =~= le32_bytes(v as int));
    bytes
}

/// The eight little-endian bytes of `v`.
pub fn u64_le_array(v: u64) -> (bytes: [u8; 8])
    ensures
        bytes@ == le64_bytes(v as int),
{
    broadcast use lemma_le32_bytes_len;

    let low: [u8; 4] = u32_le_array((v % 0x1_0000_0000) as u32);
    let high: [u8; 4] = u32_le_array((v / 0x1_0000_0000) as u32);
    let bytes: [u8; 8] = [
        low[0], low[1], low[2], low[3], high[0], high[1], high[2], high[3],
    ];
    proof {
        reveal(le64_bytes);
    }
    assert(bytes@ =~= le64_bytes(v as int));
    bytes
}

// ---------------------------------------------------------------------------
// Sequences of encoded items
// ---------------------------------------------------------------------------

/// The bytes of all parts, one part after the other.
pub open spec fn concat(parts: Seq<Seq<u8>>) -> Seq<u8>
    decreases parts.len(),
{
    if parts.len() == 0 {
        seq![]
    } else {
        parts[0] + concat(parts.drop_first())
    }
}

/// Joining two lists of parts joins their bytes.
pub proof fn lemma_concat_join(a: Seq<Seq<u8>>, b: Seq<Seq<u8>>)
    ensures
        concat(a + b) == concat(a) + concat(b),
    decreases a.len(),
{
    if a.len() == 0 {
        assert(a + b =~= b);
    } else {
        lemma_concat_join(a.drop_first(), b);
        assert((a + b).drop_first() =~= a.drop_first() + b);
    }
    assert(concat(a + b) =~= concat(a) + concat(b));
}

/// The bytes of the first `n` parts, then those of the part after them, start
/// the bytes of all parts.
pub proof fn lemma_concat_step(parts: Seq<Seq<u8>>, n: int)
    requires
        0 <= n < parts.len(),
    ensures
        concat(parts.take(n + 1)) == concat(parts.take(n)) + parts[n],
        concat(parts.take(n + 1)).len() <= concat(parts).len(),
{
    assert(parts.take(n + 1) =~= parts.take(n) + seq![parts[n]]);
    assert(seq![parts[n]].drop_first() =~= Seq::<Seq<u8>>::empty());
    assert(concat(seq![parts[n]]) =~= parts[n] + concat(Seq::<Seq<u8>>::empty()));
    assert(concat(seq![parts[n]]) =~= parts[n]);
    lemma_concat_join(parts.take(n), seq![parts[n]]);
    assert(parts =~= parts.take(n + 1) + parts.skip(n + 1));
    lemma_concat_join(parts.take(n + 1), parts.skip(n + 1));
}

// ---------------------------------------------------------------------------
// Reading: a byte slice as a cursor
// ---------------------------------------------------------------------------

/// Calls `Buf::get_u8` on a byte slice: the first byte is read and the slice
/// moves past it.
#[verifier::external_body]
pub(crate) fn get_u8(buf: &mut &[u8]) -> (n: u8)
    requires
        old(buf)@.len() >= 1,
    ensures
        n == old(buf)@[0],
        final(buf)@ == old(buf)@.skip(1),
{
    buf.get_u8()
}

/// Calls `Buf::get_u16_le` on a byte slice: the first two bytes are read as a
/// little-endian integer and the slice moves past them.
#[verifier::external_body]
pub(crate) fn get_u16_le(buf: &mut &[u8]) -> (n: u16)
    requires
        old(buf)@.len() >= 2,
    ensures
        n == le16(old(buf)@),
        final(buf)@ == old(buf)@.skip(2),
{
    buf.get_u16_le()
}

/// Calls `Buf::get_u32_le` on a byte slice: the first four bytes are read as
/// a little-endian integer and the slice moves past them.
#[verifier::external_body]
pub(crate) fn get_u32_le(buf: &mut &[u8]) -> (n: u32)
    requires
        old(buf)@.len() >= 4,
    ensures
        n == le32(old(buf)@),
        final(buf)@ == old(buf)@.skip(4),
{
    buf.get_u32_le()
}

/// Calls `Buf::get_u64_le` on a byte slice: the first eight bytes are read as
/// a little-endian integer and the slice moves past them.
#[verifier::external_body]
pub(crate) fn get_u64_le(buf: &mut &[u8]) -> (n: u64)
    requires
        old(buf)@.len() >= 8,
    ensures
        n == le64(old(buf)@),
        final(buf)@ == old(buf)@.skip(8),
{
    buf.get_u64_le()
}

/// Calls `Buf::advance` on a byte slice: the slice moves past its first `cnt`
/// bytes.
#[verifier::external_body]
pub(crate) fn advance(buf: &mut &[u8], cnt: usize)
    requires
        old(buf)@.len() >= cnt,
    ensures
        final(buf)@ == old(buf)@.skip(cnt as int),
{
    buf.advance(cnt);
}

/// The text of the error that decoding `bytes` as UTF-8 ends in.
pub uninterp spec fn utf8_error_text(bytes: Seq<u8>) -> Seq<char>;

/// Calls `std::str::from_utf8`: bytes that are valid UTF-8 are the string that
/// they encode, and any others are refused with an error, handed on as its
/// text.
#[verifier::external_body]
pub(crate) fn str_from_utf8(bytes: &[u8]) -> (r: Result<&str, String>)
    ensures
        match r {
            Ok(s) => valid_utf8(bytes@) && s@ == decode_utf8(bytes@),
            Err(text) => !valid_utf8(bytes@) && text@ == utf8_error_text(bytes@),
        },
{
    std::str::from_utf8(bytes).map_err(|e| e.to_string())
}

// ---------------------------------------------------------------------------
// Writing: a growable buffer
// ---------------------------------------------------------------------------

/// Declares the growable byte buffer of the `bytes` crate.
#[verifier::external_type_specification]
#[verifier::external_body]
pub struct ExBytesMut(BytesMut);

/// The bytes that a buffer holds, in order.
pub uninterp spec fn contents(buf: BytesMut) -> Seq<u8>;

/// The number of bytes that a buffer can always be grown to hold.
///
/// An allocation is at most `isize::MAX` bytes long, and a buffer that has to
/// grow may ask for twice its capacity.
pub open spec fn buffer_limit() -> int {
    isize::MAX as int / 2
}

/// Calls `BytesMut::new`: the new buffer is empty.
#[verifier::external_body]
pub(crate) fn new_buffer() -> (buf: BytesMut)
    ensures
        contents(buf) == Seq::<u8>::empty(),
{
    BytesMut::new()
}

/// Calls `BufMut::put_u8` on a `BytesMut`: the byte is appended.
#[verifier::external_body]
pub(crate) fn put_u8(buf: &mut BytesMut, n: u8)
    requires
        contents(*old(buf)).len() + 1 <= buffer_limit(),
    ensures
        contents(*final(buf)) == contents(*old(buf)) + seq![n],
{
    buf.put_u8(n);
}

/// Calls `BufMut::put_u16_le` on a `BytesMut`: the two bytes of the integer
/// are appended, least significant first.
#[verifier::external_body]
pub(crate) fn put_u16_le(buf: &mut BytesMut, n: u16)
    requires
        contents(*old(buf)).len() + 2 <= buffer_limit(),
    ensures
        contents(*final(buf)) == contents(*old(buf)) + le16_bytes(n as int),
{
    buf.put_u16_le(n);
}

/// Calls `BufMut::put_u32_le` on a `BytesMut`: the four bytes of the integer
/// are appended, least significant first.
#[verifier::external_body]
pub(crate) fn put_u32_le(buf: &mut BytesMut, n: u32)
    requires
        contents(*old(buf)).len() + 4 <= buffer_limit(),
    ensures
        contents(*final(buf)) == contents(*old(buf)) + le32_bytes(n as int),
{
    buf.put_u32_le(n);
}

/// Calls `BufMut::put_u64_le` on a `BytesMut`: the eight bytes of the integer
/// are appended, least significant first.
#[verifier::external_body]
pub(crate) fn put_u64_le(buf: &mut BytesMut, n: u64)
    requires
        contents(*old(buf)).len() + 8 <= buffer_limit(),
    ensures
        contents(*final(buf)) == contents(*old(buf)) + le64_bytes(n as int),
{
    buf.put_u64_le(n);
}

/// Calls `BufMut::put_slice` on a `BytesMut`: the bytes are appended.
#[verifier::external_body]
pub(crate) fn put_slice(buf: &mut BytesMut, src: &[u8])
    requires
        contents(*old(buf)).len() + src@.len() <= buffer_limit(),
    ensures
        contents(*final(buf)) == contents(*old(buf)) + src@,
{
    buf.put_slice(src);
}

/// Calls `BytesMut::deref`: the slice holds the bytes of the buffer.
#[verifier::external_body]
pub(crate) fn as_slice(buf: &BytesMut) -> (slice: &[u8])
    ensures
        slice@ == contents(*buf),
{
    buf
}

/// The number that a length becomes when it is written in 32 bits.
pub fn low_u32(n: usize) -> (low: u32)
    ensures
        low == n as int % 0x1_0000_0000,
{
    let wide: u64 = n as u64;
    let low: u32 = #[verifier::truncate] (wide as u32);
    assert(low == wide % 0x1_0000_0000) by (bit_vector)
        requires
            low == wide as u32,
    ;
    low
}

/// The number that a count becomes when it is written in one byte.
pub fn low_u8(n: usize) -> (low: u8)
    ensures
        low == n as int % 0x100,
{
    let wide: u64 = n as u64;
    let low: u8 = #[verifier::truncate] (wide as u8);
    assert(low == wide % 0x100) by (bit_vector)
        requires
            low == wide as u8,
    ;
    low
}

/// The bytes of a slice from index `from` on.
pub fn slice_from(data: &[u8], from: usize) -> (rest: &[u8])
    requires
        from <= data@.len(),
    ensures
        rest@ == data@.skip(from as int),
{
    slice_subrange(data, from, data.len())
}

} // verus!
