//! The building blocks of payloads: booleans, strings and key descriptors.
use bytes::BytesMut;
use vstd::prelude::*;
use vstd::slice::slice_subrange;
use vstd::string::*;
use vstd::utf8::{decode_utf8, decode_utf8_encode_utf8, encode_utf8, encode_utf8_decode_utf8,
    encode_utf8_valid_utf8, valid_utf8};

use crate::protocol::error::{result_view, ProtocolError, ProtocolErrorView};
use crate::wire::{
    advance, buffer_limit, concat, contents, get_u32_le, get_u8, le32, le32_bytes,
    lemma_bytes_of_le32, lemma_concat_step, lemma_le32_of_bytes, low_u32, low_u8, put_slice,
    put_u32_le, put_u8, str_from_utf8, utf8_error_text,
};

verus! {

broadcast use crate::wire::group_le_lengths;

/// Defense-in-depth limit for individual string fields: 1 MiB.
/// Prevents multi-GB allocation if parse functions are called
/// without prior header validation.
pub const MAX_STRING_LENGTH: usize = 1024 * 1024;

/// What reading from a byte sequence gives: a value or an error, and the bytes
/// that are left.
pub type Reading<T> = (Result<T, ProtocolErrorView>, Seq<u8>);

/// The error of a read that needs `expected` bytes and finds only those of `s`.
pub open spec fn truncated<T>(expected: int, s: Seq<u8>) -> Reading<T> {
    (Err(ProtocolErrorView::Truncated { expected, got: s.len() as int }), s)
}

/// A reading of a list with `head` put in front of what was read.
pub open spec fn prepend<T>(head: Seq<T>, tail: Reading<Seq<T>>) -> Reading<Seq<T>> {
    match tail {
        (Ok(items), rest) => (Ok(head + items), rest),
        (Err(e), rest) => (Err(e), rest),
    }
}

/// A list read in two parts is the list read at once.
pub proof fn lemma_prepend_prepend<T>(a: Seq<T>, b: Seq<T>, tail: Reading<Seq<T>>)
    ensures
        prepend(a, prepend(b, tail)) == prepend(a + b, tail),
{
    match tail {
        (Ok(items), rest) => {
            assert(a + (b + items) =~= (a + b) + items);
        },
        (Err(e), rest) => {},
    }
}

/// Putting nothing in front of a reading leaves it as it is.
pub proof fn lemma_prepend_empty<T>(tail: Reading<Seq<T>>)
    ensures
        prepend(Seq::<T>::empty(), tail) == tail,
{
    match tail {
        (Ok(items), rest) => {
            assert(Seq::<T>::empty() + items =~= items);
        },
        (Err(e), rest) => {},
    }
}

// ---------------------------------------------------------------------------
// Booleans
// ---------------------------------------------------------------------------

/// A boolean is one byte; every byte but zero stands for `true`.
pub open spec fn spec_read_bool(s: Seq<u8>) -> Reading<bool> {
    if s.len() < 1 {
        truncated(1, s)
    } else {
        (Ok(s[0] != 0), s.skip(1))
    }
}

/// The byte that a boolean is written as.
pub open spec fn bool_byte(b: bool) -> u8 {
    if b {
        1
    } else {
        0
    }
}

/// Reads a boolean.
pub fn read_bool(buf: &mut &[u8]) -> (r: Result<bool, ProtocolError>)
    ensures
        (result_view(r), final(buf)@) == spec_read_bool(old(buf)@),
{
    if buf.len() < 1 {
        return Err(ProtocolError::Truncated { expected: 1, got: 0 });
    }
    Ok(get_u8(buf) != 0)
}

// ---------------------------------------------------------------------------
// Strings
// ---------------------------------------------------------------------------

/// A string is the length of its UTF-8 bytes, in four bytes, and those bytes.
pub open spec fn string_bytes(text: Seq<char>) -> Seq<u8> {
    le32_bytes(encode_utf8(text).len() as int % 0x1_0000_0000) + encode_utf8(text)
}

/// Whether a string is short enough to be read back.
pub open spec fn string_fits(text: Seq<char>) -> bool {
    encode_utf8(text).len() <= MAX_STRING_LENGTH
}

/// What the front of `s` says as a string.
pub open spec fn spec_read_string(s: Seq<u8>) -> Reading<Seq<char>> {
    if s.len() < 4 {
        truncated(4, s)
    } else {
        let n = le32(s);
        let rest = s.skip(4);
        if n > MAX_STRING_LENGTH {
            (
                Err(ProtocolErrorView::StringTooLong { length: n, max: MAX_STRING_LENGTH as int }),
                rest,
            )
        } else if rest.len() < n {
            truncated(n, rest)
        } else if valid_utf8(rest.take(n)) {
            (Ok(decode_utf8(rest.take(n))), rest.skip(n))
        } else {
            (Err(ProtocolErrorView::InvalidUtf8(utf8_error_text(rest.take(n)))), rest)
        }
    }
}

/// Reads a string. On an error the cursor stays behind what was read of the
/// length.
pub fn read_string(buf: &mut &[u8]) -> (r: Result<String, ProtocolError>)
    ensures
        (result_view(r), final(buf)@) == spec_read_string(old(buf)@),
{
    if buf.len() < 4 {
        return Err(ProtocolError::Truncated { expected: 4, got: buf.len() });
    }
    let len: usize = get_u32_le(buf) as usize;
    if len > MAX_STRING_LENGTH {
        return Err(ProtocolError::StringTooLong { length: len, max: MAX_STRING_LENGTH });
    }
    if buf.len() < len {
        return Err(ProtocolError::Truncated { expected: len, got: buf.len() });
    }
    match str_from_utf8(slice_subrange(*buf, 0, len)) {
        Ok(s) => {
            let text = s.to_owned();
            advance(buf, len);
            Ok(text)
        },
        Err(text) => Err(ProtocolError::InvalidUtf8(text)),
    }
}

/// Appends a string.
pub fn write_string(buf: &mut BytesMut, s: &str)
    requires
        contents(*old(buf)).len() + string_bytes(s@).len() <= buffer_limit(),
    ensures
        contents(*final(buf)) == contents(*old(buf)) + string_bytes(s@),
{
    let bytes: &[u8] = s.as_bytes();
    put_u32_le(buf, low_u32(bytes.len()));
    put_slice(buf, bytes);
    assert(contents(*buf) =~= contents(*old(buf)) + string_bytes(s@));
}

/// A string of at most 1 MiB that is written is read back, and the cursor
/// stands behind it.
pub proof fn law_string_round_trip(text: Seq<char>, rest: Seq<u8>)
    requires
        string_fits(text),
    ensures
        spec_read_string(string_bytes(text) + rest) == (
            Ok::<Seq<char>, ProtocolErrorView>(text),
            rest,
        ),
{
    let bytes = encode_utf8(text);
    let s = string_bytes(text) + rest;
    lemma_le32_of_bytes(bytes.len() as int, bytes + rest);
    assert(s =~= le32_bytes(bytes.len() as int) + (bytes + rest));
    assert(s.skip(4) =~= bytes + rest);
    assert((bytes + rest).take(bytes.len() as int) =~= bytes);
    assert((bytes + rest).skip(bytes.len() as int) =~= rest);
    encode_utf8_valid_utf8(text);
    encode_utf8_decode_utf8(text);
}

/// Bytes that are read as a string are that string written out, and what is
/// left behind it.
pub proof fn law_string_canonical(s: Seq<u8>, text: Seq<char>, rest: Seq<u8>)
    requires
        spec_read_string(s) == (Ok::<Seq<char>, ProtocolErrorView>(text), rest),
    ensures
        s == string_bytes(text) + rest,
        string_fits(text),
{
    let n = le32(s);
    let body = s.skip(4);
    lemma_bytes_of_le32(s);
    decode_utf8_encode_utf8(body.take(n));
    assert(encode_utf8(text) == body.take(n));
    assert(s =~= string_bytes(text) + rest);
}

/// Refuses bytes that are left when a payload has been read.
pub open spec fn spec_check_no_trailing(s: Seq<u8>) -> Result<(), ProtocolErrorView> {
    if s.len() != 0 {
        Err(ProtocolErrorView::TrailingBytes(s.len() as int))
    } else {
        Ok(())
    }
}

/// Refuses bytes that are left when a payload has been read.
pub fn check_no_trailing(buf: &[u8]) -> (r: Result<(), ProtocolError>)
    ensures
        result_view(r) == spec_check_no_trailing(buf@),
{
    if !buf.is_empty() {
        return Err(ProtocolError::TrailingBytes(buf.len()));
    }
    Ok(())
}

// ---------------------------------------------------------------------------
// Key descriptors
// ---------------------------------------------------------------------------

#[derive(Debug, Clone, Copy, PartialEq, Eq, Structural)]
pub enum KeyTypeHint {
    Opaque,
    Uuid,
    Int32,
    Int64,
    String,
}

impl View for KeyTypeHint {
    type V = KeyTypeHint;

    open spec fn view(&self) -> KeyTypeHint {
        *self
    }
}

impl KeyTypeHint {
    /// The byte that stands for the hint.
    pub open spec fn code(self) -> u8 {
        match self {
            KeyTypeHint::Opaque => 0x00,
            KeyTypeHint::Uuid => 0x01,
            KeyTypeHint::Int32 => 0x02,
            KeyTypeHint::Int64 => 0x03,
            KeyTypeHint::String => 0x04,
        }
    }

    /// The hint that a byte stands for.
    pub open spec fn spec_from_u8(val: u8) -> Result<KeyTypeHint, ProtocolErrorView> {
        if val == 0x00 {
            Ok(KeyTypeHint::Opaque)
        } else if val == 0x01 {
            Ok(KeyTypeHint::Uuid)
        } else if val == 0x02 {
            Ok(KeyTypeHint::Int32)
        } else if val == 0x03 {
            Ok(KeyTypeHint::Int64)
        } else if val == 0x04 {
            Ok(KeyTypeHint::String)
        } else {
            Err(ProtocolErrorView::InvalidKeyTypeHint(val))
        }
    }

    /// Reads a hint off its code.
    pub fn from_u8(val: u8) -> (r: Result<Self, ProtocolError>)
        ensures
            result_view(r) == KeyTypeHint::spec_from_u8(val),
    {
        let hint: KeyTypeHint = match val {
            0x00 => KeyTypeHint::Opaque,
            0x01 => KeyTypeHint::Uuid,
            0x02 => KeyTypeHint::Int32,
            0x03 => KeyTypeHint::Int64,
            0x04 => KeyTypeHint::String,
            _ => {
                return Err(ProtocolError::InvalidKeyTypeHint(val));
            },
        };
        Ok(hint)
    }

    /// The byte that stands for the hint.
    pub fn to_u8(&self) -> (val: u8)
        ensures
            val == self.code(),
    {
        match self {
            KeyTypeHint::Opaque => 0x00,
            KeyTypeHint::Uuid => 0x01,
            KeyTypeHint::Int32 => 0x02,
            KeyTypeHint::Int64 => 0x03,
            KeyTypeHint::String => 0x04,
        }
    }
}

/// A byte stands for a hint if and only if it is the code of that hint.
pub proof fn law_key_type_hint_codes(val: u8, hint: KeyTypeHint)
    ensures
        KeyTypeHint::spec_from_u8(val) == Ok::<KeyTypeHint, ProtocolErrorView>(hint)
            <==> hint.code() == val,
{
}

#[derive(Debug, Clone, Copy, PartialEq, Eq, Structural)]
pub struct KeyField {
    pub offset: u32,
    pub size: u32,
    pub type_hint: KeyTypeHint,
}

#[derive(Debug, PartialEq, Eq)]
pub struct KeyDescriptors {
    pub keys: Vec<KeyField>,
}

impl View for KeyDescriptors {
    type V = Seq<KeyField>;

    open spec fn view(&self) -> Seq<KeyField> {
        self.keys@
    }
}

impl Clone for KeyDescriptors {
    fn clone(&self) -> (copy: Self)
        ensures
            copy@ == self@,
    {
        let mut keys: Vec<KeyField> = Vec::new();
        let mut i: usize = 0;
        while i < self.keys.len()
            invariant
                i <= self.keys@.len(),
                keys@ == self.keys@.take(i as int),
            decreases self.keys@.len() - i,
        {
            keys.push(self.keys[i]);
            i = i + 1;
            assert(keys@ =~= self.keys@.take(i as int));
        }
        assert(keys@ =~= self.keys@);
        KeyDescriptors { keys }
    }
}

/// The nine bytes of a key field.
pub open spec fn key_field_bytes(key: KeyField) -> Seq<u8> {
    le32_bytes(key.offset as int) + le32_bytes(key.size as int) + seq![key.type_hint.code()]
}

/// The bytes of each key field.
pub open spec fn key_field_parts(keys: Seq<KeyField>) -> Seq<Seq<u8>> {
    keys.map_values(|key: KeyField| key_field_bytes(key))
}

/// The number of keys, in one byte, and the key fields.
pub open spec fn key_descriptors_bytes(keys: Seq<KeyField>) -> Seq<u8> {
    seq![(keys.len() as int % 0x100) as u8] + concat(key_field_parts(keys))
}

/// What the front of `s` says as a key field.
pub open spec fn spec_parse_key_field(s: Seq<u8>) -> Reading<KeyField> {
    if s.len() < 9 {
        truncated(9, s)
    } else {
        match KeyTypeHint::spec_from_u8(s[8]) {
            Err(e) => (Err(e), s.skip(9)),
            Ok(type_hint) => (
                Ok(KeyField { offset: le32(s) as u32, size: le32(s.skip(4)) as u32, type_hint }),
                s.skip(9),
            ),
        }
    }
}

/// What the front of `s` says as `count` key fields.
pub open spec fn spec_parse_key_fields(s: Seq<u8>, count: nat) -> Reading<Seq<KeyField>>
    decreases count,
{
    if count == 0 {
        (Ok(seq![]), s)
    } else {
        match spec_parse_key_field(s) {
            (Err(e), rest) => (Err(e), rest),
            (Ok(key), rest) => prepend(
                seq![key],
                spec_parse_key_fields(rest, (count - 1) as nat),
            ),
        }
    }
}

/// What the front of `s` says as key descriptors.
pub open spec fn spec_parse_key_descriptors(s: Seq<u8>) -> Reading<Seq<KeyField>> {
    if s.len() < 1 {
        truncated(1, s)
    } else {
        spec_parse_key_fields(s.skip(1), s[0] as nat)
    }
}

/// Reads key descriptors.
pub fn parse_key_descriptors(buf: &mut &[u8]) -> (r: Result<KeyDescriptors, ProtocolError>)
    ensures
        (result_view(r), final(buf)@) == spec_parse_key_descriptors(old(buf)@),
{
    if buf.len() < 1 {
        return Err(ProtocolError::Truncated { expected: 1, got: 0 });
    }
    let key_count: u8 = get_u8(buf);
    let ghost start = buf@;
    let ghost whole = spec_parse_key_fields(start, key_count as nat);
    let mut keys: Vec<KeyField> = Vec::new();
    let mut i: u8 = 0;
    proof {
        lemma_prepend_empty(whole);
    }
    while i < key_count
        invariant
            i <= key_count,
            whole == prepend(keys@, spec_parse_key_fields(buf@, (key_count - i) as nat)),
            old(buf)@.len() >= 1,
            key_count == old(buf)@[0],
            whole == spec_parse_key_descriptors(old(buf)@),
        decreases key_count - i,
    {
        let ghost before = buf@;
        let ghost left = spec_parse_key_fields(before, (key_count - i) as nat);
        if buf.len() < 9 {
            return Err(ProtocolError::Truncated { expected: 9, got: buf.len() });
        }
        let offset: u32 = get_u32_le(buf);
        let size: u32 = get_u32_le(buf);
        let hint: u8 = get_u8(buf);
        assert(before.skip(4).skip(4) =~= before.skip(8));
        assert(before.skip(8)[0] == before[8]);
        assert(before.skip(8).skip(1) =~= before.skip(9));
        let type_hint = match KeyTypeHint::from_u8(hint) {
            Ok(type_hint) => type_hint,
            Err(e) => {
                return Err(e);
            },
        };
        let key = KeyField { offset, size, type_hint };
        proof {
            let rest = spec_parse_key_fields(buf@, (key_count - i - 1) as nat);
            assert(left == prepend(seq![key], rest));
            lemma_prepend_prepend(keys@, seq![key], rest);
            assert(keys@.push(key) =~= keys@ + seq![key]);
        }
        keys.push(key);
        i = i + 1;
    }
    proof {
        assert(keys@ + Seq::<KeyField>::empty() =~= keys@);
    }
    Ok(KeyDescriptors { keys })
}

/// Appends key descriptors.
pub fn serialize_key_descriptors(kd: &KeyDescriptors, buf: &mut BytesMut)
    requires
        contents(*old(buf)).len() + key_descriptors_bytes(kd@).len() <= buffer_limit(),
    ensures
        contents(*final(buf)) == contents(*old(buf)) + key_descriptors_bytes(kd@),
{
    let ghost parts = key_field_parts(kd@);
    put_u8(buf, low_u8(kd.keys.len()));
    let ghost head = contents(*buf);
    assert(parts.take(0) =~= Seq::<Seq<u8>>::empty());
    assert(head =~= head + concat(parts.take(0)));
    let mut i: usize = 0;
    while i < kd.keys.len()
        invariant
            i <= kd.keys@.len(),
            parts == key_field_parts(kd@),
            head.len() + concat(parts).len() <= buffer_limit(),
            contents(*buf) == head + concat(parts.take(i as int)),
        decreases kd.keys@.len() - i,
    {
        let key: KeyField = kd.keys[i];
        let ghost before = contents(*buf);
        proof {
            lemma_concat_step(parts, i as int);
            assert(parts[i as int] == key_field_bytes(key));
        }
        put_u32_le(buf, key.offset);
        put_u32_le(buf, key.size);
        put_u8(buf, key.type_hint.to_u8());
        i = i + 1;
        assert(contents(*buf) =~= before + key_field_bytes(key));
        assert(contents(*buf) =~= head + concat(parts.take(i as int)));
    }
    assert(parts.take(i as int) =~= parts);
    assert(contents(*buf) =~= contents(*old(buf)) + key_descriptors_bytes(kd@));
}

proof fn lemma_key_field_round_trip(key: KeyField, rest: Seq<u8>)
    ensures
        spec_parse_key_field(key_field_bytes(key) + rest) == (
            Ok::<KeyField, ProtocolErrorView>(key),
            rest,
        ),
{
    let s = key_field_bytes(key) + rest;
    let hint = seq![key.type_hint.code()];
    law_key_type_hint_codes(key.type_hint.code(), key.type_hint);
    lemma_le32_of_bytes(key.offset as int, le32_bytes(key.size as int) + hint + rest);
    lemma_le32_of_bytes(key.size as int, hint + rest);
    assert(s =~= le32_bytes(key.offset as int) + (le32_bytes(key.size as int) + hint + rest));
    assert(s.skip(4) =~= le32_bytes(key.size as int) + (hint + rest));
    assert(s[8] == key.type_hint.code());
    assert(s.skip(9) =~= rest);
}

proof fn lemma_key_fields_round_trip(keys: Seq<KeyField>, rest: Seq<u8>)
    ensures
        spec_parse_key_fields(concat(key_field_parts(keys)) + rest, keys.len()) == (
            Ok::<Seq<KeyField>, ProtocolErrorView>(keys),
            rest,
        ),
    decreases keys.len(),
{
    let parts = key_field_parts(keys);
    if keys.len() == 0 {
        assert(concat(parts) + rest =~= rest);
        assert(keys =~= Seq::<KeyField>::empty());
    } else {
        let tail = keys.drop_first();
        assert(parts.drop_first() =~= key_field_parts(tail));
        assert(parts[0] == key_field_bytes(keys[0]));
        let after = concat(key_field_parts(tail)) + rest;
        assert(concat(parts) + rest =~= key_field_bytes(keys[0]) + after);
        lemma_key_field_round_trip(keys[0], after);
        lemma_key_fields_round_trip(tail, rest);
        assert(seq![keys[0]] + tail =~= keys);
    }
}

/// Up to 255 key descriptors that are written are read back, and the cursor
/// stands behind them.
pub proof fn law_key_descriptors_round_trip(keys: Seq<KeyField>, rest: Seq<u8>)
    requires
        keys.len() <= 255,
    ensures
        spec_parse_key_descriptors(key_descriptors_bytes(keys) + rest) == (
            Ok::<Seq<KeyField>, ProtocolErrorView>(keys),
            rest,
        ),
{
    let s = key_descriptors_bytes(keys) + rest;
    assert(s[0] == keys.len());
    assert(s.skip(1) =~= concat(key_field_parts(keys)) + rest);
    lemma_key_fields_round_trip(keys, rest);
}

proof fn lemma_key_fields_canonical(
    s: Seq<u8>,
    count: nat,
    keys: Seq<KeyField>,
    rest: Seq<u8>,
)
    requires
        spec_parse_key_fields(s, count) == (Ok::<Seq<KeyField>, ProtocolErrorView>(keys), rest),
    ensures
        s == concat(key_field_parts(keys)) + rest,
        keys.len() == count,
    decreases count,
{
    let parts = key_field_parts(keys);
    if count == 0 {
        assert(concat(parts) + rest =~= rest);
    } else {
        let (first, after) = spec_parse_key_field(s);
        let key = first->Ok_0;
        let tail = spec_parse_key_fields(after, (count - 1) as nat);
        lemma_key_fields_canonical(after, (count - 1) as nat, tail.0->Ok_0, rest);
        lemma_bytes_of_le32(s);
        lemma_bytes_of_le32(s.skip(4));
        assert(key.type_hint.code() == s[8]);
        assert(keys.drop_first() =~= tail.0->Ok_0);
        assert(parts.drop_first() =~= key_field_parts(keys.drop_first()));
        assert(parts[0] == key_field_bytes(key));
        assert(s =~= key_field_bytes(key) + after);
        assert(s =~= concat(parts) + rest);
    }
}

/// Bytes that are read as key descriptors are those descriptors written out,
/// and what is left behind them.
pub proof fn law_key_descriptors_canonical(s: Seq<u8>, keys: Seq<KeyField>, rest: Seq<u8>)
    requires
        spec_parse_key_descriptors(s) == (Ok::<Seq<KeyField>, ProtocolErrorView>(keys), rest),
    ensures
        s == key_descriptors_bytes(keys) + rest,
        keys.len() <= 255,
{
    lemma_key_fields_canonical(s.skip(1), s[0] as nat, keys, rest);
    assert(keys.len() as int % 0x100 == s[0]);
    assert(s =~= seq![s[0]] + s.skip(1));
    assert(s =~= key_descriptors_bytes(keys) + rest);
}

} // verus!
