//! The opaque type support: data is an array of bytes that is passed through
//! unchanged, and keys are read off it by key descriptors.
use vstd::prelude::*;
use vstd::slice::{slice_subrange, slice_to_vec};
use vstd::string::*;
use vstd::utf8::encode_utf8;

pub use crate::dds::hash::murmurhash3;
pub use crate::dds::md5::md5_hash;

use crate::dds::hash::{fnv1a, fnv1a_hash, lemma_fnv1a_join, murmur3, product32, sum32};
use crate::dds::md5::md5;
use crate::protocol::codec::{KeyDescriptors, KeyField, KeyTypeHint};
use crate::text::bytes_eq;
use crate::wire::{concat, le32, le32_bytes, lemma_concat_step, low_u32, u32_le_array, u32_le_at};

verus! {

broadcast use crate::wire::group_le_lengths;

/// The domain that is taken where none is configured.
pub const DDS_DOMAIN_DEFAULT: u32 = 0xFFFFFFFF;

/// The data representations that a type allows: XCDR1 (bit 0) and XCDR2
/// (bit 2).
pub const ALLOWED_DATA_REPRESENTATION: u32 = 5;

// ---------------------------------------------------------------------------
// Keys in a payload
// ---------------------------------------------------------------------------

/// The four bytes at `offset` as an integer, in the byte order that the
/// encapsulation header names: little-endian where the lowest bit of its second
/// byte is set, big-endian otherwise.
pub open spec fn cdr_u32(data: Seq<u8>, offset: int) -> Option<int> {
    if offset + 4 > data.len() {
        None
    } else if data[1] % 2 == 1 {
        Some(le32(data.skip(offset)))
    } else {
        Some(
            0x100_0000 * data[offset] + 0x1_0000 * data[offset + 1] + 0x100 * data[offset + 2]
                + data[offset + 3],
        )
    }
}

/// The smaller of two numbers.
pub open spec fn smaller(a: int, b: int) -> int {
    if a <= b {
        a
    } else {
        b
    }
}

/// The bytes of one key field, as far as the payload holds them: for a string
/// its length and its characters, otherwise as many bytes as the field says.
pub open spec fn field_key(data: Seq<u8>, field: KeyField) -> Seq<u8> {
    let offset = field.offset as int;
    if offset >= data.len() {
        seq![]
    } else if field.type_hint == KeyTypeHint::String {
        match cdr_u32(data, offset) {
            None => seq![],
            Some(n) => data.subrange(offset, smaller(offset + 4 + n, data.len() as int)),
        }
    } else {
        data.subrange(offset, smaller(offset + field.size, data.len() as int))
    }
}

/// The bytes of each key field.
pub open spec fn field_keys(data: Seq<u8>, fields: Seq<KeyField>) -> Seq<Seq<u8>> {
    fields.map_values(|f: KeyField| field_key(data, f))
}

/// Whether two payloads agree in every key field.
pub open spec fn same_keys(a: Seq<u8>, b: Seq<u8>, fields: Seq<KeyField>) -> bool {
    field_keys(a, fields) == field_keys(b, fields)
}

/// The FNV-1a hash of the bytes of all key fields.
pub open spec fn keys_hash(data: Seq<u8>, fields: Seq<KeyField>) -> u32 {
    fnv1a(2166136261, concat(field_keys(data, fields)))
}

/// Read a u32 from `data` at `offset`, respecting the CDR encapsulation
/// header's endianness (bytes 0..2 of the payload).
pub fn read_u32_cdr(data: &[u8], offset: usize) -> (r: Option<u32>)
    ensures
        match r {
            Some(n) => cdr_u32(data@, offset as int) == Some(n as int),
            None => cdr_u32(data@, offset as int) is None,
        },
{
    if data.len() < 4 || offset > data.len() - 4 {
        return None;
    }
    let order: u8 = data[1];
    assert((order & 1 != 0) == (order % 2 == 1)) by (bit_vector);
    if order & 1 != 0 {
        Some(u32_le_at(data, offset))
    } else {
        Some(
            0x100_0000 * (data[offset] as u32) + 0x1_0000 * (data[offset + 1] as u32) + 0x100 * (
            data[offset + 2] as u32) + data[offset + 3] as u32,
        )
    }
}

/// The bytes from `start` on, up to `end` or to the end of the slice.
fn clipped(data: &[u8], start: usize, end: u64) -> (part: &[u8])
    requires
        start <= data@.len(),
        start <= end,
    ensures
        part@ == data@.subrange(start as int, smaller(end as int, data@.len() as int)),
{
    let stop: usize = if end <= data.len() as u64 {
        end as usize
    } else {
        data.len()
    };
    slice_subrange(data, start, stop)
}

/// Extract key bytes from a serdata payload for a single key field.
/// For STRING keys (CDR format): reads uint32 length + chars.
/// For fixed-size keys: reads `size` bytes at `offset`.
pub fn extract_key_bytes<'a>(data: &'a [u8], field: &KeyField) -> (key: &'a [u8])
    ensures
        key@ == field_key(data@, *field),
{
    let offset: usize = field.offset as usize;
    if offset >= data.len() {
        let none: &'a [u8] = slice_subrange(data, 0, 0);
        assert(none@ =~= Seq::<u8>::empty());
        return none;
    }
    match field.type_hint {
        KeyTypeHint::String => {
            // CDR string: uint32 length (including NUL) + chars + NUL
            match read_u32_cdr(data, offset) {
                Some(len) => clipped(data, offset, offset as u64 + 4 + len as u64),
                None => {
                    let none: &'a [u8] = slice_subrange(data, 0, 0);
                    assert(none@ =~= Seq::<u8>::empty());
                    none
                },
            }
        },
        _ => clipped(data, offset, offset as u64 + field.size as u64),
    }
}

/// Whether two payloads agree in every key field.
pub fn keys_equal(a_data: &[u8], b_data: &[u8], key_fields: &[KeyField]) -> (same: bool)
    ensures
        same == same_keys(a_data@, b_data@, key_fields@),
{
    let ghost ka = field_keys(a_data@, key_fields@);
    let ghost kb = field_keys(b_data@, key_fields@);
    let mut i: usize = 0;
    while i < key_fields.len()
        invariant
            i <= key_fields@.len(),
            ka == field_keys(a_data@, key_fields@),
            kb == field_keys(b_data@, key_fields@),
            forall|j: int| 0 <= j < i ==> ka[j] == kb[j],
        decreases key_fields@.len() - i,
    {
        let a = extract_key_bytes(a_data, &key_fields[i]);
        let b = extract_key_bytes(b_data, &key_fields[i]);
        if !bytes_eq(a, b) {
            assert(ka[i as int] != kb[i as int]);
            return false;
        }
        i = i + 1;
    }
    assert(ka =~= kb);
    true
}

/// The FNV-1a hash of the bytes of all key fields.
pub fn hash_key_bytes(data: &[u8], key_fields: &[KeyField]) -> (hash: u32)
    ensures
        hash == keys_hash(data@, key_fields@),
{
    let ghost keys = field_keys(data@, key_fields@);
    let mut hash: u32 = 2166136261;  // FNV-1a offset basis
    let mut i: usize = 0;
    assert(keys.take(0) =~= Seq::<Seq<u8>>::empty());
    while i < key_fields.len()
        invariant
            i <= key_fields@.len(),
            keys == field_keys(data@, key_fields@),
            hash == fnv1a(2166136261, concat(keys.take(i as int))),
        decreases key_fields@.len() - i,
    {
        let key = extract_key_bytes(data, &key_fields[i]);
        proof {
            lemma_concat_step(keys, i as int);
            lemma_fnv1a_join(2166136261, concat(keys.take(i as int)), key@);
            assert(keys[i as int] == key@);
        }
        hash = fnv1a_hash(hash, key);
        i = i + 1;
    }
    assert(keys.take(i as int) =~= keys);
    hash
}

// ---------------------------------------------------------------------------
// Types
// ---------------------------------------------------------------------------

/// The hash of a type's name: the bytes as digits of a number in base 31,
/// modulo 2^32.
pub open spec fn name_hash(name: Seq<u8>) -> u32
    decreases name.len(),
{
    if name.len() == 0 {
        0
    } else {
        sum32(product32(name_hash(name.drop_last()), 31), name.last() as u32)
    }
}

/// The hash of a type's name.
pub fn st_hash(name: &[u8]) -> (hash: u32)
    ensures
        hash == name_hash(name@),
{
    let mut hash: u32 = 0;
    let mut i: usize = 0;
    assert(name@.take(0) =~= Seq::<u8>::empty());
    while i < name.len()
        invariant
            i <= name@.len(),
            hash == name_hash(name@.take(i as int)),
        decreases name@.len() - i,
    {
        hash = crate::dds::hash::add32(crate::dds::hash::mul32(hash, 31), name[i] as u32);
        i = i + 1;
        proof {
            let now = name@.take(i as int);
            assert(now.drop_last() =~= name@.take(i - 1));
            assert(now.last() == name@[i - 1]);
        }
    }
    assert(name@.take(i as int) =~= name@);
    hash
}

/// What the bridge keeps of a type: its name, its key fields and what is
/// announced of it.
#[derive(Debug)]
pub struct OpaqueSertype {
    pub typename: String,
    pub key_fields: Vec<KeyField>,
    /// Whether the topic has no key. A reader without a key does not match a
    /// writer with one, and the other way round.
    pub no_key: bool,
    pub allowed_data_representation: u32,
}

/// The type support for a type: keyless unless it is asked to be keyed, with
/// both data representations allowed.
pub fn create_opaque_sertype(
    typename: &str,
    is_keyed: bool,
    key_descriptors: &KeyDescriptors,
) -> (st: OpaqueSertype)
    ensures
        st.typename@ == typename@,
        st.key_fields@ == key_descriptors@,
        st.no_key == !is_keyed,
        st.allowed_data_representation == ALLOWED_DATA_REPRESENTATION,
{
    let keys = key_descriptors.clone();
    OpaqueSertype {
        typename: typename.to_owned(),
        key_fields: keys.keys,
        no_key: !is_keyed,
        allowed_data_representation: ALLOWED_DATA_REPRESENTATION,
    }
}

impl OpaqueSertype {
    /// The hash of the type: that of its name.
    pub fn type_hash(&self) -> (hash: u32)
        ensures
            hash == name_hash(encode_utf8(self.typename@)),
    {
        st_hash(self.typename.as_str().as_bytes())
    }

    /// Whether two types are the same: they have the same name.
    pub fn same_type(&self, other: &OpaqueSertype) -> (same: bool)
        ensures
            same == (self.typename@ == other.typename@),
    {
        self.typename == other.typename
    }
}

// ---------------------------------------------------------------------------
// Samples
// ---------------------------------------------------------------------------

/// The bytes of a sample that is written or read, and those of its key where
/// the client has given them.
#[derive(Debug)]
pub struct SampleWrapper {
    pub data: Vec<u8>,
    pub key_data: Vec<u8>,
}

impl SampleWrapper {
    /// The sample with the given bytes and key bytes.
    pub fn from_bytes(data: &[u8], key_bytes: &[u8]) -> (sample: SampleWrapper)
        ensures
            sample.data@ == data@,
            sample.key_data@ == key_bytes@,
    {
        SampleWrapper { data: slice_to_vec(data), key_data: slice_to_vec(key_bytes) }
    }
}

/// A sample inside the DDS layer.
#[derive(Debug)]
pub struct OpaqueSerdata {
    pub data: Option<Vec<u8>>,
    /// Per-sample serialized key bytes, provided by the client. Empty if there
    /// are none (non-keyed or network-received).
    pub key_data: Vec<u8>,
}

/// The mathematical value of an [`OpaqueSerdata`].
#[verifier::ext_equal]
pub struct SerdataView {
    pub data: Option<Seq<u8>>,
    pub key_data: Seq<u8>,
}

impl View for OpaqueSerdata {
    type V = SerdataView;

    open spec fn view(&self) -> SerdataView {
        SerdataView {
            data: match self.data {
                Some(d) => Some(d@),
                None => None,
            },
            key_data: self.key_data@,
        }
    }
}

/// A sample that was received: its bytes, without key bytes.
pub open spec fn received(data: Seq<u8>) -> SerdataView {
    SerdataView { data: Some(data), key_data: Seq::empty() }
}

/// A sample that a client writes: its bytes, and the key bytes that the client
/// gives.
pub open spec fn written(data: Seq<u8>, key_data: Seq<u8>) -> SerdataView {
    SerdataView { data: Some(data), key_data }
}

/// The number of bytes of a sample, in 32 bits.
pub open spec fn serialized_size(sd: SerdataView) -> int {
    match sd.data {
        Some(d) => d.len() as int % 0x1_0000_0000,
        None => 0,
    }
}

/// Whether two samples have the same key. Key bytes from the client decide
/// where both have them; otherwise the key fields do, and without key fields
/// all samples have the same key.
pub open spec fn same_key(a: SerdataView, b: SerdataView, fields: Seq<KeyField>) -> bool {
    if a.key_data.len() > 0 && b.key_data.len() > 0 {
        a.key_data == b.key_data
    } else if fields.len() == 0 {
        true
    } else {
        match (a.data, b.data) {
            (Some(da), Some(db)) => same_keys(da, db, fields),
            (None, None) => true,
            _ => false,
        }
    }
}

/// Sixteen zeros behind `head`, cut to sixteen bytes.
pub open spec fn sixteen(head: Seq<u8>) -> Seq<u8> {
    Seq::new(
        16,
        |i: int|
            if i < head.len() {
                head[i]
            } else {
                0u8
            },
    )
}

/// The key hash of a sample. Of key bytes from the client it is the bytes
/// themselves, filled up with zeros, or their MD5 digest where they are more
/// than sixteen or a digest is asked for. Otherwise it is the hash of the key
/// fields, and zero where there is nothing to hash.
pub open spec fn key_hash(sd: SerdataView, fields: Seq<KeyField>, force_md5: bool) -> Seq<u8> {
    if sd.key_data.len() > 0 {
        if !force_md5 && sd.key_data.len() <= 16 {
            sixteen(sd.key_data)
        } else {
            md5(sd.key_data)
        }
    } else if fields.len() == 0 || sd.data is None || sd.data->0.len() == 0 {
        sixteen(seq![])
    } else {
        sixteen(le32_bytes(keys_hash(sd.data->0, fields) as int))
    }
}

/// The hash of a sample: of its key bytes where it has them, seeded with the
/// hash of the type, and that of the type otherwise.
pub open spec fn sample_hash(sd: SerdataView, type_hash: u32) -> u32 {
    if sd.key_data.len() > 0 {
        murmur3(sd.key_data, type_hash)
    } else {
        type_hash
    }
}

/// The bytes of a sample as a reader gets them.
pub open spec fn sample_data(sd: SerdataView) -> Seq<u8> {
    match sd.data {
        Some(d) => d,
        None => Seq::empty(),
    }
}

/// The bytes of a sample from `off` on, `sz` of them, where the sample holds
/// that range.
pub open spec fn held_range(sd: SerdataView, off: int, sz: int) -> Option<Seq<u8>> {
    match sd.data {
        Some(d) if off + sz <= d.len() => Some(d.subrange(off, off + sz)),
        _ => None,
    }
}

/// The bytes of a sample from `off` on, `sz` of them; zeros where the sample
/// does not hold that range.
pub open spec fn ser_range(sd: SerdataView, off: int, sz: int) -> Seq<u8> {
    match held_range(sd, off, sz) {
        Some(bytes) => bytes,
        None => Seq::new(sz as nat, |i: int| 0u8),
    }
}

/// `size` bytes that start with `all`: cut off, or filled up with zeros.
pub open spec fn gathered(all: Seq<u8>, size: nat) -> Seq<u8> {
    Seq::new(
        size,
        |i: int|
            if i < all.len() {
                all[i]
            } else {
                0u8
            },
    )
}

/// The bytes of each slice.
pub open spec fn slices(iovs: Seq<&[u8]>) -> Seq<Seq<u8>> {
    iovs.map_values(|s: &[u8]| s@)
}

fn sixteen_bytes(head: &[u8]) -> (bytes: [u8; 16])
    ensures
        bytes@ == sixteen(head@),
{
    let mut bytes: [u8; 16] = [0u8; 16];
    let mut i: usize = 0;
    while i < 16 && i < head.len()
        invariant
            i <= 16,
            i <= head@.len(),
            forall|j: int| 0 <= j < i ==> bytes@[j] == head@[j],
            forall|j: int| i <= j < 16 ==> bytes@[j] == 0,
        decreases 16 - i,
    {
        bytes[i] = head[i];
        i = i + 1;
    }
    assert(bytes@ =~= sixteen(head@));
    bytes
}

impl OpaqueSerdata {
    /// A sample that was received: its bytes, without key bytes.
    pub fn from_ser(data: Vec<u8>) -> (sd: OpaqueSerdata)
        ensures
            sd@ == (SerdataView { data: Some(data@), key_data: Seq::empty() }),
            sd@ == received(data@),
    {
        OpaqueSerdata { data: Some(data), key_data: Vec::new() }
    }

    /// A sample of `size` bytes that was received in pieces.
    pub fn from_ser_iov(iovs: &Vec<&[u8]>, size: usize) -> (sd: OpaqueSerdata)
        ensures
            sd@ == (SerdataView {
                data: Some(gathered(concat(slices(iovs@)), size as nat)),
                key_data: Seq::empty(),
            }),
            sd@ == received(gathered(concat(slices(iovs@)), size as nat)),
    {
        let ghost parts = slices(iovs@);
        let ghost all = concat(parts);
        let mut buf: Vec<u8> = Vec::new();
        let mut i: usize = 0;
        assert(parts.take(0) =~= Seq::<Seq<u8>>::empty());
        while i < iovs.len()
            invariant
                i <= iovs@.len(),
                parts == slices(iovs@),
                all == concat(parts),
                buf@.len() <= size,
                buf@.len() < size ==> buf@ == concat(parts.take(i as int)),
                concat(parts.take(i as int)).len() <= all.len(),
                buf@.len() <= all.len(),
                buf@ == all.take(buf@.len() as int),
            decreases iovs@.len() - i,
        {
            let part: &[u8] = iovs[i];
            let room: usize = size - buf.len();
            let take: usize = if part.len() <= room {
                part.len()
            } else {
                room
            };
            let ghost before = buf@;
            proof {
                lemma_concat_step(parts, i as int);
                assert(parts[i as int] == part@);
                assert(parts =~= parts.take(i + 1) + parts.skip(i + 1));
                crate::wire::lemma_concat_join(parts.take(i + 1), parts.skip(i + 1));
            }
            if take > 0 {
                buf.extend_from_slice(slice_subrange(part, 0, take));
                assert(buf@ =~= before + part@.subrange(0, take as int));
                assert(buf@ =~= all.take(buf@.len() as int));
            }
            i = i + 1;
            assert(buf@.len() < size ==> buf@ =~= concat(parts.take(i as int)));
        }
        assert(parts.take(i as int) =~= parts);
        while buf.len() < size
            invariant
                buf@.len() <= size,
                all.len() >= size ==> buf@.len() == size,
                forall|j: int|
                    0 <= j < buf@.len() ==> #[trigger] buf@[j] == if j < all.len() {
                        all[j]
                    } else {
                        0u8
                    },
                buf@.len() < size ==> buf@.len() >= all.len(),
            decreases size - buf@.len(),
        {
            buf.push(0);
        }
        assert(buf@ =~= gathered(all, size as nat));
        OpaqueSerdata { data: Some(buf), key_data: Vec::new() }
    }

    /// A sample that stands for a key hash. The hash is not the key, so it is
    /// not kept as key bytes.
    pub fn from_keyhash(hash: &[u8; 16]) -> (sd: OpaqueSerdata)
        ensures
            sd@ == (SerdataView { data: Some(hash@), key_data: Seq::empty() }),
            sd@ == received(hash@),
    {
        let mut data: Vec<u8> = Vec::new();
        let mut i: usize = 0;
        while i < 16
            invariant
                i <= 16,
                data@ == hash@.take(i as int),
            decreases 16 - i,
        {
            data.push(hash[i]);
            i = i + 1;
            assert(data@ =~= hash@.take(i as int));
        }
        assert(data@ =~= hash@);
        OpaqueSerdata { data: Some(data), key_data: Vec::new() }
    }

    /// A sample that a client has written.
    pub fn from_sample(sample: &SampleWrapper) -> (sd: OpaqueSerdata)
        ensures
            sd@ == (SerdataView { data: Some(sample.data@), key_data: sample.key_data@ }),
            sd@ == written(sample.data@, sample.key_data@),
    {
        OpaqueSerdata {
            data: Some(slice_to_vec(sample.data.as_slice())),
            key_data: slice_to_vec(sample.key_data.as_slice()),
        }
    }

    /// Whether two samples have the same key.
    pub fn eqkey(&self, other: &OpaqueSerdata, key_fields: &Vec<KeyField>) -> (same: bool)
        ensures
            same == same_key(self@, other@, key_fields@),
    {
        if !self.key_data.is_empty() && !other.key_data.is_empty() {
            return bytes_eq(self.key_data.as_slice(), other.key_data.as_slice());
        }
        if key_fields.is_empty() {
            return true;  // keyless topic
        }
        match (&self.data, &other.data) {
            (Some(a), Some(b)) => keys_equal(a.as_slice(), b.as_slice(), key_fields.as_slice()),
            (None, None) => true,
            _ => false,
        }
    }

    /// The number of bytes of the sample.
    pub fn size(&self) -> (size: u32)
        ensures
            size == match self@.data {
                Some(d) => d.len() as int % 0x1_0000_0000,
                None => 0,
            },
            size == serialized_size(self@),
    {
        match &self.data {
            Some(d) => low_u32(d.len()),
            None => 0,
        }
    }

    /// The bytes of the sample from `off` on, `sz` of them, where the sample holds
    /// that range.
    pub fn bytes_at(&self, off: usize, sz: usize) -> (bytes: Option<&[u8]>)
        ensures
            match bytes {
                Some(b) => held_range(self@, off as int, sz as int) == Some(b@),
                None => held_range(self@, off as int, sz as int) is None,
            },
    {
        match &self.data {
            Some(d) => {
                if off <= d.len() && sz <= d.len() - off {
                    Some(slice_subrange(d.as_slice(), off, off + sz))
                } else {
                    None
                }
            },
            None => None,
        }
    }

    /// The bytes of the sample from `off` on, `sz` of them; zeros where the
    /// sample does not hold that range.
    pub fn to_ser(&self, off: usize, sz: usize) -> (bytes: Vec<u8>)
        ensures
            bytes@ == ser_range(self@, off as int, sz as int),
    {
        match self.bytes_at(off, sz) {
            Some(held) => {
                return slice_to_vec(held);
            },
            None => {},
        }
        let mut bytes: Vec<u8> = Vec::new();
        while bytes.len() < sz
            invariant
                bytes@.len() <= sz,
                forall|j: int| 0 <= j < bytes@.len() ==> bytes@[j] == 0,
            decreases sz - bytes@.len(),
        {
            bytes.push(0);
        }
        assert(bytes@ =~= Seq::new(sz as nat, |i: int| 0u8));
        bytes
    }

    /// The sample as it is handed to a reader: its bytes, without key bytes.
    pub fn to_sample(&self) -> (sample: SampleWrapper)
        ensures
            sample.data@ == sample_data(self@),
            sample.key_data@ == Seq::<u8>::empty(),
    {
        let data = match &self.data {
            Some(d) => slice_to_vec(d.as_slice()),
            None => Vec::new(),
        };
        SampleWrapper { data, key_data: Vec::new() }
    }

    /// The key hash of the sample.
    pub fn get_keyhash(&self, key_fields: &Vec<KeyField>, force_md5: bool) -> (hash: [u8; 16])
        ensures
            hash@ == key_hash(self@, key_fields@, force_md5),
    {
        if !self.key_data.is_empty() {
            let key: &[u8] = self.key_data.as_slice();
            if !force_md5 && key.len() <= 16 {
                return sixteen_bytes(key);
            }
            return md5_hash(key);
        }
        let none: [u8; 0] = [];
        assert(none@ =~= Seq::<u8>::empty());
        if key_fields.is_empty() {
            return sixteen_bytes(&none);
        }
        match &self.data {
            Some(d) => {
                if d.is_empty() {
                    return sixteen_bytes(&none);
                }
                let hash: u32 = hash_key_bytes(d.as_slice(), key_fields.as_slice());
                let head: [u8; 4] = u32_le_array(hash);
                sixteen_bytes(&head)
            },
            None => sixteen_bytes(&none),
        }
    }

    /// The hash of the sample.
    pub fn hash(&self, type_hash: u32) -> (hash: u32)
        ensures
            hash == sample_hash(self@, type_hash),
    {
        if !self.key_data.is_empty() {
            murmurhash3(self.key_data.as_slice(), type_hash)
        } else {
            type_hash
        }
    }
}

// ---------------------------------------------------------------------------
// Laws
// ---------------------------------------------------------------------------

/// Every sample has the key of itself, and having the same key does not depend
/// on which sample comes first.
pub proof fn law_same_key_symmetric(a: SerdataView, b: SerdataView, fields: Seq<KeyField>)
    ensures
        same_key(a, a, fields),
        same_key(a, b, fields) == same_key(b, a, fields),
{
}

/// Payloads that agree in every key field have the same hash.
pub proof fn law_same_keys_same_hash(a: Seq<u8>, b: Seq<u8>, fields: Seq<KeyField>)
    requires
        same_keys(a, b, fields),
    ensures
        keys_hash(a, fields) == keys_hash(b, fields),
{
}

/// Samples of the same key that both carry key bytes from the client have the
/// same key hash and the same hash.
pub proof fn law_same_key_same_hashes(
    a: SerdataView,
    b: SerdataView,
    fields: Seq<KeyField>,
    force_md5: bool,
    type_hash: u32,
)
    requires
        same_key(a, b, fields),
        a.key_data.len() > 0,
        b.key_data.len() > 0,
    ensures
        key_hash(a, fields, force_md5) == key_hash(b, fields, force_md5),
        sample_hash(a, type_hash) == sample_hash(b, type_hash),
{
}

/// Bytes are passed through unchanged: a sample that a client has written is
/// sent as its bytes, and a reader of what was sent gets those bytes.
pub proof fn law_samples_pass_unchanged(data: Seq<u8>, key_data: Seq<u8>)
    ensures
        ({
            let written = SerdataView { data: Some(data), key_data };
            let sent = ser_range(written, 0, data.len() as int);
            let received = SerdataView { data: Some(sent), key_data: Seq::empty() };
            &&& sent == data
            &&& gathered(sent, data.len()) == data
            &&& sample_data(received) == data
        }),
{
    assert(ser_range(SerdataView { data: Some(data), key_data }, 0, data.len() as int) =~= data);
    assert(gathered(data, data.len()) =~= data);
}

} // verus!
