//! What keys are for: instances are told apart by the bytes of their key
//! fields, or by the key bytes that a client gives, and by nothing else.
use vstd::prelude::*;

use crate::dds::hash::{fnv1a, lemma_fnv1a_join, murmur3};
use crate::dds::md5::md5;
use crate::dds::sertype::{
    cdr_u32, field_key, field_keys, gathered, held_range, key_hash, keys_hash, received, same_key,
    same_keys, sample_data, sample_hash, ser_range, serialized_size, written, SerdataView,
};
use crate::protocol::codec::{KeyField, KeyTypeHint};
use crate::wire::{concat, le32_bytes, lemma_concat_join, lemma_le32_of_bytes};

verus! {

broadcast use crate::wire::group_le_lengths;

// ---------------------------------------------------------------------------
// Key fields
// ---------------------------------------------------------------------------

/// The bytes of a key field are those of the payload from its offset on: as many
/// as the field says; of a string, its length, in the byte order that the
/// payload names, and that many bytes behind it; and never more than there are.
pub proof fn law_key_bytes_are_those_at_the_offset(data: Seq<u8>, field: KeyField)
    ensures
        ({
            let at = field.offset as int;
            let key = field_key(data, field);
            let left = data.len() - at;
            &&& forall|i: int| 0 <= i < key.len() ==> #[trigger] key[i] == data[at + i]
            &&& left <= 0 ==> key.len() == 0
            &&& field.type_hint != KeyTypeHint::String && left > 0 ==> {
                &&& field.size <= left ==> key.len() == field.size
                &&& field.size > left ==> key.len() == left
            }
            &&& field.type_hint == KeyTypeHint::String && 0 < left < 4 ==> key.len() == 0
            &&& field.type_hint == KeyTypeHint::String && left >= 4 ==> {
                let n = if data[1] % 2 == 1 {
                    data[at] + 256 * (data[at + 1] + 256 * (data[at + 2] + 256 * data[at + 3]))
                } else {
                    data[at + 3] + 256 * (data[at + 2] + 256 * (data[at + 1] + 256 * data[at]))
                };
                &&& 4 + n <= left ==> key.len() == 4 + n
                &&& 4 + n > left ==> key.len() == left
            }
        }),
{
    let at = field.offset as int;
    if at < data.len() {
        let tail = data.skip(at);
        if at + 4 <= data.len() {
            assert(tail[0] == data[at] && tail[1] == data[at + 1]);
            assert(tail[2] == data[at + 2] && tail[3] == data[at + 3]);
        }
    }
}

/// Two payloads have the same key if and only if every key field has the same
/// bytes in both. Nothing else of the payloads counts, not even their lengths.
pub proof fn law_same_keys_means_equal_fields(a: Seq<u8>, b: Seq<u8>, fields: Seq<KeyField>)
    ensures
        same_keys(a, b, fields) <==> forall|i: int|
            0 <= i < fields.len() ==> field_key(a, #[trigger] fields[i]) == field_key(b, fields[i]),
{
    let ka = field_keys(a, fields);
    let kb = field_keys(b, fields);
    if same_keys(a, b, fields) {
        assert forall|i: int| 0 <= i < fields.len() implies field_key(a, #[trigger] fields[i])
            == field_key(b, fields[i]) by {
            assert(ka[i] == kb[i]);
        }
    }
    if forall|i: int|
        0 <= i < fields.len() ==> field_key(a, #[trigger] fields[i]) == field_key(b, fields[i]) {
        assert forall|i: int| 0 <= i < fields.len() implies ka[i] == kb[i] by {
            assert(field_key(a, fields[i]) == field_key(b, fields[i]));
        }
        assert(ka =~= kb);
    }
}

/// Two payloads that agree in every byte that a key field of fixed size covers
/// are of the same instance, whatever the rest of them is and however long they
/// are; and if they differ in one such byte, they are not.
pub proof fn law_only_key_bytes_tell_instances_apart(
    a: Seq<u8>,
    b: Seq<u8>,
    fields: Seq<KeyField>,
)
    requires
        forall|i: int|
            0 <= i < fields.len() ==> (#[trigger] fields[i]).type_hint != KeyTypeHint::String
                && fields[i].offset + fields[i].size <= a.len() && fields[i].offset
                + fields[i].size <= b.len(),
    ensures
        same_keys(a, b, fields) <==> forall|i: int, at: int|
            0 <= i < fields.len() && (#[trigger] fields[i]).offset <= at < fields[i].offset
                + fields[i].size ==> #[trigger] a[at] == b[at],
{
    law_same_keys_means_equal_fields(a, b, fields);
    assert forall|i: int| 0 <= i < fields.len() implies {
        let f = #[trigger] fields[i];
        field_key(a, f) == field_key(b, f) <==> forall|at: int|
            f.offset <= at < f.offset + f.size ==> #[trigger] a[at] == b[at]
    } by {
        let f = fields[i];
        law_key_bytes_are_those_at_the_offset(a, f);
        law_key_bytes_are_those_at_the_offset(b, f);
        let ka = field_key(a, f);
        let kb = field_key(b, f);
        assert(ka.len() == f.size && kb.len() == f.size);
        if ka == kb {
            assert forall|at: int| f.offset <= at < f.offset + f.size implies #[trigger] a[at]
                == b[at] by {
                assert(ka[at - f.offset] == a[at]);
                assert(kb[at - f.offset] == b[at]);
            }
        }
        if forall|at: int| f.offset <= at < f.offset + f.size ==> #[trigger] a[at] == b[at] {
            assert forall|k: int| 0 <= k < ka.len() implies ka[k] == kb[k] by {
                assert(ka[k] == a[f.offset + k]);
                assert(a[f.offset + k] == b[f.offset + k]);
            }
            assert(ka =~= kb);
        }
    }
    if same_keys(a, b, fields) {
        assert forall|i: int, at: int|
            0 <= i < fields.len() && (#[trigger] fields[i]).offset <= at < fields[i].offset
                + fields[i].size implies #[trigger] a[at] == b[at] by {
            assert(field_key(a, fields[i]) == field_key(b, fields[i]));
        }
    }
    if forall|i: int, at: int|
        0 <= i < fields.len() && (#[trigger] fields[i]).offset <= at < fields[i].offset
            + fields[i].size ==> #[trigger] a[at] == b[at] {
        assert forall|i: int| 0 <= i < fields.len() implies field_key(a, #[trigger] fields[i])
            == field_key(b, fields[i]) by {
            let f = fields[i];
            assert forall|at: int| f.offset <= at < f.offset + f.size implies #[trigger] a[at]
                == b[at] by {
                assert(fields[i].offset <= at);
            }
        }
    }
}

/// Bytes behind the last key field never change the key.
pub proof fn law_bytes_behind_the_keys_do_not_count(
    data: Seq<u8>,
    rest: Seq<u8>,
    fields: Seq<KeyField>,
)
    requires
        forall|i: int|
            0 <= i < fields.len() ==> (#[trigger] fields[i]).type_hint != KeyTypeHint::String
                && fields[i].offset + fields[i].size <= data.len(),
    ensures
        same_keys(data, data + rest, fields),
        same_keys(data + rest, data, fields),
{
    let longer = data + rest;
    assert forall|i: int, at: int|
        0 <= i < fields.len() && (#[trigger] fields[i]).offset <= at < fields[i].offset
            + fields[i].size implies #[trigger] data[at] == longer[at] by {}
    law_only_key_bytes_tell_instances_apart(data, longer, fields);
    law_same_keys_means_equal_fields(data, longer, fields);
    law_same_keys_means_equal_fields(longer, data, fields);
    assert forall|i: int| 0 <= i < fields.len() implies field_key(longer, #[trigger] fields[i])
        == field_key(data, fields[i]) by {
        assert(field_key(data, fields[i]) == field_key(longer, fields[i]));
    }
}

/// The key fields are hashed one after the other, each by its bytes: without
/// fields the hash is the basis of FNV-1a, and one more field goes on from the
/// hash of those before it.
pub proof fn law_keys_are_hashed_in_order(data: Seq<u8>, fields: Seq<KeyField>, field: KeyField)
    ensures
        keys_hash(data, Seq::empty()) == 2166136261,
        keys_hash(data, fields.push(field)) == fnv1a(
            keys_hash(data, fields),
            field_key(data, field),
        ),
{
    let none = field_keys(data, Seq::empty());
    assert(none =~= Seq::<Seq<u8>>::empty());
    let before = field_keys(data, fields);
    let key = field_key(data, field);
    let one = seq![key];
    assert(field_keys(data, fields.push(field)) =~= before + one);
    assert(one.drop_first() =~= Seq::<Seq<u8>>::empty());
    assert(concat(one) =~= key + concat(Seq::<Seq<u8>>::empty()));
    assert(concat(one) =~= key);
    lemma_concat_join(before, one);
    lemma_fnv1a_join(2166136261, concat(before), key);
}

// ---------------------------------------------------------------------------
// Samples
// ---------------------------------------------------------------------------

/// Where both samples have key bytes from the client, these alone decide:
/// neither the payloads nor the key fields count.
pub proof fn law_client_keys_decide(
    a: SerdataView,
    b: SerdataView,
    fields: Seq<KeyField>,
    other_a: Option<Seq<u8>>,
    other_b: Option<Seq<u8>>,
    other_fields: Seq<KeyField>,
)
    requires
        a.key_data.len() > 0,
        b.key_data.len() > 0,
    ensures
        same_key(a, b, fields) <==> a.key_data == b.key_data,
        same_key(a, b, fields) == same_key(
            SerdataView { data: other_a, ..a },
            SerdataView { data: other_b, ..b },
            other_fields,
        ),
{
}

/// Where a sample has no key bytes from the client, the key fields decide: all
/// samples of a topic without key fields are of one instance, and otherwise two
/// samples are of the same instance if and only if every key field has the same
/// bytes in both payloads.
pub proof fn law_key_fields_decide(
    a: Seq<u8>,
    b: Seq<u8>,
    a_key: Seq<u8>,
    b_key: Seq<u8>,
    fields: Seq<KeyField>,
)
    requires
        a_key.len() == 0 || b_key.len() == 0,
    ensures
        ({
            let sa = SerdataView { data: Some(a), key_data: a_key };
            let sb = SerdataView { data: Some(b), key_data: b_key };
            let na = SerdataView { data: None, key_data: a_key };
            let nb = SerdataView { data: None, key_data: b_key };
            &&& same_key(sa, sb, fields) <==> forall|i: int|
                0 <= i < fields.len() ==> field_key(a, #[trigger] fields[i]) == field_key(
                    b,
                    fields[i],
                )
            &&& same_key(na, nb, fields)
            &&& same_key(sa, nb, fields) <==> fields.len() == 0
            &&& same_key(na, sb, fields) <==> fields.len() == 0
        }),
{
    law_same_keys_means_equal_fields(a, b, fields);
}

/// The key hash of a sample with key bytes from the client: keys of up to
/// sixteen bytes are their own hash, filled up with zeros, unless a digest is
/// demanded; longer keys, and all where it is demanded, are digested by MD5. The
/// payload does not count.
pub proof fn law_client_key_hash(
    key: Seq<u8>,
    data: Option<Seq<u8>>,
    fields: Seq<KeyField>,
    force_md5: bool,
)
    requires
        key.len() > 0,
    ensures
        ({
            let h = key_hash(SerdataView { data, key_data: key }, fields, force_md5);
            &&& force_md5 || key.len() > 16 ==> h == md5(key)
            &&& !force_md5 && key.len() <= 16 ==> {
                &&& h.len() == 16
                &&& h.take(key.len() as int) == key
                &&& forall|i: int| key.len() <= i < 16 ==> #[trigger] h[i] == 0
            }
        }),
{
    let h = key_hash(SerdataView { data, key_data: key }, fields, force_md5);
    if !force_md5 && key.len() <= 16 {
        assert(h.take(key.len() as int) =~= key);
    }
}

/// Short keys of the same length have the same key hash only if they are equal:
/// no two instances of a type with a key of fixed size share one.
pub proof fn law_short_client_keys_do_not_collide(
    a: SerdataView,
    b: SerdataView,
    fields: Seq<KeyField>,
)
    requires
        0 < a.key_data.len() <= 16,
        a.key_data.len() == b.key_data.len(),
    ensures
        key_hash(a, fields, false) == key_hash(b, fields, false) <==> a.key_data == b.key_data,
{
    law_client_key_hash(a.key_data, a.data, fields, false);
    law_client_key_hash(b.key_data, b.data, fields, false);
}

/// The key hash of a sample without key bytes from the client: the hash of its
/// key fields in the first four bytes, the lowest first, and zeros behind; all
/// zeros where there are no key fields or there is no payload. A demand for a
/// digest does not count.
pub proof fn law_field_key_hash(data: Option<Seq<u8>>, fields: Seq<KeyField>, force_md5: bool)
    ensures
        ({
            let h = key_hash(
                SerdataView { data, key_data: Seq::empty() },
                fields,
                force_md5,
            );
            &&& h.len() == 16
            &&& forall|i: int| 4 <= i < 16 ==> #[trigger] h[i] == 0
            &&& h[0] + 256 * (h[1] + 256 * (h[2] + 256 * h[3])) == (match data {
                Some(d) => if fields.len() > 0 && d.len() > 0 {
                    keys_hash(d, fields) as int
                } else {
                    0
                },
                None => 0,
            })
        }),
{
    if let Some(d) = data {
        if fields.len() > 0 && d.len() > 0 {
            lemma_le32_of_bytes(keys_hash(d, fields) as int, Seq::empty());
            assert(le32_bytes(keys_hash(d, fields) as int) + Seq::<u8>::empty()
                =~= le32_bytes(keys_hash(d, fields) as int));
        }
    }
}

/// The hash of a sample: that of its key bytes, seeded with the hash of its
/// type, where it has them, and otherwise the hash of its type. The payload does
/// not count.
pub proof fn law_sample_hash_is_of_the_key(sd: SerdataView, type_hash: u32)
    ensures
        sd.key_data.len() > 0 ==> sample_hash(sd, type_hash) == murmur3(sd.key_data, type_hash),
        sd.key_data.len() == 0 ==> sample_hash(sd, type_hash) == type_hash,
{
}

/// A range of a sample is handed out byte by byte, where the sample holds all of
/// it; otherwise as many zeros are.
pub proof fn law_ranges_are_handed_out_unchanged(sd: SerdataView, off: int, sz: int)
    requires
        0 <= off,
        0 <= sz,
    ensures
        ser_range(sd, off, sz).len() == sz,
        held_range(sd, off, sz) is Some <==> sd.data is Some && off + sz <= sd.data->0.len(),
        held_range(sd, off, sz) matches Some(part) ==> part == ser_range(sd, off, sz),
        forall|i: int|
            0 <= i < sz ==> #[trigger] ser_range(sd, off, sz)[i] == (if sd.data is Some && off + sz
                <= sd.data->0.len() {
                sd.data->0[off + i]
            } else {
                0
            }),
        sd.data is Some ==> sample_data(sd) == sd.data->0,
        sd.data is None ==> sample_data(sd).len() == 0,
{
}

/// Pieces are put together in their order: of `size` bytes, the first are those
/// of the pieces, one after the other, and the rest are zeros.
pub proof fn law_pieces_are_gathered_in_order(a: Seq<u8>, b: Seq<u8>, size: nat)
    ensures
        gathered(a + b, size).len() == size,
        forall|i: int|
            0 <= i < size ==> #[trigger] gathered(a + b, size)[i] == (if i < a.len() {
                a[i]
            } else if i < a.len() + b.len() {
                b[i - a.len()]
            } else {
                0
            }),
        concat(seq![a, b]) == a + b,
{
    let two = seq![a, b];
    assert(two.drop_first() =~= seq![b]);
    assert(seq![b].drop_first() =~= Seq::<Seq<u8>>::empty());
    assert(concat(seq![b]) =~= b + concat(Seq::<Seq<u8>>::empty()));
    assert(concat(seq![b]) =~= b);
    assert(concat(two) =~= a + b);
}

/// A sample keeps what it was made of, and nothing else: of a received one the
/// bytes, with no key bytes; of a written one the bytes and the key bytes of the
/// client. Its size is the number of its bytes.
pub proof fn law_samples_keep_what_they_were_made_of(data: Seq<u8>, key: Seq<u8>)
    ensures
        sample_data(received(data)) == data,
        received(data).key_data.len() == 0,
        sample_data(written(data, key)) == data,
        written(data, key).key_data == key,
        ser_range(received(data), 0, data.len() as int) == data,
        ser_range(written(data, key), 0, data.len() as int) == data,
        data.len() < 0x1_0000_0000 ==> serialized_size(received(data)) == data.len()
            && serialized_size(written(data, key)) == data.len(),
        serialized_size(SerdataView { data: None, key_data: key }) == 0,
{
    assert(data.subrange(0, data.len() as int) =~= data);
}

/// What a client writes is what a reader gets: the sample that is received of the
/// bytes that are sent of a written one holds the bytes that were written.
pub proof fn law_written_samples_are_received_unchanged(
    data: Seq<u8>,
    key: Seq<u8>,
    parts: Seq<Seq<u8>>,
)
    requires
        concat(parts) == ser_range(written(data, key), 0, data.len() as int),
    ensures
        sample_data(received(ser_range(written(data, key), 0, data.len() as int))) == data,
        sample_data(received(gathered(concat(parts), data.len()))) == data,
{
    law_samples_keep_what_they_were_made_of(data, key);
    assert(gathered(data, data.len()) =~= data);
}

/// A number in a payload is read from four bytes: the lowest first where the
/// header of the payload says so, and the highest first otherwise. Where there
/// are not four, there is none.
pub proof fn law_numbers_in_payloads(data: Seq<u8>, at: int)
    requires
        0 <= at,
    ensures
        cdr_u32(data, at) is Some <==> at + 4 <= data.len(),
        at + 4 <= data.len() && data[1] % 2 == 1 ==> cdr_u32(data, at)->0 == data[at] + 256 * (
        data[at + 1] + 256 * (data[at + 2] + 256 * data[at + 3])),
        at + 4 <= data.len() && data[1] % 2 == 0 ==> cdr_u32(data, at)->0 == data[at + 3] + 256 * (
        data[at + 2] + 256 * (data[at + 1] + 256 * data[at])),
{
    if at + 4 <= data.len() {
        let s = data.skip(at);
        assert(s[0] == data[at] && s[1] == data[at + 1]);
        assert(s[2] == data[at + 2] && s[3] == data[at + 3]);
    }
}

} // verus!
