//! What holds of payloads: what is written is read back, and what is read was
//! written in one way only.
use vstd::prelude::*;

use crate::protocol::codec::{
    bool_byte, key_descriptors_bytes, law_key_descriptors_canonical,
    law_key_descriptors_round_trip, law_string_canonical, law_string_round_trip,
    spec_parse_key_descriptors, spec_read_bool, spec_read_string, string_bytes, string_fits,
    KeyField,
};
use crate::protocol::error::ProtocolErrorView;
use crate::protocol::payload::{
    endpoint_bytes, error_bytes, flagged_endpoint_bytes, law_error_codes, no_writers_bytes, sample_bytes,
    spec_parse_delete_writer, spec_parse_endpoint, spec_parse_error, spec_parse_no_writers,
    spec_parse_sample, spec_parse_topic_mode, spec_parse_unsubscribe, spec_parse_write_mode,
    spec_parse_writer_mode, unsubscribe_bytes,
    write_mode_bytes, EndpointView, ErrorPayloadView, NoWritersView, SampleView,
    TopicView, WriteModeView,
};
use crate::qos::codec::{qos_bytes, spec_parse_qos};
use crate::qos::policy::QosPolicyView;
use crate::qos::laws::{law_qos_canonical, law_qos_round_trip, qos_valid};
use crate::wire::{
    le16, le32, le32_bytes, le64, le64_bytes, lemma_bytes_of_le16,
    lemma_bytes_of_le32, lemma_bytes_of_le64, lemma_le16_of_bytes, lemma_le32_of_bytes,
    lemma_le64_of_bytes,
};

verus! {

broadcast use crate::wire::group_le_lengths;

/// Whether a request for a reader or a writer is one that a payload can hold.
pub open spec fn endpoint_valid(p: EndpointView) -> bool {
    &&& string_fits(p.topic_name)
    &&& string_fits(p.typename)
    &&& qos_valid(p.qos)
    &&& p.key_descriptors.len() <= 255
}

/// Whether a write is one that a payload can hold.
pub open spec fn write_mode_valid(mode: WriteModeView) -> bool {
    match mode {
        WriteModeView::TopicName { topic_name, typename, qos, key_descriptors, .. } => {
            &&& string_fits(topic_name)
            &&& string_fits(typename)
            &&& qos_valid(qos)
            &&& key_descriptors.len() <= 255
        },
        WriteModeView::WriterId { key_bytes, .. } => key_bytes.len() < 0x1_0000_0000,
    }
}

proof fn lemma_join_five(a: Seq<u8>, b: Seq<u8>, c: Seq<u8>, d: Seq<u8>, e: Seq<u8>)
    ensures
        a + b + c + d + e == a + (b + (c + (d + e))),
{
    assert(a + b + c + d + e =~= a + (b + (c + (d + e))));
}

proof fn lemma_join_behind_byte(
    byte: u8,
    a: Seq<u8>,
    b: Seq<u8>,
    c: Seq<u8>,
    d: Seq<u8>,
    e: Seq<u8>,
)
    ensures
        seq![byte] + a + b + c + d + e == seq![byte] + (a + (b + (c + (d + e)))),
        (seq![byte] + a + b + c + d + e).skip(1) == a + (b + (c + (d + e))),
{
    assert(seq![byte] + a + b + c + d + e =~= seq![byte] + (a + (b + (c + (d + e)))));
    assert((seq![byte] + a + b + c + d + e).skip(1) =~= a + (b + (c + (d + e))));
}

proof fn lemma_first_byte(byte: u8, rest: Seq<u8>)
    ensures
        (seq![byte] + rest).len() == rest.len() + 1,
        (seq![byte] + rest)[0] == byte,
        (seq![byte] + rest).skip(1) == rest,
{
    assert((seq![byte] + rest).skip(1) =~= rest);
}

proof fn lemma_flag_round_trip(is_keyed: bool, rest: Seq<u8>)
    ensures
        spec_read_bool(seq![bool_byte(is_keyed)] + rest) == (
            Ok::<bool, ProtocolErrorView>(is_keyed),
            rest,
        ),
{
    lemma_first_byte(bool_byte(is_keyed), rest);
}

proof fn lemma_last_key_descriptors(keys: Seq<KeyField>)
    requires
        keys.len() <= 255,
    ensures
        spec_parse_key_descriptors(key_descriptors_bytes(keys)) == (
            Ok::<Seq<KeyField>, ProtocolErrorView>(keys),
            Seq::<u8>::empty(),
        ),
{
    law_key_descriptors_round_trip(keys, Seq::empty());
    assert(key_descriptors_bytes(keys) + Seq::<u8>::empty() =~= key_descriptors_bytes(keys));
}

proof fn lemma_endpoint_chain(
    p: EndpointView,
    s: Seq<u8>,
    s1: Seq<u8>,
    s2: Seq<u8>,
    s3: Seq<u8>,
    s4: Seq<u8>,
)
    requires
        spec_read_string(s) == (Ok::<Seq<char>, ProtocolErrorView>(p.topic_name), s1),
        spec_read_string(s1) == (Ok::<Seq<char>, ProtocolErrorView>(p.typename), s2),
        spec_parse_qos(s2) == (Ok::<Seq<QosPolicyView>, ProtocolErrorView>(p.qos), s3),
        spec_read_bool(s3) == (Ok::<bool, ProtocolErrorView>(p.is_keyed), s4),
        spec_parse_key_descriptors(s4) == (
            Ok::<Seq<KeyField>, ProtocolErrorView>(p.key_descriptors),
            Seq::<u8>::empty(),
        ),
    ensures
        spec_parse_endpoint(s) == Ok::<EndpointView, ProtocolErrorView>(p),
{
}

/// The payload of a SUBSCRIBE or CREATE_WRITER message that is written is read
/// back.
pub proof fn law_endpoint_round_trip(p: EndpointView)
    requires
        endpoint_valid(p),
    ensures
        spec_parse_endpoint(endpoint_bytes(p)) == Ok::<EndpointView, ProtocolErrorView>(p),
{
    let topic = string_bytes(p.topic_name);
    let typ = string_bytes(p.typename);
    let policies = qos_bytes(p.qos);
    let flag = seq![bool_byte(p.is_keyed)];
    let keys = key_descriptors_bytes(p.key_descriptors);
    let s = endpoint_bytes(p);
    lemma_join_five(topic, typ, policies, flag, keys);
    law_string_round_trip(p.topic_name, typ + (policies + (flag + keys)));
    law_string_round_trip(p.typename, policies + (flag + keys));
    law_qos_round_trip(p.qos, flag + keys);
    lemma_flag_round_trip(p.is_keyed, keys);
    lemma_last_key_descriptors(p.key_descriptors);
    lemma_endpoint_chain(
        p,
        s,
        typ + (policies + (flag + keys)),
        policies + (flag + keys),
        flag + keys,
        keys,
    );
}

/// A SUBSCRIBE or CREATE_WRITER payload that is accepted is what was read from
/// it written out, but for the byte of the `is_keyed` flag: every byte other
/// than zero stands for `true`.
pub proof fn law_endpoint_canonical(s: Seq<u8>, p: EndpointView)
    requires
        spec_parse_endpoint(s) == Ok::<EndpointView, ProtocolErrorView>(p),
    ensures
        endpoint_valid(p),
        exists|flag: u8|
            p.is_keyed == (flag != 0) && s == #[trigger] flagged_endpoint_bytes(p, flag),
{
    let s1 = spec_read_string(s).1;
    let s2 = spec_read_string(s1).1;
    let s3 = spec_parse_qos(s2).1;
    let s4 = spec_read_bool(s3).1;
    let s5 = spec_parse_key_descriptors(s4).1;
    law_string_canonical(s, p.topic_name, s1);
    law_string_canonical(s1, p.typename, s2);
    law_qos_canonical(s2, p.qos, s3);
    law_key_descriptors_canonical(s4, p.key_descriptors, s5);
    let flag = s3[0];
    let keys = key_descriptors_bytes(p.key_descriptors);
    assert(s3 =~= seq![flag] + s4);
    assert(s5.len() == 0);
    assert(keys + s5 =~= keys);
    lemma_join_five(
        string_bytes(p.topic_name),
        string_bytes(p.typename),
        qos_bytes(p.qos),
        seq![flag],
        keys,
    );
    assert(s == flagged_endpoint_bytes(p, flag));
}

/// The payload of an UNSUBSCRIBE message that is written is read back.
pub proof fn law_unsubscribe_round_trip(p: TopicView)
    requires
        string_fits(p.topic_name),
        string_fits(p.typename),
    ensures
        spec_parse_unsubscribe(unsubscribe_bytes(p)) == Ok::<TopicView, ProtocolErrorView>(p),
{
    let s2 = Seq::<u8>::empty();
    let s1 = string_bytes(p.typename) + s2;
    assert(unsubscribe_bytes(p) =~= string_bytes(p.topic_name) + s1);
    law_string_round_trip(p.topic_name, s1);
    law_string_round_trip(p.typename, s2);
}

/// An UNSUBSCRIBE payload that is accepted is what was read from it written
/// out.
pub proof fn law_unsubscribe_canonical(s: Seq<u8>, p: TopicView)
    requires
        spec_parse_unsubscribe(s) == Ok::<TopicView, ProtocolErrorView>(p),
    ensures
        s == unsubscribe_bytes(p),
        string_fits(p.topic_name),
        string_fits(p.typename),
{
    let s1 = spec_read_string(s).1;
    let s2 = spec_read_string(s1).1;
    law_string_canonical(s, p.topic_name, s1);
    law_string_canonical(s1, p.typename, s2);
    assert(s =~= unsubscribe_bytes(p));
}

proof fn lemma_mode_byte(t: Seq<u8>)
    ensures
        spec_parse_write_mode(seq![0x00u8] + t) == spec_parse_topic_mode(t),
        spec_parse_write_mode(seq![0x01u8] + t) == spec_parse_writer_mode(t),
{
    lemma_first_byte(0x00, t);
    lemma_first_byte(0x01, t);
}

proof fn lemma_topic_mode_round_trip(mode: WriteModeView)
    requires
        mode is TopicName,
        write_mode_valid(mode),
    ensures
        spec_parse_topic_mode(
            string_bytes(mode->topic_name) + (string_bytes(mode->typename) + (qos_bytes(mode->qos)
                + (key_descriptors_bytes(mode->key_descriptors) + mode->TopicName_data))),
        ) == Ok::<WriteModeView, ProtocolErrorView>(mode),
{
    let s3 = key_descriptors_bytes(mode->key_descriptors) + mode->TopicName_data;
    let s2 = qos_bytes(mode->qos) + s3;
    let s1 = string_bytes(mode->typename) + s2;
    law_string_round_trip(mode->topic_name, s1);
    law_string_round_trip(mode->typename, s2);
    law_qos_round_trip(mode->qos, s3);
    law_key_descriptors_round_trip(mode->key_descriptors, mode->TopicName_data);
}

proof fn lemma_writer_mode_round_trip(writer_id: u32, key_bytes: Seq<u8>, data: Seq<u8>)
    requires
        key_bytes.len() < 0x1_0000_0000,
    ensures
        spec_parse_writer_mode(
            le32_bytes(writer_id as int) + (le32_bytes(key_bytes.len() as int) + (key_bytes
                + data)),
        ) == Ok::<WriteModeView, ProtocolErrorView>(
            WriteModeView::WriterId { writer_id, key_bytes, data },
        ),
{
    let rest = key_bytes + data;
    let length = le32_bytes(key_bytes.len() as int);
    let t = le32_bytes(writer_id as int) + (length + rest);
    assert(t.skip(4) =~= length + rest);
    assert(t.skip(8) =~= rest);
    lemma_le32_of_bytes(writer_id as int, length + rest);
    lemma_le32_of_bytes(key_bytes.len() as int, rest);
    assert(rest.take(key_bytes.len() as int) =~= key_bytes);
    assert(rest.skip(key_bytes.len() as int) =~= data);
}

proof fn lemma_topic_mode_bytes(mode: WriteModeView)
    requires
        mode is TopicName,
    ensures
        write_mode_bytes(mode) == seq![0x00u8] + (string_bytes(mode->topic_name) + (string_bytes(
            mode->typename,
        ) + (qos_bytes(mode->qos) + (key_descriptors_bytes(mode->key_descriptors)
            + mode->TopicName_data)))),
{
    lemma_join_behind_byte(
        0x00,
        string_bytes(mode->topic_name),
        string_bytes(mode->typename),
        qos_bytes(mode->qos),
        key_descriptors_bytes(mode->key_descriptors),
        mode->TopicName_data,
    );
}

proof fn lemma_topic_mode_whole(mode: WriteModeView, t: Seq<u8>)
    requires
        write_mode_bytes(mode) == seq![0x00u8] + t,
        spec_parse_topic_mode(t) == Ok::<WriteModeView, ProtocolErrorView>(mode),
    ensures
        spec_parse_write_mode(write_mode_bytes(mode)) == Ok::<WriteModeView, ProtocolErrorView>(
            mode,
        ),
{
    lemma_mode_byte(t);
}

proof fn lemma_writer_mode_whole(mode: WriteModeView, t: Seq<u8>)
    requires
        write_mode_bytes(mode) == seq![0x01u8] + t,
        spec_parse_writer_mode(t) == Ok::<WriteModeView, ProtocolErrorView>(mode),
    ensures
        spec_parse_write_mode(write_mode_bytes(mode)) == Ok::<WriteModeView, ProtocolErrorView>(
            mode,
        ),
{
    lemma_mode_byte(t);
}

proof fn lemma_writer_mode_bytes(mode: WriteModeView)
    requires
        mode is WriterId,
        mode->key_bytes.len() < 0x1_0000_0000,
    ensures
        write_mode_bytes(mode) == seq![0x01u8] + (le32_bytes(mode->writer_id as int) + (le32_bytes(
            mode->key_bytes.len() as int,
        ) + (mode->key_bytes + mode->WriterId_data))),
{
    lemma_join_five(
        seq![0x01u8],
        le32_bytes(mode->writer_id as int),
        le32_bytes(mode->key_bytes.len() as int),
        mode->key_bytes,
        mode->WriterId_data,
    );
}

proof fn lemma_topic_mode_law(mode: WriteModeView)
    requires
        mode is TopicName,
        write_mode_valid(mode),
    ensures
        spec_parse_write_mode(write_mode_bytes(mode)) == Ok::<WriteModeView, ProtocolErrorView>(
            mode,
        ),
{
    lemma_topic_mode_bytes(mode);
    lemma_topic_mode_round_trip(mode);
    lemma_topic_mode_whole(
        mode,
        string_bytes(mode->topic_name) + (string_bytes(mode->typename) + (qos_bytes(mode->qos) + (
        key_descriptors_bytes(mode->key_descriptors) + mode->TopicName_data))),
    );
}

proof fn lemma_writer_mode_law(mode: WriteModeView)
    requires
        mode is WriterId,
        write_mode_valid(mode),
    ensures
        spec_parse_write_mode(write_mode_bytes(mode)) == Ok::<WriteModeView, ProtocolErrorView>(
            mode,
        ),
{
    let id = le32_bytes(mode->writer_id as int);
    let length = le32_bytes(mode->key_bytes.len() as int);
    let data = mode->WriterId_data;
    lemma_writer_mode_bytes(mode);
    lemma_writer_mode_round_trip(mode->writer_id, mode->key_bytes, data);
    lemma_writer_mode_whole(mode, id + (length + (mode->key_bytes + data)));
}

/// The payload of a WRITE, DISPOSE or WRITE_DISPOSE message that is written is
/// read back.
pub proof fn law_write_mode_round_trip(mode: WriteModeView)
    requires
        write_mode_valid(mode),
    ensures
        spec_parse_write_mode(write_mode_bytes(mode)) == Ok::<WriteModeView, ProtocolErrorView>(
            mode,
        ),
{
    if mode is TopicName {
        lemma_topic_mode_law(mode);
    } else {
        lemma_writer_mode_law(mode);
    }
}

proof fn lemma_topic_mode_canonical(t: Seq<u8>, mode: WriteModeView)
    requires
        spec_parse_topic_mode(t) == Ok::<WriteModeView, ProtocolErrorView>(mode),
    ensures
        mode is TopicName,
        write_mode_bytes(mode) == seq![0x00u8] + t,
        write_mode_valid(mode),
{
    let s1 = spec_read_string(t).1;
    let s2 = spec_read_string(s1).1;
    let s3 = spec_parse_qos(s2).1;
    law_string_canonical(t, mode->topic_name, s1);
    law_string_canonical(s1, mode->typename, s2);
    law_qos_canonical(s2, mode->qos, s3);
    law_key_descriptors_canonical(s3, mode->key_descriptors, mode->TopicName_data);
    lemma_topic_mode_bytes(mode);
}

proof fn lemma_writer_mode_canonical(t: Seq<u8>, mode: WriteModeView)
    requires
        spec_parse_writer_mode(t) == Ok::<WriteModeView, ProtocolErrorView>(mode),
    ensures
        mode is WriterId,
        write_mode_bytes(mode) == seq![0x01u8] + t,
        write_mode_valid(mode),
{
    let rest = t.skip(8);
    let key_len = le32(t.skip(4));
    lemma_bytes_of_le32(t);
    lemma_bytes_of_le32(t.skip(4));
    assert(mode->key_bytes.len() == key_len);
    assert(rest =~= rest.take(key_len) + rest.skip(key_len));
    assert(t =~= t.take(4) + t.skip(4).take(4) + rest);
    assert(write_mode_bytes(mode) =~= seq![0x01u8] + (t.take(4) + t.skip(4).take(4) + (rest.take(
        key_len,
    ) + rest.skip(key_len))));
}

/// A WRITE, DISPOSE or WRITE_DISPOSE payload that is accepted is what was read
/// from it written out.
pub proof fn law_write_mode_canonical(s: Seq<u8>, mode: WriteModeView)
    requires
        spec_parse_write_mode(s) == Ok::<WriteModeView, ProtocolErrorView>(mode),
    ensures
        s == write_mode_bytes(mode),
        write_mode_valid(mode),
{
    assert(s =~= seq![s[0]] + s.skip(1));
    if s[0] == 0x00 {
        lemma_topic_mode_canonical(s.skip(1), mode);
    } else {
        lemma_writer_mode_canonical(s.skip(1), mode);
    }
}

/// The payload of a DELETE_WRITER message that is written is read back, and one
/// that is accepted is what was read from it written out.
pub proof fn law_delete_writer_round_trip(writer_id: u32, s: Seq<u8>)
    ensures
        spec_parse_delete_writer(le32_bytes(writer_id as int)) == Ok::<u32, ProtocolErrorView>(
            writer_id,
        ),
        spec_parse_delete_writer(s) == Ok::<u32, ProtocolErrorView>(writer_id) ==> s == le32_bytes(
            writer_id as int,
        ),
{
    let bytes = le32_bytes(writer_id as int);
    lemma_le32_of_bytes(writer_id as int, Seq::empty());
    assert(bytes + Seq::<u8>::empty() =~= bytes);
    if spec_parse_delete_writer(s) == Ok::<u32, ProtocolErrorView>(writer_id) {
        lemma_bytes_of_le32(s);
        assert(s =~= s.take(4));
    }
}

/// The payload of an ERROR message that is written is read back.
pub proof fn law_error_round_trip(p: ErrorPayloadView)
    requires
        string_fits(p.error_message),
    ensures
        spec_parse_error(error_bytes(p)) == Ok::<ErrorPayloadView, ProtocolErrorView>(p),
{
    let s = error_bytes(p);
    let text = string_bytes(p.error_message);
    law_error_codes(p.error_code.code(), p.error_code);
    lemma_le16_of_bytes(p.error_code.code() as int, text);
    assert(s.skip(2) =~= text + Seq::<u8>::empty());
    law_string_round_trip(p.error_message, Seq::empty());
}

/// An ERROR payload that is accepted is what was read from it written out.
pub proof fn law_error_canonical(s: Seq<u8>, p: ErrorPayloadView)
    requires
        spec_parse_error(s) == Ok::<ErrorPayloadView, ProtocolErrorView>(p),
    ensures
        s == error_bytes(p),
        string_fits(p.error_message),
{
    let rest = spec_read_string(s.skip(2)).1;
    lemma_bytes_of_le16(s);
    law_string_canonical(s.skip(2), p.error_message, rest);
    assert(p.error_code.code() == le16(s));
    assert(s =~= s.take(2) + s.skip(2));
    assert(s =~= error_bytes(p));
}

/// The payload of a DATA or DATA_DISPOSED message that is written is read back.
pub proof fn law_sample_round_trip(p: SampleView)
    requires
        string_fits(p.topic_name),
    ensures
        spec_parse_sample(sample_bytes(p)) == Ok::<SampleView, ProtocolErrorView>(p),
{
    let s1 = le64_bytes(p.source_timestamp as int) + p.data;
    assert(sample_bytes(p) =~= string_bytes(p.topic_name) + s1);
    law_string_round_trip(p.topic_name, s1);
    lemma_le64_of_bytes(p.source_timestamp as int, p.data);
    assert(s1.skip(8) =~= p.data);
}

/// A DATA or DATA_DISPOSED payload that is accepted is what was read from it
/// written out.
pub proof fn law_sample_canonical(s: Seq<u8>, p: SampleView)
    requires
        spec_parse_sample(s) == Ok::<SampleView, ProtocolErrorView>(p),
    ensures
        s == sample_bytes(p),
        string_fits(p.topic_name),
{
    let s1 = spec_read_string(s).1;
    law_string_canonical(s, p.topic_name, s1);
    lemma_bytes_of_le64(s1);
    assert(p.source_timestamp == le64(s1));
    assert(s1 =~= s1.take(8) + s1.skip(8));
    assert(s =~= sample_bytes(p));
}

/// The payload of a DATA_NO_WRITERS message that is written is read back.
pub proof fn law_no_writers_round_trip(p: NoWritersView)
    requires
        string_fits(p.topic_name),
    ensures
        spec_parse_no_writers(no_writers_bytes(p)) == Ok::<NoWritersView, ProtocolErrorView>(p),
{
    law_string_round_trip(p.topic_name, p.key_data);
}

/// A DATA_NO_WRITERS payload that is accepted is what was read from it written
/// out.
pub proof fn law_no_writers_canonical(s: Seq<u8>, p: NoWritersView)
    requires
        spec_parse_no_writers(s) == Ok::<NoWritersView, ProtocolErrorView>(p),
    ensures
        s == no_writers_bytes(p),
        string_fits(p.topic_name),
{
    law_string_canonical(s, p.topic_name, p.key_data);
}

} // verus!
