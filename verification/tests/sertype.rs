//! Opaque type support: keys, digests and hashes.
use cyclone_dds_ws_bridge::dds::hash::fnv1a_hash;
use cyclone_dds_ws_bridge::dds::sertype::{
    create_opaque_sertype, extract_key_bytes, hash_key_bytes, keys_equal, md5_hash, murmurhash3,
    read_u32_cdr, st_hash, OpaqueSerdata, SampleWrapper,
};
use cyclone_dds_ws_bridge::protocol::{KeyDescriptors, KeyField, KeyTypeHint};

#[test]
fn test_extract_key_fixed_le() {
    // XCDR2 LE payload: encap header [0x00, 0x01, ...] then int32 at offset 4
    let data = [0x00, 0x01, 0x00, 0x00, 0x2A, 0x00, 0x00, 0x00];
    let field = KeyField {
        offset: 4,
        size: 4,
        type_hint: KeyTypeHint::Int32,
    };
    let key = extract_key_bytes(&data, &field);
    assert_eq!(key, &[0x2A, 0x00, 0x00, 0x00]);
}

#[test]
fn test_extract_key_string_le() {
    // XCDR2 LE: encap [0x00, 0x01, ...], string at offset 4: len=6 "Hello\0"
    let data = [
        0x00, 0x01, 0x00, 0x00, // encap header (LE)
        0x06, 0x00, 0x00, 0x00, // string length = 6 (LE)
        b'H', b'e', b'l', b'l', b'o', 0x00, // "Hello\0"
    ];
    let field = KeyField {
        offset: 4,
        size: 0,
        type_hint: KeyTypeHint::String,
    };
    let key = extract_key_bytes(&data, &field);
    // Should include length prefix + chars
    assert_eq!(key, &[0x06, 0x00, 0x00, 0x00, b'H', b'e', b'l', b'l', b'o', 0x00]);
}

#[test]
fn test_extract_key_string_be() {
    // XCDR2 BE: encap [0x00, 0x00, ...], string at offset 4: len=6 "Hello\0"
    let data = [
        0x00, 0x00, 0x00, 0x00, // encap header (BE)
        0x00, 0x00, 0x00, 0x06, // string length = 6 (BE)
        b'H', b'e', b'l', b'l', b'o', 0x00,
    ];
    let field = KeyField {
        offset: 4,
        size: 0,
        type_hint: KeyTypeHint::String,
    };
    let key = extract_key_bytes(&data, &field);
    assert_eq!(key, &[0x00, 0x00, 0x00, 0x06, b'H', b'e', b'l', b'l', b'o', 0x00]);
}

#[test]
fn test_extract_key_out_of_bounds() {
    let data = [0x00, 0x01];
    let field = KeyField {
        offset: 10,
        size: 4,
        type_hint: KeyTypeHint::Int32,
    };
    assert_eq!(extract_key_bytes(&data, &field), &[]);
}

#[test]
fn test_keys_equal_same() {
    let data = [0x00, 0x01, 0x00, 0x00, 0x2A, 0x00, 0x00, 0x00];
    let fields = vec![KeyField {
        offset: 4,
        size: 4,
        type_hint: KeyTypeHint::Int32,
    }];
    assert!(keys_equal(&data, &data, &fields));
}

#[test]
fn test_keys_equal_different() {
    let a = [0x00, 0x01, 0x00, 0x00, 0x2A, 0x00, 0x00, 0x00];
    let b = [0x00, 0x01, 0x00, 0x00, 0x2B, 0x00, 0x00, 0x00];
    let fields = vec![KeyField {
        offset: 4,
        size: 4,
        type_hint: KeyTypeHint::Int32,
    }];
    assert!(!keys_equal(&a, &b, &fields));
}

#[test]
fn test_hash_key_bytes_deterministic() {
    let data = [0x00, 0x01, 0x00, 0x00, 0x01, 0x02, 0x03, 0x04];
    let fields = vec![KeyField {
        offset: 4,
        size: 4,
        type_hint: KeyTypeHint::Opaque,
    }];
    let h1 = hash_key_bytes(&data, &fields);
    let h2 = hash_key_bytes(&data, &fields);
    assert_eq!(h1, h2);
}

#[test]
fn test_hash_key_bytes_differs() {
    let a = [0x00, 0x01, 0x00, 0x00, 0x01, 0x00, 0x00, 0x00];
    let b = [0x00, 0x01, 0x00, 0x00, 0x02, 0x00, 0x00, 0x00];
    let fields = vec![KeyField {
        offset: 4,
        size: 4,
        type_hint: KeyTypeHint::Int32,
    }];
    assert_ne!(hash_key_bytes(&a, &fields), hash_key_bytes(&b, &fields));
}

#[test]
fn test_keys_equal_empty_fields() {
    // No key fields => always equal
    let a = [1, 2, 3];
    let b = [4, 5, 6];
    assert!(keys_equal(&a, &b, &[]));
}

// --- MD5 tests (RFC 1321 test vectors) ---

#[test]
fn test_md5_empty() {
    let digest = md5_hash(b"");
    assert_eq!(
        digest,
        [0xd4, 0x1d, 0x8c, 0xd9, 0x8f, 0x00, 0xb2, 0x04,
         0xe9, 0x80, 0x09, 0x98, 0xec, 0xf8, 0x42, 0x7e]
    );
}

#[test]
fn test_md5_abc() {
    let digest = md5_hash(b"abc");
    assert_eq!(
        digest,
        [0x90, 0x01, 0x50, 0x98, 0x3c, 0xd2, 0x4f, 0xb0,
         0xd6, 0x96, 0x3f, 0x7d, 0x28, 0xe1, 0x7f, 0x72]
    );
}

#[test]
fn test_md5_long() {
    // "abcdefghijklmnopqrstuvwxyz"
    let digest = md5_hash(b"abcdefghijklmnopqrstuvwxyz");
    assert_eq!(
        digest,
        [0xc3, 0xfc, 0xd3, 0xd7, 0x61, 0x92, 0xe4, 0x00,
         0x7d, 0xfb, 0x49, 0x6c, 0xca, 0x67, 0xe1, 0x3b]
    );
}

// --- MurmurHash3 tests ---

#[test]
fn test_murmurhash3_deterministic() {
    let data = [0x01, 0x02, 0x03, 0x04];
    let h1 = murmurhash3(&data, 0);
    let h2 = murmurhash3(&data, 0);
    assert_eq!(h1, h2);
}

#[test]
fn test_murmurhash3_different_data() {
    let a = [0x01, 0x02, 0x03, 0x04];
    let b = [0x05, 0x06, 0x07, 0x08];
    assert_ne!(murmurhash3(&a, 0), murmurhash3(&b, 0));
}

#[test]
fn test_murmurhash3_different_seeds() {
    let data = [0x01, 0x02, 0x03, 0x04];
    assert_ne!(murmurhash3(&data, 0), murmurhash3(&data, 42));
}

#[test]
fn test_murmurhash3_empty() {
    // Empty data should not panic, and should produce seed-dependent output
    let h = murmurhash3(&[], 0);
    assert_eq!(h, murmurhash3(&[], 0));
    assert_ne!(murmurhash3(&[], 0), murmurhash3(&[], 1));
}

#[test]
fn test_murmurhash3_tail() {
    // Non-multiple-of-4 length exercises the tail handling
    let data = [0x01, 0x02, 0x03, 0x04, 0x05];
    let h = murmurhash3(&data, 0);
    assert_ne!(h, 0);
}

// --- Exact values ---

fn hex(bytes: &[u8]) -> String {
    let mut text = String::new();
    for b in bytes {
        text.push_str(&format!("{b:02x}"));
    }
    text
}

#[test]
fn murmurhash3_known_values() {
    assert_eq!(murmurhash3(b"", 0), 0);
    assert_eq!(murmurhash3(b"", 1), 0x514e28b7);
    assert_eq!(murmurhash3(b"hello", 0), 0x248bfa47);
    assert_eq!(murmurhash3(b"test", 0x9747b28c), 0x704b81dc);
    assert_eq!(murmurhash3(&[1, 2, 3], 7), 0x5bc4890d);
    assert_eq!(murmurhash3(&[1, 2, 3, 4, 5, 6, 7], 42), 0xe7831cf2);
}

#[test]
fn md5_at_the_block_boundaries() {
    assert_eq!(hex(&md5_hash(&[b'a'; 55])), "ef1772b6dff9a122358552954ad0df65");
    assert_eq!(hex(&md5_hash(&[b'a'; 56])), "3b0c8ac703f828b04c6c197006d17218");
    assert_eq!(hex(&md5_hash(&[b'a'; 64])), "014842d480b571495a4a0363793f7367");
    let eighty = b"12345678901234567890123456789012345678901234567890123456789012345678901234567890";
    assert_eq!(hex(&md5_hash(eighty)), "57edf4a22be3c955ac49da2e2107b67a");
}

#[test]
fn fnv1a_known_values() {
    assert_eq!(fnv1a_hash(2166136261, b""), 0x811c9dc5);
    assert_eq!(fnv1a_hash(2166136261, b"a"), 0xe40c292c);
    assert_eq!(fnv1a_hash(2166136261, b"foobar"), 0xbf9cf968);
}

#[test]
fn key_fields_are_hashed_one_after_the_other() {
    let data = [0x00, 0x01, 0x00, 0x00, b'f', b'o', b'o', 0xFF, b'b', b'a', b'r'];
    let fields = [
        KeyField { offset: 4, size: 3, type_hint: KeyTypeHint::Opaque },
        KeyField { offset: 8, size: 3, type_hint: KeyTypeHint::Opaque },
    ];
    assert_eq!(hash_key_bytes(&data, &fields), 0xbf9cf968);
    assert_eq!(hash_key_bytes(&data, &[]), 0x811c9dc5);
}

#[test]
fn integers_follow_the_byte_order_of_the_header() {
    assert_eq!(read_u32_cdr(&[0, 1, 0, 0, 1, 2, 3, 4], 4), Some(0x04030201));
    assert_eq!(read_u32_cdr(&[0, 0, 0, 0, 1, 2, 3, 4], 4), Some(0x01020304));
    assert_eq!(read_u32_cdr(&[0, 1, 0, 0, 1, 2, 3, 4], 5), None);
    assert_eq!(read_u32_cdr(&[0, 1, 0], 0), None);
}

#[test]
fn keys_that_reach_past_the_end_are_clipped() {
    let data = [0x00, 0x01, 0x00, 0x00, 1, 2];
    let long = KeyField { offset: 4, size: 8, type_hint: KeyTypeHint::Int64 };
    assert_eq!(extract_key_bytes(&data, &long), &[1, 2]);
    let text = KeyField { offset: 4, size: 0, type_hint: KeyTypeHint::String };
    assert_eq!(extract_key_bytes(&data, &text), &[] as &[u8]);
    let cut = [0x00, 0x01, 0x00, 0x00, 9, 0, 0, 0, b'x'];
    assert_eq!(extract_key_bytes(&cut, &text), &[9, 0, 0, 0, b'x']);
}

#[test]
fn type_names_are_hashed_in_base_31() {
    assert_eq!(st_hash(b""), 0);
    assert_eq!(st_hash(b"ab"), 3105);
    assert_eq!(st_hash(b"TestType"), 0xbf80130c);
    let keys = KeyDescriptors {
        keys: vec![KeyField { offset: 4, size: 4, type_hint: KeyTypeHint::Int32 }],
    };
    let st = create_opaque_sertype("TestType", true, &keys);
    assert_eq!(st.type_hash(), 0xbf80130c);
    assert!(!st.no_key);
    assert_eq!(st.allowed_data_representation, 5);
    assert_eq!(st.key_fields, keys.keys);
    let other = create_opaque_sertype("TestType", false, &KeyDescriptors { keys: vec![] });
    assert!(other.no_key);
    assert!(st.same_type(&other));
    assert!(!st.same_type(&create_opaque_sertype("T", true, &keys)));
}

#[test]
fn samples_pass_through_unchanged() {
    let sample = SampleWrapper::from_bytes(&[0, 1, 0, 0, 7], &[7]);
    let sd = OpaqueSerdata::from_sample(&sample);
    assert_eq!(sd.size(), 5);
    assert_eq!(sd.to_ser(0, 5), vec![0, 1, 0, 0, 7]);
    assert_eq!(sd.to_ser(3, 2), vec![0, 7]);
    assert_eq!(sd.to_ser(3, 3), vec![0, 0, 0]);
    assert_eq!(sd.bytes_at(3, 2), Some(&[0, 7][..]));
    assert_eq!(sd.bytes_at(5, 0), Some(&[][..]));
    assert_eq!(sd.bytes_at(3, 3), None);
    assert_eq!(sd.bytes_at(usize::MAX, 2), None);
    let received = OpaqueSerdata::from_ser(sd.to_ser(0, 5));
    let got = received.to_sample();
    assert_eq!(got.data, vec![0, 1, 0, 0, 7]);
    assert!(got.key_data.is_empty());
}

#[test]
fn pieces_are_gathered_up_to_the_size() {
    let a: &[u8] = &[1, 2];
    let b: &[u8] = &[3, 4, 5];
    assert_eq!(OpaqueSerdata::from_ser_iov(&vec![a, b], 5).to_sample().data, vec![1, 2, 3, 4, 5]);
    assert_eq!(OpaqueSerdata::from_ser_iov(&vec![a, b], 3).to_sample().data, vec![1, 2, 3]);
    assert_eq!(OpaqueSerdata::from_ser_iov(&vec![a], 4).to_sample().data, vec![1, 2, 0, 0]);
}

#[test]
fn short_client_keys_are_their_own_hash() {
    let sd = OpaqueSerdata::from_sample(&SampleWrapper::from_bytes(&[0], &[1, 2, 3]));
    let fields: Vec<KeyField> = vec![];
    let plain = sd.get_keyhash(&fields, false);
    assert_eq!(plain, [1, 2, 3, 0, 0, 0, 0, 0, 0, 0, 0, 0, 0, 0, 0, 0]);
    assert_eq!(hex(&sd.get_keyhash(&fields, true)), "5289df737df57326fcdd22597afb1fac");
    assert_eq!(sd.hash(7), 0x5bc4890d);
}

#[test]
fn long_client_keys_are_digested() {
    let key: Vec<u8> = (0..17).collect();
    let sd = OpaqueSerdata::from_sample(&SampleWrapper::from_bytes(&[0], &key));
    assert_eq!(hex(&sd.get_keyhash(&vec![], false)), "1bdd36b0a024c90db383512607293692");
}

#[test]
fn without_client_keys_the_fields_decide() {
    let fields = vec![KeyField { offset: 4, size: 4, type_hint: KeyTypeHint::Int32 }];
    let sd = OpaqueSerdata::from_ser(vec![0, 1, 0, 0, 0x2A, 0, 0, 0]);
    let mut expected = [0u8; 16];
    expected[..4].copy_from_slice(&0x72d84ddfu32.to_le_bytes());
    assert_eq!(sd.get_keyhash(&fields, true), expected);
    assert_eq!(sd.get_keyhash(&vec![], true), [0u8; 16]);
    assert_eq!(OpaqueSerdata::from_ser(vec![]).get_keyhash(&fields, false), [0u8; 16]);
    assert_eq!(sd.hash(7), 7);
}

#[test]
fn samples_are_compared_by_client_keys_before_fields() {
    let fields = vec![KeyField { offset: 4, size: 1, type_hint: KeyTypeHint::Opaque }];
    let with_key = |data: u8, key: &[u8]| {
        OpaqueSerdata::from_sample(&SampleWrapper::from_bytes(&[0, 1, 0, 0, data], key))
    };
    assert!(with_key(1, &[9]).eqkey(&with_key(2, &[9]), &fields));
    assert!(!with_key(1, &[9]).eqkey(&with_key(1, &[8]), &fields));
    assert!(!with_key(1, &[9]).eqkey(&with_key(2, &[]), &fields));
    assert!(with_key(1, &[9]).eqkey(&with_key(1, &[]), &fields));
    assert!(with_key(1, &[]).eqkey(&with_key(2, &[]), &vec![]));
    let empty = OpaqueSerdata { data: None, key_data: vec![] };
    assert!(!empty.eqkey(&with_key(1, &[]), &fields));
    assert!(empty.eqkey(&OpaqueSerdata { data: None, key_data: vec![] }, &fields));
    assert_eq!(empty.size(), 0);
    assert_eq!(OpaqueSerdata::from_keyhash(&[3; 16]).to_sample().data, vec![3; 16]);
}
