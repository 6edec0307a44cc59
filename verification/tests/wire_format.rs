use bice_server::wire::{
    decode_record, encode_pull_reply, encode_push_reply, encode_record, encode_versions,
    push_varint, read_varint, zigzag_i32, zigzag_i64,
};

fn sample_kdf() -> [u8; 64] {
    let mut k = [0u8; 64];
    for (i, b) in k.iter_mut().enumerate() {
        *b = (i as u8).wrapping_mul(37).wrapping_add(5);
    }
    k
}

fn sample_uid() -> [u8; 16] {
    [0x1f, 0x2e, 0x3d, 0x4c, 0x5b, 0x6a, 0x79, 0x88, 0x97, 0xa6, 0xb5, 0xc4, 0xd3, 0xe2, 0xf1, 0x00]
}

#[test]
fn varint_known_encodings() {
    let cases: [(u64, &[u8]); 6] = [
        (0, &[0x00]),
        (1, &[0x01]),
        (127, &[0x7f]),
        (128, &[0x80, 0x01]),
        (300, &[0xac, 0x02]),
        (u64::MAX, &[0xff, 0xff, 0xff, 0xff, 0xff, 0xff, 0xff, 0xff, 0xff, 0x01]),
    ];
    for (n, expected) in cases.iter() {
        let mut out = Vec::new();
        push_varint(&mut out, *n);
        assert_eq!(&out[..], *expected);
        assert_eq!(read_varint(&out, 0), Some((*n, out.len())));
    }
}

#[test]
fn varint_read_back_after_prefix_and_before_trailing_bytes() {
    for n in [0u64, 5, 127, 128, 16_383, 16_384, 1 << 35, u64::MAX - 1] {
        let mut out = vec![0xaa, 0xbb];
        push_varint(&mut out, n);
        let end = out.len();
        out.extend_from_slice(&[0x80, 0x80]);
        assert_eq!(read_varint(&out, 2), Some((n, end)));
    }
}

#[test]
fn varint_rejects_what_postcard_rejects() {
    // non-canonical but accepted: 64 written in two bytes
    assert_eq!(read_varint(&[0xc0, 0x00], 0), Some((64, 2)));
    // ends too early
    assert_eq!(read_varint(&[0x80, 0x80], 0), None);
    assert_eq!(read_varint(&[], 0), None);
    // tenth byte above 1
    assert_eq!(read_varint(&[0xff, 0xff, 0xff, 0xff, 0xff, 0xff, 0xff, 0xff, 0xff, 0x02], 0), None);
    // more than ten bytes
    assert_eq!(read_varint(&[0x80; 11], 0), None);
}

#[test]
fn zigzag_values() {
    assert_eq!(zigzag_i32(0), 0);
    assert_eq!(zigzag_i32(-1), 1);
    assert_eq!(zigzag_i32(1), 2);
    assert_eq!(zigzag_i32(-2), 3);
    assert_eq!(zigzag_i32(i32::MAX), u32::MAX - 1);
    assert_eq!(zigzag_i32(i32::MIN), u32::MAX);
    assert_eq!(zigzag_i64(i64::MIN), u64::MAX);
    assert_eq!(zigzag_i64(1_700_000_000), 3_400_000_000);
}

#[test]
fn record_layout_matches_postcard() {
    let kdf = sample_kdf();
    let uid = sample_uid();
    let ours = encode_record(&kdf, &uid);
    let theirs = postcard::to_allocvec(&(
        serde_bytes::Bytes::new(&kdf[..]),
        uuid::Uuid::from_bytes(uid),
    ))
    .unwrap();
    assert_eq!(ours, theirs);
    assert_eq!(ours.len(), 1 + 64 + 1 + 16);
    assert_eq!(ours[0], 64);
    assert_eq!(ours[65], 16);
}

#[test]
fn record_reads_back() {
    let kdf = sample_kdf();
    let uid = sample_uid();
    let mut bytes = encode_record(&kdf, &uid);
    assert_eq!(decode_record(&bytes), Some((kdf, uid)));
    bytes.extend_from_slice(b"trailing");
    assert_eq!(decode_record(&bytes), Some((kdf, uid)));
}

#[test]
fn record_decoding_agrees_with_postcard() {
    let kdf = sample_kdf();
    let uid = sample_uid();
    let good = encode_record(&kdf, &uid);
    let mut inputs: Vec<Vec<u8>> = vec![good.clone(), vec![], vec![64], good[..good.len() - 1].to_vec()];
    let mut wrong_len = good.clone();
    wrong_len[0] = 63;
    inputs.push(wrong_len);
    let mut wrong_uid_len = good.clone();
    wrong_uid_len[65] = 15;
    inputs.push(wrong_uid_len);
    let mut long_form = vec![0xc0, 0x00];
    long_form.extend_from_slice(&good[1..]);
    inputs.push(long_form);
    for input in inputs {
        let theirs: Result<(serde_bytes::ByteArray<64>, uuid::Uuid), _> = postcard::from_bytes(&input);
        let ours = decode_record(&input);
        match theirs {
            Ok((k, u)) => assert_eq!(ours, Some((*k, *u.as_bytes()))),
            Err(_) => assert_eq!(ours, None),
        }
    }
}

#[test]
fn replies_match_postcard() {
    assert_eq!(encode_push_reply(7, 1_700_000_000), postcard::to_allocvec(&("OK", 7i32, 1_700_000_000i64)).unwrap());
    assert_eq!(encode_push_reply(-3, -1), postcard::to_allocvec(&("OK", -3i32, -1i64)).unwrap());
    let file = vec![9u8; 300];
    assert_eq!(encode_pull_reply(&file, 42), postcard::to_allocvec(&("OK", file.clone(), 42i64)).unwrap());
    let versions = vec![1i32, 2, 3, 200, -70_000];
    assert_eq!(encode_versions(&versions), postcard::to_allocvec(&versions).unwrap());
    assert_eq!(encode_versions(&[]), vec![0u8]);
}

#[test]
fn push_reply_exact_bytes() {
    // "OK" as a two-byte string, version 1 -> zigzag 2, time 0 -> 0
    assert_eq!(encode_push_reply(1, 0), vec![2, b'O', b'K', 2, 0]);
}
