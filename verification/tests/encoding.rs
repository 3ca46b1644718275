//! The wire primitives against prost's encoders: both must produce the
//! same bytes for the same values.

use tmsign::encode::{
    encode_bytes_field, encode_sfixed32_field, encode_sfixed64_field, encode_sint64_field,
    encode_uint_field, encode_varint,
};

#[test]
fn varint_matches_prost() {
    let values: [u64; 10] = [0, 1, 127, 128, 129, 300, 16383, 16384, 1 << 40, u64::MAX];
    for v in values {
        let mut ours: Vec<u8> = Vec::new();
        encode_varint(&mut ours, v);
        let mut theirs: Vec<u8> = Vec::new();
        prost::encoding::encode_varint(v, &mut theirs);
        assert_eq!(ours, theirs, "varint of {v}");
    }
}

#[test]
fn sint64_field_matches_prost() {
    let values: [i64; 9] = [0, 1, -1, 2, -2, 63, -64, i64::MAX, i64::MIN];
    for (i, v) in values.iter().enumerate() {
        let tag = (i + 1) as u64;
        let mut ours: Vec<u8> = Vec::new();
        encode_sint64_field(&mut ours, tag, *v);
        let mut theirs: Vec<u8> = Vec::new();
        prost::encoding::sint64::encode(tag as u32, v, &mut theirs);
        assert_eq!(ours, theirs, "sint64 field of {v}");
    }
}

#[test]
fn uint_field_matches_prost() {
    let values: [u64; 6] = [0, 1, 2, 127, 128, u64::MAX];
    for v in values {
        let mut ours: Vec<u8> = Vec::new();
        encode_uint_field(&mut ours, 2, v);
        let mut theirs: Vec<u8> = Vec::new();
        prost::encoding::uint64::encode(2, &v, &mut theirs);
        assert_eq!(ours, theirs, "uint field of {v}");
    }
}

#[test]
fn sfixed64_field_matches_prost() {
    let values: [i64; 6] = [0, 1, -1, 1_500_000_000, i64::MAX, i64::MIN];
    for v in values {
        let mut ours: Vec<u8> = Vec::new();
        encode_sfixed64_field(&mut ours, 1, v);
        let mut theirs: Vec<u8> = Vec::new();
        prost::encoding::sfixed64::encode(1, &v, &mut theirs);
        assert_eq!(ours, theirs, "sfixed64 field of {v}");
    }
}

#[test]
fn sfixed32_field_matches_prost() {
    let values: [i32; 6] = [0, 1, -1, 999_999_999, i32::MAX, i32::MIN];
    for v in values {
        let mut ours: Vec<u8> = Vec::new();
        encode_sfixed32_field(&mut ours, 2, v);
        let mut theirs: Vec<u8> = Vec::new();
        prost::encoding::sfixed32::encode(2, &v, &mut theirs);
        assert_eq!(ours, theirs, "sfixed32 field of {v}");
    }
}

#[test]
fn bytes_field_matches_prost() {
    let values: [&[u8]; 4] = [b"", b"a", b"hello world", &[0u8; 300]];
    for v in values {
        let data: Vec<u8> = v.to_vec();
        let mut ours: Vec<u8> = Vec::new();
        encode_bytes_field(&mut ours, 1, &data);
        let mut theirs: Vec<u8> = Vec::new();
        prost::encoding::bytes::encode(1, &data, &mut theirs);
        assert_eq!(ours, theirs, "bytes field of {} bytes", data.len());
    }
}

#[test]
fn varint_known_bytes() {
    let mut out: Vec<u8> = Vec::new();
    encode_varint(&mut out, 300);
    assert_eq!(out, vec![0xAC, 0x02]);
}
