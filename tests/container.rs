use frooxengine_data_tree::{
    decode_varint, legacy, split_froox_container_header, FrooxContainer,
    FrooxContainerCompressMethod, FrooxContainerExtractError, VarIntError,
};

fn encode_varint(mut v: u64) -> Vec<u8> {
    let mut out = Vec::new();
    loop {
        let low = (v % 128) as u8;
        v /= 128;
        if v == 0 {
            out.push(low);
            return out;
        }
        out.push(low | 0x80);
    }
}

fn with_header(tag: &[u8], payload: &[u8]) -> Vec<u8> {
    let mut m = b"FrDT\0\0\0\0".to_vec();
    m.extend_from_slice(tag);
    m.extend_from_slice(payload);
    m
}

#[test]
fn varint_single_byte() {
    let (v, rest) = decode_varint(&[0x05, 0xAA]).unwrap();
    assert_eq!(v, 5);
    assert_eq!(rest, &[0xAA]);
}

#[test]
fn varint_two_bytes_little_endian_groups() {
    let (v, rest) = decode_varint(&[0xAC, 0x02]).unwrap();
    assert_eq!(v, 300);
    assert!(rest.is_empty());
}

#[test]
fn varint_round_trip_values() {
    for v in [0u64, 1, 127, 128, 16383, 16384, 1 << 35, u64::MAX - 1, u64::MAX] {
        let mut b = encode_varint(v);
        let n = b.len();
        b.extend_from_slice(&[1, 2, 3]);
        let (got, rest) = decode_varint(&b).unwrap();
        assert_eq!(got, v);
        assert_eq!(rest, &b[n..]);
        assert_eq!(rest, &[1, 2, 3]);
    }
}

#[test]
fn varint_max_is_ten_bytes() {
    let b = encode_varint(u64::MAX);
    assert_eq!(b.len(), 10);
    assert_eq!(decode_varint(&b).unwrap().0, u64::MAX);
}

#[test]
fn varint_padded_zero_groups_still_fit() {
    let mut b = vec![0x80u8; 12];
    b.push(0x00);
    assert_eq!(decode_varint(&b).unwrap().0, 0);
}

#[test]
fn varint_exhausted_is_malformed() {
    assert_eq!(decode_varint(&[]).unwrap_err(), VarIntError::Malformed);
    assert_eq!(decode_varint(&[0x80, 0xFF]).unwrap_err(), VarIntError::Malformed);
}

#[test]
fn varint_beyond_u64_is_too_large() {
    let mut b = vec![0xFFu8; 9];
    b.push(0x02);
    assert_eq!(decode_varint(&b).unwrap_err(), VarIntError::TooLarge);
}

#[test]
fn header_uncompressed_keeps_payload() {
    let payload = [9u8, 8, 7, 6];
    let m = with_header(&encode_varint(0), &payload);
    match split_froox_container_header(&m).unwrap() {
        FrooxContainer::Current { compress_method, raw_content, .. } => {
            assert_eq!(compress_method, FrooxContainerCompressMethod::NoCompress);
            assert_eq!(raw_content, &payload);
        }
        FrooxContainer::Legacy { .. } => panic!("expected a current container"),
    }
}

#[test]
fn header_each_known_method() {
    let methods = [
        FrooxContainerCompressMethod::NoCompress,
        FrooxContainerCompressMethod::LZ4,
        FrooxContainerCompressMethod::LZMA,
        FrooxContainerCompressMethod::Brotli,
    ];
    for (code, expected) in methods.iter().enumerate() {
        let m = with_header(&[code as u8], b"xyz");
        match split_froox_container_header(&m).unwrap() {
            FrooxContainer::Current { compress_method, raw_content, .. } => {
                assert_eq!(compress_method, *expected);
                assert_eq!(raw_content, b"xyz");
            }
            FrooxContainer::Legacy { .. } => panic!("expected a current container"),
        }
    }
}

#[test]
fn header_bad_first_magic() {
    for m in [&b""[..], b"FrD", b"FrDX\0\0\0\0\0", b"frdt\0\0\0\0\0", b"\0\0\0\0FrDT"] {
        assert!(matches!(
            split_froox_container_header(m),
            Err(FrooxContainerExtractError::InvalidFirstMagicNumber)
        ));
    }
}

#[test]
fn header_bad_reserved_bytes() {
    for m in [&b"FrDT"[..], b"FrDT\0\0\0", b"FrDT\0\x01\0\0\0"] {
        assert!(matches!(
            split_froox_container_header(m),
            Err(FrooxContainerExtractError::InvalidSecondMagicNumber)
        ));
    }
}

#[test]
fn header_unknown_method_99() {
    let m = with_header(&[99], b"payload");
    assert!(matches!(
        split_froox_container_header(&m),
        Err(FrooxContainerExtractError::UnknownCompressionMethod)
    ));
}

#[test]
fn header_tag_wider_than_a_byte() {
    let m = with_header(&encode_varint(256), b"");
    assert!(matches!(
        split_froox_container_header(&m),
        Err(FrooxContainerExtractError::TooLargeForCompressionMethod)
    ));
}

#[test]
fn header_missing_tag() {
    let m = with_header(&[], b"");
    assert!(matches!(
        split_froox_container_header(&m),
        Err(FrooxContainerExtractError::VarIntDecodeError(VarIntError::Malformed))
    ));
    let m = with_header(&[0x81], b"");
    assert!(matches!(
        split_froox_container_header(&m),
        Err(FrooxContainerExtractError::VarIntDecodeError(VarIntError::Malformed))
    ));
}

#[test]
fn legacy_wraps_whole_buffer() {
    let b = [1u8, 2, 3];
    match legacy(&b) {
        FrooxContainer::Legacy { raw_content } => assert_eq!(raw_content, &b),
        FrooxContainer::Current { .. } => panic!("expected a legacy container"),
    }
}

#[test]
fn method_codes_and_names() {
    let all = [
        (FrooxContainerCompressMethod::NoCompress, 0u8, "<no compress>"),
        (FrooxContainerCompressMethod::LZ4, 1, "lz4"),
        (FrooxContainerCompressMethod::LZMA, 2, "lzma"),
        (FrooxContainerCompressMethod::Brotli, 3, "brotli"),
    ];
    for (m, code, name) in all {
        assert_eq!(m.code(), code);
        assert_eq!(m.name(), name);
        assert_eq!(FrooxContainerCompressMethod::try_from(code), Ok(m));
    }
    assert_eq!(FrooxContainerCompressMethod::try_from(4), Err(()));
    assert_eq!(FrooxContainerCompressMethod::try_from(255), Err(()));
}
