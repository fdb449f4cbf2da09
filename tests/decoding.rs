use frooxengine_data_tree::{
    decompress, decompress_lz4_size_prepended, deserialize_legacy_with, legacy,
    read_lz4net_chunk, read_lz4net_chunks, split_froox_container_header, DeserializeError,
    FrooxContainerCompressMethod, LegacyChunkFailure, DocumentError, check_bson_nesting, MAX_BSON_DEPTH, Lz4DecompressionError,
    LzmaDecompressionError, VarIntError,
};
use std::io::Write;

fn encode_varint(mut v: u64) -> Vec<u8> {
    let mut out = Vec::new();
    loop {
        let low = (v % 128) as u8;
        v /= 128;
        if v == 0 {
            out.push(low);
            return out;
        }
        out.push(low | 0x80);
    }
}

fn chunk_header(compressed: bool, uncompressed: u64, compressed_size: u64) -> Vec<u8> {
    let mut h = encode_varint(if compressed { 1 } else { 0 });
    h.extend(encode_varint(uncompressed));
    if compressed {
        h.extend(encode_varint(compressed_size));
    }
    h
}

fn plain_chunk(body: &[u8]) -> Vec<u8> {
    let mut c = chunk_header(false, body.len() as u64, 0);
    c.extend_from_slice(body);
    c
}

fn lz4_chunk(data: &[u8]) -> Vec<u8> {
    let block = lz4_flex::block::compress(data);
    assert!(block[0] >> 4 != 15);
    let mut c = chunk_header(true, data.len() as u64, block.len() as u64);
    c.extend_from_slice(&block);
    c
}

fn sample_document() -> bson::Document {
    let mut d = bson::Document::new();
    d.insert("name", "slot");
    d.insert("version", 3i32);
    d
}

fn document_bytes(d: &bson::Document) -> Vec<u8> {
    let mut b = Vec::new();
    d.to_writer(&mut b).unwrap();
    b
}

fn with_header(code: u8, payload: &[u8]) -> Vec<u8> {
    let mut m = b"FrDT\0\0\0\0".to_vec();
    m.push(code);
    m.extend_from_slice(payload);
    m
}

fn brotli_compress(data: &[u8]) -> Vec<u8> {
    let mut out = Vec::new();
    {
        let mut w = brotli::CompressorWriter::new(&mut out, 4096, 9, 22);
        w.write_all(data).unwrap();
    }
    out
}

#[test]
fn chunk_uncompressed_is_verbatim() {
    let mut raw = plain_chunk(b"hello");
    raw.extend_from_slice(b"tail");
    let (decoded, rest) = read_lz4net_chunk(&raw).unwrap();
    assert_eq!(decoded, b"hello");
    assert_eq!(rest, b"tail");
}

#[test]
fn chunk_compressed_decodes_block() {
    let data = b"abcabcabcabcabcabcabcabcabcabc-done".to_vec();
    let raw = lz4_chunk(&data);
    let (decoded, rest) = read_lz4net_chunk(&raw).unwrap();
    assert_eq!(decoded, data);
    assert!(rest.is_empty());
}

#[test]
fn chunk_compressed_with_escaped_length() {
    let data = b"escaped block contents, escaped block contents".to_vec();
    let block = lz4_flex::block::compress(&data);
    let mut body = vec![0xF3u8];
    body.extend(encode_varint(300));
    body.extend_from_slice(&[0, 0, 0, 0, 0, 0]);
    body.extend_from_slice(&block);
    let mut raw = chunk_header(true, data.len() as u64, body.len() as u64);
    raw.extend_from_slice(&body);
    let (decoded, rest) = read_lz4net_chunk(&raw).unwrap();
    assert_eq!(decoded, data);
    assert!(rest.is_empty());
}

#[test]
fn chunk_escape_without_room_for_header() {
    let body = vec![0xF0u8, 0x01, 0, 0];
    let mut raw = chunk_header(true, 10, body.len() as u64);
    raw.extend_from_slice(&body);
    assert!(matches!(
        read_lz4net_chunk(&raw),
        Err(Lz4DecompressionError::ChunkIsTooShort { actual_length: 2, expected_length: 6 })
    ));
}

#[test]
fn chunk_compressed_larger_than_uncompressed() {
    let mut raw = chunk_header(true, 5, 10);
    raw.extend_from_slice(&[0u8; 3]);
    assert!(matches!(
        read_lz4net_chunk(&raw),
        Err(Lz4DecompressionError::InvalidSizeHeader { compressed: 10, uncompressed: 5 })
    ));
    let raw = chunk_header(true, 5, 10);
    assert!(matches!(
        read_lz4net_chunk(&raw),
        Err(Lz4DecompressionError::InvalidSizeHeader { compressed: 10, uncompressed: 5 })
    ));
}

#[test]
fn chunk_body_too_short() {
    let mut raw = chunk_header(false, 8, 0);
    raw.extend_from_slice(b"abc");
    assert!(matches!(
        read_lz4net_chunk(&raw),
        Err(Lz4DecompressionError::ChunkIsTooShort { actual_length: 3, expected_length: 8 })
    ));
}

#[test]
fn chunk_header_truncated() {
    assert!(matches!(
        read_lz4net_chunk(&[0x01]),
        Err(Lz4DecompressionError::CorruptedDotNetSpecificHeader(VarIntError::Malformed))
    ));
    assert!(matches!(
        read_lz4net_chunk(&[0x01, 0x05, 0x80]),
        Err(Lz4DecompressionError::CorruptedDotNetSpecificHeader(VarIntError::Malformed))
    ));
}

#[test]
fn chunk_bad_block() {
    let mut raw = chunk_header(true, 100, 2);
    raw.extend_from_slice(&[0x20, 0x00]);
    assert!(matches!(read_lz4net_chunk(&raw), Err(Lz4DecompressionError::Lz4Flex(_))));
}

#[test]
fn chunk_uncompressed_size_too_large() {
    let mut raw = chunk_header(true, u64::MAX, 1);
    raw.push(0);
    assert!(matches!(
        read_lz4net_chunk(&raw),
        Err(Lz4DecompressionError::UncompressedSizeTooLarge { uncompressed: u64::MAX })
    ));
}

#[test]
fn chunks_are_concatenated() {
    let mut raw = plain_chunk(b"one,");
    raw.extend(lz4_chunk(b"two two two two two two two two,"));
    raw.extend(plain_chunk(b"three"));
    let out = read_lz4net_chunks(&raw).unwrap();
    assert_eq!(out, b"one,two two two two two two two two,three");
}

#[test]
fn chunks_empty_input() {
    assert!(read_lz4net_chunks(&[]).unwrap().is_empty());
}

#[test]
fn chunks_fault_discards_output() {
    let mut raw = plain_chunk(b"good");
    raw.extend(chunk_header(false, 4, 0));
    raw.extend_from_slice(b"ba");
    assert!(matches!(
        read_lz4net_chunks(&raw),
        Err(Lz4DecompressionError::ChunkIsTooShort { actual_length: 2, expected_length: 4 })
    ));
}

#[test]
fn lz4_size_prepended_round_trip() {
    let data = b"size prepended size prepended size prepended".to_vec();
    let packed = lz4_flex::compress_prepend_size(&data);
    assert_eq!(decompress_lz4_size_prepended(&packed).unwrap(), data);
    assert!(matches!(
        decompress_lz4_size_prepended(&packed[..3]),
        Err(Lz4DecompressionError::ChunkIsTooShort { actual_length: 3, expected_length: 4 })
    ));
}

#[test]
fn dispatch_no_compression_borrows() {
    let payload = b"as is";
    let d = decompress(FrooxContainerCompressMethod::NoCompress, payload).unwrap();
    assert_eq!(d.as_slice(), payload);
    assert!(std::ptr::eq(d.as_slice().as_ptr(), payload.as_ptr()));
}

#[test]
fn dispatch_lz4() {
    let data = b"lz4 lz4 lz4 lz4 lz4 lz4 lz4 lz4".to_vec();
    let packed = lz4_flex::compress_prepend_size(&data);
    let d = decompress(FrooxContainerCompressMethod::LZ4, &packed).unwrap();
    assert_eq!(d.as_slice(), &data[..]);
    assert!(matches!(
        decompress(FrooxContainerCompressMethod::LZ4, &[1, 2]),
        Err(DeserializeError::Lz4Decompression(_))
    ));
}

#[test]
fn dispatch_lzma_not_installed() {
    match decompress(FrooxContainerCompressMethod::LZMA, b"whatever") {
        Err(DeserializeError::NonInstalledDecompressMethod(m)) => {
            assert_eq!(m, FrooxContainerCompressMethod::LZMA);
            assert_eq!(m.name(), "lzma");
        }
        _ => panic!("expected a missing method"),
    }
}

#[test]
fn dispatch_brotli() {
    let data = b"brotli brotli brotli brotli".to_vec();
    let packed = brotli_compress(&data);
    let d = decompress(FrooxContainerCompressMethod::Brotli, &packed).unwrap();
    assert_eq!(d.as_slice(), &data[..]);
    assert!(matches!(
        decompress(FrooxContainerCompressMethod::Brotli, &[0xFF, 0xFF, 0xFF]),
        Err(DeserializeError::Io(_))
    ));
}

#[test]
fn end_to_end_lz4_document() {
    let doc = sample_document();
    let m = with_header(1, &lz4_flex::compress_prepend_size(&document_bytes(&doc)));
    let c = split_froox_container_header(&m).unwrap();
    assert_eq!(c.deserialize().unwrap(), doc);
    let direct: bson::Bson = bson::from_slice(&document_bytes(&doc)).unwrap();
    let via: bson::Bson = c.deserialize_with(&|b: &[u8]| bson::from_slice::<bson::Bson>(b)).unwrap();
    assert_eq!(via, direct);
}

#[test]
fn end_to_end_uncompressed_and_brotli_documents() {
    let doc = sample_document();
    let m = with_header(0, &document_bytes(&doc));
    assert_eq!(split_froox_container_header(&m).unwrap().deserialize().unwrap(), doc);
    let m = with_header(3, &brotli_compress(&document_bytes(&doc)));
    assert_eq!(split_froox_container_header(&m).unwrap().deserialize().unwrap(), doc);
}

#[test]
fn current_payload_not_a_document() {
    let m = with_header(0, b"not bson");
    assert!(matches!(
        split_froox_container_header(&m).unwrap().deserialize(),
        Err(DeserializeError::Bson(_))
    ));
}

#[test]
fn legacy_raw_document() {
    let doc = sample_document();
    let bytes = document_bytes(&doc);
    assert!(read_lz4net_chunks(&bytes).is_err());
    assert_eq!(legacy(&bytes).deserialize().unwrap(), doc);
    let direct: bson::Bson = bson::from_slice(&bytes).unwrap();
    let via = deserialize_legacy_with(&bytes, &|b: &[u8]| bson::from_slice::<bson::Bson>(b)).unwrap();
    assert_eq!(via, direct);
}

#[test]
fn legacy_chunked_document() {
    let mut doc = sample_document();
    doc.insert("pad", "a".repeat(40));
    let bytes = document_bytes(&doc);
    let at = bytes.windows(4).position(|w| w == b"aaaa").unwrap();
    let (first, rest) = bytes.split_at(at);
    let (second, third) = rest.split_at(30);
    let mut raw = plain_chunk(first);
    raw.extend(lz4_chunk(second));
    raw.extend(plain_chunk(third));
    assert_eq!(legacy(&raw).deserialize().unwrap(), doc);
}

#[test]
fn legacy_nothing_works() {
    match legacy(b"\x01\x05\x80").deserialize() {
        Err(DeserializeError::LegacyBruteforce { lzma, lz4, .. }) => {
            assert_eq!(lzma, LzmaDecompressionError::NotInstalled);
            assert!(matches!(
                lz4,
                LegacyChunkFailure::Chunks(Lz4DecompressionError::CorruptedDotNetSpecificHeader(
                    VarIntError::Malformed
                ))
            ));
        }
        _ => panic!("expected the brute force to fail"),
    }
}

#[test]
fn legacy_chunks_decode_but_not_to_a_document() {
    let raw = plain_chunk(b"not a document");
    match legacy(&raw).deserialize() {
        Err(DeserializeError::LegacyBruteforce { lz4, .. }) => {
            assert!(matches!(lz4, LegacyChunkFailure::Document(_)));
        }
        _ => panic!("expected the brute force to fail"),
    }
}

fn nested_document(levels: usize) -> bson::Document {
    let mut d = bson::Document::new();
    d.insert("leaf", 1i32);
    for i in 1..levels {
        let mut outer = bson::Document::new();
        if i == 1 {
            outer.insert("items", bson::Bson::Array(vec![bson::Bson::Int32(7)]));
        }
        outer.insert("child", d);
        d = outer;
    }
    d
}

#[test]
fn nesting_at_the_limit_decodes() {
    let doc = nested_document(MAX_BSON_DEPTH);
    let bytes = document_bytes(&doc);
    assert!(check_bson_nesting(&bytes));
    let m = with_header(0, &bytes);
    assert_eq!(split_froox_container_header(&m).unwrap().deserialize().unwrap(), doc);
}

#[test]
fn nesting_beyond_the_limit_is_refused() {
    let bytes = document_bytes(&nested_document(MAX_BSON_DEPTH + 1));
    assert!(!check_bson_nesting(&bytes));
    let m = with_header(0, &bytes);
    assert!(matches!(
        split_froox_container_header(&m).unwrap().deserialize(),
        Err(DeserializeError::NestedTooDeeply)
    ));
    match legacy(&bytes).deserialize() {
        Err(DeserializeError::LegacyBruteforce { bson, .. }) => {
            assert!(matches!(bson, DocumentError::NestedTooDeeply));
        }
        _ => panic!("expected the brute force to fail"),
    }
}

#[test]
fn nesting_check_passes_flat_and_malformed_input() {
    assert!(check_bson_nesting(&document_bytes(&sample_document())));
    assert!(check_bson_nesting(b"not bson at all"));
    assert!(check_bson_nesting(&[]));
}

#[test]
fn chunk_decoded_length_must_match() {
    let data = b"abcabcabcabcabcabcabcabcabcabc-done".to_vec();
    let block = lz4_flex::block::compress(&data);
    let mut raw = chunk_header(true, data.len() as u64 + 3, block.len() as u64);
    raw.extend_from_slice(&block);
    assert!(matches!(
        read_lz4net_chunk(&raw),
        Err(Lz4DecompressionError::DecodedSizeMismatch { expected, actual })
            if expected == data.len() as u64 + 3 && actual == data.len()
    ));
}

#[test]
fn chunk_overlong_length_run() {
    let mut block = vec![0x0Fu8];
    block.extend(std::iter::repeat(0xFFu8).take(16777216));
    block.push(0);
    let mut raw = chunk_header(true, u32::MAX as u64, block.len() as u64);
    raw.extend_from_slice(&block);
    assert!(matches!(read_lz4net_chunk(&raw), Err(Lz4DecompressionError::LengthRunTooLong)));
    let mut packed = 100u32.to_le_bytes().to_vec();
    packed.extend_from_slice(&block);
    assert!(matches!(
        decompress_lz4_size_prepended(&packed),
        Err(Lz4DecompressionError::LengthRunTooLong)
    ));
}

#[test]
fn nesting_counts_code_with_scope() {
    let mut d = bson::Document::new();
    d.insert("leaf", 1i32);
    for _ in 0..MAX_BSON_DEPTH {
        let mut outer = bson::Document::new();
        outer.insert(
            "f",
            bson::Bson::JavaScriptCodeWithScope(bson::JavaScriptCodeWithScope {
                code: "x".to_string(),
                scope: d,
            }),
        );
        d = outer;
    }
    assert!(!check_bson_nesting(&document_bytes(&d)));
}
