//! From a container to a document: undoing the compression, and trying the
//! legacy interpretations in order.
use vstd::prelude::*;
use crate::backends::{
    brotli_decompress, brotli_output, bson_document_accepts, check_ff_runs, decode_document,
    ff_runs_bounded, lz4_block, lz4_block_decompress,
};
use crate::chunks::{fault_of, lz4net_chunks, read_lz4net_chunks, ChunkFault, Lz4DecompressionError};
use crate::nesting::{bson_nesting_ok, check_bson_nesting};
use crate::container::{
    header, header_bytes, lemma_header_known_method, FrooxContainer, FrooxContainerCompressMethod,
    FrooxContainerExtractError,
};

verus! {

/// Why the LZMA interpretation of a legacy payload failed.
#[derive(Debug, Clone, Copy, PartialEq, Eq, Structural)]
pub enum LzmaDecompressionError {
    /// No LZMA decoder is linked into this build: no crate that provides
    /// one is among this library's dependencies, so the LZMA method is
    /// reported as not installed.
    NotInstalled,
}

/// Why bytes were not turned into a document.
#[derive(Debug)]
pub enum DocumentError {
    /// The document decoder refused them.
    Bson(bson::de::Error),
    /// Their documents nest deeper than `MAX_BSON_DEPTH`; they were not decoded.
    NestedTooDeeply,
}

/// Why the chunked-LZ4 interpretation of a legacy payload failed.
#[derive(Debug)]
pub enum LegacyChunkFailure {
    /// The payload is not a chunked LZ4 stream.
    Chunks(Lz4DecompressionError),
    /// The stream decoded, but its bytes are not a document.
    Document(DocumentError),
}

/// Why a container could not be turned into a document.
#[derive(Debug)]
pub enum DeserializeError {
    /// The LZ4 payload does not decode.
    Lz4Decompression(Lz4DecompressionError),
    /// The Brotli payload does not decode.
    Io(std::io::Error),
    /// This build has no decoder for the method.
    NonInstalledDecompressMethod(FrooxContainerCompressMethod),
    /// The decompressed bytes are not a document.
    Bson(bson::de::Error),
    /// The documents in the decompressed bytes nest deeper than `MAX_BSON_DEPTH`.
    NestedTooDeeply,
    /// No interpretation of a legacy payload gave a document; one cause each.
    LegacyBruteforce { lzma: LzmaDecompressionError, lz4: LegacyChunkFailure, bson: DocumentError },
}

/// Decompressed bytes: the caller's own when nothing was compressed.
pub enum Decompressed<'a> {
    Borrowed(&'a [u8]),
    Owned(Vec<u8>),
}

impl<'a> Decompressed<'a> {
    pub open spec fn view(&self) -> Seq<u8> {
        match self {
            Decompressed::Borrowed(s) => s@,
            Decompressed::Owned(v) => v@,
        }
    }

    pub fn as_slice(&self) -> (r: &[u8])
        ensures
            r@ == self.view(),
    {
        match self {
            Decompressed::Borrowed(s) => s,
            Decompressed::Owned(v) => v.as_slice(),
        }
    }
}

/// The little-endian 32-bit integer in the first four bytes of `b`.
pub open spec fn le_u32(b: Seq<u8>) -> nat {
    (b[0] + 256 * b[1] + 65536 * b[2] + 16777216 * b[3]) as nat
}

/// What decoding an LZ4 block preceded by its 4-byte little-endian
/// uncompressed size gives.
pub open spec fn lz4_size_prepended(b: Seq<u8>) -> Result<Seq<u8>, ChunkFault> {
    if b.len() < 4 {
        Err(ChunkFault::TooShort { actual: b.len() as usize, expected: 4 })
    } else if le_u32(b) > isize::MAX {
        Err(ChunkFault::SizeTooLarge { uncompressed: le_u32(b) as u64 })
    } else {
        if !ff_runs_bounded(b.skip(4)) {
            Err(ChunkFault::LengthRun)
        } else {
            match lz4_block(b.skip(4), le_u32(b)) {
                None => Err(ChunkFault::Block),
                Some(out) => Ok(out),
            }
        }
    }
}

/// The bytes that a current-generation payload decompresses to, if any.
pub open spec fn decompressed(method: FrooxContainerCompressMethod, payload: Seq<u8>) -> Option<Seq<u8>> {
    match method {
        FrooxContainerCompressMethod::NoCompress => Some(payload),
        FrooxContainerCompressMethod::LZ4 => match lz4_size_prepended(payload) {
            Ok(out) => Some(out),
            Err(_) => None,
        },
        FrooxContainerCompressMethod::LZMA => None,
        FrooxContainerCompressMethod::Brotli => brotli_output(payload),
    }
}

/// Whether `e` is the error that undoing `method` on `payload` gives, when
/// that fails.
pub open spec fn decompress_error(method: FrooxContainerCompressMethod, payload: Seq<u8>, e: DeserializeError) -> bool {
    match method {
        FrooxContainerCompressMethod::NoCompress => false,
        FrooxContainerCompressMethod::LZ4 => match (e, lz4_size_prepended(payload)) {
            (DeserializeError::Lz4Decompression(x), Err(f)) => fault_of(x) == f,
            _ => false,
        },
        FrooxContainerCompressMethod::LZMA => e == DeserializeError::NonInstalledDecompressMethod(method),
        FrooxContainerCompressMethod::Brotli => e is Io,
    }
}

/// Decodes an LZ4 block preceded by its 4-byte little-endian uncompressed size.
pub fn decompress_lz4_size_prepended(b: &[u8]) -> (r: Result<Vec<u8>, Lz4DecompressionError>)
    ensures
        match (r, lz4_size_prepended(b@)) {
            (Ok(v), Ok(s)) => v@ == s,
            (Err(e), Err(f)) => fault_of(e) == f,
            _ => false,
        },
{
    if b.len() < 4 {
        return Err(Lz4DecompressionError::ChunkIsTooShort { actual_length: b.len(), expected_length: 4 });
    }
    let size: u64 = b[0] as u64 + 256 * (b[1] as u64) + 65536 * (b[2] as u64) + 16777216 * (b[3] as u64);
    if size > isize::MAX as u64 {
        return Err(Lz4DecompressionError::UncompressedSizeTooLarge { uncompressed: size });
    }
    let block = vstd::slice::slice_subrange(b, 4, b.len());
    assert(block@ =~= b@.skip(4));
    if !check_ff_runs(block) {
        return Err(Lz4DecompressionError::LengthRunTooLong);
    }
    match lz4_block_decompress(block, size as usize) {
        Ok(v) => Ok(v),
        Err(e) => Err(Lz4DecompressionError::Lz4Flex(e)),
    }
}

/// Undoes the compression of a current-generation payload.
pub fn decompress(method: FrooxContainerCompressMethod, payload: &[u8]) -> (r: Result<Decompressed<'_>, DeserializeError>)
    ensures
        match decompressed(method, payload@) {
            Some(out) => (r matches Ok(d) && d.view() == out),
            None => r matches Err(e) && decompress_error(method, payload@, e),
        },
        method == FrooxContainerCompressMethod::NoCompress ==> (r matches Ok(Decompressed::Borrowed(s)) && s@ == payload@),
        method == FrooxContainerCompressMethod::LZ4 ==> match (r, lz4_size_prepended(payload@)) {
            (Err(DeserializeError::Lz4Decompression(e)), Err(f)) => fault_of(e) == f,
            (Ok(_), Ok(_)) => true,
            _ => false,
        },
        method == FrooxContainerCompressMethod::LZMA ==> (r matches Err(DeserializeError::NonInstalledDecompressMethod(m)) && m == method),
        method == FrooxContainerCompressMethod::Brotli ==> (r is Err ==> r matches Err(DeserializeError::Io(_))),
{
    match method {
        FrooxContainerCompressMethod::NoCompress => Ok(Decompressed::Borrowed(payload)),
        FrooxContainerCompressMethod::LZ4 => match decompress_lz4_size_prepended(payload) {
            Ok(v) => Ok(Decompressed::Owned(v)),
            Err(e) => Err(DeserializeError::Lz4Decompression(e)),
        },
        FrooxContainerCompressMethod::LZMA => Err(DeserializeError::NonInstalledDecompressMethod(method)),
        FrooxContainerCompressMethod::Brotli => match brotli_decompress(payload) {
            Ok(v) => Ok(Decompressed::Owned(v)),
            Err(e) => Err(DeserializeError::Io(e)),
        },
    }
}

/// Whether `decode`, given a slice holding `bytes`, may give `out`.
pub open spec fn decodes<T, F: Fn(&[u8]) -> Result<T, bson::de::Error>>(
    decode: F,
    bytes: Seq<u8>,
    out: Result<T, bson::de::Error>,
) -> bool {
    exists|s: &[u8]| s@ == bytes && decode.ensures((s,), out)
}

/// Whether `out` is what handing `bytes` to `decode` may give: bytes nested
/// too deeply are refused without a call.
pub open spec fn document_outcome<T, F: Fn(&[u8]) -> Result<T, bson::de::Error>>(
    decode: F,
    bytes: Seq<u8>,
    out: Result<T, DocumentError>,
) -> bool {
    if !bson_nesting_ok(bytes) {
        out matches Err(DocumentError::NestedTooDeeply)
    } else {
        match out {
            Ok(t) => decodes(decode, bytes, Ok(t)),
            Err(DocumentError::Bson(e)) => decodes(decode, bytes, Err(e)),
            Err(DocumentError::NestedTooDeeply) => false,
        }
    }
}

/// `r` as the result of deserializing `bytes`: a document failure is a `Bson`
/// or `NestedTooDeeply` error.
pub open spec fn came_from<T, F: Fn(&[u8]) -> Result<T, bson::de::Error>>(
    decode: F,
    bytes: Seq<u8>,
    r: Result<T, DeserializeError>,
) -> bool {
    match r {
        Ok(t) => document_outcome(decode, bytes, Ok(t)),
        Err(DeserializeError::Bson(e)) => document_outcome(decode, bytes, Err(DocumentError::Bson(e))),
        Err(DeserializeError::NestedTooDeeply) => document_outcome(
            decode,
            bytes,
            Err(DocumentError::NestedTooDeeply),
        ),
        _ => false,
    }
}

/// Whether `r` is what trying the legacy interpretations of `raw` in order
/// may give: a chunked LZ4 stream, then the raw bytes (the LZMA one always
/// fails, as this build has no LZMA decoder).
pub open spec fn legacy_outcome<T, F: Fn(&[u8]) -> Result<T, bson::de::Error>>(
    decode: F,
    raw: Seq<u8>,
    r: Result<T, DeserializeError>,
) -> bool {
    match r {
        Ok(t) => match lz4net_chunks(raw) {
            Ok(x) => document_outcome(decode, x, Ok(t)) || (
                (exists|e: DocumentError| document_outcome(decode, x, Err(e)))
                && document_outcome(decode, raw, Ok(t))
            ),
            Err(_) => document_outcome(decode, raw, Ok(t)),
        },
        Err(DeserializeError::LegacyBruteforce { lzma, lz4, bson }) => {
            &&& lzma == LzmaDecompressionError::NotInstalled
            &&& document_outcome(decode, raw, Err(bson))
            &&& match (lz4, lz4net_chunks(raw)) {
                (LegacyChunkFailure::Chunks(e), Err(f)) => fault_of(e) == f,
                (LegacyChunkFailure::Document(e), Ok(x)) => document_outcome(decode, x, Err(e)),
                _ => false,
            }
        },
        _ => false,
    }
}

fn decode_slice<T, F: Fn(&[u8]) -> Result<T, bson::de::Error>>(decode: &F, bytes: &[u8]) -> (r: Result<T, DocumentError>)
    requires
        forall|s: &[u8]| bson_nesting_ok(s@) ==> decode.requires((s,)),
    ensures
        document_outcome(*decode, bytes@, r),
{
    if !check_bson_nesting(bytes) {
        return Err(DocumentError::NestedTooDeeply);
    }
    match decode(bytes) {
        Ok(t) => Ok(t),
        Err(e) => Err(DocumentError::Bson(e)),
    }
}

/// Tries the interpretations of a headerless payload in order, and returns
/// the first document that one of them gives.
pub fn deserialize_legacy_with<T, F: Fn(&[u8]) -> Result<T, bson::de::Error>>(
    raw_content: &[u8],
    decode: &F,
) -> (r: Result<T, DeserializeError>)
    requires
        forall|s: &[u8]| bson_nesting_ok(s@) ==> decode.requires((s,)),
    ensures
        legacy_outcome(*decode, raw_content@, r),
{
    let lzma_error = LzmaDecompressionError::NotInstalled;
    let lz4_error = match read_lz4net_chunks(raw_content) {
        Ok(d) => match decode_slice(decode, d.as_slice()) {
            Ok(x) => {
                return Ok(x);
            },
            Err(e) => LegacyChunkFailure::Document(e),
        },
        Err(e) => LegacyChunkFailure::Chunks(e),
    };
    match decode_slice(decode, raw_content) {
        Ok(x) => Ok(x),
        Err(e) => Err(DeserializeError::LegacyBruteforce { lzma: lzma_error, lz4: lz4_error, bson: e }),
    }
}

impl<'a> FrooxContainer<'a> {
    /// Decompresses the payload as the container says (current) or as the
    /// first legacy interpretation that works (legacy), and hands the bytes to
    /// `decode`.
    pub fn deserialize_with<T, F: Fn(&[u8]) -> Result<T, bson::de::Error>>(&self, decode: &F) -> (r: Result<
        T,
        DeserializeError,
    >)
        requires
            forall|s: &[u8]| bson_nesting_ok(s@) ==> decode.requires((s,)),
        ensures
            match self {
                FrooxContainer::Legacy { raw_content } => legacy_outcome(*decode, raw_content@, r),
                FrooxContainer::Current { compress_method, raw_content, .. } => match decompressed(
                    *compress_method,
                    raw_content@,
                ) {
                    Some(x) => came_from(*decode, x, r),
                    None => r matches Err(e) && decompress_error(*compress_method, raw_content@, e),
                },
            },
    {
        match self {
            FrooxContainer::Legacy { raw_content } => deserialize_legacy_with(raw_content, decode),
            FrooxContainer::Current { header: _, compress_method, raw_content } => {
                let after_decompress = decompress(*compress_method, raw_content)?;
                match decode_slice(decode, after_decompress.as_slice()) {
                    Ok(x) => Ok(x),
                    Err(DocumentError::Bson(e)) => Err(DeserializeError::Bson(e)),
                    Err(DocumentError::NestedTooDeeply) => Err(DeserializeError::NestedTooDeeply),
                }
            },
        }
    }
    /// Decodes the container into a BSON document. It succeeds exactly when a
    /// current payload decompresses to a document, or when a legacy payload is
    /// a chunked LZ4 stream of a document or is a document itself; documents
    /// nested deeper than `MAX_BSON_DEPTH` count as none.
    pub fn deserialize(&self) -> (r: Result<bson::Document, DeserializeError>)
        ensures
            match self {
                FrooxContainer::Legacy { raw_content } => {
                    &&& r is Ok <==> (match lz4net_chunks(raw_content@) {
                        Ok(x) => bson_nesting_ok(x) && bson_document_accepts(x),
                        Err(_) => false,
                    } || bson_nesting_ok(raw_content@) && bson_document_accepts(raw_content@))
                    &&& r is Err ==> r matches Err(DeserializeError::LegacyBruteforce { .. })
                },
                FrooxContainer::Current { compress_method, raw_content, .. } => {
                    &&& r is Ok <==> match decompressed(*compress_method, raw_content@) {
                        Some(x) => bson_nesting_ok(x) && bson_document_accepts(x),
                        None => false,
                    }
                    &&& match decompressed(*compress_method, raw_content@) {
                        Some(x) => r is Err ==> if bson_nesting_ok(x) {
                            r matches Err(DeserializeError::Bson(_))
                        } else {
                            r matches Err(DeserializeError::NestedTooDeeply)
                        },
                        None => r matches Err(e) && decompress_error(*compress_method, raw_content@, e),
                    }
                },
            },
    {
        let decode = decode_document;
        assert forall|s: &[u8]| bson_nesting_ok(s@) implies decode.requires((s,)) by {}
        assert forall|s: &[u8], out: Result<bson::Document, bson::de::Error>| decode.ensures((s,), out) implies (
        out is Ok <==> bson_document_accepts(s@)) by {}
        self.deserialize_with(&decode)
    }
}

/// A legacy payload that nests within bounds, that the decoder can only
/// accept as it stands, and that is no chunked LZ4 stream of something the
/// decoder accepts, gives what the decoder gives on the payload itself.
pub proof fn lemma_legacy_raw_document<T, F: Fn(&[u8]) -> Result<T, bson::de::Error>>(
    decode: F,
    raw: Seq<u8>,
    r: Result<T, DeserializeError>,
)
    requires
        legacy_outcome(decode, raw, r),
        bson_nesting_ok(raw),
        forall|out: Result<T, bson::de::Error>| decodes(decode, raw, out) ==> out is Ok,
        match lz4net_chunks(raw) {
            Ok(x) => forall|out: Result<T, bson::de::Error>| decodes(decode, x, out) ==> out is Err,
            Err(_) => true,
        },
    ensures
        r matches Ok(t) && decodes(decode, raw, Ok(t)),
{
    match r {
        Ok(t) => {
            match lz4net_chunks(raw) {
                Ok(x) => {
                    if document_outcome(decode, x, Ok(t)) {
                        assert(decodes(decode, x, Ok(t)));
                        assert(Ok::<T, bson::de::Error>(t) is Err);
                    }
                },
                Err(_) => {},
            }
        },
        Err(DeserializeError::LegacyBruteforce { bson, .. }) => {
            match bson {
                DocumentError::Bson(e) => {
                    assert(decodes(decode, raw, Err(e)));
                    assert(Err::<T, bson::de::Error>(e) is Ok);
                },
                DocumentError::NestedTooDeeply => {},
            }
        },
        Err(_) => {},
    }
}

/// A current-generation container naming LZ4, whatever its payload, parses
/// with that payload, and decompressing it gives the block decoded after its
/// 4-byte size.
pub proof fn lemma_lz4_container(payload: Seq<u8>)
    ensures
        header(header_bytes(1) + payload) == Ok::<(FrooxContainerCompressMethod, nat), FrooxContainerExtractError>(
            (FrooxContainerCompressMethod::LZ4, 9),
        ),
        (header_bytes(1) + payload).skip(9) == payload,
        decompressed(FrooxContainerCompressMethod::LZ4, payload) == match lz4_size_prepended(payload) {
            Ok(x) => Some(x),
            Err(_) => None::<Seq<u8>>,
        },
{
    lemma_header_known_method(FrooxContainerCompressMethod::LZ4, 1, payload);
    assert(header_bytes(1).len() == 9) by {
        reveal_with_fuel(crate::varint::varint_encode, 2);
    }
}

} // verus!
