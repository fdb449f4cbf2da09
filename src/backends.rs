//! The outside decoders this library hands bytes to: LZ4 blocks (lz4_flex),
//! Brotli streams (brotli) and BSON documents (bson).
use vstd::prelude::*;
use crate::nesting::bson_nesting_ok;

verus! {

#[verifier::external_type_specification]
#[verifier::external_body]
pub struct ExLz4DecompressError(lz4_flex::block::DecompressError);

#[verifier::external_type_specification]
#[verifier::external_body]
pub struct ExIoError(std::io::Error);

#[verifier::external_type_specification]
#[verifier::external_body]
pub struct ExBsonDeError(bson::de::Error);

#[verifier::external_type_specification]
#[verifier::external_body]
pub struct ExBsonDocument(bson::Document);

/// What decoding the LZ4 block `input` into a buffer of `size` bytes gives,
/// if it succeeds.
pub uninterp spec fn lz4_block(input: Seq<u8>, size: nat) -> Option<Seq<u8>>;

/// What decoding the Brotli stream `input` to its end gives, if it succeeds.
pub uninterp spec fn brotli_output(input: Seq<u8>) -> Option<Seq<u8>>;

/// Whether `input` decodes as one BSON document.
pub uninterp spec fn bson_document_accepts(input: Seq<u8>) -> bool;

/// The longest run of `0xFF` bytes that an LZ4 block may hold here, plus one.
/// lz4_flex adds up the bytes of an extended length in a `u32`; a run this
/// short keeps that sum below `u32::MAX`.
pub const LZ4_MAX_FF_RUN: usize = 16777216;

/// Whether the bytes `s[i..j]` are all `0xFF`.
pub open spec fn all_ff(s: Seq<u8>, i: int, j: int) -> bool {
    forall|p: int| i <= p < j ==> s[p] == 0xFF
}

/// Whether `s` holds no run of `LZ4_MAX_FF_RUN` bytes `0xFF`.
pub open spec fn ff_runs_bounded(s: Seq<u8>) -> bool {
    forall|i: int| 0 <= i && i + LZ4_MAX_FF_RUN <= s.len() ==> !#[trigger] all_ff(s, i, i + LZ4_MAX_FF_RUN)
}

/// Relies on lz4_flex::block::decompress: it decodes the block into a buffer of
/// `size` zeroed bytes and keeps the part it wrote, or fails; the outcome
/// depends on the two arguments alone. A larger `size` would make the buffer
/// allocation panic, and a longer run of `0xFF` bytes could overflow the
/// `u32` in which it adds up an extended length.
#[verifier::external_body]
pub(crate) fn lz4_block_decompress(input: &[u8], size: usize) -> (r: Result<
    Vec<u8>,
    lz4_flex::block::DecompressError,
>)
    requires
        size <= isize::MAX,
        ff_runs_bounded(input@),
    ensures
        match r {
            Ok(v) => lz4_block(input@, size as nat) == Some(v@) && v@.len() <= size,
            Err(_) => lz4_block(input@, size as nat) is None,
        },
{
    lz4_flex::block::decompress(input, size)
}

/// Relies on brotli::Decompressor read to its end: the outcome depends on the
/// compressed bytes alone.
#[verifier::external_body]
pub(crate) fn brotli_decompress(input: &[u8]) -> (r: Result<Vec<u8>, std::io::Error>)
    ensures
        match r {
            Ok(v) => brotli_output(input@) == Some(v@),
            Err(_) => brotli_output(input@) is None,
        },
{
    let mut out = Vec::new();
    let mut reader = brotli::Decompressor::new(input, 16 * 1024);
    std::io::Read::read_to_end(&mut reader, &mut out).map(|_| out)
}

/// Relies on bson::from_slice with a `bson::Document` target: whether it
/// succeeds depends on the bytes alone. It recurses once per nested document
/// and has no depth limit of its own, so deeper nesting could exhaust the
/// stack.
#[verifier::external_body]
pub(crate) fn decode_document(bytes: &[u8]) -> (r: Result<bson::Document, bson::de::Error>)
    requires
        bson_nesting_ok(bytes@),
    ensures
        r is Ok <==> bson_document_accepts(bytes@),
{
    bson::from_slice::<bson::Document>(bytes)
}

/// Whether `b` holds no run of `LZ4_MAX_FF_RUN` bytes `0xFF`.
pub fn check_ff_runs(b: &[u8]) -> (r: bool)
    ensures
        r == ff_runs_bounded(b@),
{
    let mut run: usize = 0;
    let mut i: usize = 0;
    while i < b.len()
        invariant
            i <= b.len(),
            run <= i,
            run < LZ4_MAX_FF_RUN,
            all_ff(b@, i - run, i as int),
            run < i ==> b@[i - run - 1] != 0xFF,
            forall|k: int| 0 <= k && k + LZ4_MAX_FF_RUN <= i ==> !#[trigger] all_ff(b@, k, k + LZ4_MAX_FF_RUN),
        decreases b.len() - i,
    {
        if b[i] == 0xFF {
            run = run + 1;
            if run == LZ4_MAX_FF_RUN {
                let ghost k = i + 1 - LZ4_MAX_FF_RUN;
                assert(all_ff(b@, k, k + LZ4_MAX_FF_RUN));
                return false;
            }
        } else {
            run = 0;
        }
        i = i + 1;
        assert forall|k: int| 0 <= k && k + LZ4_MAX_FF_RUN <= i implies !#[trigger] all_ff(b@, k, k + LZ4_MAX_FF_RUN) by {
            if k + LZ4_MAX_FF_RUN == i {
                assert(b@[i - run - 1] != 0xFF);
            } else {
                assert(!all_ff(b@, k, k + LZ4_MAX_FF_RUN));
            }
        }
    }
    true
}

} // verus!
