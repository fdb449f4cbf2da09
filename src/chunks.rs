//! The chunked stream found inside legacy LZ4 payloads.
//!
//! Each chunk is a flags VarInt (bit 0: the body is compressed), an
//! uncompressed-size VarInt, a compressed-size VarInt when the body is
//! compressed, and then the body. A compressed body whose first byte has the
//! high nibble 15 carries an extended length: a VarInt and six more header
//! bytes come before the LZ4 block itself. That escape is a best guess at an
//! undocumented convention of the producer, not yet confirmed against real
//! captured samples; what the six bytes mean is unknown.
use vstd::prelude::*;
use crate::backends::{check_ff_runs, ff_runs_bounded, lz4_block, lz4_block_decompress};
use crate::varint::{decode_varint, lemma_varint_round_trip, varint, varint_encode, VarIntError};

verus! {

/// Why the chunked stream could not be decoded.
#[derive(Debug)]
pub enum Lz4DecompressionError {
    /// A size or flags field is not a well-formed VarInt.
    CorruptedDotNetSpecificHeader(VarIntError),
    /// The flags of a chunk are not understood.
    InvalidChunkFlag(()),
    /// Fewer bytes remain than the header announces.
    ChunkIsTooShort { actual_length: usize, expected_length: u64 },
    /// The compressed size exceeds the uncompressed size.
    InvalidSizeHeader { compressed: u64, uncompressed: u64 },
    /// The uncompressed size of a compressed chunk is more than a buffer can hold.
    UncompressedSizeTooLarge { uncompressed: u64 },
    /// The LZ4 block holds a run of `0xFF` bytes too long to be an honest
    /// extended length.
    LengthRunTooLong,
    /// The LZ4 block decoded to another length than the chunk announces.
    DecodedSizeMismatch { expected: u64, actual: usize },
    /// The LZ4 block of a chunk does not decode.
    Lz4Flex(lz4_flex::block::DecompressError),
}

/// The plain content of a [`Lz4DecompressionError`], LZ4's own error aside.
#[derive(Debug, Clone, Copy, PartialEq, Eq, Structural)]
pub enum ChunkFault {
    VarInt(VarIntError),
    Flag,
    TooShort { actual: usize, expected: u64 },
    SizeHeader { compressed: u64, uncompressed: u64 },
    SizeTooLarge { uncompressed: u64 },
    LengthRun,
    SizeMismatch { expected: u64, actual: usize },
    /// LZ4 refused the block.
    Block,
}

/// The plain content of an error.
pub open spec fn fault_of(e: Lz4DecompressionError) -> ChunkFault {
    match e {
        Lz4DecompressionError::CorruptedDotNetSpecificHeader(v) => ChunkFault::VarInt(v),
        Lz4DecompressionError::InvalidChunkFlag(_) => ChunkFault::Flag,
        Lz4DecompressionError::ChunkIsTooShort { actual_length, expected_length } => ChunkFault::TooShort {
            actual: actual_length,
            expected: expected_length,
        },
        Lz4DecompressionError::InvalidSizeHeader { compressed, uncompressed } => ChunkFault::SizeHeader {
            compressed,
            uncompressed,
        },
        Lz4DecompressionError::UncompressedSizeTooLarge { uncompressed } => ChunkFault::SizeTooLarge {
            uncompressed,
        },
        Lz4DecompressionError::LengthRunTooLong => ChunkFault::LengthRun,
        Lz4DecompressionError::DecodedSizeMismatch { expected, actual } => ChunkFault::SizeMismatch {
            expected,
            actual,
        },
        Lz4DecompressionError::Lz4Flex(_) => ChunkFault::Block,
    }
}

/// The LZ4 block inside a compressed chunk body, after the extended-length
/// escape if there is one.
pub open spec fn escaped_block(body: Seq<u8>) -> Result<Seq<u8>, ChunkFault> {
    if body.len() > 0 && body[0] / 16 == 15 {
        match varint(body.skip(1)) {
            Err(e) => Err(ChunkFault::VarInt(e)),
            Ok((_, n)) => {
                let r = body.skip(1 + n as int);
                if r.len() < 6 {
                    Err(ChunkFault::TooShort { actual: r.len() as usize, expected: 6 })
                } else {
                    Ok(r.skip(6))
                }
            },
        }
    } else {
        Ok(body)
    }
}

/// The sizes of the chunk at the start of `b`: whether it is compressed, its
/// uncompressed and compressed sizes, and the length of its header.
pub open spec fn chunk_header(b: Seq<u8>) -> Result<(bool, u64, u64, nat), ChunkFault> {
    match varint(b) {
        Err(e) => Err(ChunkFault::VarInt(e)),
        Ok((flags, n1)) => match varint(b.skip(n1 as int)) {
            Err(e) => Err(ChunkFault::VarInt(e)),
            Ok((unc, n2)) => if flags % 2 == 1 {
                match varint(b.skip((n1 + n2) as int)) {
                    Err(e) => Err(ChunkFault::VarInt(e)),
                    Ok((cs, n3)) => Ok((true, unc, cs, n1 + n2 + n3)),
                }
            } else {
                Ok((false, unc, unc, n1 + n2))
            },
        },
    }
}

/// What decoding the chunk at the start of `b` gives: its decoded bytes and
/// the number of bytes it occupies.
#[verifier::opaque]
pub open spec fn lz4net_chunk(b: Seq<u8>) -> Result<(Seq<u8>, nat), ChunkFault> {
    match chunk_header(b) {
        Err(f) => Err(f),
        Ok((compressed, unc, cs, h)) => if cs > unc {
            Err(ChunkFault::SizeHeader { compressed: cs, uncompressed: unc })
        } else if b.len() - h < cs {
            Err(ChunkFault::TooShort { actual: (b.len() - h) as usize, expected: cs })
        } else {
            let body = b.subrange(h as int, h + cs);
            if !compressed {
                Ok((body, (h + cs) as nat))
            } else if unc > isize::MAX {
                Err(ChunkFault::SizeTooLarge { uncompressed: unc })
            } else {
                match escaped_block(body) {
                    Err(f) => Err(f),
                    Ok(block) => if !ff_runs_bounded(block) {
                        Err(ChunkFault::LengthRun)
                    } else {
                        match lz4_block(block, unc as nat) {
                            None => Err(ChunkFault::Block),
                            Some(out) => if out.len() != unc {
                                Err(ChunkFault::SizeMismatch { expected: unc, actual: out.len() as usize })
                            } else {
                                Ok((out, (h + cs) as nat))
                            },
                        }
                    },
                }
            }
        },
    }
}

/// What decoding the whole chunked stream `b` gives: the concatenation of
/// its chunks, or the first fault.
pub open spec fn lz4net_chunks(b: Seq<u8>) -> Result<Seq<u8>, ChunkFault>
    decreases b.len(),
{
    if b.len() == 0 {
        Ok(Seq::empty())
    } else {
        match lz4net_chunk(b) {
            Err(f) => Err(f),
            Ok((d, n)) => if 0 < n <= b.len() {
                match lz4net_chunks(b.skip(n as int)) {
                    Err(f) => Err(f),
                    Ok(rest) => Ok(d + rest),
                }
            } else {
                // not reached: a decoded chunk occupies at least one byte of `b`
                Err(ChunkFault::Flag)
            },
        }
    }
}

fn read_varint_field(b: &[u8]) -> (r: Result<(u64, &[u8]), Lz4DecompressionError>)
    ensures
        match (r, varint(b@)) {
            (Ok((v, rest)), Ok((sv, n))) => v == sv && 1 <= n <= b@.len() && rest@ == b@.skip(n as int),
            (Err(e), Err(se)) => fault_of(e) == ChunkFault::VarInt(se),
            _ => false,
        },
{
    match decode_varint(b) {
        Ok((v, rest)) => Ok((v, rest)),
        Err(e) => Err(Lz4DecompressionError::CorruptedDotNetSpecificHeader(e)),
    }
}

/// Finds the LZ4 block inside a compressed chunk body.
fn unescape_block(body: &[u8]) -> (r: Result<&[u8], Lz4DecompressionError>)
    ensures
        match (r, escaped_block(body@)) {
            (Ok(block), Ok(sb)) => block@ == sb,
            (Err(e), Err(f)) => fault_of(e) == f,
            _ => false,
        },
{
    if body.len() > 0 && body[0] / 16 == 15 {
        let after = vstd::slice::slice_subrange(body, 1, body.len());
        assert(after@ =~= body@.skip(1));
        let (_, r) = read_varint_field(after)?;
        proof {
            let n = varint(body@.skip(1))->Ok_0.1;
            assert(r@ =~= body@.skip(1 + n as int));
        }
        if r.len() < 6 {
            return Err(Lz4DecompressionError::ChunkIsTooShort { actual_length: r.len(), expected_length: 6 });
        }
        let block = vstd::slice::slice_subrange(r, 6, r.len());
        assert(block@ =~= r@.skip(6));
        Ok(block)
    } else {
        Ok(body)
    }
}

/// Decodes the chunk at the start of `raw` and returns its decoded bytes
/// together with the bytes that follow it.
pub fn read_lz4net_chunk(raw: &[u8]) -> (r: Result<(Vec<u8>, &[u8]), Lz4DecompressionError>)
    ensures
        match (r, lz4net_chunk(raw@)) {
            (Ok((d, rest)), Ok((sd, n))) => {
                &&& d@ == sd
                &&& d@.len() == chunk_header(raw@)->Ok_0.1
                &&& 0 < n <= raw@.len()
                &&& rest@ == raw@.skip(n as int)
            },
            (Err(e), Err(f)) => fault_of(e) == f,
            _ => false,
        },
{
    reveal(lz4net_chunk);
    let (flags, after_flags) = read_varint_field(raw)?;
    let (uncompressed_size, after_size) = read_varint_field(after_flags)?;
    let ghost n1 = varint(raw@)->Ok_0.1;
    let ghost n2 = varint(raw@.skip(n1 as int))->Ok_0.1;
    assert(raw@.skip(n1 as int).skip(n2 as int) =~= raw@.skip((n1 + n2) as int));
    let compressed = flags % 2 == 1;
    let (compressed_size, raw_content) = if compressed {
        read_varint_field(after_size)?
    } else {
        (uncompressed_size, after_size)
    };
    proof {
        if compressed {
            let n3 = varint(raw@.skip((n1 + n2) as int))->Ok_0.1;
            assert(raw@.skip((n1 + n2) as int).skip(n3 as int) =~= raw@.skip((n1 + n2 + n3) as int));
        }
    }
    let ghost h = chunk_header(raw@)->Ok_0.3;
    assert(raw_content@ == raw@.skip(h as int));
    if compressed_size > uncompressed_size {
        return Err(Lz4DecompressionError::InvalidSizeHeader {
            compressed: compressed_size,
            uncompressed: uncompressed_size,
        });
    }
    if (raw_content.len() as u64) < compressed_size {
        return Err(Lz4DecompressionError::ChunkIsTooShort {
            actual_length: raw_content.len(),
            expected_length: compressed_size,
        });
    }
    let cs = compressed_size as usize;
    let chunk = vstd::slice::slice_subrange(raw_content, 0, cs);
    let rest = vstd::slice::slice_subrange(raw_content, cs, raw_content.len());
    assert(chunk@ =~= raw@.subrange(h as int, h + cs));
    assert(rest@ =~= raw@.skip(h + cs));
    if !compressed {
        let mut verbatim: Vec<u8> = Vec::new();
        verbatim.extend_from_slice(chunk);
        assert(verbatim@ =~= chunk@);
        return Ok((verbatim, rest));
    }
    if uncompressed_size > isize::MAX as u64 {
        return Err(Lz4DecompressionError::UncompressedSizeTooLarge { uncompressed: uncompressed_size });
    }
    let block = unescape_block(chunk)?;
    if !check_ff_runs(block) {
        return Err(Lz4DecompressionError::LengthRunTooLong);
    }
    match lz4_block_decompress(block, uncompressed_size as usize) {
        Ok(decoded) => if decoded.len() as u64 != uncompressed_size {
            Err(Lz4DecompressionError::DecodedSizeMismatch {
                expected: uncompressed_size,
                actual: decoded.len(),
            })
        } else {
            Ok((decoded, rest))
        },
        Err(e) => Err(Lz4DecompressionError::Lz4Flex(e)),
    }
}

/// Decodes a whole chunked stream: the concatenation of its chunks. Any fault
/// ends the decoding and nothing of the partial output is returned.
pub fn read_lz4net_chunks(raw: &[u8]) -> (r: Result<Vec<u8>, Lz4DecompressionError>)
    ensures
        match (r, lz4net_chunks(raw@)) {
            (Ok(d), Ok(sd)) => d@ == sd,
            (Err(e), Err(f)) => fault_of(e) == f,
            _ => false,
        },
{
    let mut buf: Vec<u8> = Vec::new();
    let mut rec_acc: &[u8] = raw;
    while rec_acc.len() > 0
        invariant
            lz4net_chunks(raw@) == match lz4net_chunks(rec_acc@) {
                Ok(rest) => Ok::<Seq<u8>, ChunkFault>(buf@ + rest),
                Err(f) => Err(f),
            },
        decreases rec_acc@.len(),
    {
        let (decoded, rest) = match read_lz4net_chunk(rec_acc) {
            Ok(p) => p,
            Err(e) => {
                return Err(e);
            },
        };
        proof {
            assert(lz4net_chunks(rec_acc@) == match lz4net_chunks(rest@) {
                Ok(tail) => Ok::<Seq<u8>, ChunkFault>(decoded@ + tail),
                Err(f) => Err(f),
            });
            match lz4net_chunks(rest@) {
                Ok(tail) => {
                    assert(buf@ + (decoded@ + tail) =~= buf@ + decoded@ + tail);
                },
                Err(_) => {},
            }
        }
        let ghost before = buf@;
        buf.extend_from_slice(decoded.as_slice());
        assert(buf@ =~= before + decoded@);
        rec_acc = rest;
    }
    assert(buf@ + Seq::<u8>::empty() =~= buf@);
    Ok(buf)
}

/// A compressed chunk whose header announces more compressed than
/// uncompressed bytes is refused for its sizes, whatever follows the header:
/// no body is read.
pub proof fn lemma_chunk_sizes_checked_first(flags: u64, uncompressed: u64, compressed: u64, rest: Seq<u8>)
    requires
        flags % 2 == 1,
        compressed > uncompressed,
    ensures
        lz4net_chunk(
            varint_encode(flags as nat) + varint_encode(uncompressed as nat) + varint_encode(compressed as nat)
                + rest,
        ) == Err::<(Seq<u8>, nat), ChunkFault>(ChunkFault::SizeHeader { compressed, uncompressed }),
{
    reveal(lz4net_chunk);
    let e1 = varint_encode(flags as nat);
    let e2 = varint_encode(uncompressed as nat);
    let e3 = varint_encode(compressed as nat);
    let b = e1 + e2 + e3 + rest;
    lemma_varint_round_trip(flags, e2 + e3 + rest);
    assert(b =~= e1 + (e2 + e3 + rest));
    assert(b.skip(e1.len() as int) =~= e2 + (e3 + rest));
    lemma_varint_round_trip(uncompressed, e3 + rest);
    assert(b.skip((e1.len() + e2.len()) as int) =~= e3 + rest);
    lemma_varint_round_trip(compressed, rest);
}

} // verus!
