//! The container descriptor and the parser of the "FrDT" header.
use vstd::prelude::*;
use crate::varint::{decode_varint, lemma_varint_round_trip, varint, varint_encode, VarIntError};

verus! {

/// The compression method that a current-generation container names.
#[derive(Debug, Clone, Copy, PartialEq, Eq, Structural)]
pub enum FrooxContainerCompressMethod {
    NoCompress,
    LZ4,
    LZMA,
    Brotli,
}

/// The method that a one-byte tag names, if any.
pub open spec fn method_of_code(code: u8) -> Option<FrooxContainerCompressMethod> {
    if code == 0 {
        Some(FrooxContainerCompressMethod::NoCompress)
    } else if code == 1 {
        Some(FrooxContainerCompressMethod::LZ4)
    } else if code == 2 {
        Some(FrooxContainerCompressMethod::LZMA)
    } else if code == 3 {
        Some(FrooxContainerCompressMethod::Brotli)
    } else {
        None
    }
}

/// The name under which a method is shown to people.
pub open spec fn method_name(m: FrooxContainerCompressMethod) -> Seq<char> {
    match m {
        FrooxContainerCompressMethod::NoCompress => "<no compress>"@,
        FrooxContainerCompressMethod::LZ4 => "lz4"@,
        FrooxContainerCompressMethod::LZMA => "lzma"@,
        FrooxContainerCompressMethod::Brotli => "brotli"@,
    }
}

impl FrooxContainerCompressMethod {
    /// The method with the given one-byte tag.
    pub fn try_from(value: u8) -> (r: Result<Self, ()>)
        ensures
            match method_of_code(value) {
                Some(m) => r == Ok::<Self, ()>(m),
                None => r is Err,
            },
    {
        match value {
            0 => Ok(FrooxContainerCompressMethod::NoCompress),
            1 => Ok(FrooxContainerCompressMethod::LZ4),
            2 => Ok(FrooxContainerCompressMethod::LZMA),
            3 => Ok(FrooxContainerCompressMethod::Brotli),
            _ => Err(()),
        }
    }

    /// The one-byte tag of this method.
    pub fn code(&self) -> (r: u8)
        ensures
            method_of_code(r) == Some(*self),
    {
        match self {
            FrooxContainerCompressMethod::NoCompress => 0,
            FrooxContainerCompressMethod::LZ4 => 1,
            FrooxContainerCompressMethod::LZMA => 2,
            FrooxContainerCompressMethod::Brotli => 3,
        }
    }

    /// The name under which this method is shown to people.
    pub fn name(&self) -> (r: &'static str)
        ensures
            r@ == method_name(*self),
    {
        match self {
            FrooxContainerCompressMethod::NoCompress => "<no compress>",
            FrooxContainerCompressMethod::LZ4 => "lz4",
            FrooxContainerCompressMethod::LZMA => "lzma",
            FrooxContainerCompressMethod::Brotli => "brotli",
        }
    }
}

/// Why a buffer is not a current-generation container.
#[derive(Debug, Clone, Copy, PartialEq, Eq, Structural)]
pub enum FrooxContainerExtractError {
    /// The buffer does not start with `FrDT`.
    InvalidFirstMagicNumber,
    /// The four reserved bytes after the magic are not all zero.
    InvalidSecondMagicNumber,
    /// The compression tag does not fit in one byte.
    TooLargeForCompressionMethod,
    /// The compression tag names no known method.
    UnknownCompressionMethod,
    /// The compression tag is not a well-formed VarInt.
    VarIntDecodeError(VarIntError),
}

/// The marker of a current-generation header.
#[derive(Debug)]
pub struct FrDT(());

/// A container, borrowing its payload from the caller's buffer.
#[derive(Debug)]
pub enum FrooxContainer<'a> {
    /// A headerless container: the whole buffer is the payload.
    Legacy { raw_content: &'a [u8] },
    /// A container with an `FrDT` header naming its compression method.
    Current {
        header: FrDT,
        compress_method: FrooxContainerCompressMethod,
        raw_content: &'a [u8],
    },
}

/// The magic bytes `FrDT`.
pub open spec fn magic() -> Seq<u8> {
    seq![0x46u8, 0x72u8, 0x44u8, 0x54u8]
}

/// What parsing a current-generation header from `m` gives: the method and
/// where the payload starts.
pub open spec fn header(m: Seq<u8>) -> Result<(FrooxContainerCompressMethod, nat), FrooxContainerExtractError> {
    if m.len() < 4 || m.take(4) != magic() {
        Err(FrooxContainerExtractError::InvalidFirstMagicNumber)
    } else if m.len() < 8 || m.subrange(4, 8) != seq![0u8, 0u8, 0u8, 0u8] {
        Err(FrooxContainerExtractError::InvalidSecondMagicNumber)
    } else {
        match varint(m.skip(8)) {
            Err(e) => Err(FrooxContainerExtractError::VarIntDecodeError(e)),
            Ok((tag, n)) => if tag > 255 {
                Err(FrooxContainerExtractError::TooLargeForCompressionMethod)
            } else {
                match method_of_code(tag as u8) {
                    None => Err(FrooxContainerExtractError::UnknownCompressionMethod),
                    Some(method) => Ok((method, 8 + n)),
                }
            },
        }
    }
}

/// Parses the header of a current-generation container. The payload of the
/// result is the part of `m` after the header, borrowed, not copied.
pub fn split_froox_container_header(m: &[u8]) -> (r: Result<FrooxContainer<'_>, FrooxContainerExtractError>)
    ensures
        match (r, header(m@)) {
            (Ok(FrooxContainer::Current { compress_method, raw_content, .. }), Ok((method, start))) =>
                compress_method == method && raw_content@ == m@.subrange(start as int, m@.len() as int),
            (Err(e), Err(se)) => e == se,
            _ => false,
        },
{
    if m.len() < 4 || m[0] != 0x46 || m[1] != 0x72 || m[2] != 0x44 || m[3] != 0x54 {
        proof {
            if m@.len() >= 4 {
                assert(m@.take(4) != magic()) by {
                    if m@.take(4) == magic() {
                        assert(m@.take(4)[0] == m@[0]);
                        assert(m@.take(4)[1] == m@[1]);
                        assert(m@.take(4)[2] == m@[2]);
                        assert(m@.take(4)[3] == m@[3]);
                    }
                }
            }
        }
        return Err(FrooxContainerExtractError::InvalidFirstMagicNumber);
    }
    assert(m@.take(4) =~= magic());
    if m.len() < 8 || m[4] != 0 || m[5] != 0 || m[6] != 0 || m[7] != 0 {
        proof {
            if m@.len() >= 8 {
                assert(m@.subrange(4, 8) != seq![0u8, 0u8, 0u8, 0u8]) by {
                    if m@.subrange(4, 8) == seq![0u8, 0u8, 0u8, 0u8] {
                        assert(m@.subrange(4, 8)[0] == m@[4]);
                        assert(m@.subrange(4, 8)[1] == m@[5]);
                        assert(m@.subrange(4, 8)[2] == m@[6]);
                        assert(m@.subrange(4, 8)[3] == m@[7]);
                    }
                }
            }
        }
        return Err(FrooxContainerExtractError::InvalidSecondMagicNumber);
    }
    assert(m@.subrange(4, 8) =~= seq![0u8, 0u8, 0u8, 0u8]);
    let tail = vstd::slice::slice_subrange(m, 8, m.len());
    assert(tail@ =~= m@.skip(8));
    let (tag, rest) = match decode_varint(tail) {
        Ok(p) => p,
        Err(e) => {
            return Err(FrooxContainerExtractError::VarIntDecodeError(e));
        },
    };
    if tag > 255 {
        return Err(FrooxContainerExtractError::TooLargeForCompressionMethod);
    }
    let compress_method = match FrooxContainerCompressMethod::try_from(tag as u8) {
        Ok(method) => method,
        Err(()) => {
            return Err(FrooxContainerExtractError::UnknownCompressionMethod);
        },
    };
    proof {
        let n = varint(m@.skip(8))->Ok_0.1;
        assert(rest@ =~= m@.subrange(8 + n as int, m@.len() as int));
    }
    Ok(FrooxContainer::Current { header: FrDT(()), compress_method, raw_content: rest })
}

/// Wraps a whole buffer as a legacy container, for use when it carries no
/// current-generation header.
pub fn legacy(n: &[u8]) -> (r: FrooxContainer<'_>)
    ensures
        match r {
            FrooxContainer::Legacy { raw_content } => raw_content@ == n@,
            _ => false,
        },
{
    FrooxContainer::Legacy { raw_content: n }
}

/// The header of a current-generation container: the magic, four zero bytes
/// and the compression tag `tag`.
pub open spec fn header_bytes(tag: u64) -> Seq<u8> {
    magic() + seq![0u8, 0u8, 0u8, 0u8] + varint_encode(tag as nat)
}

proof fn lemma_header_of_tag(tag: u64, payload: Seq<u8>)
    ensures
        (header_bytes(tag) + payload).skip(8) == varint_encode(tag as nat) + payload,
        (header_bytes(tag) + payload).take(4) == magic(),
        (header_bytes(tag) + payload).subrange(4, 8) == seq![0u8, 0u8, 0u8, 0u8],
        varint(varint_encode(tag as nat) + payload) == Ok::<(u64, nat), VarIntError>(
            (tag, varint_encode(tag as nat).len()),
        ),
{
    let m = header_bytes(tag) + payload;
    let e = varint_encode(tag as nat);
    assert(m.skip(8) =~= e + payload);
    assert(m.take(4) =~= magic());
    assert(m.subrange(4, 8) =~= seq![0u8, 0u8, 0u8, 0u8]);
    lemma_varint_round_trip(tag, payload);
}

/// A header naming a known method, followed by any payload, parses as that
/// method, and the payload is exactly what follows the header.
pub proof fn lemma_header_known_method(method: FrooxContainerCompressMethod, code: u8, payload: Seq<u8>)
    requires
        method_of_code(code) == Some(method),
    ensures
        header(header_bytes(code as u64) + payload) == Ok::<(FrooxContainerCompressMethod, nat), FrooxContainerExtractError>(
            (method, header_bytes(code as u64).len()),
        ),
        (header_bytes(code as u64) + payload).skip(header_bytes(code as u64).len() as int) == payload,
{
    let m = header_bytes(code as u64) + payload;
    lemma_header_of_tag(code as u64, payload);
    assert(varint_encode(code as nat) =~= seq![code]);
    assert(m.skip(header_bytes(code as u64).len() as int) =~= payload);
}

/// A buffer that does not start with `FrDT` is refused for its magic.
pub proof fn lemma_header_needs_magic(m: Seq<u8>)
    requires
        !(m.len() >= 4 && m.take(4) == magic()),
    ensures
        header(m) == Err::<(FrooxContainerCompressMethod, nat), FrooxContainerExtractError>(
            FrooxContainerExtractError::InvalidFirstMagicNumber,
        ),
{
}

/// A well-formed header whose tag fits in a byte but names no method is
/// refused as an unknown method, whatever follows it.
pub proof fn lemma_header_unknown_method(tag: u64, payload: Seq<u8>)
    requires
        4 <= tag <= 255,
    ensures
        header(header_bytes(tag) + payload) == Err::<(FrooxContainerCompressMethod, nat), FrooxContainerExtractError>(
            FrooxContainerExtractError::UnknownCompressionMethod,
        ),
{
    lemma_header_of_tag(tag, payload);
}

} // verus!
