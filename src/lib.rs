//! Decoding of FrooxEngine data-tree containers ("FrDT" files and their
//! headerless legacy predecessors) into BSON documents.
pub mod backends;
pub mod chunks;
pub mod container;
pub mod decode;
pub mod nesting;
pub mod varint;

pub use chunks::{read_lz4net_chunk, read_lz4net_chunks, Lz4DecompressionError};
pub use container::{
    legacy, split_froox_container_header, FrDT, FrooxContainer, FrooxContainerCompressMethod,
    FrooxContainerExtractError,
};
pub use nesting::{check_bson_nesting, MAX_BSON_DEPTH};
pub use decode::{
    decompress, decompress_lz4_size_prepended, deserialize_legacy_with, Decompressed,
    DeserializeError, DocumentError, LegacyChunkFailure, LzmaDecompressionError,
};
pub use varint::{decode_varint, VarIntError};
