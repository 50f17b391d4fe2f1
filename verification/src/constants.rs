use vstd::prelude::*;

verus! {

/// Plaintext bytes in one full segment (1 MiB).
pub const SEGMENT_SIZE: usize = 1048576;

/// Codec format of every segment this node stores: verifiable and error-corrected.
pub const NODE_FORMAT: u8 = 12;

/// Directory of a volume that holds the chunk files.
pub const SEGMENT_DIR: &'static str = "segments";

/// Directory of a volume that holds the catalog replicas.
pub const CATALOG_DIR: &'static str = "catalogs";

/// Number of storage volumes, and of chunks per encoded segment.
pub const VOLUME_COUNT: usize = 8;

/// Fewest chunks of a segment from which the codec can recover it.
pub const MIN_CHUNKS: usize = 4;

/// Bytes in the header that precedes the payload of every chunk file.
pub const HEADER_LEN: usize = 160;

/// Format bit: the payload is encrypted to the associated key.
pub const FORMAT_ECIES: u8 = 1;

/// Format bit: the payload is compressed.
pub const FORMAT_SNAPPY: u8 = 2;

/// Format bit: the payload is a verifiable stream.
pub const FORMAT_BAO: u8 = 4;

/// Format bit: the payload carries error-correction blocks.
pub const FORMAT_ZFEC: u8 = 8;

/// Capacity, in megabytes, of a node whose configuration names none.
pub const DEFAULT_CAPACITY: u64 = 1000;

/// Name of the node's directory below the user's configuration directory.
pub const CFG_DIR_NAME: &'static str = "carbonado";

/// Name of the configuration file inside the configuration directory.
pub const CFG_FILE_NAME: &'static str = "cfg.toml";

} // verus!
