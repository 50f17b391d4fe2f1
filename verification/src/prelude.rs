pub use crate::constants::{
    CATALOG_DIR, CFG_DIR_NAME, CFG_FILE_NAME, DEFAULT_CAPACITY, FORMAT_BAO, FORMAT_ECIES,
    FORMAT_SNAPPY, FORMAT_ZFEC, HEADER_LEN, MIN_CHUNKS, NODE_FORMAT, SEGMENT_DIR, SEGMENT_SIZE,
    VOLUME_COUNT,
};
pub use crate::structs::{BaoHash, Blake3Hash, PubKey, Secp256k1PubKey};
