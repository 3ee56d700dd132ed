//! A Bloom filter over string items: a packed bit array addressed through
//! double hashing, with a capacity gate and a framing of its full state for
//! persistence.

pub mod bits;
pub mod filter;
pub mod hashing;
pub mod laws;
pub mod model;

pub use filter::{check_configuration, BloomFilter, ConfigurationError};
pub use hashing::{index_from_hashes, native_little_endian};
pub use model::{FilterParts, FormatError, DEFAULT_FALSE_POSITIVE_PROBABILITY_BITS, PROBABILITY_ONE_BITS};
