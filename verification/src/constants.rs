//! The numbers that size the pipeline.

use vstd::prelude::*;

verus! {

/// Upper bound on downloads that run at the same time.
pub const MAX_CONCURRENT_DOWNLOADS: usize = 16;

/// Upper bound on package tasks that run at the same time.
pub const MAX_CONCURRENT_INSTALLS: usize = 16;

/// Seconds after which a request to the index is given up.
pub const HTTP_TIMEOUT_SECS: u64 = 30;

/// Size that the cache is meant to stay below, in megabytes.
pub const CACHE_SIZE_MB: usize = 500;

/// Number of entries the memory tier of the cache holds.
pub const MEMORY_CACHE_ENTRIES: usize = 1000;

/// Size of a read buffer for files, in bytes.
pub const CHUNK_SIZE: usize = 8192;

/// Number of keys the membership filter of the cache is sized for.
pub const FILTER_ITEMS: usize = 10000;

/// Size of the membership filter in bytes: what a false-positive rate of
/// one in a hundred takes for `FILTER_ITEMS` keys.
pub const FILTER_BYTES: usize = 11982;

} // verus!
