//! Plain records the storages hand out.

use vstd::prelude::*;

verus! {

/// What the Metal storage keeps of each stored vector.
#[derive(Debug, Clone)]
pub struct VectorMetadata {
    pub original_id: String,
    pub index: usize,
    /// Seconds since the Unix epoch when the vector was stored.
    pub timestamp: u64,
}

/// Storage statistics.
#[derive(Debug, Clone, Copy)]
pub struct StorageStats {
    /// Slots taken, soft-deleted ones included.
    pub vector_count: usize,
    /// Slots of the device buffer.
    pub buffer_capacity: usize,
    pub dimension: usize,
    /// Soft-deleted slots.
    pub removed_count: usize,
    /// Size of the device buffer in whole MiB.
    pub buffer_size_mb: usize,
}

} // verus!
