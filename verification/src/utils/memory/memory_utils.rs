//! Memory sizes of stored vectors and their metadata.

use vstd::prelude::*;

verus! {

/// Bytes of one vector component (`f32`).
pub const COMPONENT_BYTES: usize = 4;

/// Bytes reserved per vector for its metadata.
pub const METADATA_BYTES_PER_VECTOR: usize = 256;

/// Bytes taken by `count` vectors of `dimension` components.
pub fn calculate_vector_memory_size(dimension: usize, count: usize) -> (r: usize)
    requires
        count * dimension * COMPONENT_BYTES <= usize::MAX,
    ensures
        r == count * dimension * COMPONENT_BYTES,
{
    assert(count * dimension <= count * dimension * 4) by (nonlinear_arith);
    count * dimension * COMPONENT_BYTES
}

/// Bytes taken by the metadata of `count` vectors (256 bytes each).
pub fn calculate_metadata_memory_size(count: usize) -> (r: usize)
    requires
        count * METADATA_BYTES_PER_VECTOR <= usize::MAX,
    ensures
        r == count * METADATA_BYTES_PER_VECTOR,
{
    count * METADATA_BYTES_PER_VECTOR
}

} // verus!
