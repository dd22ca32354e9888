//! Buffer descriptors shared by the GPU backends.

use vstd::prelude::*;

verus! {

/// GPU buffer handle.
#[derive(Debug, Clone)]
pub struct GpuBuffer {
    /// Buffer ID
    pub id: usize,
    /// Buffer size in bytes
    pub size: usize,
    /// Buffer type
    pub buffer_type: BufferType,
}

/// Buffer types.
#[derive(Debug, Clone, Copy, PartialEq, Eq, Hash, Structural)]
pub enum BufferType {
    /// Vector data buffer
    Vector,
    /// Metadata buffer
    Metadata,
    /// Temporary computation buffer
    Temporary,
    /// HNSW graph buffer
    HnswGraph,
}

/// VRAM buffer information.
#[derive(Debug, Clone, Copy)]
pub struct VramBufferInfo {
    /// Buffer ID
    pub buffer_id: usize,
    /// Buffer size in bytes
    pub size: usize,
    /// Buffer type
    pub buffer_type: BufferType,
    /// Allocation timestamp
    pub allocated_at: u64,
}

} // verus!
