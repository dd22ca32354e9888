//! wgpu buffer pool (pooling is not provided by this backend yet).

use vstd::prelude::*;
use std::sync::Arc;
use crate::error::{HiveGpuError, is_other_error};
use crate::wgpu::context::WgpuContext;

verus! {

/// wgpu buffer pool.
#[derive(Debug)]
pub struct WgpuBufferPool {
    context: Arc<WgpuContext>,
}

impl WgpuBufferPool {
    /// The context the pool allocates from.
    pub closed spec fn spec_context(self) -> WgpuContext {
        *self.context
    }

    /// Creates a pool on `context`.
    pub fn new(context: Arc<WgpuContext>) -> (r: Result<Self, HiveGpuError>)
        ensures
            r matches Ok(p) && p.spec_context() == *context,
    {
        Ok(WgpuBufferPool { context })
    }

    /// Requests a buffer: the pool provides none.
    pub fn get_buffer(&mut self, size: usize) -> (r: Result<(), HiveGpuError>)
        ensures
            r is Err && is_other_error(r->Err_0, "wgpu buffer pool not implemented yet"@),
            final(self).spec_context() == old(self).spec_context(),
    {
        Err(HiveGpuError::Other(String::from_str("wgpu buffer pool not implemented yet")))
    }

    /// Returns a buffer to the pool; always succeeds.
    pub fn return_buffer(&mut self, buffer: ()) -> (r: Result<(), HiveGpuError>)
        ensures
            r is Ok,
            final(self).spec_context() == old(self).spec_context(),
    {
        Ok(())
    }
}

} // verus!
