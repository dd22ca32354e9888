//! wgpu VRAM monitor (reports fixed figures).

use vstd::prelude::*;
use std::sync::Arc;
use crate::error::HiveGpuError;
use crate::wgpu::context::{WgpuContext, WGPU_TOTAL_MEMORY};

verus! {

/// wgpu VRAM monitor.
#[derive(Debug)]
pub struct WgpuVramMonitor {
    context: Arc<WgpuContext>,
}

impl WgpuVramMonitor {
    /// The context the monitor reports on.
    pub closed spec fn spec_context(self) -> WgpuContext {
        *self.context
    }

    /// Creates a monitor on `context`.
    pub fn new(context: Arc<WgpuContext>) -> (r: Result<Self, HiveGpuError>)
        ensures
            r matches Ok(m) && m.spec_context() == *context,
    {
        Ok(WgpuVramMonitor { context })
    }

    /// Current VRAM usage: 0.
    pub fn get_vram_usage(&self) -> (r: Result<u64, HiveGpuError>)
        ensures
            r == Ok::<u64, HiveGpuError>(0),
    {
        Ok(0)
    }

    /// Available VRAM: 1 GiB.
    pub fn get_available_vram(&self) -> (r: Result<u64, HiveGpuError>)
        ensures
            r == Ok::<u64, HiveGpuError>(WGPU_TOTAL_MEMORY),
    {
        Ok(WGPU_TOTAL_MEMORY)
    }
}

} // verus!
