//! wgpu context: the single source of truth for the wgpu device.

use vstd::prelude::*;
use crate::types::{GpuCapabilities, GpuDeviceInfo};

verus! {

/// Total memory the wgpu context reports (1 GiB).
pub const WGPU_TOTAL_MEMORY: u64 = 1024 * 1024 * 1024;

/// wgpu context.
#[derive(Debug, Clone)]
pub struct WgpuContext {
    device_name: String,
    backend: String,
    total_memory: u64,
}

impl WgpuContext {
    pub closed spec fn spec_device_name(self) -> Seq<char> {
        self.device_name@
    }

    pub closed spec fn spec_backend(self) -> Seq<char> {
        self.backend@
    }

    pub closed spec fn spec_total_memory(self) -> u64 {
        self.total_memory
    }

    /// Creates the context: device "wgpu GPU" on the Vulkan backend with
    /// 1 GiB of memory.
    pub fn new() -> (r: Result<Self, crate::error::HiveGpuError>)
        ensures
            r matches Ok(c) && c.spec_device_name() == "wgpu GPU"@ && c.spec_backend() == "Vulkan"@
                && c.spec_total_memory() == WGPU_TOTAL_MEMORY,
    {
        Ok(WgpuContext {
            device_name: String::from_str("wgpu GPU"),
            backend: String::from_str("Vulkan"),
            total_memory: WGPU_TOTAL_MEMORY,
        })
    }

    /// Device name.
    pub fn device_name(&self) -> (s: String)
        ensures
            s@ == self.spec_device_name(),
    {
        self.device_name.clone()
    }

    /// Backend name.
    pub fn backend(&self) -> (s: String)
        ensures
            s@ == self.spec_backend(),
    {
        self.backend.clone()
    }

    /// Total memory in bytes.
    pub fn total_memory(&self) -> (m: u64)
        ensures
            m == self.spec_total_memory(),
    {
        self.total_memory
    }

    /// Whether the device supports the required features (always).
    pub fn supports_required_features(&self) -> (b: bool)
        ensures
            b,
    {
        true
    }

    /// Device information: the context's name and memory, nothing used.
    pub fn device_info(&self) -> (info: GpuDeviceInfo)
        ensures
            info.name@ == self.spec_device_name(),
            info.backend@ == "wgpu"@,
            info.total_vram_bytes == self.spec_total_memory(),
            info.available_vram_bytes == self.spec_total_memory(),
            info.used_vram_bytes == 0,
            info.driver_version@ == "wgpu"@,
            info.compute_capability is None,
            info.max_threads_per_block == 256,
            info.max_shared_memory_per_block == 16384,
            info.device_id == 0,
            info.pci_bus_id is None,
    {
        let total_vram = self.total_memory();
        let used_vram: u64 = 0;
        let available_vram = total_vram - used_vram;
        GpuDeviceInfo {
            name: self.device_name(),
            backend: String::from_str("wgpu"),
            total_vram_bytes: total_vram,
            available_vram_bytes: available_vram,
            used_vram_bytes: used_vram,
            driver_version: String::from_str("wgpu"),
            compute_capability: None,
            max_threads_per_block: 256,
            max_shared_memory_per_block: 16384,
            device_id: 0,
            pci_bus_id: None,
        }
    }

    /// Supported operations: HNSW and batches, up to 512 dimensions and
    /// 10000 vectors per batch.
    pub fn supports_operations(&self) -> (c: GpuCapabilities)
        ensures
            c.supports_hnsw,
            c.supports_batch,
            c.max_dimension == 512,
            c.max_batch_size == 10000,
    {
        GpuCapabilities { supports_hnsw: true, supports_batch: true, max_dimension: 512, max_batch_size: 10000 }
    }
}

} // verus!
