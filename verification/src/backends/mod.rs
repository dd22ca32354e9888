//! GPU backend detection and selection, and the backends' launch-size
//! helpers.

pub mod detector;
pub mod device_text;
pub mod helpers;
pub mod vulkan_device;

pub use detector::{GpuBackendType, detect_available_backends, select_best_backend};
pub use helpers::{CudaHelpers, MetalHelpers};
