//! Hive GPU: the host-side logic of GPU-accelerated vector similarity search,
//! specified and proved with Verus.

pub mod backends;
pub mod error;
pub mod ivf;
pub mod monitoring;
pub mod shaders;
pub mod storage;
pub mod traits;
pub mod types;
pub mod utils;
pub mod wgpu;
