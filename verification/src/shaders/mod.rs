//! Shader management: the sources of the Metal and WGSL compute shaders
//! and their static checks.

pub mod metal_shaders;
pub mod wgsl_shaders;

pub use metal_shaders::MetalShaderManager;
pub use wgsl_shaders::WgslShaderManager;
