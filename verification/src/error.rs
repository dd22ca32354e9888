//! Error type for Hive GPU operations.

use vstd::prelude::*;

verus! {

/// std's `io::Error`, carried by the `IoError` variant.
#[verifier::external_type_specification]
#[verifier::external_body]
pub struct ExIoError(std::io::Error);

/// serde_json's `Error`, carried by the `JsonError` variant.
#[verifier::external_type_specification]
#[verifier::external_body]
pub struct ExJsonError(serde_json::Error);

/// Main error type for Hive GPU operations.
#[derive(Debug)]
pub enum HiveGpuError {
    /// Invalid vector dimension
    InvalidDimension { expected: usize, got: usize },
    /// Dimension mismatch
    DimensionMismatch { expected: usize, actual: usize },
    /// VRAM limit exceeded
    VramLimitExceeded { requested: usize, limit: usize },
    /// GPU operation failed
    GpuOperationFailed(String),
    /// No GPU device available
    NoDeviceAvailable,
    /// Buffer allocation failed
    BufferAllocationFailed(String),
    /// Device initialization failed
    DeviceInitializationFailed(String),
    /// Shader compilation failed
    ShaderCompilationFailed(String),
    /// Memory allocation failed
    MemoryAllocationFailed(String),
    /// Search operation failed
    SearchFailed(String),
    /// Vector not found
    VectorNotFound(String),
    /// Invalid configuration
    InvalidConfiguration(String),
    /// CUDA driver or runtime failure
    CudaError(String),
    /// cuBLAS call failure
    CublasError(String),
    /// Internal error
    InternalError(String),
    /// IO error
    IoError(std::io::Error),
    /// JSON error
    JsonError(serde_json::Error),
    /// Other errors
    Other(String),
}

/// `e` is an `InvalidConfiguration` error whose message is `msg`.
pub open spec fn is_invalid_configuration(e: HiveGpuError, msg: Seq<char>) -> bool {
    e matches HiveGpuError::InvalidConfiguration(m) && m@ == msg
}

/// `e` is an `Other` error whose message is `msg`.
pub open spec fn is_other_error(e: HiveGpuError, msg: Seq<char>) -> bool {
    e matches HiveGpuError::Other(m) && m@ == msg
}

/// `e` is a `DimensionMismatch` error with the given fields.
pub open spec fn is_dimension_mismatch(e: HiveGpuError, expected: usize, actual: usize) -> bool {
    e == HiveGpuError::DimensionMismatch { expected, actual }
}

} // verus!
