//! Core types for Hive GPU.

use vstd::prelude::*;

verus! {

/// Distance metrics for vector similarity.
#[derive(Debug, Clone, Copy, PartialEq, Eq, Structural)]
pub enum GpuDistanceMetric {
    /// Cosine similarity
    Cosine,
    /// Euclidean distance
    Euclidean,
    /// Dot product
    DotProduct,
}

/// The display name of a metric.
pub open spec fn metric_name(m: GpuDistanceMetric) -> Seq<char> {
    match m {
        GpuDistanceMetric::Cosine => "cosine"@,
        GpuDistanceMetric::Euclidean => "euclidean"@,
        GpuDistanceMetric::DotProduct => "dot_product"@,
    }
}

impl GpuDistanceMetric {
    /// The lower-case display name of the metric.
    pub fn to_string(&self) -> (s: String)
        ensures
            s@ == metric_name(*self),
    {
        match self {
            GpuDistanceMetric::Cosine => String::from_str("cosine"),
            GpuDistanceMetric::Euclidean => String::from_str("euclidean"),
            GpuDistanceMetric::DotProduct => String::from_str("dot_product"),
        }
    }
}

/// GPU device information: memory, capabilities and backend-specific
/// details of one device.
#[derive(Debug, Clone)]
pub struct GpuDeviceInfo {
    /// Device name (e.g., "Apple M2 Pro", "NVIDIA RTX 4090")
    pub name: String,
    /// Backend type (e.g., "Metal", "CUDA", "ROCm")
    pub backend: String,
    /// Total VRAM in bytes
    pub total_vram_bytes: u64,
    /// Currently available VRAM in bytes
    pub available_vram_bytes: u64,
    /// Currently used VRAM in bytes (calculated as total - available)
    pub used_vram_bytes: u64,
    /// Driver version string (e.g., "macOS 14.1", "CUDA 12.0", "ROCm 5.4")
    pub driver_version: String,
    /// Compute capability or architecture version
    pub compute_capability: Option<String>,
    /// Maximum threads per block/workgroup
    pub max_threads_per_block: u32,
    /// Maximum shared memory per block (in bytes)
    pub max_shared_memory_per_block: u64,
    /// Device ID (0-indexed)
    pub device_id: i32,
    /// PCI bus ID (e.g., "0000:01:00.0"); None for Metal
    pub pci_bus_id: Option<String>,
}

/// Bytes in one mebibyte.
pub const BYTES_PER_MB: u64 = 1024 * 1024;

impl GpuDeviceInfo {
    /// Whether at least `required_bytes` of VRAM are available.
    pub fn has_available_vram(&self, required_bytes: u64) -> (b: bool)
        ensures
            b == (self.available_vram_bytes >= required_bytes),
    {
        self.available_vram_bytes >= required_bytes
    }

    /// Available VRAM in whole megabytes (rounded down).
    pub fn available_vram_mb(&self) -> (mb: u64)
        ensures
            mb == self.available_vram_bytes / BYTES_PER_MB,
    {
        self.available_vram_bytes / (1024 * 1024)
    }

    /// Total VRAM in whole megabytes (rounded down).
    pub fn total_vram_mb(&self) -> (mb: u64)
        ensures
            mb == self.total_vram_bytes / BYTES_PER_MB,
    {
        self.total_vram_bytes / (1024 * 1024)
    }
}

/// GPU capabilities.
#[derive(Debug, Clone)]
pub struct GpuCapabilities {
    /// Supports HNSW operations
    pub supports_hnsw: bool,
    /// Supports batch operations
    pub supports_batch: bool,
    /// Maximum vector dimension
    pub max_dimension: usize,
    /// Maximum vectors per batch
    pub max_batch_size: usize,
}

/// Configuration for an IVF (Inverted File) index.
///
/// IVF partitions the vector space into `n_list` Voronoi cells via k-means.
/// At query time only the `nprobe` cells closest to the query are searched.
#[derive(Debug, Clone)]
pub struct IvfConfig {
    /// Number of Voronoi cells (centroids).
    pub n_list: usize,
    /// Number of cells to probe per query.
    pub nprobe: usize,
    /// Upper bound on the training-sample size used by k-means; the
    /// effective sample is `min(training_sample_size, input.len())`.
    pub training_sample_size: usize,
    /// Maximum Lloyd iterations during training.
    pub kmeans_iters: usize,
    /// Random seed for k-means++ initialisation. `None` means the default seed.
    pub seed: Option<u64>,
}

/// `r` is the ceiling of the square root of `n`.
pub open spec fn is_ceil_sqrt(n: nat, r: nat) -> bool {
    &&& r * r >= n
    &&& (r == 0 || (r - 1) * (r - 1) < n)
}

/// `n_list` is the ceiling of the square root of `n`, clamped to
/// `16..=65536`.
pub open spec fn is_dataset_n_list(n: nat, n_list: nat) -> bool {
    if n <= 256 {
        n_list == 16
    } else if n > 65535 * 65535 {
        n_list == 65536
    } else {
        is_ceil_sqrt(n, n_list)
    }
}

/// The ceiling of a square root is unique.
pub proof fn lemma_ceil_sqrt_unique(n: nat, r1: nat, r2: nat)
    requires
        is_ceil_sqrt(n, r1),
        is_ceil_sqrt(n, r2),
    ensures
        r1 == r2,
{
    if r1 < r2 {
        assert((r2 - 1) * (r2 - 1) >= r1 * r1) by (nonlinear_arith)
            requires r1 < r2;
    } else if r2 < r1 {
        assert((r1 - 1) * (r1 - 1) >= r2 * r2) by (nonlinear_arith)
            requires r2 < r1;
    }
}

impl Default for IvfConfig {
    fn default() -> (c: Self)
        ensures
            c.n_list == 1024,
            c.nprobe == 64,
            c.training_sample_size == 256 * 1024,
            c.kmeans_iters == 20,
            c.seed.is_none(),
    {
        IvfConfig {
            n_list: 1024,
            nprobe: 64,
            training_sample_size: 256 * 1024,
            kmeans_iters: 20,
            seed: None,
        }
    }
}

impl IvfConfig {
    /// Heuristic `n_list = ceil(sqrt(n))` clamped to `16..=65536`, with
    /// `nprobe = n_list / 16` (at least 1) and a training sample of
    /// `min(256 * n_list, n)` vectors.
    pub fn for_dataset_size(n: usize) -> (c: Self)
        ensures
            is_dataset_n_list(n as nat, c.n_list as nat),
            16 <= c.n_list <= 65536,
            c.nprobe == c.n_list / 16,
            c.nprobe >= 1,
            c.training_sample_size == if 256 * c.n_list <= n { 256 * c.n_list } else { n as int },
            c.kmeans_iters == 20,
            c.seed.is_none(),
    {
        let n_list: usize;
        if n <= 256 {
            n_list = 16;
        } else if n > 65535 * 65535 {
            n_list = 65536;
        } else {
            // Smallest r in 0..=65535 with r * r >= n.
            let mut lo: u64 = 0;
            let mut hi: u64 = 65535;
            let nn = n as u64;
            while lo < hi
                invariant
                    lo <= hi <= 65535,
                    nn == n,
                    256 < nn <= 65535 * 65535,
                    hi * hi >= nn,
                    lo == 0 || (lo - 1) * (lo - 1) < nn,
                decreases hi - lo,
            {
                let mid = lo + (hi - lo) / 2;
                assert(mid * mid <= 65535 * 65535) by (nonlinear_arith)
                    requires mid <= 65535;
                if mid * mid >= nn {
                    hi = mid;
                } else {
                    lo = mid + 1;
                }
            }
            assert(lo >= 17) by (nonlinear_arith)
                requires lo * lo >= nn, nn > 256;
            n_list = lo as usize;
        }
        let training = if 256 * n_list <= n { 256 * n_list } else { n };
        IvfConfig {
            n_list,
            nprobe: n_list / 16,
            training_sample_size: training,
            kmeans_iters: 20,
            seed: None,
        }
    }
}

/// Vector metadata for GPU operations.
#[derive(Debug, Clone)]
pub struct VectorMetadata {
    /// Original vector ID
    pub original_id: String,
    /// Index in storage
    pub index: usize,
    /// Timestamp of creation
    pub timestamp: u64,
}

} // verus!
