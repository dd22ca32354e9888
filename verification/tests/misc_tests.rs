use hive_gpu::backends::detector::{detect_available_backends, get_backend_info, select_best_backend, GpuBackendType};
use hive_gpu::error::HiveGpuError;
use hive_gpu::ivf::rng::SplitMix64;
use hive_gpu::shaders::metal_shaders::MetalShaderManager;
use hive_gpu::shaders::wgsl_shaders::WgslShaderManager;
use hive_gpu::types::{GpuDeviceInfo, GpuDistanceMetric, IvfConfig};
use hive_gpu::utils::memory::buffer_utils::{align_buffer_size, validate_buffer_parameters};
use hive_gpu::utils::memory::memory_utils::{calculate_metadata_memory_size, calculate_vector_memory_size};
use hive_gpu::utils::timing::{calculate_latency, measure_time};
use std::sync::Arc;
use hive_gpu::wgpu::buffer_pool::WgpuBufferPool;
use hive_gpu::wgpu::context::WgpuContext;
use hive_gpu::wgpu::helpers::WgpuHelpers;
use hive_gpu::wgpu::hnsw_graph::WgpuHnswGraph;
use hive_gpu::wgpu::vector_storage::WgpuVectorStorage;
use hive_gpu::wgpu::vram_monitor::WgpuVramMonitor;

#[test]
fn splitmix_reference_sequence() {
    let mut r = SplitMix64::new(0);
    assert_eq!(r.next_u64(), 0xe220a8397b1dcdaf);
    assert_eq!(r.next_u64(), 0x6e789e6aa1b965f4);
    assert_eq!(r.next_u64(), 0x06c45d188009454f);
}

#[test]
fn backend_detection_and_selection() {
    let all = detect_available_backends(true, true, true, true);
    assert_eq!(
        all,
        vec![GpuBackendType::Metal, GpuBackendType::Cuda, GpuBackendType::Rocm, GpuBackendType::Intel, GpuBackendType::Cpu]
    );
    let only_cpu = detect_available_backends(false, false, false, false);
    assert_eq!(only_cpu, vec![GpuBackendType::Cpu]);
    assert_eq!(select_best_backend(&detect_available_backends(false, true, true, true)).unwrap(), GpuBackendType::Cuda);
    let intel = detect_available_backends(false, false, false, true);
    assert_eq!(intel, vec![GpuBackendType::Intel, GpuBackendType::Cpu]);
    assert_eq!(select_best_backend(&intel).unwrap(), GpuBackendType::Intel);
    assert_eq!(select_best_backend(&[GpuBackendType::Cpu, GpuBackendType::Intel, GpuBackendType::Rocm]).unwrap(), GpuBackendType::Rocm);
    assert_eq!(GpuBackendType::Intel.to_string(), "Intel");
    assert_eq!(select_best_backend(&[GpuBackendType::Cpu, GpuBackendType::Rocm]).unwrap(), GpuBackendType::Rocm);
    assert!(matches!(select_best_backend(&[]), Err(HiveGpuError::NoDeviceAvailable)));
    assert_eq!(GpuBackendType::Rocm.to_string(), "ROCm");
    assert_eq!(GpuBackendType::Cuda.to_string(), "CUDA");
}

#[test]
fn backend_descriptions() {
    assert_eq!(get_backend_info(GpuBackendType::Metal, Some("Apple M2"), false, false, false).unwrap(), "Metal device: Apple M2");
    assert!(matches!(get_backend_info(GpuBackendType::Metal, None, true, true, true), Err(HiveGpuError::NoDeviceAvailable)));
    assert_eq!(get_backend_info(GpuBackendType::Cuda, None, true, false, false).unwrap(), "CUDA device available");
    assert!(get_backend_info(GpuBackendType::Rocm, None, true, false, true).is_err());
    assert_eq!(get_backend_info(GpuBackendType::Intel, None, false, false, true).unwrap(), "Intel device available");
    assert!(matches!(get_backend_info(GpuBackendType::Intel, None, true, true, false), Err(HiveGpuError::NoDeviceAvailable)));
    assert_eq!(get_backend_info(GpuBackendType::Cpu, None, false, false, false).unwrap(), "CPU fallback");
}

#[test]
fn ivf_config_defaults_and_dataset_sizing() {
    let d = IvfConfig::default();
    assert_eq!((d.n_list, d.nprobe, d.training_sample_size, d.kmeans_iters), (1024, 64, 262144, 20));
    assert!(d.seed.is_none());
    for n in [0usize, 1, 100, 256, 257, 1000, 10_000, 1_000_000, 5_000_000_000] {
        let c = IvfConfig::for_dataset_size(n);
        let expect = ((n as f64).sqrt().ceil() as usize).clamp(16, 65_536);
        assert_eq!(c.n_list, expect, "n = {}", n);
        assert_eq!(c.nprobe, (expect / 16).max(1));
        assert_eq!(c.training_sample_size, (256 * expect).min(n));
        assert_eq!(c.kmeans_iters, 20);
    }
}

#[test]
fn metric_names() {
    assert_eq!(GpuDistanceMetric::Cosine.to_string(), "cosine");
    assert_eq!(GpuDistanceMetric::Euclidean.to_string(), "euclidean");
    assert_eq!(GpuDistanceMetric::DotProduct.to_string(), "dot_product");
}

#[test]
fn device_info_memory_in_megabytes() {
    let info = GpuDeviceInfo {
        name: "gpu".to_string(),
        backend: "CUDA".to_string(),
        total_vram_bytes: 8 * 1024 * 1024 * 1024 + 5,
        available_vram_bytes: 3 * 1024 * 1024 - 1,
        used_vram_bytes: 0,
        driver_version: "CUDA 12.4".to_string(),
        compute_capability: None,
        max_threads_per_block: 1024,
        max_shared_memory_per_block: 49152,
        device_id: 0,
        pci_bus_id: None,
    };
    assert_eq!(info.total_vram_mb(), 8192);
    assert_eq!(info.available_vram_mb(), 2);
    assert!(info.has_available_vram(3 * 1024 * 1024 - 1));
    assert!(!info.has_available_vram(3 * 1024 * 1024));
}

#[test]
fn memory_sizes_and_alignment() {
    assert_eq!(calculate_vector_memory_size(128, 1000), 512_000);
    assert_eq!(calculate_metadata_memory_size(10), 2560);
    assert_eq!(align_buffer_size(0), 0);
    assert_eq!(align_buffer_size(1), 256);
    assert_eq!(align_buffer_size(256), 256);
    assert_eq!(align_buffer_size(257), 512);
    let top = usize::MAX - 255;
    assert_eq!(align_buffer_size(top), top);
    assert_eq!(align_buffer_size(align_buffer_size(top)), top);
    assert_eq!(align_buffer_size(top - 100), top);
    let msg = |r: Result<(), HiveGpuError>| match r {
        Err(HiveGpuError::BufferAllocationFailed(m)) => m,
        other => panic!("unexpected {:?}", other),
    };
    assert_eq!(msg(validate_buffer_parameters(0, 256, 1024)), "Zero buffer size");
    assert_eq!(msg(validate_buffer_parameters(2048, 256, 1024)), "Buffer size 2048 exceeds maximum 1024");
    assert_eq!(msg(validate_buffer_parameters(300, 256, 1024)), "Buffer size 300 not aligned to 256");
    assert!(validate_buffer_parameters(512, 256, 1024).is_ok());
}

#[test]
fn timing_helpers() {
    let (v, d) = measure_time(|| 6 * 7);
    assert_eq!(v, 42);
    assert!(d.as_nanos() < 60_000_000_000);
    assert_eq!(calculate_latency(1_000_000, 3), 333_333);
    assert_eq!(calculate_latency(1_000_000, 0), 0);
    let big: u128 = (1u128 << 64) + 10;
    assert_eq!(calculate_latency(big, 5), 2);
}

#[test]
fn metal_shader_validation_names_the_first_missing_kernel() {
    let full = "cosine_similarity euclidean_distance dot_product hnsw_construction hnsw_search".to_string();
    assert!(MetalShaderManager::new(full.clone()).validate_shader().is_ok());
    let m = MetalShaderManager::new("dot_product cosine_similarity".to_string());
    match m.validate_shader().err().unwrap() {
        HiveGpuError::ShaderCompilationFailed(s) => assert_eq!(s, "Missing required function: euclidean_distance"),
        e => panic!("unexpected {:?}", e),
    }
    match MetalShaderManager::new(String::new()).validate_shader().err().unwrap() {
        HiveGpuError::ShaderCompilationFailed(s) => assert_eq!(s, "Empty shader source"),
        e => panic!("unexpected {:?}", e),
    }
    assert_eq!(MetalShaderManager::new(full.clone()).get_shader_source(), full);
}

fn wgsl(sources: [&str; 6]) -> WgslShaderManager {
    WgslShaderManager::new(
        sources[0].to_string(),
        sources[1].to_string(),
        sources[2].to_string(),
        sources[3].to_string(),
        sources[4].to_string(),
        sources[5].to_string(),
    )
}

#[test]
fn wgsl_shaders_are_found_by_name_and_validated() {
    let ok = "@compute fn main() {}";
    let m = wgsl([ok, ok, "@vertex fn v() {}", ok, "@fragment fn f() {}", ok]);
    assert!(m.validate_all_shaders().is_ok());
    assert_eq!(m.get_shader("dot_product"), Some("@vertex fn v() {}"));
    assert_eq!(m.get_shader("missing"), None);
    let mut names = m.get_shader_names();
    names.sort();
    assert_eq!(names, vec!["batch_construction", "distance", "dot_product", "hnsw_construction", "hnsw_navigation", "similarity"]);
    let info = m.get_compilation_info();
    assert_eq!(info.total_shaders, 6);
    assert_eq!(info.total_size, 4 * ok.len() + "@vertex fn v() {}".len() + "@fragment fn f() {}".len());
    let by_name: usize = info.shader_names.iter().map(|n| m.get_shader(n).unwrap().len()).sum();
    assert_eq!(info.total_size, by_name);
    let multi = wgsl(["@compute fn é() {}", ok, ok, ok, ok, ok]);
    assert_eq!(multi.get_compilation_info().total_size, "@compute fn é() {}".len() + 5 * ok.len());
    let bad = wgsl([ok, "fn main() {}", ok, ok, ok, ok]);
    match bad.validate_all_shaders().err().unwrap() {
        HiveGpuError::ShaderCompilationFailed(s) => assert_eq!(s, "Invalid WGSL shader: distance (missing entry point)"),
        e => panic!("unexpected {:?}", e),
    }
    let empty = wgsl([ok, ok, ok, "", ok, ok]);
    match empty.validate_all_shaders().err().unwrap() {
        HiveGpuError::ShaderCompilationFailed(s) => assert_eq!(s, "Empty shader source for: hnsw_construction"),
        e => panic!("unexpected {:?}", e),
    }
}

#[test]
fn wgpu_placeholders() {
    let ctx = WgpuContext::new().unwrap();
    assert_eq!(ctx.device_name(), "wgpu GPU");
    assert_eq!(ctx.backend(), "Vulkan");
    assert_eq!(ctx.total_memory(), 1024 * 1024 * 1024);
    assert!(ctx.supports_required_features());
    assert_eq!(WgpuHelpers::calculate_workgroup_size(&ctx, (2048, 4, 4)).unwrap(), (1024, 1, 1));
    assert_eq!(WgpuHelpers::calculate_workgroup_size(&ctx, (16, 16, 16)).unwrap(), (16, 16, 4));
    assert!(WgpuHelpers::validate_device_capabilities(&ctx).is_ok());
    let ctx = Arc::new(ctx);
    let mut s = WgpuVectorStorage::new(ctx.clone(), 8, GpuDistanceMetric::Cosine).unwrap();
    assert_eq!(s.add_vector().unwrap(), 0);
    assert_eq!(s.add_vector().unwrap(), 1);
    assert_eq!(s.vector_count(), 2);
    assert!(s.remove_vector("x").is_ok());
    assert_eq!(s.vector_count(), 2);
    assert_eq!(s.add_vectors(3).unwrap(), vec![2, 3, 4]);
    assert_eq!(s.vector_count(), 5);
    match s.get_vector("x").err().unwrap() {
        HiveGpuError::Other(m) => assert_eq!(m, "wgpu vector retrieval not implemented yet"),
        e => panic!("unexpected {:?}", e),
    }
    match s.search(3).err().unwrap() {
        HiveGpuError::Other(m) => assert_eq!(m, "wgpu search not implemented yet"),
        e => panic!("unexpected {:?}", e),
    }
    s.clear().unwrap();
    assert_eq!(s.vector_count(), 0);
    assert_eq!(s.dimension(), 8);
    let mut g = WgpuHnswGraph::new(ctx.clone(), 8, GpuDistanceMetric::Cosine).unwrap();
    match g.build_graph().err().unwrap() {
        HiveGpuError::Other(m) => assert_eq!(m, "wgpu HNSW graph construction not implemented yet"),
        e => panic!("unexpected {:?}", e),
    }
    match g.search(5).err().unwrap() {
        HiveGpuError::Other(m) => assert_eq!(m, "wgpu HNSW search not implemented yet"),
        e => panic!("unexpected {:?}", e),
    }
    let mon = WgpuVramMonitor::new(ctx.clone()).unwrap();
    assert_eq!(mon.get_vram_usage().unwrap(), 0);
    assert_eq!(mon.get_available_vram().unwrap(), 1024 * 1024 * 1024);
    let mut pool = WgpuBufferPool::new(ctx).unwrap();
    match pool.get_buffer(64).err().unwrap() {
        HiveGpuError::Other(m) => assert_eq!(m, "wgpu buffer pool not implemented yet"),
        e => panic!("unexpected {:?}", e),
    }
}
