use hive_gpu::backends::device_text::{cuda_pci_bus_id, format_capability, format_driver_version, format_gfx, format_pci_bus_id, rocm_pci_bus_id};
use hive_gpu::backends::helpers::{CudaHelpers, MetalHelpers};
use hive_gpu::backends::vulkan_device::{choose_device, device_local_vram, intel_device_info, select_physical_device, VulkanDeviceCandidate};
use hive_gpu::error::HiveGpuError;

#[test]
fn pci_bus_ids_are_padded_lower_case_hex() {
    assert_eq!(format_pci_bus_id(0, 1, 0), "0000:01:00.0");
    assert_eq!(format_pci_bus_id(0x1a, 0xab, 0x1f), "001a:ab:1f.0");
    assert_eq!(format_pci_bus_id(-1, 2, 3), format!("{:04x}:{:02x}:{:02x}.0", -1i32, 2, 3));
    assert_eq!(format_pci_bus_id(0x12345, 0x100, 7), "12345:100:07.0");
    assert_eq!(cuda_pci_bus_id(None, Some(3), Some(4)), Some("0000:03:04.0".to_string()));
    assert_eq!(cuda_pci_bus_id(Some(1), None, Some(4)), None);
    assert_eq!(rocm_pci_bus_id(-1, 3, 0), Some(format!("{:04x}:03:00.0", -1i32)));
    assert_eq!(rocm_pci_bus_id(0, -1, 0), None);
}

#[test]
fn driver_versions_split_major_and_minor() {
    for v in [12040, 0, 999, 5070, -1, -12345, 2147483647, -2147483648] {
        assert_eq!(format_driver_version("CUDA", Some(v)), format!("CUDA {}.{}", v / 1000, (v % 1000) / 10));
    }
    assert_eq!(format_driver_version("CUDA", Some(12040)), "CUDA 12.4");
    assert_eq!(format_driver_version("ROCm", None), "ROCm unknown");
}

#[test]
fn architecture_names() {
    assert_eq!(format_gfx(10, 3), "gfx1003");
    assert_eq!(format_gfx(9, 10), "gfx910");
    assert_eq!(format_gfx(11, 100), "gfx11100");
    assert_eq!(format_capability(8, 6), "8.6");
}

#[test]
fn cuda_block_size_fits_the_thread_limit() {
    assert_eq!(CudaHelpers::calculate_block_size((8, 0), (2048, 4, 4)).unwrap(), (1024, 1, 1));
    assert_eq!(CudaHelpers::calculate_block_size((5, 2), (2048, 4, 4)).unwrap(), (512, 1, 1));
    assert_eq!(CudaHelpers::calculate_block_size((6, 1), (16, 16, 16)).unwrap(), (16, 16, 4));
    assert_eq!(CudaHelpers::calculate_block_size((7, 5), (8, 8, 8)).unwrap(), (8, 8, 8));
    assert!(CudaHelpers::validate_device_capabilities((7, 0)).is_ok());
    match CudaHelpers::validate_device_capabilities((6, 1)).err().unwrap() {
        HiveGpuError::Other(m) => assert_eq!(m, "CUDA device does not support required features"),
        e => panic!("unexpected {:?}", e),
    }
}

#[test]
fn metal_threadgroup_size_is_capped_per_side() {
    assert_eq!(MetalHelpers::calculate_threadgroup_size((1024, 1024, 64), (2048, 8, 100)).unwrap(), (1024, 8, 64));
    assert_eq!(MetalHelpers::calculate_threadgroup_size((1usize << 32 | 5, 7, 7), (10, 10, 10)).unwrap(), (5, 7, 7));
    assert!(MetalHelpers::validate_device_capabilities(true).is_ok());
    match MetalHelpers::validate_device_capabilities(false).err().unwrap() {
        HiveGpuError::Other(m) => assert_eq!(m, "Metal Performance Shaders not supported"),
        e => panic!("unexpected {:?}", e),
    }
}

fn cand(vendor_id: u32, compute: &[bool], discrete: bool) -> VulkanDeviceCandidate {
    VulkanDeviceCandidate { vendor_id, compute_families: compute.to_vec(), discrete }
}

#[test]
fn vulkan_device_choice_prefers_discrete_intel_gpus() {
    let devices = vec![
        cand(0x10de, &[true], true),
        cand(0x8086, &[false, true], false),
        cand(0x8086, &[false, false, true], true),
        cand(0x8086, &[true], true),
    ];
    assert_eq!(choose_device(&devices, false), Some((2, 2)));
    assert_eq!(choose_device(&devices, true), Some((0, 0)));
    let integrated = vec![cand(0x10de, &[true], true), cand(0x8086, &[false], true), cand(0x8086, &[true], false)];
    assert_eq!(choose_device(&integrated, false), Some((2, 0)));
    let none = vec![cand(0x10de, &[true], true)];
    assert_eq!(choose_device(&none, false), None);
    match select_physical_device(&none, false).err().unwrap() {
        HiveGpuError::Other(m) => assert_eq!(m, "no Intel GPU found; set HIVE_GPU_VULKAN_UNIVERSAL=1 to accept any vendor"),
        e => panic!("unexpected {:?}", e),
    }
    assert!(matches!(select_physical_device(&vec![], true).err().unwrap(), HiveGpuError::NoDeviceAvailable));
    assert_eq!(select_physical_device(&none, true).unwrap(), (0, 0));
}

#[test]
fn intel_device_report() {
    let heaps = [(8u64 << 30, true), (16u64 << 30, false), (256u64 << 20, true)];
    assert_eq!(device_local_vram(&heaps), (8u64 << 30) + (256u64 << 20));
    let api = ash::vk::make_api_version(0, 1, 3, 281);
    let info = intel_device_info("Arc".to_string(), api, 0x1c4ab, 0x56a0, &heaps, 1024, 65536);
    assert_eq!(info.backend, "Intel");
    assert_eq!(info.total_vram_bytes, (8u64 << 30) + (256u64 << 20));
    assert_eq!(info.available_vram_bytes, info.total_vram_bytes);
    assert_eq!(info.used_vram_bytes, 0);
    assert_eq!(info.driver_version, format!("Vulkan {}.{}.{} (driver 0x{:x})", 1, 3, 281, 0x1c4abu32));
    assert_eq!(info.compute_capability, Some("vk1.3-0x56a0".to_string()));
    assert_eq!(info.max_shared_memory_per_block, 65536);
    assert_eq!(info.device_id, 0x56a0);
    let info = intel_device_info("x".to_string(), api, 0, 0xffff_ffff, &[], 1, 1);
    assert_eq!(info.device_id, -1);
    assert_eq!(info.compute_capability, Some("vk1.3-0xffffffff".to_string()));
    assert_eq!(info.driver_version, "Vulkan 1.3.281 (driver 0x0)");
}
