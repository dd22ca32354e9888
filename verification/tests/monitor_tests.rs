use hive_gpu::error::HiveGpuError;
use hive_gpu::monitoring::vram_monitor::VramMonitor;
use hive_gpu::traits::BufferType;

/// The report as the floating-point formatting prints it, with the
/// breakdown lines in declaration order of the buffer types.
fn expected_report(total: usize, allocated: usize, buffers: &[(BufferType, usize)]) -> String {
    let mut r = String::new();
    r.push_str("VRAM Report:\n");
    r.push_str(&format!("  Total VRAM: {:.2} MB\n", total as f64 / 1024.0 / 1024.0));
    r.push_str(&format!("  Allocated: {:.2} MB\n", allocated as f64 / 1024.0 / 1024.0));
    r.push_str(&format!("  Available: {:.2} MB\n", (total - allocated) as f64 / 1024.0 / 1024.0));
    let utilization = allocated as f32 / total as f32;
    r.push_str(&format!("  Utilization: {:.1}%\n", utilization * 100.0));
    r.push_str(&format!("  Buffer Count: {}\n", buffers.len()));
    r.push_str("\nBuffer Breakdown:\n");
    for t in [BufferType::Vector, BufferType::Metadata, BufferType::Temporary, BufferType::HnswGraph] {
        let count = buffers.iter().filter(|b| b.0 == t).count();
        let size: usize = buffers.iter().filter(|b| b.0 == t).map(|b| b.1).sum();
        if count > 0 {
            r.push_str(&format!("  {:?}: {} buffers, {:.2} MB\n", t, count, size as f64 / 1024.0 / 1024.0));
        }
    }
    r
}

#[test]
fn allocation_beyond_capacity_is_refused() {
    let mut m = VramMonitor::new(1000);
    assert_eq!(m.allocate_buffer(600, BufferType::Vector).unwrap(), 0);
    match m.allocate_buffer(500, BufferType::Metadata).err().unwrap() {
        HiveGpuError::VramLimitExceeded { requested, limit } => {
            assert_eq!(requested, 1100);
            assert_eq!(limit, 1000);
        }
        e => panic!("unexpected {:?}", e),
    }
    assert_eq!(m.allocated_vram(), 600);
    assert_eq!(m.allocate_buffer(400, BufferType::Metadata).unwrap(), 1);
    assert_eq!(m.allocated_vram(), 1000);
}

#[test]
fn freeing_an_allocation_restores_the_monitor() {
    let mut m = VramMonitor::new(1 << 30);
    m.allocate_buffer(4096, BufferType::Vector).unwrap();
    let before = m.allocated_vram();
    let id = m.allocate_buffer(1 << 20, BufferType::Temporary).unwrap();
    m.deallocate_buffer(id).unwrap();
    assert_eq!(m.allocated_vram(), before);
    assert_eq!(m.buffer_count(), 1);
    match m.deallocate_buffer(id).err().unwrap() {
        HiveGpuError::Other(msg) => assert_eq!(msg, format!("Buffer {} not found", id)),
        e => panic!("unexpected {:?}", e),
    }
}

#[test]
fn validation_fails_above_95_percent() {
    let mut m = VramMonitor::new(1000);
    m.allocate_buffer(950, BufferType::Vector).unwrap();
    assert!(m.validate_all_vram().is_ok());
    m.allocate_buffer(1, BufferType::Vector).unwrap();
    match m.validate_all_vram().err().unwrap() {
        HiveGpuError::VramLimitExceeded { requested, limit } => {
            assert_eq!(requested, 951);
            assert_eq!(limit, (1000f32 * 0.95) as usize);
        }
        e => panic!("unexpected {:?}", e),
    }
    let empty = VramMonitor::new(0);
    assert!(empty.validate_all_vram().is_ok());
}

#[test]
fn report_matches_floating_point_formatting() {
    let cases: Vec<(usize, Vec<(BufferType, usize)>)> = vec![
        (8 * 1024 * 1024 * 1024, vec![(BufferType::Vector, 123_456_789), (BufferType::Metadata, 4096), (BufferType::Vector, 1 << 20)]),
        (1 << 20, vec![(BufferType::HnswGraph, 131_072), (BufferType::Temporary, 65_536)]),
        (3_000_000_000, vec![(BufferType::Temporary, 2_999_999_999)]),
        (1000, vec![]),
        (16, vec![(BufferType::Vector, 1)]),
        (1_048_576 * 3, vec![(BufferType::Metadata, 393_216)]),
        (usize::MAX, vec![(BufferType::Vector, usize::MAX / 3)]),
    ];
    for (total, buffers) in cases {
        let mut m = VramMonitor::new(total);
        let mut allocated = 0usize;
        for (t, size) in &buffers {
            m.allocate_buffer(*size, *t).unwrap();
            allocated += size;
        }
        assert_eq!(m.generate_vram_report(), expected_report(total, allocated, &buffers), "total {}", total);
    }
}

#[test]
fn report_of_an_empty_device_shows_nan_utilization() {
    let m = VramMonitor::new(0);
    let report = m.generate_vram_report();
    assert!(report.contains("  Utilization: NaN%\n"));
    assert!(report.ends_with("\nBuffer Breakdown:\n"));
}
