use hive_gpu::backends::device_text::{hip_check, rocblas_check};
use hive_gpu::backends::vulkan_device::{check_buffer_read, check_buffer_write, check_buffer_write_at, pick_memory_type};
use hive_gpu::error::HiveGpuError;
use hive_gpu::monitoring::performance::PerformanceMonitor;
use hive_gpu::utils::benchmark::{benchmark_function, sort_ascending, summarize_runs};
use hive_gpu::utils::clock::{epoch_secs, epoch_seed};
use hive_gpu::utils::timing::format_subsecond_duration;
use std::time::Duration;

fn other(r: Result<usize, HiveGpuError>) -> String {
    match r {
        Err(HiveGpuError::Other(m)) => m,
        x => panic!("unexpected {:?}", x),
    }
}

#[test]
fn recording_accumulates_count_total_and_extremes() {
    let mut m = PerformanceMonitor::new();
    m.record_operation("search".to_string(), 300);
    m.record_operation("insert".to_string(), 50);
    m.record_operation("search".to_string(), 100);
    m.record_operation("search".to_string(), 500);
    let s = m.get_operation_stats("search").unwrap();
    assert_eq!((s.count, s.total_nanos, s.min_nanos, s.max_nanos), (3, 900, 100, 500));
    assert_eq!(s.avg_nanos(), 300);
    let i = m.get_operation_stats("insert").unwrap();
    assert_eq!((i.count, i.total_nanos, i.min_nanos, i.max_nanos), (1, 50, 50, 50));
    assert!(m.get_operation_stats("delete").is_none());
    assert_eq!(m.operation_stats().len(), 2);
    assert_eq!(m.get_performance_totals(), Some((4, 950)));
    m.clear_stats();
    assert_eq!(m.get_performance_totals(), Some((0, 0)));
}

#[test]
fn average_matches_duration_division() {
    let mut m = PerformanceMonitor::new();
    let runs = [1_000_000_001u128, 2, 1_999_999_999, 7];
    let mut total = Duration::ZERO;
    for (k, r) in runs.iter().enumerate() {
        m.record_operation("op".to_string(), *r);
        total += Duration::from_nanos(*r as u64);
        let expected = total / (k as u32 + 1);
        assert_eq!(m.get_operation_stats("op").unwrap().avg_nanos(), expected.as_nanos());
    }
}

#[test]
fn ending_without_a_start_fails() {
    let mut m = PerformanceMonitor::new();
    match m.end_operation().err().unwrap() {
        HiveGpuError::Other(s) => assert_eq!(s, "No operation in progress"),
        e => panic!("unexpected {:?}", e),
    }
    m.start_operation("build".to_string());
    let d = m.end_operation().unwrap();
    let s = m.get_operation_stats("build").unwrap();
    assert_eq!(s.count, 1);
    assert_eq!(s.total_nanos, d.as_nanos());
    assert!(m.end_operation().is_err());
}

#[test]
fn backend_status_codes() {
    assert!(hip_check(0, "hipMalloc").is_ok());
    match hip_check(2, "hipMalloc").err().unwrap() {
        HiveGpuError::Other(s) => assert_eq!(s, "hipMalloc failed with hipError_t=2"),
        e => panic!("unexpected {:?}", e),
    }
    match rocblas_check(-7, "rocblas_sgemv search").err().unwrap() {
        HiveGpuError::Other(s) => assert_eq!(s, "rocblas_sgemv search failed with rocblas_status=-7"),
        e => panic!("unexpected {:?}", e),
    }
}

#[test]
fn vulkan_memory_type_and_buffer_bounds() {
    let flags = [0x1u32, 0x6, 0x7, 0x6];
    assert_eq!(pick_memory_type(&flags, 0b1111, 0x6), Some(1));
    assert_eq!(pick_memory_type(&flags, 0b1101, 0x6), Some(2));
    assert_eq!(pick_memory_type(&flags, 0b0001, 0x6), None);
    assert_eq!(check_buffer_write(true, 4, 16).unwrap(), 16);
    assert_eq!(other(check_buffer_write(true, 5, 16)), "write overflows buffer: 20 > 16");
    assert_eq!(other(check_buffer_write(false, 1, 16)), "write_f32_slice requires a host-visible buffer");
    assert_eq!(check_buffer_write_at(true, 8, 2, 16).unwrap(), 8);
    assert_eq!(other(check_buffer_write_at(true, 12, 2, 16)), "offset write overflows buffer: 12+8 > 16");
    assert_eq!(other(check_buffer_read(true, 5, 16)), "read overflows buffer: 20 > 16");
    assert_eq!(other(check_buffer_read(false, 0, 16)), "read_f32_vec requires a host-visible buffer");
    assert_eq!(check_buffer_read(true, 0, 0).unwrap(), 0);
}

#[test]
fn benchmark_summary_sorts_the_runs() {
    let mut v = vec![5u128, 1, 4, 1, 9, 2, 6];
    sort_ascending(&mut v);
    assert_eq!(v, vec![1, 1, 2, 4, 5, 6, 9]);
    let s = summarize_runs(vec![30u128, 10, 20, 40]).unwrap();
    assert_eq!((s.iterations, s.min_nanos, s.max_nanos, s.median_nanos, s.total_nanos, s.avg_nanos), (4, 10, 40, 30, 100, 25));
    let runs = [3u128, 1_000_000_001, 7];
    let total: Duration = runs.iter().map(|n| Duration::from_nanos(*n as u64)).sum();
    assert_eq!(summarize_runs(runs.to_vec()).unwrap().avg_nanos, (total / 3).as_nanos());
    let huge = u64::MAX as u128 * 1_000_000_000;
    assert!(summarize_runs(vec![huge, huge]).is_none());
}

#[test]
fn benchmarking_a_closure() {
    let s = benchmark_function(|| (0..100u64).sum::<u64>(), 5, 2).unwrap();
    assert_eq!(s.iterations, 5);
    assert!(s.min_nanos <= s.median_nanos && s.median_nanos <= s.max_nanos);
    assert!(s.total_nanos >= s.max_nanos);
}

#[test]
fn benchmark_single_run_summarises_it() {
    let s = benchmark_function(|| 1 + 1, 1, 0).unwrap();
    assert_eq!(s.iterations, 1);
    assert_eq!(s.min_nanos, s.max_nanos);
    assert_eq!(s.median_nanos, s.total_nanos);
    assert_eq!(s.avg_nanos, s.total_nanos);
}

#[test]
fn checked_recording_refuses_overflowing_totals() {
    let max: u128 = u64::MAX as u128 * 1_000_000_000 + 999_999_999;
    let mut m = PerformanceMonitor::new();
    assert!(m.try_record_operation("big".to_string(), max - 10).is_ok());
    match m.try_record_operation("big".to_string(), 11) {
        Err(HiveGpuError::Other(msg)) => assert_eq!(msg, "overflow when adding durations"),
        x => panic!("unexpected {:?}", x),
    }
    let t = m.get_operation_stats("big").unwrap();
    assert_eq!((t.count, t.total_nanos), (1, max - 10));
    assert!(m.try_record_operation("big".to_string(), 10).is_ok());
    let t = m.get_operation_stats("big").unwrap();
    assert_eq!((t.count, t.total_nanos, t.min_nanos, t.max_nanos), (2, max, 10, max - 10));
    assert!(m.try_record_operation("other".to_string(), max).is_ok());
}

#[test]
fn subsecond_durations_print_as_the_float_formatting_does() {
    for nanos in [0u128, 999, 1_000, 1_500, 999_999, 1_000_000, 12_345_678, 999_999_999] {
        let d = Duration::from_nanos(nanos as u64);
        let expected = if d.as_millis() > 0 {
            format!("{:.2}ms", d.as_millis() as f64)
        } else {
            format!("{:.2}μs", d.as_micros() as f64)
        };
        assert_eq!(format_subsecond_duration(nanos), expected);
    }
    assert_eq!(format_subsecond_duration(1_500), "1.00μs");
    assert_eq!(format_subsecond_duration(12_345_678), "12.00ms");
}

#[test]
fn clock_readings_map_to_seconds_and_seeds() {
    assert_eq!(epoch_secs(None), 0);
    assert_eq!(epoch_secs(Some(1_700_000_000_999_999_999)), 1_700_000_000);
    assert_eq!(epoch_seed(None), 0);
    assert_eq!(epoch_seed(Some(42)), 42);
    assert_eq!(epoch_seed(Some((1u128 << 64) + 7)), 7);
    let d = Duration::new(1_700_000_000, 123);
    assert_eq!(epoch_secs(Some(d.as_nanos())), d.as_secs());
}
