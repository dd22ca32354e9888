use hive_gpu::error::HiveGpuError;
use hive_gpu::storage::catalog::{grow_step_exec, ComponentClass, VectorCatalog, METAL_BUFFER_LIMIT};

fn ids(v: &[&str]) -> Vec<String> {
    v.iter().map(|s| s.to_string()).collect()
}

fn message(e: HiveGpuError) -> String {
    match e {
        HiveGpuError::InvalidConfiguration(m) => m,
        HiveGpuError::Other(m) => m,
        other => panic!("unexpected error {:?}", other),
    }
}

fn f32_growth(c: usize) -> usize {
    let factor = if c < 1_000 {
        2.0f32
    } else if c < 10_000 {
        1.5f32
    } else {
        1.2f32
    };
    ((c as f32) * factor).ceil() as usize
}

#[test]
fn new_catalog_sizes_for_one_mebibyte_or_1024_slots() {
    let c = VectorCatalog::new(4).unwrap();
    assert_eq!(c.capacity(), 65536);
    assert_eq!(c.dimension(), 4);
    assert_eq!(c.slot_count(), 0);
    assert_eq!(c.live_count(), 0);
    let c = VectorCatalog::new(1024).unwrap();
    assert_eq!(c.capacity(), 1024);
    let c = VectorCatalog::new(100000).unwrap();
    assert_eq!(c.capacity(), 1024);
    assert_eq!(c.storage_bytes(), 1024 * 100000 * 4);
}

#[test]
fn new_catalog_rejects_zero_dimension() {
    let e = VectorCatalog::new(0).err().unwrap();
    assert_eq!(message(e), "dimension must be > 0");
}

#[test]
fn growth_step_matches_single_precision_arithmetic() {
    for c in [0usize, 1, 7, 999, 1000, 1001, 4095, 9999, 10000, 10001, 12345, 65536, 999_999, 16_777_217, 123_456_789, 1 << 40, usize::MAX / 3] {
        assert_eq!(grow_step_exec(c), f32_growth(c), "capacity {}", c);
    }
    assert_eq!(grow_step_exec(10000), 12000);
    assert_eq!(grow_step_exec(1001), 1502);
    assert_eq!(grow_step_exec(500), 1000);
}

#[test]
fn validate_vector_reports_each_check_in_order() {
    let mut c = VectorCatalog::new(3).unwrap();
    c.record_batch(&ids(&["a"]));
    let e = c.validate_vector(&[true, true], "b").err().unwrap();
    assert!(matches!(e, HiveGpuError::DimensionMismatch { expected: 3, actual: 2 }));
    assert_eq!(message(c.validate_vector(&[true, true, true], "").err().unwrap()), "vector id must be non-empty");
    let long = "x".repeat(257);
    assert_eq!(message(c.validate_vector(&[true, true, true], &long).err().unwrap()), "vector id must be <= 256 chars");
    assert!(c.validate_vector(&[true, true, true], &"x".repeat(256)).is_ok());
    assert_eq!(message(c.validate_vector(&[true, true, true], "a").err().unwrap()), "duplicate vector id: a");
    assert_eq!(
        message(c.validate_vector(&[true, false, true], "b").err().unwrap()),
        "non-finite component at index 1 in vector b"
    );
    assert!(c.validate_vector(&[true, true, true], "b").is_ok());
}

#[test]
fn validate_batch_finds_repeated_ids() {
    let c = VectorCatalog::new(2).unwrap();
    let fin = vec![vec![true, true], vec![true, true], vec![true, true]];
    assert!(c.validate_batch(&ids(&["a", "b", "c"]), &fin).is_ok());
    assert_eq!(
        message(c.validate_batch(&ids(&["a", "b", "a"]), &fin).err().unwrap()),
        "duplicate vector id within batch: a"
    );
    let bad = vec![vec![true, true], vec![true], vec![true, true]];
    assert!(matches!(
        c.validate_batch(&ids(&["a", "a", "c"]), &bad).err().unwrap(),
        HiveGpuError::DimensionMismatch { expected: 2, actual: 1 }
    ));
    assert!(c.validate_batch(&[], &[]).is_ok());
}

#[test]
fn recorded_vectors_are_found_until_removed() {
    let mut c = VectorCatalog::new(2).unwrap();
    let slots = c.record_batch(&ids(&["a", "b", "c"]));
    assert_eq!(slots, vec![0, 1, 2]);
    assert_eq!(c.lookup("b"), Some(1));
    assert_eq!(c.id_at(2), "c");
    let more = c.record_batch(&ids(&["d"]));
    assert_eq!(more, vec![3]);
    assert!(c.remove_vectors(&ids(&["b", "d"])).is_ok());
    assert_eq!(c.lookup("b"), None);
    assert_eq!(c.lookup("d"), None);
    assert_eq!(c.lookup("a"), Some(0));
    assert!(c.is_removed(1));
    assert_eq!(c.slot_count(), 4);
    assert_eq!(c.live_count(), 2);
    assert_eq!(c.removed_count(), 2);
}

#[test]
fn removal_stops_at_the_first_unknown_id() {
    let mut c = VectorCatalog::new(2).unwrap();
    c.record_batch(&ids(&["a", "b", "c"]));
    let e = c.remove_vectors(&ids(&["a", "zz", "c"])).err().unwrap();
    assert!(matches!(e, HiveGpuError::VectorNotFound(ref id) if id == "zz"));
    assert_eq!(c.lookup("a"), None);
    assert_eq!(c.lookup("c"), Some(2));
}

#[test]
fn plan_capacity_grows_only_when_needed() {
    let mut c = VectorCatalog::new(1024).unwrap();
    assert_eq!(c.plan_capacity(1024).unwrap(), 1024);
    assert_eq!(c.plan_capacity(1025).unwrap(), 1536);
    assert_eq!(c.plan_capacity(5000).unwrap(), 5000);
    c.record_batch(&ids(&["a"]));
    assert_eq!(message(c.plan_capacity(usize::MAX).err().unwrap()), "capacity overflow");
    c.clear();
    c.set_capacity(20000);
    assert_eq!(c.plan_capacity(20001).unwrap(), f32_growth(20000));
    let big = VectorCatalog::new(1 << 20).unwrap();
    assert_eq!(message(big.plan_capacity(usize::MAX / 2).err().unwrap()), "slots overflow");
}

#[test]
fn clear_resets_slots_and_keeps_capacity() {
    let mut c = VectorCatalog::new(4).unwrap();
    c.record_batch(&ids(&["a", "b"]));
    c.remove_vectors(&ids(&["a"])).unwrap();
    c.set_capacity(70000);
    c.clear();
    assert_eq!(c.slot_count(), 0);
    assert_eq!(c.removed_count(), 0);
    assert_eq!(c.capacity(), 70000);
    assert_eq!(c.lookup("b"), None);
    let mut m = VectorCatalog::new_metal(4).unwrap();
    m.record_batch(&ids(&["x"]));
    m.clear_keep_capacity();
    assert_eq!(m.slot_count(), 0);
    assert_eq!(m.capacity(), 65536);
}

#[test]
fn metal_checks_use_their_own_order_and_messages() {
    let mut c = VectorCatalog::new_metal(3).unwrap();
    c.record_batch(&ids(&["a"]));
    let fin = [ComponentClass::Finite; 3];
    assert_eq!(message(c.validate_metal_vector(&[ComponentClass::Finite], "a").err().unwrap()), "Vector with ID 'a' already exists");
    assert!(matches!(
        c.validate_metal_vector(&[ComponentClass::Finite], "b").err().unwrap(),
        HiveGpuError::DimensionMismatch { expected: 3, actual: 1 }
    ));
    let cases = [
        (ComponentClass::NaN, f32::NAN),
        (ComponentClass::PosInfinity, f32::INFINITY),
        (ComponentClass::NegInfinity, f32::NEG_INFINITY),
    ];
    for (class, value) in cases {
        let v = [ComponentClass::Finite, ComponentClass::Finite, class];
        assert_eq!(
            message(c.validate_metal_vector(&v, "b").err().unwrap()),
            format!("Vector contains non-finite value at index {}: {}", 2, value)
        );
    }
    assert_eq!(message(c.validate_metal_vector(&fin, &"y".repeat(300)).err().unwrap()), "Vector ID too long (max 256 chars)");
    assert!(c.validate_metal_vector(&fin, "").is_ok());
}

#[test]
fn metal_expansion_is_bounded_by_one_gibibyte() {
    let mut c = VectorCatalog::new_metal(4).unwrap();
    assert!(!c.is_full());
    assert_eq!(c.plan_metal_expansion().unwrap(), 78644);
    c.set_capacity(60_000_000);
    match c.plan_metal_expansion().err().unwrap() {
        HiveGpuError::VramLimitExceeded { requested, limit } => {
            assert_eq!(limit, METAL_BUFFER_LIMIT);
            assert_eq!(requested, f32_growth(60_000_000) * 16);
        }
        other => panic!("unexpected error {:?}", other),
    }
    assert_eq!(c.metal_slot_offset().unwrap(), (0, 16));
    c.record_batch(&ids(&["a", "b"]));
    assert_eq!(c.metal_slot_offset().unwrap(), (32, 16));
}

#[test]
fn stats_report_the_buffer_in_mebibytes() {
    let mut c = VectorCatalog::new_metal(128).unwrap();
    c.record_batch(&ids(&["a", "b", "c"]));
    c.remove_vectors(&ids(&["b"])).unwrap();
    let s = c.stats();
    assert_eq!(s.vector_count, 3);
    assert_eq!(s.buffer_capacity, 2048);
    assert_eq!(s.dimension, 128);
    assert_eq!(s.removed_count, 1);
    assert_eq!(s.buffer_size_mb, 1);
}

#[test]
fn search_input_checks_follow_the_storage_order() {
    let mut c = VectorCatalog::new(3).unwrap();
    assert_eq!(c.validate_query(&[true, true], 5).unwrap(), false);
    c.record_batch(&["a".to_string()]);
    assert_eq!(c.validate_query(&[true, true, true], 0).unwrap(), false);
    match c.validate_query(&[true, true], 5).err().unwrap() {
        HiveGpuError::DimensionMismatch { expected, actual } => assert_eq!((expected, actual), (3, 2)),
        e => panic!("unexpected {:?}", e),
    }
    match c.validate_query(&[true, false, false], 5).err().unwrap() {
        HiveGpuError::InvalidConfiguration(m) => assert_eq!(m, "non-finite query component at index 1"),
        e => panic!("unexpected {:?}", e),
    }
    assert_eq!(c.validate_query(&[true, true, true], 1).unwrap(), true);
}
