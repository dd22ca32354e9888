use hive_gpu::error::HiveGpuError;
use hive_gpu::ivf::index::IvfIndex;
use hive_gpu::types::{GpuDistanceMetric, IvfConfig};

fn config(n_list: usize, nprobe: usize) -> IvfConfig {
    IvfConfig { n_list, nprobe, training_sample_size: 5, kmeans_iters: 7, seed: None }
}

fn msg(e: HiveGpuError) -> String {
    match e {
        HiveGpuError::InvalidConfiguration(m) => m,
        other => panic!("unexpected {:?}", other),
    }
}

#[test]
fn ivf_new_checks_dimension_and_probe_range() {
    assert_eq!(msg(IvfIndex::new(0, GpuDistanceMetric::Cosine, config(4, 1)).err().unwrap()), "dimension must be > 0");
    assert_eq!(msg(IvfIndex::new(8, GpuDistanceMetric::Cosine, config(0, 1)).err().unwrap()), "n_list must be > 0");
    assert_eq!(msg(IvfIndex::new(8, GpuDistanceMetric::Cosine, config(4, 0)).err().unwrap()), "nprobe must be in 1..=4");
    assert_eq!(msg(IvfIndex::new(8, GpuDistanceMetric::Cosine, config(4, 5)).err().unwrap()), "nprobe must be in 1..=4");
    let ix = IvfIndex::new(8, GpuDistanceMetric::Euclidean, config(4, 2)).unwrap();
    assert_eq!((ix.n_list(), ix.nprobe(), ix.vector_count(), ix.dimension()), (4, 2, 0, 8));
    assert!(!ix.is_trained());
    assert_eq!(ix.metric(), GpuDistanceMetric::Euclidean);
    assert_eq!(ix.kmeans_iters(), 7);
    let _unseeded = ix.kmeans_seed();
    let seeded = IvfIndex::new(8, GpuDistanceMetric::Euclidean, IvfConfig { seed: Some(42), ..config(4, 2) }).unwrap();
    assert_eq!(seeded.kmeans_seed(), 42);
}

#[test]
fn ivf_set_nprobe_keeps_the_old_value_on_error() {
    let mut ix = IvfIndex::new(8, GpuDistanceMetric::Cosine, config(4, 2)).unwrap();
    assert!(ix.set_nprobe(4).is_ok());
    assert_eq!(ix.nprobe(), 4);
    assert_eq!(msg(ix.set_nprobe(5).err().unwrap()), "nprobe must be in 1..=4");
    assert_eq!(msg(ix.set_nprobe(0).err().unwrap()), "nprobe must be in 1..=4");
    assert_eq!(ix.nprobe(), 4);
}

#[test]
fn ivf_build_input_checks() {
    let ix = IvfIndex::new(3, GpuDistanceMetric::Cosine, config(2, 1)).unwrap();
    let ids: Vec<String> = ["a", "b", "c", "d"].iter().map(|s| s.to_string()).collect();
    assert_eq!(msg(ix.validate_build_input(&[], &[], &[]).err().unwrap()), "cannot build IVF from empty vector set");
    assert_eq!(msg(ix.validate_build_input(&[3], &[true], &ids[..1]).err().unwrap()), "need at least n_list=2 vectors to train, got 1");
    assert!(matches!(
        ix.validate_build_input(&[3, 2, 3, 3], &[true, true, false, true], &ids).err().unwrap(),
        HiveGpuError::DimensionMismatch { expected: 3, actual: 2 }
    ));
    assert_eq!(
        msg(ix.validate_build_input(&[3, 3, 3, 3], &[true, true, false, true], &ids).err().unwrap()),
        "non-finite component in input vector #2 (id=c)"
    );
    assert_eq!(ix.validate_build_input(&[3, 3, 3, 3], &[true; 4], &ids).unwrap(), 4);
    let mut six: Vec<String> = ids.clone();
    six.push("e".to_string());
    six.push("f".to_string());
    assert_eq!(ix.validate_build_input(&[3; 6], &[true; 6], &six).unwrap(), 5);
}

#[test]
fn ivf_layout_and_search_checks() {
    let mut ix = IvfIndex::new(2, GpuDistanceMetric::DotProduct, config(3, 2)).unwrap();
    assert_eq!(msg(ix.validate_search_input(&[true, true], 5).err().unwrap()), "IVF index must be built before search");
    let ids: Vec<String> = ["v0", "v1", "v2", "v3", "v4"].iter().map(|s| s.to_string()).collect();
    let perm = ix.install_layout(&[1, 0, 2, 1, 0], &ids);
    assert_eq!(perm, vec![1, 4, 0, 3, 2]);
    assert!(ix.is_trained());
    assert_eq!(ix.vector_count(), 5);
    assert_eq!(ix.cluster_range(0), (0, 2));
    assert_eq!(ix.cluster_range(1), (2, 4));
    assert_eq!(ix.cluster_range(2), (4, 5));
    assert_eq!(ix.id_at(0), "v1");
    assert_eq!(ix.id_at(4), "v2");
    assert!(matches!(
        ix.validate_search_input(&[true], 5).err().unwrap(),
        HiveGpuError::DimensionMismatch { expected: 2, actual: 1 }
    ));
    assert_eq!(ix.validate_search_input(&[true, false], 0).unwrap(), false);
    assert_eq!(msg(ix.validate_search_input(&[true, false], 3).err().unwrap()), "non-finite query component at index 1");
    assert_eq!(ix.validate_search_input(&[true, true], 3).unwrap(), true);
}
