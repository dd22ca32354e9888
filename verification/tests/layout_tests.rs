use hive_gpu::ivf::layout::build_cluster_layout;

#[test]
fn cluster_layout_groups_by_cluster_stably() {
    let assignments: Vec<u32> = vec![2, 0, 1, 0, 2, 1, 0];
    let (offsets, perm) = build_cluster_layout(&assignments, 3);
    assert_eq!(offsets, vec![0, 3, 5, 7]);
    assert_eq!(perm, vec![1, 3, 6, 2, 5, 0, 4]);
}
