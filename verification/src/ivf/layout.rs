//! Reordering of vectors so that the members of every cluster are stored
//! contiguously (a stable counting sort on the cluster assignment).

use vstd::prelude::*;

verus! {

/// Number of entries of `s` equal to `c`.
pub open spec fn count_eq(s: Seq<u32>, c: int) -> nat
    decreases s.len(),
{
    if s.len() == 0 {
        0
    } else {
        count_eq(s.drop_last(), c) + if s.last() as int == c { 1nat } else { 0nat }
    }
}

/// Number of entries of `s` strictly below `c`.
pub open spec fn count_lt(s: Seq<u32>, c: int) -> nat
    decreases s.len(),
{
    if s.len() == 0 {
        0
    } else {
        count_lt(s.drop_last(), c) + if (s.last() as int) < c { 1nat } else { 0nat }
    }
}

/// Every assignment names one of the `n_list` clusters.
pub open spec fn assignments_in_range(a: Seq<u32>, n_list: int) -> bool {
    forall|i: int| 0 <= i < a.len() ==> (#[trigger] a[i] as int) < n_list
}

/// Position of sample `g` after the reordering: all samples of smaller
/// clusters come first, then the samples of the same cluster that precede `g`.
pub open spec fn layout_position(a: Seq<u32>, g: int) -> int {
    (count_lt(a, a[g] as int) + count_eq(a.take(g), a[g] as int)) as int
}

/// `offsets` and `perm` are the cluster layout of `a` over `n_list` clusters:
/// `offsets[c]` is the number of samples in clusters below `c`, and every
/// sample `g` sits at `layout_position(a, g)` of `perm`.
pub open spec fn is_cluster_layout(a: Seq<u32>, n_list: int, offsets: Seq<usize>, perm: Seq<usize>) -> bool {
    &&& offsets.len() == n_list + 1
    &&& forall|c: int| 0 <= c <= n_list ==> #[trigger] offsets[c] == count_lt(a, c)
    &&& perm.len() == a.len()
    &&& forall|g: int| 0 <= g < a.len() ==> perm[#[trigger] layout_position(a, g)] == g
}

pub proof fn lemma_count_bounds(s: Seq<u32>, c: int)
    ensures
        count_eq(s, c) <= s.len(),
        count_lt(s, c) <= s.len(),
        count_lt(s, c) + count_eq(s, c) <= s.len(),
    decreases s.len(),
{
    if s.len() > 0 {
        lemma_count_bounds(s.drop_last(), c);
    }
}

pub proof fn lemma_count_lt_step(s: Seq<u32>, c: int)
    ensures
        count_lt(s, c + 1) == count_lt(s, c) + count_eq(s, c),
    decreases s.len(),
{
    if s.len() > 0 {
        lemma_count_lt_step(s.drop_last(), c);
    }
}

pub proof fn lemma_count_lt_zero(s: Seq<u32>)
    ensures
        count_lt(s, 0) == 0,
    decreases s.len(),
{
    if s.len() > 0 {
        lemma_count_lt_zero(s.drop_last());
    }
}

pub proof fn lemma_count_lt_mono(s: Seq<u32>, c: int, d: int)
    requires
        c <= d,
    ensures
        count_lt(s, c) <= count_lt(s, d),
    decreases s.len(),
{
    if s.len() > 0 {
        lemma_count_lt_mono(s.drop_last(), c, d);
    }
}

pub proof fn lemma_count_lt_all(s: Seq<u32>, n: int)
    requires
        assignments_in_range(s, n),
    ensures
        count_lt(s, n) == s.len(),
    decreases s.len(),
{
    if s.len() > 0 {
        assert(assignments_in_range(s.drop_last(), n));
        lemma_count_lt_all(s.drop_last(), n);
    }
}

pub proof fn lemma_count_eq_take_mono(s: Seq<u32>, i: int, j: int, c: int)
    requires
        0 <= i <= j <= s.len(),
    ensures
        count_eq(s.take(i), c) <= count_eq(s.take(j), c),
    decreases j - i,
{
    if i < j {
        lemma_count_eq_take_mono(s, i, j - 1, c);
        assert(s.take(j).drop_last() =~= s.take(j - 1));
    }
}

/// Counting one more element of the prefix.
pub proof fn lemma_count_eq_take_step(s: Seq<u32>, g: int, c: int)
    requires
        0 <= g < s.len(),
    ensures
        count_eq(s.take(g + 1), c) == count_eq(s.take(g), c) + if s[g] as int == c { 1nat } else { 0nat },
{
    assert(s.take(g + 1).drop_last() =~= s.take(g));
}

/// A sample lands inside the block of its own cluster.
pub proof fn lemma_position_in_block(a: Seq<u32>, g: int)
    requires
        0 <= g < a.len(),
    ensures
        count_lt(a, a[g] as int) <= layout_position(a, g) < count_lt(a, a[g] as int + 1),
{
    let c = a[g] as int;
    lemma_count_eq_take_step(a, g, c);
    lemma_count_eq_take_mono(a, g + 1, a.len() as int, c);
    assert(a.take(a.len() as int) =~= a);
    lemma_count_lt_step(a, c);
}

/// Distinct samples land at distinct positions.
pub proof fn lemma_position_injective(a: Seq<u32>, g1: int, g2: int)
    requires
        0 <= g1 < g2 < a.len(),
    ensures
        layout_position(a, g1) < layout_position(a, g2) || layout_position(a, g2) < layout_position(a, g1),
        a[g1] == a[g2] ==> layout_position(a, g1) < layout_position(a, g2),
{
    let c1 = a[g1] as int;
    let c2 = a[g2] as int;
    lemma_position_in_block(a, g1);
    lemma_position_in_block(a, g2);
    if c1 == c2 {
        lemma_count_eq_take_step(a, g1, c1);
        lemma_count_eq_take_mono(a, g1 + 1, g2, c1);
    } else if c1 < c2 {
        lemma_count_lt_mono(a, c1 + 1, c2);
    } else {
        lemma_count_lt_mono(a, c2 + 1, c1);
    }
}

proof fn lemma_find_rank(a: Seq<u32>, c: int, r: int, t: int) -> (g: int)
    requires
        0 <= r,
        0 <= t <= a.len(),
        count_eq(a.take(t), c) > r,
    ensures
        0 <= g < t,
        a[g] as int == c,
        count_eq(a.take(g), c) == r,
    decreases t,
{
    if t == 0 {
        assert(a.take(0) =~= Seq::<u32>::empty());
        0
    } else {
        lemma_count_eq_take_step(a, t - 1, c);
        if count_eq(a.take(t - 1), c) > r {
            lemma_find_rank(a, c, r, t - 1)
        } else {
            t - 1
        }
    }
}

proof fn lemma_find_cluster(a: Seq<u32>, n_list: int, j: int, c: int) -> (d: int)
    requires
        0 <= c < n_list,
        count_lt(a, c) <= j < count_lt(a, n_list),
    ensures
        c <= d < n_list,
        count_lt(a, d) <= j < count_lt(a, d + 1),
    decreases n_list - c,
{
    if j < count_lt(a, c + 1) {
        c
    } else {
        lemma_find_cluster(a, n_list, j, c + 1)
    }
}

/// Every slot of the reordered sequence is the position of some sample.
proof fn lemma_position_surjective(a: Seq<u32>, n_list: int, j: int) -> (g: int)
    requires
        0 < n_list,
        assignments_in_range(a, n_list),
        0 <= j < a.len(),
    ensures
        0 <= g < a.len(),
        layout_position(a, g) == j,
{
    lemma_count_lt_zero(a);
    lemma_count_lt_all(a, n_list);
    let c = lemma_find_cluster(a, n_list, j, 0);
    lemma_count_lt_step(a, c);
    assert(a.take(a.len() as int) =~= a);
    lemma_find_rank(a, c, j - count_lt(a, c), a.len() as int)
}

/// The cluster layout is a stable partition of the samples by cluster:
/// the offsets start at 0, never decrease and end at the number of
/// samples, block `c` has exactly as many slots as cluster `c` has
/// samples, `perm` is a permutation of the sample indices, every slot of
/// block `c` holds a sample of cluster `c`, and inside a block the samples
/// keep their original order.
pub proof fn lemma_cluster_layout_is_stable_partition(
    a: Seq<u32>,
    n_list: int,
    offsets: Seq<usize>,
    perm: Seq<usize>,
)
    requires
        0 <= n_list,
        assignments_in_range(a, n_list),
        is_cluster_layout(a, n_list, offsets, perm),
    ensures
        offsets[0] == 0,
        offsets[n_list] == a.len(),
        forall|c: int, d: int| 0 <= c <= d <= n_list ==> offsets[c] <= offsets[d],
        forall|c: int| 0 <= c < n_list ==> offsets[c + 1] - offsets[c] == #[trigger] count_eq(a, c),
        forall|j: int| 0 <= j < perm.len() ==> #[trigger] perm[j] < a.len(),
        forall|j1: int, j2: int| 0 <= j1 < j2 < perm.len() ==> perm[j1] != perm[j2],
        forall|c: int, j: int|
            #![trigger offsets[c], perm[j]]
            0 <= c < n_list && offsets[c] <= j < offsets[c + 1] ==> a[perm[j] as int] as int == c,
        forall|c: int, j1: int, j2: int|
            #![trigger offsets[c], perm[j1], perm[j2]]
            0 <= c < n_list && offsets[c] <= j1 < j2 < offsets[c + 1] ==> perm[j1] < perm[j2],
{
    lemma_count_lt_zero(a);
    lemma_count_lt_all(a, n_list);
    assert forall|c: int, d: int| 0 <= c <= d <= n_list implies offsets[c] <= offsets[d] by {
        lemma_count_lt_mono(a, c, d);
    }
    assert forall|c: int| 0 <= c < n_list implies offsets[c + 1] - offsets[c] == #[trigger] count_eq(a, c) by {
        lemma_count_lt_step(a, c);
    }
    assert forall|j: int| 0 <= j < perm.len() implies #[trigger] perm[j] < a.len() by {
        assert(a[0] < n_list);
        let g = lemma_position_surjective(a, n_list, j);
        assert(perm[layout_position(a, g)] == g);
    }
    assert forall|j1: int, j2: int| 0 <= j1 < j2 < perm.len() implies perm[j1] != perm[j2] by {
        assert(a[0] < n_list);
        let g1 = lemma_position_surjective(a, n_list, j1);
        let g2 = lemma_position_surjective(a, n_list, j2);
        assert(perm[layout_position(a, g1)] == g1);
        assert(perm[layout_position(a, g2)] == g2);
    }
    assert forall|c: int, j: int|
        #![trigger offsets[c], perm[j]]
        0 <= c < n_list && offsets[c] <= j < offsets[c + 1] implies a[perm[j] as int] as int == c by {
        lemma_count_lt_mono(a, c + 1, n_list);
        let g = lemma_position_surjective(a, n_list, j);
        assert(perm[layout_position(a, g)] == g);
        lemma_position_in_block(a, g);
        let x = a[g] as int;
        if x < c {
            lemma_count_lt_mono(a, x + 1, c);
        } else if x > c {
            lemma_count_lt_mono(a, c + 1, x);
        }
    }
    assert forall|c: int, j1: int, j2: int|
        #![trigger offsets[c], perm[j1], perm[j2]]
        0 <= c < n_list && offsets[c] <= j1 < j2 < offsets[c + 1] implies perm[j1] < perm[j2] by {
        lemma_count_lt_mono(a, c + 1, n_list);
        let g1 = lemma_position_surjective(a, n_list, j1);
        let g2 = lemma_position_surjective(a, n_list, j2);
        assert(perm[layout_position(a, g1)] == g1);
        assert(perm[layout_position(a, g2)] == g2);
        lemma_count_lt_mono(a, c + 1, n_list);
        assert(a[perm[j1] as int] as int == c);
        assert(a[perm[j2] as int] as int == c);
        if g2 < g1 {
            lemma_position_injective(a, g2, g1);
        }
    }
}

/// The layout of a set of assignments is unique: any two cluster layouts
/// of the same assignments have the same offsets and the same
/// permutation. So a rebuild from the same assignments reproduces the
/// same layout, whatever was built before.
pub proof fn lemma_cluster_layout_is_unique(
    a: Seq<u32>,
    n_list: int,
    offsets1: Seq<usize>,
    perm1: Seq<usize>,
    offsets2: Seq<usize>,
    perm2: Seq<usize>,
)
    requires
        0 < n_list,
        assignments_in_range(a, n_list),
        is_cluster_layout(a, n_list, offsets1, perm1),
        is_cluster_layout(a, n_list, offsets2, perm2),
    ensures
        offsets1 == offsets2,
        perm1 == perm2,
{
    assert(offsets1 =~= offsets2);
    assert forall|j: int| 0 <= j < perm1.len() implies perm1[j] == perm2[j] by {
        let g = lemma_position_surjective(a, n_list, j);
        assert(perm1[layout_position(a, g)] == g);
        assert(perm2[layout_position(a, g)] == g);
    }
    assert(perm1 =~= perm2);
}

/// Slot `j` lies in the block `[offsets[c], offsets[c + 1])` of some
/// cluster `c`.
pub open spec fn slot_in_some_block(offsets: Seq<usize>, n_list: int, j: int) -> bool {
    exists|c: int| 0 <= c < n_list && #[trigger] offsets[c] <= j < offsets[c + 1]
}

/// The cluster block that holds slot `j` of a layout.
proof fn lemma_block_of_slot(a: Seq<u32>, n_list: int, offsets: Seq<usize>, perm: Seq<usize>, j: int) -> (c: int)
    requires
        0 < n_list,
        assignments_in_range(a, n_list),
        is_cluster_layout(a, n_list, offsets, perm),
        0 <= j < a.len(),
    ensures
        0 <= c < n_list,
        offsets[c] <= j < offsets[c + 1],
{
    let g = lemma_position_surjective(a, n_list, j);
    lemma_position_in_block(a, g);
    let c = a[g] as int;
    assert(offsets[c] == count_lt(a, c));
    assert(offsets[c + 1] == count_lt(a, c + 1));
    c
}

/// After the reordering of a build, with `stored[j]` the ID of the sample
/// at slot `j`: the cluster blocks cover every slot, each slot lying in
/// exactly one block; every input ID is stored at exactly one slot; and
/// every stored ID is the input ID of the sample it came from. A search
/// that probes every cluster therefore meets every input ID exactly once
/// and no ID of an earlier build.
pub proof fn lemma_layout_stores_every_id_once(
    a: Seq<u32>,
    n_list: int,
    offsets: Seq<usize>,
    perm: Seq<usize>,
    ids: Seq<Seq<char>>,
    stored: Seq<Seq<char>>,
)
    requires
        0 < n_list,
        assignments_in_range(a, n_list),
        is_cluster_layout(a, n_list, offsets, perm),
        ids.len() == a.len(),
        stored.len() == a.len(),
        forall|j: int| 0 <= j < a.len() ==> #[trigger] stored[j] == ids[perm[j] as int],
    ensures
        forall|j: int| 0 <= j < a.len() ==> #[trigger] slot_in_some_block(offsets, n_list, j),
        forall|j: int, c1: int, c2: int|
            #![trigger offsets[c1], offsets[c2], stored[j]]
            0 <= c1 < n_list && 0 <= c2 < n_list && offsets[c1] <= j < offsets[c1 + 1] && offsets[c2] <= j
                < offsets[c2 + 1] ==> c1 == c2,
        forall|g: int| 0 <= g < a.len() ==> #[trigger] stored[layout_position(a, g)] == ids[g] && 0 <= layout_position(a, g) < a.len(),
        forall|j1: int, j2: int| 0 <= j1 < j2 < a.len() ==> perm[j1] != perm[j2],
        forall|j: int| 0 <= j < a.len() ==> 0 <= #[trigger] perm[j] < a.len() && stored[j] == ids[perm[j] as int],
{
    assert forall|j: int| 0 <= j < a.len() implies #[trigger] slot_in_some_block(offsets, n_list, j) by {
        let c = lemma_block_of_slot(a, n_list, offsets, perm, j);
        assert(offsets[c] <= j < offsets[c + 1]);
    }
    assert forall|c1: int, c2: int| 0 <= c1 < c2 <= n_list implies #[trigger] offsets[c1] <= #[trigger] offsets[c2] by {
        lemma_count_lt_mono(a, c1, c2);
    }
    assert forall|j: int, c1: int, c2: int|
        #![trigger offsets[c1], offsets[c2], stored[j]]
        0 <= c1 < n_list && 0 <= c2 < n_list && offsets[c1] <= j < offsets[c1 + 1] && offsets[c2] <= j
            < offsets[c2 + 1] implies c1 == c2 by {
        if c1 < c2 {
            assert(offsets[c1 + 1] <= offsets[c2]);
        } else if c2 < c1 {
            assert(offsets[c2 + 1] <= offsets[c1]);
        }
    }
    assert forall|g: int| 0 <= g < a.len() implies #[trigger] stored[layout_position(a, g)] == ids[g] && 0 <= layout_position(a, g) < a.len() by {
        lemma_position_in_block(a, g);
        lemma_count_lt_mono(a, a[g] as int + 1, n_list);
        lemma_count_lt_all(a, n_list);
        assert(perm[layout_position(a, g)] == g);
    }
    assert(forall|j1: int, j2: int| 0 <= j1 < j2 < a.len() ==> perm[j1] != perm[j2]) by {
        lemma_cluster_layout_is_stable_partition(a, n_list, offsets, perm);
    }
    assert(forall|j: int| 0 <= j < a.len() ==> 0 <= #[trigger] perm[j] < a.len()) by {
        lemma_cluster_layout_is_stable_partition(a, n_list, offsets, perm);
    }
}

/// Computes the cluster layout of `assignments`: the start offset of every
/// cluster (`n_list + 1` entries, the last one equal to the number of
/// samples) and the permutation `perm[local] = global` that lists the
/// samples of cluster 0 first, then cluster 1, and so on, each cluster
/// keeping the original order of its samples.
pub fn build_cluster_layout(assignments: &[u32], n_list: usize) -> (res: (Vec<usize>, Vec<usize>))
    requires
        n_list < usize::MAX,
        assignments_in_range(assignments@, n_list as int),
    ensures
        is_cluster_layout(assignments@, n_list as int, res.0@, res.1@),
{
    let ghost a = assignments@;
    let n = assignments.len();

    // Cluster sizes.
    let mut counts: Vec<usize> = Vec::with_capacity(n_list);
    let mut c: usize = 0;
    while c < n_list
        invariant
            c <= n_list,
            counts.len() == c,
            forall|k: int| 0 <= k < c ==> counts[k] == 0,
        decreases n_list - c,
    {
        counts.push(0);
        c = c + 1;
    }
    assert(a.take(0) =~= Seq::<u32>::empty());
    let mut i: usize = 0;
    while i < n
        invariant
            n == a.len(),
            a == assignments@,
            assignments_in_range(a, n_list as int),
            i <= n,
            counts.len() == n_list,
            forall|k: int| 0 <= k < n_list ==> #[trigger] counts[k] == count_eq(a.take(i as int), k),
        decreases n - i,
    {
        let x = assignments[i] as usize;
        assert(a[i as int] < n_list);
        proof {
            assert forall|k: int| 0 <= k < n_list implies count_eq(a.take(i + 1), k) == count_eq(a.take(i as int), k) + if a[i as int] as int == k { 1nat } else { 0nat } by {
                lemma_count_eq_take_step(a, i as int, k);
            }
            lemma_count_bounds(a.take(i as int), x as int);
        }
        counts.set(x, counts[x] + 1);
        i = i + 1;
    }
    assert(a.take(n as int) =~= a);

    // Prefix sums.
    let mut offsets: Vec<usize> = Vec::with_capacity(n_list + 1);
    offsets.push(0);
    proof {
        lemma_count_lt_zero(a);
    }
    let mut k: usize = 0;
    while k < n_list
        invariant
            n == a.len(),
            k <= n_list,
            counts.len() == n_list,
            forall|j: int| 0 <= j < n_list ==> #[trigger] counts[j] == count_eq(a, j),
            offsets.len() == k + 1,
            forall|j: int| 0 <= j <= k ==> #[trigger] offsets[j] == count_lt(a, j),
        decreases n_list - k,
    {
        proof {
            lemma_count_lt_step(a, k as int);
            lemma_count_bounds(a, k as int);
        }
        let next = offsets[k] + counts[k];
        offsets.push(next);
        k = k + 1;
    }

    // Scatter every sample to its slot, advancing one cursor per cluster.
    let mut perm: Vec<usize> = Vec::with_capacity(n);
    let mut p: usize = 0;
    while p < n
        invariant
            p <= n,
            perm.len() == p,
        decreases n - p,
    {
        perm.push(0);
        p = p + 1;
    }
    let mut cursors: Vec<usize> = offsets.clone();
    assert(cursors@ =~= offsets@);
    let mut g: usize = 0;
    while g < n
        invariant
            n == a.len(),
            a == assignments@,
            assignments_in_range(a, n_list as int),
            g <= n,
            perm.len() == n,
            offsets.len() == n_list + 1,
            forall|j: int| 0 <= j <= n_list ==> #[trigger] offsets[j] == count_lt(a, j),
            cursors.len() == n_list + 1,
            forall|j: int| 0 <= j < n_list ==> #[trigger] cursors[j] == count_lt(a, j) + count_eq(a.take(g as int), j),
            forall|h: int| 0 <= h < g ==> perm[#[trigger] layout_position(a, h)] == h,
        decreases n - g,
    {
        let x = assignments[g] as usize;
        let pos = cursors[x];
        proof {
            assert(a[g as int] < n_list);
            lemma_position_in_block(a, g as int);
            lemma_count_lt_mono(a, x as int + 1, n_list as int);
            lemma_count_lt_all(a, n_list as int);
            assert(pos as int == layout_position(a, g as int));
        }
        let ghost old_perm = perm@;
        perm.set(pos, g);
        proof {
            assert forall|h: int| 0 <= h < g + 1 implies perm[#[trigger] layout_position(a, h)] == h by {
                if h < g {
                    lemma_position_injective(a, h, g as int);
                    lemma_position_in_block(a, h);
                    lemma_count_lt_mono(a, a[h] as int + 1, n_list as int);
                    assert(old_perm[layout_position(a, h)] == h);
                }
            }
            assert forall|j: int| 0 <= j < n_list implies count_eq(a.take(g + 1), j) == count_eq(a.take(g as int), j) + if a[g as int] as int == j { 1nat } else { 0nat } by {
                lemma_count_eq_take_step(a, g as int, j);
            }
        }
        cursors.set(x, pos + 1);
        g = g + 1;
    }
    proof {
        lemma_count_lt_all(a, n_list as int);
    }
    (offsets, perm)
}

} // verus!
