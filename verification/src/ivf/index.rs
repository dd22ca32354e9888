//! Host-side state of an IVF index: configuration checks, the cluster
//! layout produced by a build, and the checks that guard a search. The
//! backends keep their device buffers beside this state and run the
//! floating-point k-means and scoring themselves.

use vstd::prelude::*;
use crate::error::{HiveGpuError, is_invalid_configuration, is_dimension_mismatch};
use crate::ivf::layout::{
    assignments_in_range, build_cluster_layout, is_cluster_layout,
    lemma_cluster_layout_is_stable_partition,
};
use crate::utils::clock::clock_seed;
use crate::types::{GpuDistanceMetric, IvfConfig};
use crate::utils::text::{decimal, push_decimal};

verus! {

/// Message of the error for an `nprobe` outside `1..=n_list`.
pub open spec fn nprobe_range_message(n_list: nat) -> Seq<char> {
    "nprobe must be in 1..="@ + decimal(n_list)
}

/// Message of the error for a build on fewer vectors than clusters.
pub open spec fn too_few_vectors_message(n_list: nat, n: nat) -> Seq<char> {
    "need at least n_list="@ + decimal(n_list) + " vectors to train, got "@ + decimal(n)
}

/// Message of the error for a non-finite component in input vector `i`.
pub open spec fn non_finite_vector_message(i: nat, id: Seq<char>) -> Seq<char> {
    "non-finite component in input vector #"@ + decimal(i) + " (id="@ + id + ")"@
}

/// Message of the error for a non-finite query component at index `i`.
pub open spec fn non_finite_query_message(i: nat) -> Seq<char> {
    "non-finite query component at index "@ + decimal(i)
}

/// Index of the first input vector whose length differs from `dim` or
/// that holds a non-finite component, searching from `i`; the number of
/// vectors when there is none.
pub open spec fn first_invalid_vector(dim: nat, lens: Seq<usize>, finite: Seq<bool>, i: int) -> int
    decreases lens.len() - i,
{
    if i >= lens.len() || i < 0 {
        lens.len() as int
    } else if lens[i] != dim || !finite[i] {
        i
    } else {
        first_invalid_vector(dim, lens, finite, i + 1)
    }
}

/// Index of the first `false` in `finite` from `i`; its length when none.
pub open spec fn first_non_finite(finite: Seq<bool>, i: int) -> int
    decreases finite.len() - i,
{
    if i >= finite.len() || i < 0 {
        finite.len() as int
    } else if !finite[i] {
        i
    } else {
        first_non_finite(finite, i + 1)
    }
}

proof fn lemma_first_invalid_vector_skip(dim: nat, lens: Seq<usize>, finite: Seq<bool>, i: int)
    requires
        0 <= i <= lens.len(),
        forall|j: int| 0 <= j < i ==> lens[j] == dim && finite[j],
    ensures
        first_invalid_vector(dim, lens, finite, 0) == first_invalid_vector(dim, lens, finite, i),
    decreases i,
{
    if i > 0 {
        lemma_first_invalid_vector_skip(dim, lens, finite, i - 1);
    }
}

pub proof fn lemma_first_non_finite_skip(finite: Seq<bool>, i: int)
    requires
        0 <= i <= finite.len(),
        forall|j: int| 0 <= j < i ==> finite[j],
    ensures
        first_non_finite(finite, 0) == first_non_finite(finite, i),
    decreases i,
{
    if i > 0 {
        lemma_first_non_finite_skip(finite, i - 1);
    }
}

/// Host-side state of an IVF index.
#[derive(Debug)]
pub struct IvfIndex {
    dimension: usize,
    metric: GpuDistanceMetric,
    config: IvfConfig,
    /// Start of every cluster in the reordered storage (`n_list + 1`
    /// entries once built, the last equal to `vector_count`).
    cluster_offsets: Vec<usize>,
    /// Original IDs of the stored vectors, in reordered order.
    ids_by_local_index: Vec<String>,
    vector_count: usize,
    trained: bool,
}

impl IvfIndex {
    #[verifier::type_invariant]
    closed spec fn well_formed(self) -> bool {
        &&& self.dimension > 0
        &&& self.config.n_list > 0
        &&& 1 <= self.config.nprobe <= self.config.n_list
        &&& if self.trained {
            &&& self.cluster_offsets.len() == self.config.n_list + 1
            &&& self.cluster_offsets[0] == 0
            &&& self.cluster_offsets[self.config.n_list as int] == self.vector_count
            &&& self.vector_count >= self.config.n_list
            &&& forall|c: int, d: int|
                0 <= c <= d <= self.config.n_list ==> #[trigger] self.cluster_offsets[c] <= #[trigger] self.cluster_offsets[d]
            &&& self.ids_by_local_index.len() == self.vector_count
        } else {
            &&& self.cluster_offsets.len() == 0
            &&& self.ids_by_local_index.len() == 0
            &&& self.vector_count == 0
        }
    }

    pub closed spec fn spec_dimension(self) -> usize {
        self.dimension
    }

    /// What holds of every index: a positive dimension, `1 <= nprobe <=
    /// n_list`, and once built at least `n_list` vectors.
    pub open spec fn consistent(self) -> bool {
        &&& self.spec_dimension() > 0
        &&& 1 <= self.spec_nprobe() <= self.spec_n_list()
        &&& self.spec_trained() ==> self.spec_vector_count() >= self.spec_n_list()
    }

    pub closed spec fn spec_metric(self) -> GpuDistanceMetric {
        self.metric
    }

    pub closed spec fn spec_n_list(self) -> usize {
        self.config.n_list
    }

    pub closed spec fn spec_nprobe(self) -> usize {
        self.config.nprobe
    }

    pub closed spec fn spec_training_sample_size(self) -> usize {
        self.config.training_sample_size
    }

    pub closed spec fn spec_kmeans_iters(self) -> usize {
        self.config.kmeans_iters
    }

    pub closed spec fn spec_seed(self) -> Option<u64> {
        self.config.seed
    }

    pub closed spec fn spec_vector_count(self) -> usize {
        self.vector_count
    }

    pub closed spec fn spec_trained(self) -> bool {
        self.trained
    }

    /// Cluster start offsets of the current layout (empty before a build).
    pub closed spec fn spec_offsets(self) -> Seq<usize> {
        self.cluster_offsets@
    }

    /// IDs of the stored vectors in reordered order (empty before a build).
    pub closed spec fn spec_ids(self) -> Seq<Seq<char>> {
        self.ids_by_local_index@.map_values(|s: String| s@)
    }

    /// Creates an empty, untrained index after checking that the
    /// dimension and `n_list` are positive and `1 <= nprobe <= n_list`.
    pub fn new(dimension: usize, metric: GpuDistanceMetric, config: IvfConfig) -> (r: Result<Self, HiveGpuError>)
        ensures
            dimension == 0 ==> r is Err && is_invalid_configuration(r->Err_0, "dimension must be > 0"@),
            dimension > 0 && config.n_list == 0 ==> r is Err && is_invalid_configuration(r->Err_0, "n_list must be > 0"@),
            dimension > 0 && config.n_list > 0 && (config.nprobe == 0 || config.nprobe > config.n_list) ==>
                r is Err && is_invalid_configuration(r->Err_0, nprobe_range_message(config.n_list as nat)),
            dimension > 0 && config.n_list > 0 && 1 <= config.nprobe <= config.n_list ==> r is Ok,
            r matches Ok(ix) ==> {
                &&& ix.spec_dimension() == dimension
                &&& ix.spec_metric() == metric
                &&& ix.spec_n_list() == config.n_list
                &&& ix.spec_nprobe() == config.nprobe
                &&& ix.spec_training_sample_size() == config.training_sample_size
                &&& ix.spec_kmeans_iters() == config.kmeans_iters
                &&& ix.spec_seed() == config.seed
                &&& !ix.spec_trained()
                &&& ix.spec_vector_count() == 0
                &&& ix.spec_offsets().len() == 0
                &&& ix.spec_ids().len() == 0
            },
    {
        if dimension == 0 {
            return Err(HiveGpuError::InvalidConfiguration(String::from_str("dimension must be > 0")));
        }
        if config.n_list == 0 {
            return Err(HiveGpuError::InvalidConfiguration(String::from_str("n_list must be > 0")));
        }
        if config.nprobe == 0 || config.nprobe > config.n_list {
            return Err(HiveGpuError::InvalidConfiguration(nprobe_message(config.n_list)));
        }
        let ix = IvfIndex {
            dimension,
            metric,
            config,
            cluster_offsets: Vec::new(),
            ids_by_local_index: Vec::new(),
            vector_count: 0,
            trained: false,
        };
        proof {
            assert(ix.ids_by_local_index@.map_values(|s: String| s@) =~= Seq::<Seq<char>>::empty());
        }
        Ok(ix)
    }

    /// Updates `nprobe`; it must satisfy `1 <= nprobe <= n_list`.
    pub fn set_nprobe(&mut self, nprobe: usize) -> (r: Result<(), HiveGpuError>)
        ensures
            (1 <= nprobe <= old(self).spec_n_list()) <==> r is Ok,
            r is Ok ==> final(self).spec_nprobe() == nprobe,
            r is Err ==> final(self).spec_nprobe() == old(self).spec_nprobe()
                && is_invalid_configuration(r->Err_0, nprobe_range_message(old(self).spec_n_list() as nat)),
            final(self).spec_n_list() == old(self).spec_n_list(),
            final(self).spec_dimension() == old(self).spec_dimension(),
            final(self).spec_metric() == old(self).spec_metric(),
            final(self).spec_training_sample_size() == old(self).spec_training_sample_size(),
            final(self).spec_kmeans_iters() == old(self).spec_kmeans_iters(),
            final(self).spec_seed() == old(self).spec_seed(),
            final(self).spec_trained() == old(self).spec_trained(),
            final(self).spec_vector_count() == old(self).spec_vector_count(),
            final(self).spec_offsets() == old(self).spec_offsets(),
            final(self).spec_ids() == old(self).spec_ids(),
    {
        proof {
            use_type_invariant(&*self);
        }
        if nprobe == 0 || nprobe > self.config.n_list {
            return Err(HiveGpuError::InvalidConfiguration(nprobe_message(self.config.n_list)));
        }
        self.config.nprobe = nprobe;
        Ok(())
    }

    /// Current `nprobe` setting.
    pub fn nprobe(&self) -> (r: usize)
        ensures
            r == self.spec_nprobe(),
            self.consistent(),
    {
        proof {
            use_type_invariant(self);
        }
        self.config.nprobe
    }

    /// Configured `n_list`.
    pub fn n_list(&self) -> (r: usize)
        ensures
            r == self.spec_n_list(),
            self.consistent(),
    {
        proof {
            use_type_invariant(self);
        }
        self.config.n_list
    }

    /// Number of indexed vectors.
    pub fn vector_count(&self) -> (r: usize)
        ensures
            r == self.spec_vector_count(),
            self.consistent(),
    {
        proof {
            use_type_invariant(self);
        }
        self.vector_count
    }

    /// Whether a build has completed.
    pub fn is_trained(&self) -> (r: bool)
        ensures
            r == self.spec_trained(),
            self.consistent(),
    {
        proof {
            use_type_invariant(self);
        }
        self.trained
    }

    /// Vector dimension.
    pub fn dimension(&self) -> (r: usize)
        ensures
            r == self.spec_dimension(),
            self.consistent(),
    {
        proof {
            use_type_invariant(self);
        }
        self.dimension
    }

    /// Metric used to score search results.
    pub fn metric(&self) -> (r: GpuDistanceMetric)
        ensures
            r == self.spec_metric(),
    {
        self.metric
    }

    /// Maximum number of Lloyd iterations.
    pub fn kmeans_iters(&self) -> (r: usize)
        ensures
            r == self.spec_kmeans_iters(),
    {
        self.config.kmeans_iters
    }

    /// Seed of the k-means++ initialisation: the configured one; without
    /// one, a seed read from the clock, so that unseeded builds are not
    /// reproducible.
    pub fn kmeans_seed(&self) -> (r: u64)
        ensures
            self.spec_seed() matches Some(s) ==> r == s,
    {
        match self.config.seed {
            Some(s) => s,
            None => clock_seed(),
        }
    }

    /// Checks the input of a build, given for every input vector its
    /// length, whether all its components are finite, and its ID. On
    /// success returns the size of the training sample,
    /// `min(training_sample_size, n)`.
    pub fn validate_build_input(&self, lens: &[usize], finite: &[bool], ids: &[String]) -> (r: Result<usize, HiveGpuError>)
        requires
            lens.len() == finite.len(),
            lens.len() == ids.len(),
        ensures
            lens.len() == 0 ==> r is Err
                && is_invalid_configuration(r->Err_0, "cannot build IVF from empty vector set"@),
            0 < lens.len() < self.spec_n_list() ==> r is Err
                && is_invalid_configuration(r->Err_0, too_few_vectors_message(self.spec_n_list() as nat, lens.len() as nat)),
            lens.len() > 0 && lens.len() >= self.spec_n_list() ==> {
                let k = first_invalid_vector(self.spec_dimension() as nat, lens@, finite@, 0);
                &&& k < lens.len() && lens[k] != self.spec_dimension() ==> r is Err
                    && is_dimension_mismatch(r->Err_0, self.spec_dimension(), lens[k])
                &&& k < lens.len() && lens[k] == self.spec_dimension() ==> r is Err
                    && is_invalid_configuration(r->Err_0, non_finite_vector_message(k as nat, ids[k]@))
                &&& k == lens.len() ==> r == Ok::<usize, HiveGpuError>(
                    if self.spec_training_sample_size() <= lens.len() { self.spec_training_sample_size() } else { lens.len() })
            },
    {
        let n = lens.len();
        if n == 0 {
            return Err(HiveGpuError::InvalidConfiguration(String::from_str("cannot build IVF from empty vector set")));
        }
        if n < self.config.n_list {
            let mut m = String::from_str("need at least n_list=");
            push_decimal(&mut m, self.config.n_list as u128);
            m.append(" vectors to train, got ");
            push_decimal(&mut m, n as u128);
            return Err(HiveGpuError::InvalidConfiguration(m));
        }
        let mut i: usize = 0;
        while i < n
            invariant
                n == lens.len(),
                n == finite.len(),
                n == ids.len(),
                n > 0,
                n >= self.config.n_list,
                i <= n,
                forall|j: int| 0 <= j < i ==> lens[j] == self.dimension && finite[j],
            decreases n - i,
        {
            if lens[i] != self.dimension {
                proof {
                    lemma_first_invalid_vector_skip(self.dimension as nat, lens@, finite@, i as int);
                }
                return Err(HiveGpuError::DimensionMismatch { expected: self.dimension, actual: lens[i] });
            }
            if !finite[i] {
                proof {
                    lemma_first_invalid_vector_skip(self.dimension as nat, lens@, finite@, i as int);
                }
                let mut m = String::from_str("non-finite component in input vector #");
                push_decimal(&mut m, i as u128);
                m.append(" (id=");
                m.append(ids[i].as_str());
                m.append(")");
                return Err(HiveGpuError::InvalidConfiguration(m));
            }
            i = i + 1;
        }
        proof {
            lemma_first_invalid_vector_skip(self.dimension as nat, lens@, finite@, n as int);
        }
        let t = self.config.training_sample_size;
        Ok(if t <= n { t } else { n })
    }

    /// Installs the result of a build: reorders the vector IDs by cluster
    /// following `assignments` (one cluster per input vector), records the
    /// cluster offsets and marks the index trained. Returns the permutation
    /// `perm[local] = global` that the caller applies to the vector data.
    pub fn install_layout(&mut self, assignments: &[u32], ids: &[String]) -> (perm: Vec<usize>)
        requires
            assignments.len() == ids.len(),
            old(self).spec_n_list() <= assignments.len() < usize::MAX,
            assignments_in_range(assignments@, old(self).spec_n_list() as int),
        ensures
            is_cluster_layout(assignments@, old(self).spec_n_list() as int, final(self).spec_offsets(), perm@),
            final(self).spec_ids().len() == ids.len(),
            forall|j: int| 0 <= j < ids.len() ==> #[trigger] final(self).spec_ids()[j] == ids[perm[j] as int]@,
            final(self).spec_vector_count() == ids.len(),
            final(self).spec_trained(),
            final(self).spec_n_list() == old(self).spec_n_list(),
            final(self).spec_nprobe() == old(self).spec_nprobe(),
            final(self).spec_dimension() == old(self).spec_dimension(),
            final(self).spec_metric() == old(self).spec_metric(),
            final(self).spec_training_sample_size() == old(self).spec_training_sample_size(),
            final(self).spec_kmeans_iters() == old(self).spec_kmeans_iters(),
            final(self).spec_seed() == old(self).spec_seed(),
    {
        proof {
            use_type_invariant(&*self);
        }
        let n_list = self.config.n_list;
        let (offsets, perm) = build_cluster_layout(assignments, n_list);
        proof {
            lemma_cluster_layout_is_stable_partition(assignments@, n_list as int, offsets@, perm@);
        }
        let n = ids.len();
        let mut reordered: Vec<String> = Vec::with_capacity(n);
        let mut j: usize = 0;
        while j < n
            invariant
                n == ids.len(),
                perm.len() == n,
                forall|x: int| 0 <= x < n ==> #[trigger] perm[x] < n,
                j <= n,
                reordered.len() == j,
                forall|x: int| 0 <= x < j ==> #[trigger] reordered[x]@ == ids[perm[x] as int]@,
            decreases n - j,
        {
            let g = perm[j];
            reordered.push(ids[g].clone());
            j = j + 1;
        }
        let new_state = IvfIndex {
            dimension: self.dimension,
            metric: self.metric,
            config: IvfConfig {
                n_list: self.config.n_list,
                nprobe: self.config.nprobe,
                training_sample_size: self.config.training_sample_size,
                kmeans_iters: self.config.kmeans_iters,
                seed: self.config.seed,
            },
            cluster_offsets: offsets,
            ids_by_local_index: reordered,
            vector_count: n,
            trained: true,
        };
        *self = new_state;
        perm
    }

    /// Checks the input of a search, given for every query component
    /// whether it is finite. `Ok(false)` means the result is empty (`k` is
    /// 0 or nothing is indexed); `Ok(true)` that the search proceeds.
    pub fn validate_search_input(&self, query_finite: &[bool], k: usize) -> (r: Result<bool, HiveGpuError>)
        ensures
            !self.spec_trained() ==> r is Err
                && is_invalid_configuration(r->Err_0, "IVF index must be built before search"@),
            self.spec_trained() && query_finite.len() != self.spec_dimension() ==> r is Err
                && is_dimension_mismatch(r->Err_0, self.spec_dimension(), query_finite.len()),
            self.spec_trained() && query_finite.len() == self.spec_dimension()
                && (k == 0 || self.spec_vector_count() == 0) ==> r == Ok::<bool, HiveGpuError>(false),
            self.spec_trained() && query_finite.len() == self.spec_dimension()
                && k > 0 && self.spec_vector_count() > 0 ==> {
                let i = first_non_finite(query_finite@, 0);
                &&& i < query_finite.len() ==> r is Err
                    && is_invalid_configuration(r->Err_0, non_finite_query_message(i as nat))
                &&& i == query_finite.len() ==> r == Ok::<bool, HiveGpuError>(true)
            },
            self.consistent(),
    {
        proof {
            use_type_invariant(self);
        }
        if !self.trained {
            return Err(HiveGpuError::InvalidConfiguration(String::from_str("IVF index must be built before search")));
        }
        if query_finite.len() != self.dimension {
            return Err(HiveGpuError::DimensionMismatch { expected: self.dimension, actual: query_finite.len() });
        }
        if k == 0 || self.vector_count == 0 {
            return Ok(false);
        }
        let n = query_finite.len();
        let mut i: usize = 0;
        while i < n
            invariant
                n == query_finite.len(),
                n == self.dimension,
                self.trained,
                k > 0,
                self.vector_count > 0,
                self.consistent(),
                i <= n,
                forall|j: int| 0 <= j < i ==> query_finite[j],
            decreases n - i,
        {
            if !query_finite[i] {
                proof {
                    lemma_first_non_finite_skip(query_finite@, i as int);
                }
                let mut m = String::from_str("non-finite query component at index ");
                push_decimal(&mut m, i as u128);
                return Err(HiveGpuError::InvalidConfiguration(m));
            }
            i = i + 1;
        }
        proof {
            lemma_first_non_finite_skip(query_finite@, n as int);
        }
        Ok(true)
    }

    /// The range `[start, end)` of reordered positions holding the members
    /// of `cluster`.
    pub fn cluster_range(&self, cluster: usize) -> (r: (usize, usize))
        requires
            self.spec_trained(),
            cluster < self.spec_n_list(),
        ensures
            r.0 == self.spec_offsets()[cluster as int],
            r.1 == self.spec_offsets()[cluster + 1],
            r.0 <= r.1 <= self.spec_vector_count(),
    {
        proof {
            use_type_invariant(self);
        }
        (self.cluster_offsets[cluster], self.cluster_offsets[cluster + 1])
    }

    /// ID of the vector stored at reordered position `local_idx`.
    pub fn id_at(&self, local_idx: usize) -> (id: String)
        requires
            local_idx < self.spec_vector_count(),
        ensures
            id@ == self.spec_ids()[local_idx as int],
    {
        proof {
            use_type_invariant(self);
        }
        self.ids_by_local_index[local_idx].clone()
    }
}

/// Builds the message "nprobe must be in 1..=<n_list>".
fn nprobe_message(n_list: usize) -> (m: String)
    ensures
        m@ == nprobe_range_message(n_list as nat),
{
    let mut m = String::from_str("nprobe must be in 1..=");
    push_decimal(&mut m, n_list as u128);
    m
}

} // verus!
