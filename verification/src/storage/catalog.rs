//! The host-side catalog of a device vector storage: which ID sits at
//! which slot of the device buffer, which slots are soft-deleted, and how
//! many slots the buffer holds. The device buffer itself, the vector data
//! and its norms are kept by the backend beside the catalog.

use vstd::prelude::*;
use std::collections::HashSet;
use vstd::hash_map::StringHashMap;
use vstd::utf8::encode_utf8;
use crate::error::{HiveGpuError, is_invalid_configuration, is_dimension_mismatch, is_other_error};
use crate::utils::rounding::{round_to_f32, round_to_f32_exec};
use crate::utils::text::{decimal, push_decimal};
use crate::storage::stats::StorageStats;
use crate::ivf::index::{first_non_finite as first_non_finite_component, lemma_first_non_finite_skip, non_finite_query_message};

verus! {

broadcast use vstd::std_specs::hash::group_hash_axioms;

/// Smallest number of slots a storage starts with.
pub const MIN_INITIAL_VECTORS: usize = 1024;

/// Smallest number of bytes a storage starts with.
pub const MIN_INITIAL_BYTES: usize = 1024 * 1024;

/// Longest accepted vector ID, in bytes.
pub const MAX_ID_BYTES: usize = 256;

/// Initial slot count for vectors of `dimension` components: enough for
/// 1 MiB of components, at least one, and at least 1024.
pub open spec fn initial_capacity(dimension: nat) -> nat {
    let by_bytes = MIN_INITIAL_BYTES as nat / (dimension * 4);
    let by_bytes = if by_bytes >= 1 { by_bytes } else { 1 };
    if by_bytes >= MIN_INITIAL_VECTORS { by_bytes } else { MIN_INITIAL_VECTORS as nat }
}

/// One growth step from `c` slots, computed in single precision as the
/// storages do: doubling below 1000, +50% below 10000, and otherwise
/// `ceil(c * 1.2)` with both operands and the product rounded to single
/// precision (1.2 is 10066330 / 2^23 there); saturating at `usize::MAX`.
pub open spec fn grow_step(c: nat) -> nat {
    if c < 1000 {
        2 * c
    } else if c < 10000 {
        (3 * c + 1) / 2
    } else {
        let v = (round_to_f32(round_to_f32(c) * 10066330) + 8388607) / 8388608;
        if v > usize::MAX { usize::MAX as nat } else { v }
    }
}

/// Slot count after making room for `required` slots from `capacity`.
pub open spec fn grown_capacity(capacity: nat, required: nat) -> nat {
    if required <= capacity {
        capacity
    } else {
        let g = grow_step(capacity);
        if g >= required { g } else { required }
    }
}

/// Computes `grow_step(c)`.
pub fn grow_step_exec(c: usize) -> (g: usize)
    ensures
        g == grow_step(c as nat),
{
    if c < 1000 {
        2 * c
    } else if c < 10000 {
        (3 * c + 1) / 2
    } else {
        let rc = round_to_f32_exec(c as u128);
        assert(rc * 10066330 <= 0x1_0000_0000_0000_0000_0000_0000) by (nonlinear_arith)
            requires rc <= 2 * c, c <= usize::MAX, usize::MAX <= u64::MAX;
        let p = round_to_f32_exec(rc * 10066330);
        assert(p <= 2 * (rc * 10066330));
        let v = (p + 8388607) / 8388608;
        if v > usize::MAX as u128 {
            usize::MAX
        } else {
            v as usize
        }
    }
}

/// Making room never shrinks the buffer and always fits what was asked
/// for: the new slot count is at least the old one and at least the
/// required count.
pub proof fn lemma_grown_capacity_fits(capacity: nat, required: nat)
    ensures
        grown_capacity(capacity, required) >= capacity,
        grown_capacity(capacity, required) >= required,
{
}

/// Byte length of the UTF-8 encoding of an ID (as `str::len` reports it).
pub open spec fn id_bytes(id: Seq<char>) -> usize {
    encode_utf8(id).len() as usize
}

/// Message of the error for an ID already stored.
pub open spec fn duplicate_id_message(id: Seq<char>) -> Seq<char> {
    "duplicate vector id: "@ + id
}

/// Message of the error for an ID given twice in one batch.
pub open spec fn duplicate_in_batch_message(id: Seq<char>) -> Seq<char> {
    "duplicate vector id within batch: "@ + id
}

/// Message of the error for a non-finite component.
pub open spec fn non_finite_component_message(i: nat, id: Seq<char>) -> Seq<char> {
    "non-finite component at index "@ + decimal(i) + " in vector "@ + id
}

/// Index of the first `false` in `finite`; its length when all are true.
pub open spec fn first_false(finite: Seq<bool>) -> int
    decreases finite.len(),
{
    if finite.len() == 0 {
        0
    } else if !finite[0] {
        0
    } else {
        1 + first_false(finite.drop_first())
    }
}

/// Outcome of checking one input vector against a catalog.
pub enum VectorCheck {
    /// The vector is accepted.
    Accepted,
    /// Its length differs from the storage dimension.
    WrongDimension,
    /// Its ID is empty.
    EmptyId,
    /// Its ID is longer than 256 bytes.
    IdTooLong,
    /// Its ID is already stored.
    DuplicateId,
    /// The component at this index is not finite.
    NonFinite(nat),
}

/// Checks of one vector, in order: length, empty ID, ID length, duplicate
/// ID, finiteness of the components.
pub open spec fn vector_check(dimension: nat, stored: Map<Seq<char>, usize>, id: Seq<char>, finite: Seq<bool>) -> VectorCheck {
    if finite.len() != dimension {
        VectorCheck::WrongDimension
    } else if id.len() == 0 {
        VectorCheck::EmptyId
    } else if id_bytes(id) > MAX_ID_BYTES {
        VectorCheck::IdTooLong
    } else if stored.contains_key(id) {
        VectorCheck::DuplicateId
    } else if first_false(finite) < finite.len() {
        VectorCheck::NonFinite(first_false(finite) as nat)
    } else {
        VectorCheck::Accepted
    }
}

/// `r` is the result the check `c` calls for.
pub open spec fn check_result(r: Result<(), HiveGpuError>, c: VectorCheck, dimension: usize, len: usize, id: Seq<char>) -> bool {
    match c {
        VectorCheck::Accepted => r is Ok,
        VectorCheck::WrongDimension => r is Err && is_dimension_mismatch(r->Err_0, dimension, len),
        VectorCheck::EmptyId => r is Err && is_invalid_configuration(r->Err_0, "vector id must be non-empty"@),
        VectorCheck::IdTooLong => r is Err && is_invalid_configuration(r->Err_0, "vector id must be <= 256 chars"@),
        VectorCheck::DuplicateId => r is Err && is_invalid_configuration(r->Err_0, duplicate_id_message(id)),
        VectorCheck::NonFinite(i) => r is Err && is_invalid_configuration(r->Err_0, non_finite_component_message(i, id)),
    }
}

proof fn lemma_first_false_found(finite: Seq<bool>, i: int)
    requires
        0 <= i < finite.len(),
        !finite[i],
        forall|j: int| 0 <= j < i ==> finite[j],
    ensures
        first_false(finite) == i,
    decreases i,
{
    if i > 0 {
        assert forall|j: int| 0 <= j < i - 1 implies finite.drop_first()[j] by {
            assert(finite.drop_first()[j] == finite[j + 1]);
        }
        lemma_first_false_found(finite.drop_first(), i - 1);
    }
}

proof fn lemma_first_false_none(finite: Seq<bool>)
    requires
        forall|j: int| 0 <= j < finite.len() ==> finite[j],
    ensures
        first_false(finite) == finite.len(),
    decreases finite.len(),
{
    if finite.len() > 0 {
        assert forall|j: int| 0 <= j < finite.len() - 1 implies finite.drop_first()[j] by {
            assert(finite.drop_first()[j] == finite[j + 1]);
        }
        lemma_first_false_none(finite.drop_first());
    }
}

/// Index of the first `false` in `finite` (its length when none).
fn find_first_false(finite: &[bool]) -> (i: usize)
    ensures
        i == first_false(finite@),
{
    let mut i: usize = 0;
    while i < finite.len()
        invariant
            i <= finite.len(),
            forall|j: int| 0 <= j < i ==> finite@[j],
        decreases finite.len() - i,
    {
        if !finite[i] {
            proof {
                lemma_first_false_found(finite@, i as int);
            }
            return i;
        }
        i = i + 1;
    }
    proof {
        lemma_first_false_none(finite@);
    }
    i
}

/// Whether the ID at position `i` of a batch repeats an earlier one.
pub open spec fn repeats_earlier(ids: Seq<Seq<char>>, i: int) -> bool {
    exists|j: int| 0 <= j < i && ids[j] == ids[i]
}

/// Vector `j` of a batch passes its own checks and does not repeat an
/// earlier ID.
pub open spec fn batch_entry_ok(
    dimension: nat,
    stored: Map<Seq<char>, usize>,
    ids: Seq<Seq<char>>,
    finite: Seq<Seq<bool>>,
    j: int,
) -> bool {
    (vector_check(dimension, stored, ids[j], finite[j]) is Accepted) && !repeats_earlier(ids, j)
}

/// Index of the first vector of a batch (from `i`) that fails its own
/// check or repeats an earlier ID; the batch length when there is none.
pub open spec fn first_batch_failure(
    dimension: nat,
    stored: Map<Seq<char>, usize>,
    ids: Seq<Seq<char>>,
    finite: Seq<Seq<bool>>,
    i: int,
) -> int
    decreases ids.len() - i,
{
    if i >= ids.len() || i < 0 {
        ids.len() as int
    } else if !batch_entry_ok(dimension, stored, ids, finite, i) {
        i
    } else {
        first_batch_failure(dimension, stored, ids, finite, i + 1)
    }
}

proof fn lemma_first_batch_failure_skip(
    dimension: nat,
    stored: Map<Seq<char>, usize>,
    ids: Seq<Seq<char>>,
    finite: Seq<Seq<bool>>,
    i: int,
)
    requires
        0 <= i <= ids.len(),
        forall|j: int| 0 <= j < i ==> #[trigger] batch_entry_ok(dimension, stored, ids, finite, j),
    ensures
        first_batch_failure(dimension, stored, ids, finite, 0) == first_batch_failure(dimension, stored, ids, finite, i),
    decreases i,
{
    if i > 0 {
        lemma_first_batch_failure_skip(dimension, stored, ids, finite, i - 1);
    }
}


/// Index of the first ID of `ids`, from position `i` on, that `stored`
/// lacks; the length of `ids` when it has them all.
pub open spec fn first_unknown(stored: Map<Seq<char>, usize>, ids: Seq<Seq<char>>, i: int) -> int
    decreases ids.len() - i,
{
    if i >= ids.len() || i < 0 {
        ids.len() as int
    } else if !stored.contains_key(ids[i]) {
        i
    } else {
        first_unknown(stored, ids, i + 1)
    }
}

/// Slots of the first `k` IDs of `ids`.
pub open spec fn slots_of(stored: Map<Seq<char>, usize>, ids: Seq<Seq<char>>, k: int) -> Set<usize> {
    Set::new(|s: usize| exists|j: int| 0 <= j < k && #[trigger] stored[ids[j]] == s)
}

proof fn lemma_first_unknown_skip(stored: Map<Seq<char>, usize>, ids: Seq<Seq<char>>, i: int)
    requires
        0 <= i <= ids.len(),
        forall|j: int| 0 <= j < i ==> stored.contains_key(#[trigger] ids[j]),
    ensures
        first_unknown(stored, ids, 0) == first_unknown(stored, ids, i),
    decreases i,
{
    if i > 0 {
        lemma_first_unknown_skip(stored, ids, i - 1);
    }
}

/// Kind of one vector component as the Metal storage reports it.
#[derive(Clone, Copy, PartialEq, Eq, Debug, Structural)]
pub enum ComponentClass {
    /// A finite value.
    Finite,
    /// Not a number.
    NaN,
    /// Positive infinity.
    PosInfinity,
    /// Negative infinity.
    NegInfinity,
}

/// Display text of a non-finite component.
pub open spec fn non_finite_text(c: ComponentClass) -> Seq<char> {
    match c {
        ComponentClass::NaN => "NaN"@,
        ComponentClass::PosInfinity => "inf"@,
        _ => "-inf"@,
    }
}

/// Index of the first non-finite component; the length when all are finite.
pub open spec fn first_non_finite(classes: Seq<ComponentClass>) -> int
    decreases classes.len(),
{
    if classes.len() == 0 {
        0
    } else if classes[0] != ComponentClass::Finite {
        0
    } else {
        1 + first_non_finite(classes.drop_first())
    }
}

proof fn lemma_first_non_finite_found(classes: Seq<ComponentClass>, i: int)
    requires
        0 <= i <= classes.len(),
        i < classes.len() ==> classes[i] != ComponentClass::Finite,
        forall|j: int| 0 <= j < i ==> classes[j] == ComponentClass::Finite,
    ensures
        first_non_finite(classes) == i,
    decreases i,
{
    if i > 0 {
        assert forall|j: int| 0 <= j < i - 1 implies classes.drop_first()[j] == ComponentClass::Finite by {
            assert(classes.drop_first()[j] == classes[j + 1]);
        }
        lemma_first_non_finite_found(classes.drop_first(), i - 1);
    }
}

/// Message of the Metal storage for an ID already stored.
pub open spec fn metal_duplicate_message(id: Seq<char>) -> Seq<char> {
    "Vector with ID '"@ + id + "' already exists"@
}

/// Message of the Metal storage for a non-finite component.
pub open spec fn metal_non_finite_message(i: nat, c: ComponentClass) -> Seq<char> {
    "Vector contains non-finite value at index "@ + decimal(i) + ": "@ + non_finite_text(c)
}

/// The Metal storage's checks of one vector, in its order: duplicate ID,
/// length, finiteness of the components, ID length. An empty ID passes.
pub open spec fn metal_vector_check_ok(
    r: Result<(), HiveGpuError>,
    dimension: usize,
    stored: Map<Seq<char>, usize>,
    id: Seq<char>,
    classes: Seq<ComponentClass>,
) -> bool {
    let k = first_non_finite(classes);
    if stored.contains_key(id) {
        r is Err && is_other_error(r->Err_0, metal_duplicate_message(id))
    } else if classes.len() != dimension {
        r is Err && is_dimension_mismatch(r->Err_0, dimension, classes.len() as usize)
    } else if k < classes.len() {
        r is Err && is_other_error(r->Err_0, metal_non_finite_message(k as nat, classes[k]))
    } else if id_bytes(id) > MAX_ID_BYTES {
        r is Err && is_other_error(r->Err_0, "Vector ID too long (max 256 chars)"@)
    } else {
        r is Ok
    }
}

/// Largest vector buffer the Metal storage grows to, in bytes.
pub const METAL_BUFFER_LIMIT: usize = 1024 * 1024 * 1024;

/// Index of the first non-finite component (its length when none).
fn find_non_finite(classes: &[ComponentClass]) -> (i: usize)
    ensures
        i == first_non_finite(classes@),
{
    let mut i: usize = 0;
    while i < classes.len()
        invariant
            i <= classes.len(),
            forall|j: int| 0 <= j < i ==> classes@[j] == ComponentClass::Finite,
        decreases classes.len() - i,
    {
        if classes[i] != ComponentClass::Finite {
            proof {
                lemma_first_non_finite_found(classes@, i as int);
            }
            return i;
        }
        i = i + 1;
    }
    proof {
        lemma_first_non_finite_found(classes@, i as int);
    }
    i
}

/// Host-side catalog of a device vector storage.
pub struct VectorCatalog {
    dimension: usize,
    vector_count: usize,
    buffer_capacity: usize,
    vector_id_map: StringHashMap<usize>,
    index_to_id: Vec<String>,
    removed_indices: HashSet<usize>,
}

impl VectorCatalog {
    /// The slot table is consistent: `index_to_id` lists the stored IDs by
    /// slot, the ID map sends each stored ID to its slot and knows no other
    /// ID, removed slots are stored slots, and the buffer holds every
    /// stored slot.
    pub closed spec fn wf(self) -> bool {
        &&& self.dimension > 0
        &&& self.index_to_id@.len() == self.vector_count
        &&& self.vector_count <= self.buffer_capacity
        &&& forall|i: int| 0 <= i < self.vector_count ==> #[trigger] self.vector_id_map@.contains_key(self.index_to_id@[i]@)
            && self.vector_id_map@[self.index_to_id@[i]@] == i
        &&& forall|k: Seq<char>| #[trigger] self.vector_id_map@.contains_key(k) ==> self.vector_id_map@[k] < self.vector_count
            && self.index_to_id@[self.vector_id_map@[k] as int]@ == k
        &&& forall|i: usize| #[trigger] self.removed_indices@.contains(i) ==> i < self.vector_count
    }

    pub closed spec fn spec_dimension(self) -> usize {
        self.dimension
    }

    pub closed spec fn spec_vector_count(self) -> usize {
        self.vector_count
    }

    pub closed spec fn spec_capacity(self) -> usize {
        self.buffer_capacity
    }

    /// Stored IDs by slot.
    pub closed spec fn spec_ids(self) -> Seq<Seq<char>> {
        self.index_to_id@.map_values(|s: String| s@)
    }

    /// Soft-deleted slots.
    pub closed spec fn spec_removed(self) -> Set<usize> {
        self.removed_indices@
    }

    /// Stored IDs and their slots.
    pub closed spec fn spec_id_map(self) -> Map<Seq<char>, usize> {
        self.vector_id_map@
    }

    /// The slot of a stored ID.
    pub closed spec fn spec_slot_of(self, id: Seq<char>) -> Option<usize> {
        if self.vector_id_map@.contains_key(id) {
            Some(self.vector_id_map@[id])
        } else {
            None
        }
    }

    /// The slot of a stored ID that is not soft-deleted.
    pub closed spec fn spec_lookup(self, id: Seq<char>) -> Option<usize> {
        if self.vector_id_map@.contains_key(id) && !self.removed_indices@.contains(self.vector_id_map@[id]) {
            Some(self.vector_id_map@[id])
        } else {
            None
        }
    }

    /// Creates an empty catalog for vectors of `dimension` components,
    /// with `initial_capacity(dimension)` slots. Fails for a zero
    /// dimension, and when the slots' component count overflows.
    pub fn new(dimension: usize) -> (r: Result<Self, HiveGpuError>)
        requires
            dimension * 4 <= usize::MAX,
            initial_capacity(dimension as nat) * dimension <= usize::MAX ==> initial_capacity(dimension as nat)
                * dimension * 4 <= usize::MAX,
        ensures
            dimension == 0 ==> r is Err && is_invalid_configuration(r->Err_0, "dimension must be > 0"@),
            dimension > 0 && initial_capacity(dimension as nat) * dimension > usize::MAX ==> r is Err
                && is_invalid_configuration(r->Err_0, "capacity overflow"@),
            dimension > 0 && initial_capacity(dimension as nat) * dimension <= usize::MAX ==> (r matches Ok(c) && {
                &&& c.wf()
                &&& c.spec_dimension() == dimension
                &&& c.spec_vector_count() == 0
                &&& c.spec_capacity() == initial_capacity(dimension as nat)
                &&& c.spec_removed().is_empty()
            }),
    {
        if dimension == 0 {
            return Err(HiveGpuError::InvalidConfiguration(String::from_str("dimension must be > 0")));
        }
        let by_bytes = MIN_INITIAL_BYTES / (dimension * 4);
        let by_bytes = if by_bytes >= 1 { by_bytes } else { 1 };
        let capacity = if by_bytes >= MIN_INITIAL_VECTORS { by_bytes } else { MIN_INITIAL_VECTORS };
        match capacity.checked_mul(dimension) {
            None => {
                return Err(HiveGpuError::InvalidConfiguration(String::from_str("capacity overflow")));
            },
            Some(_) => {},
        }
        Ok(VectorCatalog {
            dimension,
            vector_count: 0,
            buffer_capacity: capacity,
            vector_id_map: StringHashMap::new(),
            index_to_id: Vec::new(),
            removed_indices: HashSet::new(),
        })
    }

    /// Checks one vector, given whether each of its components is finite
    /// and its ID, against the storage (see `vector_check`).
    pub fn validate_vector(&self, finite: &[bool], id: &str) -> (r: Result<(), HiveGpuError>)
        requires
            self.wf(),
        ensures
            check_result(
                r,
                vector_check(self.spec_dimension() as nat, self.spec_id_map(), id@, finite@),
                self.spec_dimension(),
                finite.len(),
                id@,
            ),
    {
        if finite.len() != self.dimension {
            return Err(HiveGpuError::DimensionMismatch { expected: self.dimension, actual: finite.len() });
        }
        if id.is_empty() {
            return Err(HiveGpuError::InvalidConfiguration(String::from_str("vector id must be non-empty")));
        }
        if id.len() > MAX_ID_BYTES {
            return Err(HiveGpuError::InvalidConfiguration(String::from_str("vector id must be <= 256 chars")));
        }
        if self.vector_id_map.contains_key(id) {
            let mut m = String::from_str("duplicate vector id: ");
            m.append(id);
            return Err(HiveGpuError::InvalidConfiguration(m));
        }
        let i = find_first_false(finite);
        if i < finite.len() {
            let mut m = String::from_str("non-finite component at index ");
            push_decimal(&mut m, i as u128);
            m.append(" in vector ");
            m.append(id);
            return Err(HiveGpuError::InvalidConfiguration(m));
        }
        Ok(())
    }

    /// Checks a batch in order: each vector's own checks, then that its ID
    /// does not repeat an earlier ID of the batch; reports the first
    /// failure. An empty batch passes.
    pub fn validate_batch(&self, ids: &[String], finite: &[Vec<bool>]) -> (r: Result<(), HiveGpuError>)
        requires
            self.wf(),
            ids.len() == finite.len(),
        ensures
            ({
                let sids = ids@.map_values(|s: String| s@);
                let sfin = finite@.map_values(|v: Vec<bool>| v@);
                let k = first_batch_failure(self.spec_dimension() as nat, self.spec_id_map(), sids, sfin, 0);
                &&& k == ids.len() ==> r is Ok
                &&& k < ids.len() && !(vector_check(self.spec_dimension() as nat, self.spec_id_map(), sids[k], sfin[k]) is Accepted)
                    ==> check_result(
                    r,
                    vector_check(self.spec_dimension() as nat, self.spec_id_map(), sids[k], sfin[k]),
                    self.spec_dimension(),
                    sfin[k].len() as usize,
                    sids[k],
                )
                &&& k < ids.len() && (vector_check(self.spec_dimension() as nat, self.spec_id_map(), sids[k], sfin[k]) is Accepted)
                    ==> r is Err && is_invalid_configuration(r->Err_0, duplicate_in_batch_message(sids[k]))
            }),
    {
        let ghost sids = ids@.map_values(|s: String| s@);
        let ghost sfin = finite@.map_values(|v: Vec<bool>| v@);
        let ghost dim = self.dimension as nat;
        let ghost stored = self.vector_id_map@;
        let n = ids.len();
        let mut seen: StringHashMap<usize> = StringHashMap::new();
        let mut i: usize = 0;
        while i < n
            invariant
                self.wf(),
                n == ids.len(),
                n == finite.len(),
                sids == ids@.map_values(|s: String| s@),
                sfin == finite@.map_values(|v: Vec<bool>| v@),
                dim == self.dimension,
                stored == self.vector_id_map@,
                i <= n,
                forall|j: int| 0 <= j < i ==> #[trigger] batch_entry_ok(dim, stored, sids, sfin, j),
                forall|k: Seq<char>| seen@.contains_key(k) <==> exists|j: int| 0 <= j < i && sids[j] == k,
            decreases n - i,
        {
            let checked = self.validate_vector(finite[i].as_slice(), ids[i].as_str());
            match checked {
                Err(e) => {
                    proof {
                        lemma_first_batch_failure_skip(dim, stored, sids, sfin, i as int);
                    }
                    return Err(e);
                },
                Ok(()) => {},
            }
            if seen.contains_key(ids[i].as_str()) {
                proof {
                    let j = choose|j: int| 0 <= j < i && sids[j] == sids[i as int];
                    assert(repeats_earlier(sids, i as int));
                    lemma_first_batch_failure_skip(dim, stored, sids, sfin, i as int);
                }
                let mut m = String::from_str("duplicate vector id within batch: ");
                m.append(ids[i].as_str());
                return Err(HiveGpuError::InvalidConfiguration(m));
            }
            proof {
                assert(!repeats_earlier(sids, i as int)) by {
                    if repeats_earlier(sids, i as int) {
                        let j = choose|j: int| 0 <= j < i && sids[j] == sids[i as int];
                        assert(seen@.contains_key(sids[i as int]));
                    }
                }
            }
            assert(batch_entry_ok(dim, stored, sids, sfin, i as int));
            seen.insert(ids[i].clone(), i);
            i = i + 1;
        }
        proof {
            lemma_first_batch_failure_skip(dim, stored, sids, sfin, n as int);
        }
        Ok(())
    }

    /// Records a validated batch: each ID takes the next slot, in order.
    /// Returns the slots taken.
    pub fn record_batch(&mut self, ids: &[String]) -> (slots: Vec<usize>)
        requires
            old(self).wf(),
            old(self).spec_vector_count() + ids.len() <= old(self).spec_capacity(),
            forall|j: int| 0 <= j < ids.len() ==> !old(self).spec_id_map().contains_key(#[trigger] ids@[j]@),
            forall|i: int, j: int| 0 <= i < j < ids.len() ==> ids@[i]@ != ids@[j]@,
        ensures
            final(self).wf(),
            final(self).spec_dimension() == old(self).spec_dimension(),
            final(self).spec_capacity() == old(self).spec_capacity(),
            final(self).spec_removed() == old(self).spec_removed(),
            final(self).spec_vector_count() == old(self).spec_vector_count() + ids.len(),
            final(self).spec_ids() == old(self).spec_ids() + ids@.map_values(|s: String| s@),
            slots@.len() == ids.len(),
            forall|j: int| 0 <= j < ids.len() ==> #[trigger] slots@[j] == old(self).spec_vector_count() + j,
            forall|j: int| 0 <= j < ids.len() ==> final(self).spec_slot_of(#[trigger] ids@[j]@) == Some(
                (old(self).spec_vector_count() + j) as usize,
            ),
            forall|k: Seq<char>| old(self).spec_id_map().contains_key(k) ==> #[trigger] final(self).spec_slot_of(k)
                == old(self).spec_slot_of(k),
            forall|j: int| 0 <= j < ids.len() ==> final(self).spec_lookup(#[trigger] ids@[j]@) == Some(
                (old(self).spec_vector_count() + j) as usize,
            ),
            forall|k: Seq<char>| #[trigger] final(self).spec_lookup(k) != old(self).spec_lookup(k) ==> exists|j: int|
                0 <= j < ids.len() && ids@[j]@ == k,
    {
        let ghost old_ids = self.index_to_id@;
        let ghost old_map = self.vector_id_map@;
        let ghost old_count = self.vector_count;
        let n = ids.len();
        let mut slots: Vec<usize> = Vec::with_capacity(n);
        let mut j: usize = 0;
        while j < n
            invariant
                self.wf(),
                n == ids.len(),
                j <= n,
                self.dimension == old(self).dimension,
                self.buffer_capacity == old(self).buffer_capacity,
                self.removed_indices@ == old(self).removed_indices@,
                old_count == old(self).vector_count,
                old_count + n <= self.buffer_capacity,
                self.vector_count == old_count + j,
                self.index_to_id@.len() == old_ids.len() + j,
                forall|x: int| 0 <= x < old_ids.len() ==> #[trigger] self.index_to_id@[x] == old_ids[x],
                forall|x: int| 0 <= x < j ==> #[trigger] self.index_to_id@[old_ids.len() + x]@ == ids@[x]@,
                old_ids == old(self).index_to_id@,
                old_map == old(self).vector_id_map@,
                forall|x: int| 0 <= x < n ==> !old_map.contains_key(#[trigger] ids@[x]@),
                forall|x: int| 0 <= x < old_ids.len() ==> #[trigger] old_map.contains_key(old_ids[x]@)
                    && old_map[old_ids[x]@] == x,
                forall|a: int, b: int| 0 <= a < b < n ==> ids@[a]@ != ids@[b]@,
                forall|x: int| 0 <= x < j ==> #[trigger] self.vector_id_map@.contains_key(ids@[x]@)
                    && self.vector_id_map@[ids@[x]@] == old_count + x,
                forall|k: Seq<char>| #[trigger] old_map.contains_key(k) ==> self.vector_id_map@.contains_key(k)
                    && self.vector_id_map@[k] == old_map[k],
                forall|k: Seq<char>| #[trigger] self.vector_id_map@.contains_key(k) ==> old_map.contains_key(k)
                    || exists|x: int| 0 <= x < j && ids@[x]@ == k,
                slots@.len() == j,
                forall|x: int| 0 <= x < j ==> #[trigger] slots@[x] == old_count + x,
            decreases n - j,
        {
            let index = self.vector_count;
            let ghost pre_map = self.vector_id_map@;
            self.vector_id_map.insert(ids[j].clone(), index);
            self.index_to_id.push(ids[j].clone());
            self.vector_count = self.vector_count + 1;
            slots.push(index);
            proof {
                assert(self.index_to_id@[index as int]@ == ids@[j as int]@);
                assert forall|k: Seq<char>| #[trigger] self.vector_id_map@.contains_key(k) implies self.vector_id_map@[k]
                    < self.vector_count && self.index_to_id@[self.vector_id_map@[k] as int]@ == k by {
                    if k != ids@[j as int]@ {
                        assert(pre_map.contains_key(k));
                    }
                }
                assert forall|x: int| 0 <= x < self.vector_count implies #[trigger] self.vector_id_map@.contains_key(
                    self.index_to_id@[x]@,
                ) && self.vector_id_map@[self.index_to_id@[x]@] == x by {
                    if x < index {
                        if x >= old_ids.len() {
                            let y = x - old_ids.len();
                            assert(self.index_to_id@[old_ids.len() + y]@ == ids@[y]@);
                            assert(ids@[y]@ != ids@[j as int]@);
                        } else {
                            assert(old_map.contains_key(old_ids[x]@));
                            assert(!old_map.contains_key(ids@[j as int]@));
                        }
                    }
                }
                assert forall|k: Seq<char>| #[trigger] self.vector_id_map@.contains_key(k) implies old_map.contains_key(k)
                    || exists|x: int| 0 <= x < j + 1 && ids@[x]@ == k by {
                    if k != ids@[j as int]@ {
                        assert(pre_map.contains_key(k));
                    }
                }
            }
            j = j + 1;
        }
        proof {
            let lhs = self.index_to_id@.map_values(|s: String| s@);
            let rhs = old_ids.map_values(|s: String| s@) + ids@.map_values(|s: String| s@);
            assert forall|x: int| 0 <= x < lhs.len() implies lhs[x] == rhs[x] by {
                if x >= old_ids.len() {
                    assert(self.index_to_id@[old_ids.len() + (x - old_ids.len())]@ == ids@[x - old_ids.len()]@);
                }
            }
            assert(lhs =~= rhs);
            assert forall|x: int| 0 <= x < n implies self.spec_lookup(#[trigger] ids@[x]@) == Some(
                (old_count + x) as usize,
            ) by {
                assert(self.vector_id_map@.contains_key(ids@[x]@));
                assert(self.vector_id_map@[ids@[x]@] == old_count + x);
                assert(old(self).wf());
                assert(!self.removed_indices@.contains((old_count + x) as usize));
            }
        }
        slots
    }


    /// Slot count after making room for `additional` more vectors: the
    /// current one when it suffices, else one growth step from it (see
    /// `grow_step`), raised to the required count. Fails when the required
    /// count, or the grown slots' component count, overflows.
    pub fn plan_capacity(&self, additional: usize) -> (r: Result<usize, HiveGpuError>)
        requires
            self.wf(),
        ensures
            ({
                let count = self.spec_vector_count() as nat;
                let cap = self.spec_capacity() as nat;
                let required = count + additional as nat;
                let grown = grown_capacity(cap, required);
                &&& required > usize::MAX ==> r is Err && is_invalid_configuration(r->Err_0, "capacity overflow"@)
                &&& required <= cap ==> r == Ok::<usize, HiveGpuError>(self.spec_capacity())
                &&& cap < required <= usize::MAX && grown * self.spec_dimension() > usize::MAX ==> r is Err
                    && is_invalid_configuration(r->Err_0, "slots overflow"@)
                &&& cap < required <= usize::MAX && grown * self.spec_dimension() <= usize::MAX ==> r
                    == Ok::<usize, HiveGpuError>(grown as usize)
            }),
    {
        let required = match self.vector_count.checked_add(additional) {
            None => {
                return Err(HiveGpuError::InvalidConfiguration(String::from_str("capacity overflow")));
            },
            Some(x) => x,
        };
        if required <= self.buffer_capacity {
            return Ok(self.buffer_capacity);
        }
        let g = grow_step_exec(self.buffer_capacity);
        let new_capacity = if g >= required { g } else { required };
        match new_capacity.checked_mul(self.dimension) {
            None => Err(HiveGpuError::InvalidConfiguration(String::from_str("slots overflow"))),
            Some(_) => Ok(new_capacity),
        }
    }

    /// Sets the slot count, once the device buffer has that many slots.
    pub fn set_capacity(&mut self, capacity: usize)
        requires
            old(self).wf(),
            old(self).spec_vector_count() <= capacity,
        ensures
            final(self).wf(),
            final(self).spec_capacity() == capacity,
            final(self).spec_dimension() == old(self).spec_dimension(),
            final(self).spec_vector_count() == old(self).spec_vector_count(),
            final(self).spec_ids() == old(self).spec_ids(),
            final(self).spec_id_map() == old(self).spec_id_map(),
            final(self).spec_removed() == old(self).spec_removed(),
    {
        self.buffer_capacity = capacity;
    }

    /// Soft-deletes the vectors of `ids`, in order, and stops at the first
    /// ID that is not stored, which it reports as not found; the IDs before
    /// it stay deleted.
    pub fn remove_vectors(&mut self, ids: &[String]) -> (r: Result<(), HiveGpuError>)
        requires
            old(self).wf(),
        ensures
            ({
                let sids = ids@.map_values(|s: String| s@);
                let k = first_unknown(old(self).spec_id_map(), sids, 0);
                &&& final(self).wf()
                &&& k == ids.len() ==> r is Ok
                &&& k < ids.len() ==> (r matches Err(HiveGpuError::VectorNotFound(m)) && m@ == sids[k])
                &&& final(self).spec_removed() == old(self).spec_removed() + slots_of(old(self).spec_id_map(), sids, k)
                &&& k == ids.len() ==> forall|j: int| 0 <= j < ids.len() ==> #[trigger] final(self).spec_lookup(sids[j]) is None
                &&& final(self).spec_dimension() == old(self).spec_dimension()
                &&& final(self).spec_vector_count() == old(self).spec_vector_count()
                &&& final(self).spec_capacity() == old(self).spec_capacity()
                &&& final(self).spec_ids() == old(self).spec_ids()
                &&& final(self).spec_id_map() == old(self).spec_id_map()
            }),
    {
        let ghost sids = ids@.map_values(|s: String| s@);
        let ghost stored = self.vector_id_map@;
        let ghost old_removed = self.removed_indices@;
        let mut i: usize = 0;
        while i < ids.len()
            invariant
                self.wf(),
                i <= ids.len(),
                sids == ids@.map_values(|s: String| s@),
                stored == self.vector_id_map@,
                stored == old(self).vector_id_map@,
                old_removed == old(self).removed_indices@,
                self.dimension == old(self).dimension,
                self.vector_count == old(self).vector_count,
                self.buffer_capacity == old(self).buffer_capacity,
                self.index_to_id@ == old(self).index_to_id@,
                forall|j: int| 0 <= j < i ==> stored.contains_key(#[trigger] sids[j]),
                self.removed_indices@ == old_removed + slots_of(stored, sids, i as int),
            decreases ids.len() - i,
        {
            match self.vector_id_map.get(ids[i].as_str()) {
                Some(index) => {
                    let index = *index;
                    self.removed_indices.insert(index);
                    proof {
                        assert(sids[i as int] == ids@[i as int]@);
                        assert(self.removed_indices@ =~= old_removed + slots_of(stored, sids, i + 1)) by {
                            assert forall|s: usize| slots_of(stored, sids, i + 1).contains(s) implies
                                #[trigger] (old_removed + slots_of(stored, sids, i as int)).insert(index).contains(s) by {
                                let j = choose|j: int| 0 <= j < i + 1 && #[trigger] stored[sids[j]] == s;
                                if j < i {
                                    assert(slots_of(stored, sids, i as int).contains(s));
                                }
                            }
                            assert(slots_of(stored, sids, i + 1).contains(index)) by {
                                assert(stored[sids[i as int]] == index);
                            }
                            assert forall|s: usize| slots_of(stored, sids, i as int).contains(s) implies
                                #[trigger] slots_of(stored, sids, i + 1).contains(s) by {
                                let j = choose|j: int| 0 <= j < i && #[trigger] stored[sids[j]] == s;
                                assert(0 <= j < i + 1 && stored[sids[j]] == s);
                            }
                        }
                    }
                },
                None => {
                    proof {
                        assert(sids[i as int] == ids@[i as int]@);
                        lemma_first_unknown_skip(stored, sids, i as int);
                    }
                    return Err(HiveGpuError::VectorNotFound(ids[i].clone()));
                },
            }
            i = i + 1;
        }
        proof {
            lemma_first_unknown_skip(stored, sids, i as int);
            assert forall|j: int| 0 <= j < ids.len() implies #[trigger] self.spec_lookup(sids[j]) is None by {
                assert(slots_of(stored, sids, i as int).contains(stored[sids[j]]));
            }
        }
        Ok(())
    }

    /// Slot of a stored ID, unless it is soft-deleted.
    pub fn lookup(&self, id: &str) -> (r: Option<usize>)
        requires
            self.wf(),
        ensures
            r == self.spec_lookup(id@),
    {
        match self.vector_id_map.get(id) {
            Some(index) => {
                if self.removed_indices.contains(index) {
                    None
                } else {
                    Some(*index)
                }
            },
            None => None,
        }
    }

    /// ID stored at `slot`.
    pub fn id_at(&self, slot: usize) -> (id: &str)
        requires
            self.wf(),
            slot < self.spec_vector_count(),
        ensures
            id@ == self.spec_ids()[slot as int],
    {
        self.index_to_id[slot].as_str()
    }

    /// Whether `slot` is soft-deleted.
    pub fn is_removed(&self, slot: usize) -> (b: bool)
        ensures
            b == self.spec_removed().contains(slot),
    {
        self.removed_indices.contains(&slot)
    }

    /// Checks the input of a search, given for every query component
    /// whether it is finite. `Ok(false)` means the result is empty (`limit`
    /// is 0 or no slot is taken); `Ok(true)` that the search proceeds.
    pub fn validate_query(&self, query_finite: &[bool], limit: usize) -> (r: Result<bool, HiveGpuError>)
        ensures
            limit == 0 || self.spec_vector_count() == 0 ==> r == Ok::<bool, HiveGpuError>(false),
            limit > 0 && self.spec_vector_count() > 0 && query_finite.len() != self.spec_dimension() ==> r is Err
                && is_dimension_mismatch(r->Err_0, self.spec_dimension(), query_finite.len()),
            limit > 0 && self.spec_vector_count() > 0 && query_finite.len() == self.spec_dimension() ==> {
                let i = first_non_finite_component(query_finite@, 0);
                &&& i < query_finite.len() ==> r is Err
                    && is_invalid_configuration(r->Err_0, non_finite_query_message(i as nat))
                &&& i == query_finite.len() ==> r == Ok::<bool, HiveGpuError>(true)
            },
    {
        if limit == 0 || self.vector_count == 0 {
            return Ok(false);
        }
        if query_finite.len() != self.dimension {
            return Err(HiveGpuError::DimensionMismatch { expected: self.dimension, actual: query_finite.len() });
        }
        let n = query_finite.len();
        let mut i: usize = 0;
        while i < n
            invariant
                n == query_finite.len(),
                n == self.dimension,
                limit > 0,
                self.vector_count > 0,
                i <= n,
                forall|j: int| 0 <= j < i ==> query_finite[j],
            decreases n - i,
        {
            if !query_finite[i] {
                proof {
                    lemma_first_non_finite_skip(query_finite@, i as int);
                }
                let mut m = String::from_str("non-finite query component at index ");
                push_decimal(&mut m, i as u128);
                return Err(HiveGpuError::InvalidConfiguration(m));
            }
            i = i + 1;
        }
        proof {
            lemma_first_non_finite_skip(query_finite@, n as int);
        }
        Ok(true)
    }

    /// Slots taken, soft-deleted ones included.
    pub fn slot_count(&self) -> (n: usize)
        ensures
            n == self.spec_vector_count(),
    {
        self.vector_count
    }

    /// Vectors stored and not soft-deleted.
    pub fn live_count(&self) -> (n: usize)
        ensures
            n == (if self.spec_removed().len() <= self.spec_vector_count() {
                self.spec_vector_count() - self.spec_removed().len()
            } else {
                0
            }),
    {
        self.vector_count.saturating_sub(self.removed_indices.len())
    }

    /// Number of soft-deleted slots.
    pub fn removed_count(&self) -> (n: usize)
        ensures
            n == self.spec_removed().len(),
    {
        self.removed_indices.len()
    }

    /// Components per vector.
    pub fn dimension(&self) -> (d: usize)
        ensures
            d == self.spec_dimension(),
    {
        self.dimension
    }

    /// Slots of the device buffer.
    pub fn capacity(&self) -> (c: usize)
        ensures
            c == self.spec_capacity(),
    {
        self.buffer_capacity
    }

    /// Forgets every vector; the slot count stays, raised to at least
    /// the minimum a storage starts with.
    pub fn clear(&mut self)
        requires
            old(self).wf(),
        ensures
            final(self).wf(),
            final(self).spec_vector_count() == 0,
            final(self).spec_capacity() == (if old(self).spec_capacity() >= MIN_INITIAL_VECTORS {
                old(self).spec_capacity()
            } else {
                MIN_INITIAL_VECTORS
            }),
            final(self).spec_dimension() == old(self).spec_dimension(),
            final(self).spec_ids() == Seq::<Seq<char>>::empty(),
            final(self).spec_id_map() == Map::<Seq<char>, usize>::empty(),
            final(self).spec_removed() == Set::<usize>::empty(),
    {
        self.clear_keep_capacity();
        if self.buffer_capacity < MIN_INITIAL_VECTORS {
            self.buffer_capacity = MIN_INITIAL_VECTORS;
        }
    }

    /// Forgets every vector; the slot count stays as it is.
    pub fn clear_keep_capacity(&mut self)
        requires
            old(self).wf(),
        ensures
            final(self).wf(),
            final(self).spec_vector_count() == 0,
            final(self).spec_capacity() == old(self).spec_capacity(),
            final(self).spec_dimension() == old(self).spec_dimension(),
            final(self).spec_ids() == Seq::<Seq<char>>::empty(),
            final(self).spec_id_map() == Map::<Seq<char>, usize>::empty(),
            final(self).spec_removed() == Set::<usize>::empty(),
    {
        self.vector_count = 0;
        self.vector_id_map.clear();
        self.index_to_id.clear();
        self.removed_indices.clear();
        proof {
            assert(self.index_to_id@.map_values(|s: String| s@) =~= Seq::<Seq<char>>::empty());
        }
    }


    /// Creates an empty catalog as the Metal storage does: the same slot
    /// count as `new`, and an error (of kind `Other`) when the buffer's
    /// byte size overflows.
    pub fn new_metal(dimension: usize) -> (r: Result<Self, HiveGpuError>)
        requires
            dimension > 0,
            dimension * 4 <= usize::MAX,
        ensures
            initial_capacity(dimension as nat) * dimension * 4 > usize::MAX ==> r is Err && is_other_error(
                r->Err_0,
                "Initial buffer size calculation overflow"@,
            ),
            initial_capacity(dimension as nat) * dimension * 4 <= usize::MAX ==> (r matches Ok(c) && {
                &&& c.wf()
                &&& c.spec_dimension() == dimension
                &&& c.spec_vector_count() == 0
                &&& c.spec_capacity() == initial_capacity(dimension as nat)
                &&& c.spec_removed().is_empty()
            }),
    {
        let by_bytes = MIN_INITIAL_BYTES / (dimension * 4);
        let capacity = if by_bytes >= MIN_INITIAL_VECTORS { by_bytes } else { MIN_INITIAL_VECTORS };
        let size = match capacity.checked_mul(dimension) {
            Some(x) => x.checked_mul(4),
            None => None,
        };
        proof {
            assert(capacity * dimension <= capacity * dimension * 4) by (nonlinear_arith)
                requires capacity >= 0, dimension >= 0;
        }
        match size {
            None => {
                return Err(HiveGpuError::Other(String::from_str("Initial buffer size calculation overflow")));
            },
            Some(_) => {},
        }
        Ok(VectorCatalog {
            dimension,
            vector_count: 0,
            buffer_capacity: capacity,
            vector_id_map: StringHashMap::new(),
            index_to_id: Vec::new(),
            removed_indices: HashSet::new(),
        })
    }

    /// The Metal storage's checks of one vector, given the kind of each of
    /// its components and its ID (see `metal_vector_check_ok`).
    pub fn validate_metal_vector(&self, classes: &[ComponentClass], id: &str) -> (r: Result<(), HiveGpuError>)
        requires
            self.wf(),
        ensures
            metal_vector_check_ok(r, self.spec_dimension(), self.spec_id_map(), id@, classes@),
    {
        if self.vector_id_map.contains_key(id) {
            let mut m = String::from_str("Vector with ID '");
            m.append(id);
            m.append("' already exists");
            return Err(HiveGpuError::Other(m));
        }
        if classes.len() != self.dimension {
            return Err(HiveGpuError::DimensionMismatch { expected: self.dimension, actual: classes.len() });
        }
        let i = find_non_finite(classes);
        if i < classes.len() {
            let mut m = String::from_str("Vector contains non-finite value at index ");
            push_decimal(&mut m, i as u128);
            m.append(": ");
            match classes[i] {
                ComponentClass::NaN => m.append("NaN"),
                ComponentClass::PosInfinity => m.append("inf"),
                _ => m.append("-inf"),
            }
            return Err(HiveGpuError::Other(m));
        }
        if id.len() > MAX_ID_BYTES {
            return Err(HiveGpuError::Other(String::from_str("Vector ID too long (max 256 chars)")));
        }
        Ok(())
    }

    /// Whether a vector can be added only after the buffer grows.
    pub fn is_full(&self) -> (b: bool)
        ensures
            b == (self.spec_vector_count() >= self.spec_capacity()),
    {
        self.vector_count >= self.buffer_capacity
    }

    /// The Metal storage's growth: one step from the current slot count
    /// (see `grow_step`), raised to fit one more vector; refused when the
    /// buffer would exceed 1 GiB, or its byte size overflows.
    pub fn plan_metal_expansion(&self) -> (r: Result<usize, HiveGpuError>)
        requires
            self.wf(),
            self.spec_vector_count() < usize::MAX,
        ensures
            ({
                let g = grow_step(self.spec_capacity() as nat);
                let c = if g >= self.spec_vector_count() + 1 { g } else { (self.spec_vector_count() + 1) as nat };
                let size = c * self.spec_dimension() * 4;
                &&& size > usize::MAX ==> r is Err && is_other_error(r->Err_0, "New buffer size calculation overflow"@)
                &&& size <= usize::MAX && size > METAL_BUFFER_LIMIT ==> r == Err::<usize, HiveGpuError>(
                    HiveGpuError::VramLimitExceeded { requested: size as usize, limit: METAL_BUFFER_LIMIT },
                )
                &&& size <= METAL_BUFFER_LIMIT ==> r == Ok::<usize, HiveGpuError>(c as usize)
            }),
    {
        let g = grow_step_exec(self.buffer_capacity);
        let c = if g >= self.vector_count + 1 { g } else { self.vector_count + 1 };
        let size = match c.checked_mul(self.dimension) {
            Some(x) => x.checked_mul(4),
            None => None,
        };
        proof {
            assert(c * self.dimension <= c * self.dimension * 4) by (nonlinear_arith)
                requires c >= 0, self.dimension >= 0;
        }
        match size {
            None => Err(HiveGpuError::Other(String::from_str("New buffer size calculation overflow"))),
            Some(size) => {
                if size > METAL_BUFFER_LIMIT {
                    Err(HiveGpuError::VramLimitExceeded { requested: size, limit: METAL_BUFFER_LIMIT })
                } else {
                    Ok(c)
                }
            },
        }
    }

    /// Byte offset of the next slot in the device buffer, and the byte
    /// size of one vector; refused (as the Metal storage does) when either
    /// overflows.
    pub fn metal_slot_offset(&self) -> (r: Result<(usize, usize), HiveGpuError>)
        ensures
            ({
                let offset = self.spec_vector_count() * self.spec_dimension() * 4;
                let staging = self.spec_dimension() * 4;
                &&& offset > usize::MAX ==> r is Err && is_other_error(r->Err_0, "Offset calculation overflow"@)
                &&& offset <= usize::MAX && staging > usize::MAX ==> r is Err && is_other_error(
                    r->Err_0,
                    "Staging size calculation overflow"@,
                )
                &&& offset <= usize::MAX && staging <= usize::MAX ==> r == Ok::<(usize, usize), HiveGpuError>(
                    (offset as usize, staging as usize),
                )
            }),
    {
        let offset = match self.vector_count.checked_mul(self.dimension) {
            Some(x) => x.checked_mul(4),
            None => None,
        };
        proof {
            assert(self.vector_count * self.dimension <= self.vector_count * self.dimension * 4) by (nonlinear_arith)
                requires self.vector_count >= 0, self.dimension >= 0;
        }
        let offset = match offset {
            None => {
                return Err(HiveGpuError::Other(String::from_str("Offset calculation overflow")));
            },
            Some(x) => x,
        };
        match self.dimension.checked_mul(4) {
            None => Err(HiveGpuError::Other(String::from_str("Staging size calculation overflow"))),
            Some(staging) => Ok((offset, staging)),
        }
    }

    /// Statistics of the storage.
    pub fn stats(&self) -> (st: StorageStats)
        requires
            self.spec_capacity() * self.spec_dimension() * 4 <= usize::MAX,
        ensures
            st.vector_count == self.spec_vector_count(),
            st.buffer_capacity == self.spec_capacity(),
            st.dimension == self.spec_dimension(),
            st.removed_count == self.spec_removed().len(),
            st.buffer_size_mb == self.spec_capacity() * self.spec_dimension() * 4 / 1024 / 1024,
    {
        let bytes = self.storage_bytes();
        StorageStats {
            vector_count: self.vector_count,
            buffer_capacity: self.buffer_capacity,
            dimension: self.dimension,
            removed_count: self.removed_indices.len(),
            buffer_size_mb: bytes / 1024 / 1024,
        }
    }

    /// Bytes of the device buffer backing the current slots.
    pub fn storage_bytes(&self) -> (b: usize)
        requires
            self.spec_capacity() * self.spec_dimension() * 4 <= usize::MAX,
        ensures
            b == self.spec_capacity() * self.spec_dimension() * 4,
    {
        assert(self.buffer_capacity * self.dimension <= self.buffer_capacity * self.dimension * 4) by (nonlinear_arith);
        self.buffer_capacity * self.dimension * 4
    }
}

} // verus!
