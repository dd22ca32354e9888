//! VRAM monitoring and validation: bookkeeping of the buffers allocated
//! against a fixed VRAM budget.

use vstd::prelude::*;
use crate::error::{HiveGpuError, is_other_error};
use crate::traits::{BufferType, VramBufferInfo};
use crate::utils::rounding::{round_to_f32, round_to_f32_exec};
use crate::utils::text::{decimal, push_decimal};
use crate::utils::clock::unix_time_secs;
use crate::utils::fixed_point::{mib_text, percent_text, push_mib, push_percent};

verus! {

/// Sum of the sizes of `s`.
pub open spec fn sum_sizes(s: Seq<VramBufferInfo>) -> nat
    decreases s.len(),
{
    if s.len() == 0 {
        0
    } else {
        s[0].size as nat + sum_sizes(s.drop_first())
    }
}

/// Buffer IDs are strictly increasing and all below `next_id`.
pub open spec fn ids_increasing(s: Seq<VramBufferInfo>, next_id: nat) -> bool {
    &&& forall|i: int, j: int| 0 <= i < j < s.len() ==> s[i].buffer_id < s[j].buffer_id
    &&& forall|i: int| 0 <= i < s.len() ==> s[i].buffer_id < next_id
}

/// Index of the buffer with ID `id` in `s`, or `s.len()` when there is none.
pub open spec fn find_buffer(s: Seq<VramBufferInfo>, id: usize) -> int
    decreases s.len(),
{
    if s.len() == 0 {
        0
    } else if s[0].buffer_id == id {
        0
    } else {
        1 + find_buffer(s.drop_first(), id)
    }
}

/// Message of the error for freeing an unknown buffer.
pub open spec fn buffer_not_found_message(id: nat) -> Seq<char> {
    "Buffer "@ + decimal(id) + " not found"@
}

/// `allocated / total`, computed in single precision, exceeds 0.95
/// (single-precision 0.95 is 15938355 / 2^24; a quotient rounds above it
/// exactly when it is at least 31876711 / 2^25).
pub open spec fn utilization_exceeds_95(allocated: nat, total: nat) -> bool {
    if total == 0 {
        allocated > 0
    } else {
        round_to_f32(allocated) * 33554432 >= 31876711 * round_to_f32(total)
    }
}

/// `total * 0.95` computed in single precision and truncated to an
/// integer, saturating at `usize::MAX`.
pub open spec fn vram_limit_95(total: nat) -> nat {
    let v = round_to_f32(round_to_f32(total) * 15938355) / 16777216;
    if v > usize::MAX { usize::MAX as nat } else { v }
}

pub proof fn lemma_sum_sizes_concat(a: Seq<VramBufferInfo>, b: Seq<VramBufferInfo>)
    ensures
        sum_sizes(a + b) == sum_sizes(a) + sum_sizes(b),
    decreases a.len(),
{
    if a.len() > 0 {
        assert((a + b).drop_first() =~= a.drop_first() + b);
        lemma_sum_sizes_concat(a.drop_first(), b);
    } else {
        assert(a + b =~= b);
    }
}

pub proof fn lemma_sum_sizes_single(x: VramBufferInfo)
    ensures
        sum_sizes(seq![x]) == x.size,
{
    assert(seq![x].drop_first() =~= Seq::<VramBufferInfo>::empty());
    assert(sum_sizes(seq![x]) == x.size as nat + sum_sizes(seq![x].drop_first()));
}

pub proof fn lemma_sum_sizes_push(s: Seq<VramBufferInfo>, x: VramBufferInfo)
    ensures
        sum_sizes(s.push(x)) == sum_sizes(s) + x.size,
{
    lemma_sum_sizes_concat(s, seq![x]);
    assert(s + seq![x] =~= s.push(x));
    lemma_sum_sizes_single(x);
}

pub proof fn lemma_sum_sizes_remove(s: Seq<VramBufferInfo>, k: int)
    requires
        0 <= k < s.len(),
    ensures
        sum_sizes(s.remove(k)) + s[k].size == sum_sizes(s),
{
    let a = s.subrange(0, k);
    let b = s.subrange(k + 1, s.len() as int);
    assert(s.remove(k) =~= a + b);
    assert(s =~= a + (seq![s[k]] + b));
    lemma_sum_sizes_concat(a, b);
    lemma_sum_sizes_concat(a, seq![s[k]] + b);
    lemma_sum_sizes_concat(seq![s[k]], b);
    lemma_sum_sizes_single(s[k]);
}

pub proof fn lemma_find_buffer_bounds(s: Seq<VramBufferInfo>, id: usize)
    ensures
        0 <= find_buffer(s, id) <= s.len(),
        find_buffer(s, id) < s.len() ==> s[find_buffer(s, id)].buffer_id == id,
        find_buffer(s, id) == s.len() ==> forall|i: int| 0 <= i < s.len() ==> s[i].buffer_id != id,
    decreases s.len(),
{
    if s.len() > 0 {
        lemma_find_buffer_bounds(s.drop_first(), id);
        assert forall|i: int| 1 <= i < s.len() implies s[i] == s.drop_first()[i - 1] by {}
    }
}

pub proof fn lemma_find_buffer_push(s: Seq<VramBufferInfo>, x: VramBufferInfo, id: usize)
    requires
        forall|i: int| 0 <= i < s.len() ==> s[i].buffer_id != id,
        x.buffer_id == id,
    ensures
        find_buffer(s.push(x), id) == s.len(),
    decreases s.len(),
{
    if s.len() > 0 {
        assert(s.push(x).drop_first() =~= s.drop_first().push(x));
        assert forall|i: int| 0 <= i < s.drop_first().len() implies s.drop_first()[i].buffer_id != id by {
            assert(s.drop_first()[i] == s[i + 1]);
        }
        lemma_find_buffer_push(s.drop_first(), x, id);
    }
}

/// Name of a buffer type, as its `Debug` form prints it.
pub open spec fn buffer_type_name(t: BufferType) -> Seq<char> {
    match t {
        BufferType::Vector => "Vector"@,
        BufferType::Metadata => "Metadata"@,
        BufferType::Temporary => "Temporary"@,
        BufferType::HnswGraph => "HnswGraph"@,
    }
}

/// Number of buffers of type `t` in `s`.
pub open spec fn count_of_type(s: Seq<VramBufferInfo>, t: BufferType) -> nat
    decreases s.len(),
{
    if s.len() == 0 {
        0
    } else {
        count_of_type(s.drop_last(), t) + (if s.last().buffer_type == t { 1nat } else { 0nat })
    }
}

/// Total size of the buffers of type `t` in `s`.
pub open spec fn size_of_type(s: Seq<VramBufferInfo>, t: BufferType) -> nat
    decreases s.len(),
{
    if s.len() == 0 {
        0
    } else {
        size_of_type(s.drop_last(), t) + (if s.last().buffer_type == t { s.last().size as nat } else { 0nat })
    }
}

/// The report's line for buffer type `t`; empty when no buffer has it.
pub open spec fn breakdown_line(s: Seq<VramBufferInfo>, t: BufferType) -> Seq<char> {
    if count_of_type(s, t) == 0 {
        Seq::empty()
    } else {
        "  "@ + buffer_type_name(t) + ": "@ + decimal(count_of_type(s, t)) + " buffers, "@ + mib_text(
            size_of_type(s, t),
        ) + " MB\n"@
    }
}

/// The VRAM report of a monitor with capacity `total`, `allocated` bytes
/// in use and the live buffers `s`: capacity, allocated and available
/// amounts in MiB, utilisation in percent, buffer count, and one line per
/// buffer type present, in the order the types are declared.
pub open spec fn vram_report(total: nat, allocated: nat, s: Seq<VramBufferInfo>) -> Seq<char> {
    "VRAM Report:\n"@ + "  Total VRAM: "@ + mib_text(total) + " MB\n"@ + "  Allocated: "@ + mib_text(allocated)
        + " MB\n"@ + "  Available: "@ + mib_text((total - allocated) as nat) + " MB\n"@ + "  Utilization: "@
        + percent_text(allocated, total) + "%\n"@ + "  Buffer Count: "@ + decimal(s.len()) + "\n"@
        + "\nBuffer Breakdown:\n"@ + breakdown_line(s, BufferType::Vector) + breakdown_line(s, BufferType::Metadata)
        + breakdown_line(s, BufferType::Temporary) + breakdown_line(s, BufferType::HnswGraph)
}

/// The size of the last buffer added to a list, counted from the end.
proof fn lemma_sum_sizes_last(s: Seq<VramBufferInfo>)
    requires
        s.len() > 0,
    ensures
        sum_sizes(s) == sum_sizes(s.drop_last()) + s.last().size,
{
    lemma_sum_sizes_push(s.drop_last(), s.last());
    assert(s.drop_last().push(s.last()) =~= s);
}

/// The report's breakdown accounts for every buffer: the per-type counts
/// add up to the number of live buffers, and the per-type sizes to their
/// total size.
pub proof fn lemma_breakdown_accounts_for_all(s: Seq<VramBufferInfo>)
    ensures
        count_of_type(s, BufferType::Vector) + count_of_type(s, BufferType::Metadata) + count_of_type(
            s,
            BufferType::Temporary,
        ) + count_of_type(s, BufferType::HnswGraph) == s.len(),
        size_of_type(s, BufferType::Vector) + size_of_type(s, BufferType::Metadata) + size_of_type(
            s,
            BufferType::Temporary,
        ) + size_of_type(s, BufferType::HnswGraph) == sum_sizes(s),
    decreases s.len(),
{
    if s.len() > 0 {
        lemma_breakdown_accounts_for_all(s.drop_last());
        lemma_sum_sizes_last(s);
    }
}

/// Number and total size of the buffers of type `t`.
fn type_totals(buffers: &Vec<VramBufferInfo>, t: BufferType) -> (r: (usize, usize))
    requires
        sum_sizes(buffers@) <= usize::MAX,
    ensures
        r.0 == count_of_type(buffers@, t),
        r.1 == size_of_type(buffers@, t),
{
    let mut count: usize = 0;
    let mut size: usize = 0;
    let mut i: usize = 0;
    while i < buffers.len()
        invariant
            i <= buffers.len(),
            sum_sizes(buffers@) <= usize::MAX,
            count <= i,
            count == count_of_type(buffers@.subrange(0, i as int), t),
            size == size_of_type(buffers@.subrange(0, i as int), t),
            size <= sum_sizes(buffers@.subrange(0, i as int)),
        decreases buffers.len() - i,
    {
        let ghost pre = buffers@.subrange(0, i as int);
        let ghost next = buffers@.subrange(0, i + 1);
        proof {
            assert(next.drop_last() =~= pre);
            assert(next =~= pre.push(buffers@[i as int]));
            lemma_sum_sizes_push(pre, buffers@[i as int]);
            lemma_sum_sizes_concat(next, buffers@.subrange(i + 1, buffers@.len() as int));
            assert(next + buffers@.subrange(i + 1, buffers@.len() as int) =~= buffers@);
        }
        if buffers[i].buffer_type == t {
            count = count + 1;
            size = size + buffers[i].size;
        }
        i = i + 1;
    }
    proof {
        assert(buffers@.subrange(0, i as int) =~= buffers@);
    }
    (count, size)
}

/// Appends the name of buffer type `t`.
fn push_type_name(s: &mut String, t: BufferType)
    ensures
        final(s)@ == old(s)@ + buffer_type_name(t),
{
    match t {
        BufferType::Vector => s.append("Vector"),
        BufferType::Metadata => s.append("Metadata"),
        BufferType::Temporary => s.append("Temporary"),
        BufferType::HnswGraph => s.append("HnswGraph"),
    }
}

/// Appends `breakdown_line(buffers, t)`.
fn push_breakdown_line(s: &mut String, buffers: &Vec<VramBufferInfo>, t: BufferType)
    requires
        sum_sizes(buffers@) <= usize::MAX,
    ensures
        final(s)@ == old(s)@ + breakdown_line(buffers@, t),
{
    let (count, size) = type_totals(buffers, t);
    if count == 0 {
        proof {
            assert(old(s)@ + breakdown_line(buffers@, t) =~= old(s)@);
        }
        return;
    }
    s.append("  ");
    push_type_name(s, t);
    s.append(": ");
    push_decimal(s, count as u128);
    s.append(" buffers, ");
    push_mib(s, size as u128);
    s.append(" MB\n");
    proof {
        assert(final(s)@ =~= old(s)@ + breakdown_line(buffers@, t));
    }
}

/// VRAM monitor for tracking GPU memory usage.
pub struct VramMonitor {
    total_vram: usize,
    allocated_vram: usize,
    /// Live buffers, in allocation order.
    buffers: Vec<VramBufferInfo>,
    next_buffer_id: usize,
}

impl VramMonitor {
    /// The allocated total is the sum of the live buffers' sizes and stays
    /// within the capacity; buffer IDs are increasing and below the next ID.
    pub open spec fn wf(self) -> bool {
        &&& self.spec_allocated() == sum_sizes(self.spec_buffers())
        &&& self.spec_allocated() <= self.spec_total()
        &&& ids_increasing(self.spec_buffers(), self.spec_next_id() as nat)
    }

    /// VRAM capacity in bytes.
    pub closed spec fn spec_total(self) -> usize {
        self.total_vram
    }

    /// Allocated VRAM in bytes.
    pub closed spec fn spec_allocated(self) -> usize {
        self.allocated_vram
    }

    /// The live buffers, in allocation order.
    pub closed spec fn spec_buffers(self) -> Seq<VramBufferInfo> {
        self.buffers@
    }

    /// ID the next allocation receives.
    pub closed spec fn spec_next_id(self) -> usize {
        self.next_buffer_id
    }

    /// A monitor for `total_vram` bytes with nothing allocated.
    pub fn new(total_vram: usize) -> (m: Self)
        ensures
            m.wf(),
            m.spec_total() == total_vram,
            m.spec_allocated() == 0,
            m.spec_buffers().len() == 0,
            m.spec_next_id() == 0,
    {
        VramMonitor { total_vram, allocated_vram: 0, buffers: Vec::new(), next_buffer_id: 0 }
    }

    /// VRAM capacity in bytes.
    pub fn total_vram(&self) -> (r: usize)
        ensures
            r == self.spec_total(),
    {
        self.total_vram
    }

    /// Allocated VRAM in bytes: the sum of the sizes of the live buffers,
    /// never above the capacity.
    pub fn allocated_vram(&self) -> (r: usize)
        requires
            self.wf(),
        ensures
            r == self.spec_allocated(),
            r == sum_sizes(self.spec_buffers()),
            r <= self.spec_total(),
    {
        self.allocated_vram
    }

    /// Number of live buffers.
    pub fn buffer_count(&self) -> (r: usize)
        ensures
            r == self.spec_buffers().len(),
    {
        self.buffers.len()
    }

    /// Records a buffer of `size` bytes. Fails with `VramLimitExceeded`,
    /// changing nothing, when the allocation would exceed the capacity;
    /// otherwise returns the new buffer's ID.
    pub fn allocate_buffer(&mut self, size: usize, buffer_type: BufferType) -> (r: Result<usize, HiveGpuError>)
        requires
            old(self).wf(),
            old(self).spec_allocated() + size <= usize::MAX,
            old(self).spec_next_id() < usize::MAX,
        ensures
            final(self).wf(),
            final(self).spec_total() == old(self).spec_total(),
            old(self).spec_allocated() + size > old(self).spec_total() ==> {
                &&& r == Err::<usize, HiveGpuError>(HiveGpuError::VramLimitExceeded {
                    requested: (old(self).spec_allocated() + size) as usize,
                    limit: old(self).spec_total(),
                })
                &&& final(self).spec_allocated() == old(self).spec_allocated()
                &&& final(self).spec_buffers() == old(self).spec_buffers()
                &&& final(self).spec_next_id() == old(self).spec_next_id()
            },
            old(self).spec_allocated() + size <= old(self).spec_total() ==> {
                &&& r == Ok::<usize, HiveGpuError>(old(self).spec_next_id())
                &&& final(self).spec_allocated() == old(self).spec_allocated() + size
                &&& final(self).spec_next_id() == old(self).spec_next_id() + 1
                &&& final(self).spec_buffers().len() == old(self).spec_buffers().len() + 1
                &&& final(self).spec_buffers().drop_last() == old(self).spec_buffers()
                &&& final(self).spec_buffers().last().buffer_id == old(self).spec_next_id()
                &&& final(self).spec_buffers().last().size == size
                &&& final(self).spec_buffers().last().buffer_type == buffer_type
            },
    {
        if self.allocated_vram + size > self.total_vram {
            return Err(HiveGpuError::VramLimitExceeded {
                requested: self.allocated_vram + size,
                limit: self.total_vram,
            });
        }
        let buffer_id = self.next_buffer_id;
        let info = VramBufferInfo {
            buffer_id,
            size,
            buffer_type,
            allocated_at: unix_time_secs(),
        };
        let ghost old_buffers = self.buffers@;
        self.buffers.push(info);
        self.allocated_vram = self.allocated_vram + size;
        self.next_buffer_id = buffer_id + 1;
        proof {
            lemma_sum_sizes_push(old_buffers, info);
            assert(self.buffers@.drop_last() =~= old_buffers);
        }
        Ok(buffer_id)
    }

    /// Forgets the buffer `buffer_id` and releases its size. Fails with
    /// `Other("Buffer <id> not found")`, changing nothing, when no live
    /// buffer has that ID.
    pub fn deallocate_buffer(&mut self, buffer_id: usize) -> (r: Result<(), HiveGpuError>)
        requires
            old(self).wf(),
        ensures
            final(self).wf(),
            final(self).spec_total() == old(self).spec_total(),
            final(self).spec_next_id() == old(self).spec_next_id(),
            ({
                let k = find_buffer(old(self).spec_buffers(), buffer_id);
                &&& k == old(self).spec_buffers().len() ==> {
                    &&& r is Err
                    &&& is_other_error(r->Err_0, buffer_not_found_message(buffer_id as nat))
                    &&& final(self).spec_allocated() == old(self).spec_allocated()
                    &&& final(self).spec_buffers() == old(self).spec_buffers()
                }
                &&& k < old(self).spec_buffers().len() ==> {
                    &&& r is Ok
                    &&& final(self).spec_buffers() == old(self).spec_buffers().remove(k)
                    &&& final(self).spec_allocated() == old(self).spec_allocated() - old(self).spec_buffers()[k].size
                }
            }),
    {
        proof {
            lemma_find_buffer_bounds(self.buffers@, buffer_id);
        }
        let n = self.buffers.len();
        let mut i: usize = 0;
        while i < n
            invariant
                n == self.buffers.len(),
                i <= n,
                forall|j: int| 0 <= j < i ==> self.buffers[j].buffer_id != buffer_id,
            ensures
                i <= n,
                forall|j: int| 0 <= j < i ==> self.buffers[j].buffer_id != buffer_id,
                i < n ==> self.buffers[i as int].buffer_id == buffer_id,
            decreases n - i,
        {
            if self.buffers[i].buffer_id == buffer_id {
                break;
            }
            i = i + 1;
        }
        if i == n {
            let mut m = String::from_str("Buffer ");
            push_decimal(&mut m, buffer_id as u128);
            m.append(" not found");
            return Err(HiveGpuError::Other(m));
        }
        proof {
            // Buffer IDs are unique, so the first match is the one `find_buffer` names.
            let k = find_buffer(self.buffers@, buffer_id);
            if k != i {
                assert(self.buffers@[k].buffer_id == buffer_id);
                assert(self.buffers@[i as int].buffer_id == buffer_id);
            }
            lemma_sum_sizes_remove(self.buffers@, i as int);
        }
        let ghost old_buffers = self.buffers@;
        let removed = self.buffers.remove(i);
        self.allocated_vram = self.allocated_vram - removed.size;
        proof {
            assert forall|x: int, y: int| 0 <= x < y < self.buffers@.len() implies self.buffers@[x].buffer_id
                < self.buffers@[y].buffer_id by {
                if x >= i {
                    assert(self.buffers@[x] == old_buffers[x + 1]);
                }
                if y >= i {
                    assert(self.buffers@[y] == old_buffers[y + 1]);
                }
            }
            assert forall|x: int| 0 <= x < self.buffers@.len() implies self.buffers@[x].buffer_id
                < self.next_buffer_id by {
                if x >= i {
                    assert(self.buffers@[x] == old_buffers[x + 1]);
                }
            }
        }
        Ok(())
    }

    /// The VRAM report (see `vram_report`).
    pub fn generate_vram_report(&self) -> (r: String)
        requires
            self.wf(),
        ensures
            r@ == vram_report(self.spec_total() as nat, self.spec_allocated() as nat, self.spec_buffers()),
    {
        let total = self.total_vram as u128;
        let allocated = self.allocated_vram as u128;
        let mut r = String::new();
        r.append("VRAM Report:\n");
        r.append("  Total VRAM: ");
        push_mib(&mut r, total);
        r.append(" MB\n");
        r.append("  Allocated: ");
        push_mib(&mut r, allocated);
        r.append(" MB\n");
        r.append("  Available: ");
        push_mib(&mut r, total - allocated);
        r.append(" MB\n");
        r.append("  Utilization: ");
        push_percent(&mut r, allocated, total);
        r.append("%\n");
        r.append("  Buffer Count: ");
        push_decimal(&mut r, self.buffers.len() as u128);
        r.append("\n");
        r.append("\nBuffer Breakdown:\n");
        push_breakdown_line(&mut r, &self.buffers, BufferType::Vector);
        push_breakdown_line(&mut r, &self.buffers, BufferType::Metadata);
        push_breakdown_line(&mut r, &self.buffers, BufferType::Temporary);
        push_breakdown_line(&mut r, &self.buffers, BufferType::HnswGraph);
        proof {
            assert(r@ =~= vram_report(self.total_vram as nat, self.allocated_vram as nat, self.buffers@));
        }
        r
    }

    /// Checks that the utilisation `allocated / total` (single precision)
    /// does not exceed 0.95; otherwise reports the allocated amount against
    /// the limit `total * 0.95`.
    pub fn validate_all_vram(&self) -> (r: Result<(), HiveGpuError>)
        requires
            self.wf(),
        ensures
            utilization_exceeds_95(self.spec_allocated() as nat, self.spec_total() as nat) <==> r is Err,
            r is Err ==> r == Err::<(), HiveGpuError>(HiveGpuError::VramLimitExceeded {
                requested: self.spec_allocated(),
                limit: vram_limit_95(self.spec_total() as nat) as usize,
            }),
    {
        let a = round_to_f32_exec(self.allocated_vram as u128);
        let t = round_to_f32_exec(self.total_vram as u128);
        let exceeds = if self.total_vram == 0 {
            self.allocated_vram > 0
        } else {
            a * 33554432 >= 31876711 * t
        };
        if exceeds {
            let scaled = round_to_f32_exec(t * 15938355);
            let v = scaled / 16777216;
            let limit: usize = if v > usize::MAX as u128 { usize::MAX } else { v as usize };
            return Err(HiveGpuError::VramLimitExceeded { requested: self.allocated_vram, limit });
        }
        Ok(())
    }
}

/// The IDs of the buffers in `s`.
pub open spec fn live_ids(s: Seq<VramBufferInfo>) -> Set<usize> {
    s.map_values(|b: VramBufferInfo| b.buffer_id).to_set()
}

/// In a consistent monitor the buffer count is the number of distinct
/// live buffer IDs, and the available amount `total - allocated` never
/// underflows.
pub proof fn lemma_buffer_count_is_live_ids(m: VramMonitor)
    requires
        m.wf(),
    ensures
        live_ids(m.spec_buffers()).len() == m.spec_buffers().len(),
        m.spec_allocated() <= m.spec_total(),
{
    let s = m.spec_buffers();
    let ids = s.map_values(|b: VramBufferInfo| b.buffer_id);
    assert(ids.no_duplicates()) by {
        assert forall|i: int, j: int| 0 <= i < ids.len() && 0 <= j < ids.len() && i != j implies ids[i] != ids[j] by {
            if i < j {
                assert(s[i].buffer_id < s[j].buffer_id);
            } else {
                assert(s[j].buffer_id < s[i].buffer_id);
            }
        }
    }
    ids.unique_seq_to_set();
}

/// Freeing the buffer that an allocation just added to a consistent
/// monitor `m` (the allocation appends `info`, whose ID is the monitor's
/// next ID) finds exactly that buffer, and removing it gives back the
/// buffer list and allocated total of `m`; a second free of that ID then
/// finds no buffer.
pub proof fn lemma_free_after_allocate_restores(m: VramMonitor, info: VramBufferInfo)
    requires
        m.wf(),
        info.buffer_id == m.spec_next_id(),
    ensures
        find_buffer(m.spec_buffers().push(info), info.buffer_id) == m.spec_buffers().len(),
        m.spec_buffers().push(info).remove(m.spec_buffers().len() as int) == m.spec_buffers(),
        sum_sizes(m.spec_buffers().push(info)) - info.size == m.spec_allocated(),
        find_buffer(m.spec_buffers(), info.buffer_id) == m.spec_buffers().len(),
{
    let before = m.spec_buffers();
    lemma_find_buffer_push(before, info, info.buffer_id);
    assert(before.push(info).remove(before.len() as int) =~= before);
    lemma_sum_sizes_push(before, info);
    lemma_find_buffer_bounds(before, info.buffer_id);
}

} // verus!
