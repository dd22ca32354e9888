//! Benchmark statistics: a function is run a number of times and the
//! durations of the runs are summarised (shortest, longest, median,
//! average, total), in nanoseconds.

use vstd::prelude::*;
use crate::utils::clock::{duration_nanos, elapsed_since, instant_now, MAX_DURATION_NANOS};

verus! {

broadcast use {vstd::seq_lib::group_to_multiset_ensures, vstd::multiset::group_multiset_axioms};

/// `s` is in ascending order.
pub open spec fn ascending(s: Seq<u128>) -> bool {
    forall|i: int, j: int| 0 <= i < j < s.len() ==> s[i] <= s[j]
}

/// Sum of the values of `s`.
pub open spec fn seq_sum(s: Seq<u128>) -> nat
    decreases s.len(),
{
    if s.len() == 0 { 0 } else { seq_sum(s.drop_last()) + s.last() as nat }
}

/// Summary of the runs of a benchmark, durations in nanoseconds.
#[derive(Debug, Clone, Copy)]
pub struct BenchmarkSummary {
    pub iterations: usize,
    pub min_nanos: u128,
    pub max_nanos: u128,
    /// Total divided by the number of runs taken as a 32-bit number,
    /// rounded down (as a std duration divides).
    pub avg_nanos: u128,
    /// The run at position `iterations / 2` in ascending order.
    pub median_nanos: u128,
    pub total_nanos: u128,
}

/// `r` summarises the runs `runs` (see `summarises`).
pub open spec fn is_summary(r: BenchmarkSummary, runs: Seq<u128>) -> bool {
    exists|sorted: Seq<u128>| summarises(r, runs, sorted)
}

/// `r` summarises the runs `runs`: `sorted` is the runs in ascending
/// order, and the figures are read from it and from the total.
pub open spec fn summarises(r: BenchmarkSummary, runs: Seq<u128>, sorted: Seq<u128>) -> bool {
    let n = runs.len();
    &&& ascending(sorted)
    &&& sorted.to_multiset() == runs.to_multiset()
    &&& r.iterations == n
    &&& r.min_nanos == sorted[0]
    &&& r.max_nanos == sorted[n - 1]
    &&& r.median_nanos == sorted[(n / 2) as int]
    &&& r.total_nanos == seq_sum(runs)
    &&& r.avg_nanos == seq_sum(runs) / (n % 0x1_0000_0000)
}

proof fn lemma_swap_keeps_multiset(s: Seq<u128>, i: int, j: int)
    requires
        0 <= i < s.len(),
        0 <= j < s.len(),
    ensures
        s.update(i, s[j]).update(j, s[i]).to_multiset() == s.to_multiset(),
{
    let t = s.update(i, s[j]);
    let u = t.update(j, s[i]);
    vstd::seq_lib::to_multiset_update(s, i, s[j]);
    vstd::seq_lib::to_multiset_update(t, j, s[i]);
    assert(u.to_multiset() =~= s.to_multiset());
}

/// Sorts `v` in ascending order (insertion sort by adjacent swaps).
pub fn sort_ascending(v: &mut Vec<u128>)
    ensures
        ascending(final(v)@),
        final(v)@.to_multiset() == old(v)@.to_multiset(),
        final(v)@.len() == old(v)@.len(),
{
    let n = v.len();
    let mut i: usize = 1;
    while i < n
        invariant
            n == v.len(),
            1 <= i || n == 0,
            i <= n || n == 0,
            forall|a: int, b: int| 0 <= a < b < i && b < n ==> v@[a] <= v@[b],
            v@.to_multiset() == old(v)@.to_multiset(),
            v@.len() == old(v)@.len(),
        decreases n - i,
    {
        let mut j: usize = i;
        while j > 0 && v[j - 1] > v[j]
            invariant
                n == v.len(),
                0 <= j <= i < n,
                forall|a: int, b: int| 0 <= a < b <= i && a != j && b != j ==> v@[a] <= v@[b],
                forall|b: int| j < b <= i ==> v@[j as int] <= v@[b],
                v@.to_multiset() == old(v)@.to_multiset(),
                v@.len() == old(v)@.len(),
            decreases j,
        {
            let ghost before = v@;
            let x = v[j - 1];
            let y = v[j];
            v.set(j - 1, y);
            v.set(j, x);
            proof {
                assert(v@ == before.update(j - 1, before[j as int]).update(j as int, before[j - 1]));
                lemma_swap_keeps_multiset(before, j - 1, j as int);
            }
            j = j - 1;
        }
        i = i + 1;
    }
}

/// Sum of `runs`, when it is a duration std can hold.
fn checked_total(runs: &Vec<u128>) -> (r: Option<u128>)
    ensures
        r is Some <==> seq_sum(runs@) <= MAX_DURATION_NANOS,
        r matches Some(t) ==> t == seq_sum(runs@),
{
    let mut total: u128 = 0;
    let mut i: usize = 0;
    while i < runs.len()
        invariant
            i <= runs.len(),
            total == seq_sum(runs@.take(i as int)),
            total <= MAX_DURATION_NANOS,
        decreases runs.len() - i,
    {
        proof {
            assert(runs@.take(i + 1).drop_last() =~= runs@.take(i as int));
        }
        if runs[i] > MAX_DURATION_NANOS - total {
            proof {
                lemma_prefix_sum_le(runs@, i + 1);
            }
            return None;
        }
        total = total + runs[i];
        i = i + 1;
    }
    proof {
        assert(runs@.take(i as int) =~= runs@);
    }
    Some(total)
}

/// The sum of a prefix is at most the sum of the whole.
proof fn lemma_prefix_sum_le(s: Seq<u128>, k: int)
    requires
        0 <= k <= s.len(),
    ensures
        seq_sum(s.take(k)) <= seq_sum(s),
    decreases s.len() - k,
{
    if k < s.len() {
        lemma_prefix_sum_le(s, k + 1);
        assert(s.take(k + 1).drop_last() =~= s.take(k));
    } else {
        assert(s.take(k) =~= s);
    }
}

/// Summarises the durations of `runs` (see `summarises`); `None` when
/// their total exceeds what a std duration holds.
pub fn summarize_runs(runs: Vec<u128>) -> (r: Option<BenchmarkSummary>)
    requires
        runs.len() > 0,
        runs.len() as nat % 0x1_0000_0000 != 0,
    ensures
        r is Some <==> seq_sum(runs@) <= MAX_DURATION_NANOS,
        r matches Some(s) ==> is_summary(s, runs@),
{
    let n = runs.len();
    let total = match checked_total(&runs) {
        Some(t) => t,
        None => {
            return None;
        },
    };
    let ghost original = runs@;
    let mut sorted = runs;
    sort_ascending(&mut sorted);
    let divisor = (n as u64 % 0x1_0000_0000) as u128;
    let s = BenchmarkSummary {
        iterations: n,
        min_nanos: sorted[0],
        max_nanos: sorted[n - 1],
        avg_nanos: total / divisor,
        median_nanos: sorted[n / 2],
        total_nanos: total,
    };
    assert(summarises(s, original, sorted@));
    assert(is_summary(s, original));
    Some(s)
}

/// `r` is what a benchmark of `iterations` runs gives when the measured
/// runs took `runs` nanoseconds each: a summary of them when their total
/// fits in a std duration, `None` otherwise.
pub open spec fn benchmark_outcome(r: Option<BenchmarkSummary>, runs: Seq<u128>, iterations: nat) -> bool {
    &&& runs.len() == iterations
    &&& forall|i: int| 0 <= i < runs.len() ==> runs[i] <= MAX_DURATION_NANOS
    &&& (r is Some <==> seq_sum(runs) <= MAX_DURATION_NANOS)
    &&& (r matches Some(s) ==> is_summary(s, runs))
}

/// Runs `f` `warmup_iterations` times unmeasured, then `iterations` times
/// measured, and summarises the measured runs; `None` when their total
/// exceeds what a std duration holds.
pub fn benchmark_function<F: Fn() -> R, R>(f: F, iterations: usize, warmup_iterations: usize) -> (r: Option<
    BenchmarkSummary,
>)
    requires
        iterations > 0,
        iterations as nat % 0x1_0000_0000 != 0,
        f.requires(()),
    ensures
        exists|runs: Seq<u128>| benchmark_outcome(r, runs, iterations as nat),
        iterations == 1 ==> r is Some,
        r matches Some(s) ==> s.iterations == iterations && s.min_nanos <= s.median_nanos <= s.max_nanos,
{
    let mut w: usize = 0;
    while w < warmup_iterations
        invariant
            f.requires(()),
        decreases warmup_iterations - w,
    {
        let _ = f();
        w = w + 1;
    }
    let mut runs: Vec<u128> = Vec::with_capacity(iterations);
    let mut k: usize = 0;
    while k < iterations
        invariant
            f.requires(()),
            k <= iterations,
            runs.len() == k,
            forall|i: int| 0 <= i < runs.len() ==> runs@[i] <= MAX_DURATION_NANOS,
        decreases iterations - k,
    {
        let start = instant_now();
        let _ = f();
        let d = elapsed_since(&start);
        runs.push(duration_nanos(&d));
        k = k + 1;
    }
    let ghost measured = runs@;
    let r = summarize_runs(runs);
    proof {
        assert(benchmark_outcome(r, measured, iterations as nat));
        if iterations == 1 {
            assert(measured.drop_last().len() == 0);
            assert(seq_sum(measured) == seq_sum(measured.drop_last()) + measured.last() as nat);
            assert(seq_sum(measured.drop_last()) == 0);
        }
        if r is Some {
            let s = r->0;
            let sorted = choose|sorted: Seq<u128>| summarises(s, measured, sorted);
            assert(is_summary(s, measured));
            assert(sorted.len() == iterations) by {
                assert(sorted.to_multiset().len() == measured.to_multiset().len());
            }
        }
    }
    r
}

} // verus!
