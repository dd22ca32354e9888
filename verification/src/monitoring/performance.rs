//! Performance monitoring: running statistics of named operations.

use vstd::prelude::*;
use std::time::{Duration, Instant};
use crate::error::{HiveGpuError, is_other_error};
use crate::utils::clock::{duration_nanos, elapsed_since, instant_now, MAX_DURATION_NANOS};

verus! {

/// Running statistics of one operation, durations in nanoseconds.
#[derive(Debug, Clone)]
pub struct OperationTotals {
    pub operation: String,
    /// Times the operation was recorded.
    pub count: usize,
    pub total_nanos: u128,
    pub min_nanos: u128,
    pub max_nanos: u128,
}

/// `t` is consistent: recorded at least once, shortest no longer than
/// longest, longest no longer than all together, and the total a duration
/// std can hold.
pub open spec fn totals_wf(t: OperationTotals) -> bool {
    &&& t.count >= 1
    &&& t.min_nanos <= t.max_nanos <= t.total_nanos <= MAX_DURATION_NANOS
}

/// `after` is `before` with one more run of `d` nanoseconds.
pub open spec fn totals_after(before: OperationTotals, after: OperationTotals, d: nat) -> bool {
    &&& after.operation@ == before.operation@
    &&& after.count == before.count + 1
    &&& after.total_nanos == before.total_nanos + d
    &&& after.min_nanos == (if d < before.min_nanos { d } else { before.min_nanos as nat })
    &&& after.max_nanos == (if d > before.max_nanos { d } else { before.max_nanos as nat })
}

/// `t` holds a single run of `d` nanoseconds of `operation`.
pub open spec fn totals_first(operation: Seq<char>, t: OperationTotals, d: nat) -> bool {
    &&& t.operation@ == operation
    &&& t.count == 1
    &&& t.total_nanos == d
    &&& t.min_nanos == d
    &&& t.max_nanos == d
}

/// Position of `operation` in `s`; the length of `s` when absent.
pub open spec fn position_of(s: Seq<OperationTotals>, operation: Seq<char>) -> int
    decreases s.len(),
{
    if s.len() == 0 {
        0
    } else if s[0].operation@ == operation {
        0
    } else {
        1 + position_of(s.drop_first(), operation)
    }
}

proof fn lemma_position_of_props(s: Seq<OperationTotals>, operation: Seq<char>)
    ensures
        0 <= position_of(s, operation) <= s.len(),
        position_of(s, operation) < s.len() ==> s[position_of(s, operation)].operation@ == operation,
        forall|j: int| 0 <= j < position_of(s, operation) ==> #[trigger] s[j].operation@ != operation,
    decreases s.len(),
{
    if s.len() > 0 {
        lemma_position_of_props(s.drop_first(), operation);
        assert forall|j: int| 1 <= j < s.len() implies s[j] == s.drop_first()[j - 1] by {}
    }
}

proof fn lemma_position_of(s: Seq<OperationTotals>, operation: Seq<char>, i: int)
    requires
        0 <= i <= s.len(),
        i < s.len() ==> s[i].operation@ == operation,
        forall|j: int| 0 <= j < i ==> s[j].operation@ != operation,
    ensures
        position_of(s, operation) == i,
    decreases i,
{
    if i > 0 {
        assert forall|j: int| 0 <= j < i - 1 implies s.drop_first()[j].operation@ != operation by {
            assert(s.drop_first()[j] == s[j + 1]);
        }
        lemma_position_of(s.drop_first(), operation, i - 1);
    }
}

/// Sum of the counts of `s`.
pub open spec fn count_sum(s: Seq<OperationTotals>) -> nat
    decreases s.len(),
{
    if s.len() == 0 { 0 } else { count_sum(s.drop_last()) + s.last().count as nat }
}

/// Sum of the total durations of `s`.
pub open spec fn nanos_sum(s: Seq<OperationTotals>) -> nat
    decreases s.len(),
{
    if s.len() == 0 { 0 } else { nanos_sum(s.drop_last()) + s.last().total_nanos as nat }
}

impl OperationTotals {
    /// Average duration in nanoseconds: the total divided by the count
    /// taken as a 32-bit number, rounded down, as a std duration divides.
    pub fn avg_nanos(&self) -> (r: u128)
        requires
            self.count as nat % 0x1_0000_0000 != 0,
        ensures
            r == self.total_nanos as nat / (self.count as nat % 0x1_0000_0000),
    {
        let n = (self.count as u64 % 0x1_0000_0000) as u128;
        self.total_nanos / n
    }
}

/// Collects running statistics of named operations, in the order they
/// were first recorded.
pub struct PerformanceMonitor {
    stats: Vec<OperationTotals>,
    current_operation: Option<(String, Instant)>,
}

impl PerformanceMonitor {
    /// Operation names are distinct and every entry is consistent.
    pub closed spec fn wf(self) -> bool {
        &&& forall|i: int, j: int|
            0 <= i < j < self.stats@.len() ==> #[trigger] self.stats@[i].operation@ != #[trigger] self.stats@[j].operation@
        &&& forall|i: int| 0 <= i < self.stats@.len() ==> totals_wf(#[trigger] self.stats@[i])
    }

    /// Statistics per operation, in first-recorded order.
    pub closed spec fn spec_stats(self) -> Seq<OperationTotals> {
        self.stats@
    }

    /// Name of the operation in progress, if any.
    pub closed spec fn spec_current(self) -> Option<Seq<char>> {
        match self.current_operation {
            Some(c) => Some(c.0@),
            None => None,
        }
    }

    /// A monitor with no statistics and no operation in progress.
    pub fn new() -> (m: Self)
        ensures
            m.wf(),
            m.spec_stats().len() == 0,
            m.spec_current() is None,
    {
        PerformanceMonitor { stats: Vec::new(), current_operation: None }
    }

    /// Starts timing `operation`, replacing any operation in progress.
    pub fn start_operation(&mut self, operation: String)
        requires
            old(self).wf(),
        ensures
            final(self).wf(),
            final(self).spec_current() == Some(operation@),
            final(self).spec_stats() == old(self).spec_stats(),
    {
        let start = instant_now();
        self.current_operation = Some((operation, start));
    }

    /// Records one run of `operation` lasting `duration_nanos`: a new
    /// entry for a new name, otherwise the name's count, total, shortest
    /// and longest run are updated.
    pub fn record_operation(&mut self, operation: String, duration_nanos: u128)
        requires
            old(self).wf(),
            ({
                let k = position_of(old(self).spec_stats(), operation@);
                k < old(self).spec_stats().len() ==> {
                    &&& old(self).spec_stats()[k].count < usize::MAX
                    &&& old(self).spec_stats()[k].total_nanos + duration_nanos <= MAX_DURATION_NANOS
                }
            }),
            duration_nanos <= MAX_DURATION_NANOS,
        ensures
            final(self).wf(),
            final(self).spec_current() == old(self).spec_current(),
            ({
                let k = position_of(old(self).spec_stats(), operation@);
                &&& k < old(self).spec_stats().len() ==> {
                    &&& final(self).spec_stats().len() == old(self).spec_stats().len()
                    &&& totals_after(old(self).spec_stats()[k], final(self).spec_stats()[k], duration_nanos as nat)
                    &&& forall|j: int|
                        0 <= j < old(self).spec_stats().len() && j != k ==> #[trigger] final(self).spec_stats()[j]
                            == old(self).spec_stats()[j]
                }
                &&& k == old(self).spec_stats().len() ==> {
                    &&& final(self).spec_stats().len() == old(self).spec_stats().len() + 1
                    &&& final(self).spec_stats().drop_last() == old(self).spec_stats()
                    &&& totals_first(operation@, final(self).spec_stats().last(), duration_nanos as nat)
                }
            }),
    {
        let ghost before = self.stats@;
        proof {
            lemma_position_of_props(before, operation@);
        }
        let k = self.find(operation.as_str());
        if k < self.stats.len() {
            let t = &self.stats[k];
            let updated = OperationTotals {
                operation: t.operation.clone(),
                count: t.count + 1,
                total_nanos: t.total_nanos + duration_nanos,
                min_nanos: if duration_nanos < t.min_nanos { duration_nanos } else { t.min_nanos },
                max_nanos: if duration_nanos > t.max_nanos { duration_nanos } else { t.max_nanos },
            };
            self.stats.set(k, updated);
            proof {
                assert forall|i: int, j: int| 0 <= i < j < self.stats@.len() implies #[trigger] self.stats@[i].operation@
                    != #[trigger] self.stats@[j].operation@ by {
                    if i != k && j != k {
                        assert(before[i].operation@ != before[j].operation@);
                    } else if i == k {
                        assert(before[k as int].operation@ != before[j].operation@);
                    } else {
                        assert(before[i].operation@ != before[k as int].operation@);
                    }
                }
            }
        } else {
            let fresh = OperationTotals {
                operation,
                count: 1,
                total_nanos: duration_nanos,
                min_nanos: duration_nanos,
                max_nanos: duration_nanos,
            };
            self.stats.push(fresh);
            proof {
                assert(self.stats@.drop_last() =~= before);
            }
        }
    }

    /// Position of `operation` among the statistics; their number when
    /// it is absent.
    fn find(&self, operation: &str) -> (k: usize)
        ensures
            k == position_of(self.spec_stats(), operation@),
    {
        let mut i: usize = 0;
        while i < self.stats.len()
            invariant
                i <= self.stats@.len(),
                forall|j: int| 0 <= j < i ==> self.stats@[j].operation@ != operation@,
            decreases self.stats.len() - i,
        {
            if string_eq(self.stats[i].operation.as_str(), operation) {
                proof {
                    lemma_position_of(self.stats@, operation@, i as int);
                }
                return i;
            }
            i = i + 1;
        }
        proof {
            lemma_position_of(self.stats@, operation@, i as int);
        }
        i
    }

    /// Records one run of `operation` lasting `duration_nanos` (see
    /// `record_operation`), unless the operation's count or total would
    /// overflow, in which case nothing changes and an error is returned.
    pub fn try_record_operation(&mut self, operation: String, duration_nanos: u128) -> (r: Result<(), HiveGpuError>)
        requires
            old(self).wf(),
            duration_nanos <= MAX_DURATION_NANOS,
        ensures
            final(self).wf(),
            final(self).spec_current() == old(self).spec_current(),
            ({
                let s = old(self).spec_stats();
                let k = position_of(s, operation@);
                &&& r is Err <==> (k < s.len() && (s[k].count == usize::MAX || s[k].total_nanos
                    + duration_nanos > MAX_DURATION_NANOS))
                &&& r is Err ==> is_other_error(r->Err_0, "overflow when adding durations"@)
                    && final(self).spec_stats() == s
                &&& r is Ok && k < s.len() ==> {
                    &&& final(self).spec_stats().len() == s.len()
                    &&& totals_after(s[k], final(self).spec_stats()[k], duration_nanos as nat)
                    &&& forall|j: int|
                        0 <= j < s.len() && j != k ==> #[trigger] final(self).spec_stats()[j] == s[j]
                }
                &&& r is Ok && k == s.len() ==> {
                    &&& final(self).spec_stats().len() == s.len() + 1
                    &&& final(self).spec_stats().drop_last() == s
                    &&& totals_first(operation@, final(self).spec_stats().last(), duration_nanos as nat)
                }
            }),
    {
        proof {
            lemma_position_of_props(self.stats@, operation@);
        }
        let k = self.find(operation.as_str());
        if k < self.stats.len() {
            let t = &self.stats[k];
            if t.count == usize::MAX || t.total_nanos > MAX_DURATION_NANOS - duration_nanos {
                return Err(HiveGpuError::Other(String::from_str("overflow when adding durations")));
            }
        }
        self.record_operation(operation, duration_nanos);
        Ok(())
    }

    /// Ends the operation in progress, records the time it took and
    /// returns it. Fails when no operation is in progress, and when the
    /// operation's count or total would overflow (where std would stop
    /// the program); an operation not recorded before never overflows.
    pub fn end_operation(&mut self) -> (r: Result<Duration, HiveGpuError>)
        requires
            old(self).wf(),
        ensures
            final(self).wf(),
            final(self).spec_current() is None,
            old(self).spec_current() is None ==> r is Err && is_other_error(r->Err_0, "No operation in progress"@)
                && final(self).spec_stats() == old(self).spec_stats(),
            old(self).spec_current() matches Some(op) ==> (position_of(old(self).spec_stats(), op)
                == old(self).spec_stats().len() ==> r is Ok),
            old(self).spec_current() matches Some(op) ==> r is Err ==> {
                let s = old(self).spec_stats();
                let k = position_of(s, op);
                &&& is_other_error(r->Err_0, "overflow when adding durations"@)
                &&& final(self).spec_stats() == s
                &&& k < s.len()
                &&& (s[k].count == usize::MAX || s[k].total_nanos > 0)
            },
            old(self).spec_current() matches Some(op) ==> r is Ok ==> {
                let s = old(self).spec_stats();
                let k = position_of(s, op);
                &&& k < s.len() ==> {
                    &&& final(self).spec_stats().len() == s.len()
                    &&& totals_after(
                        s[k],
                        final(self).spec_stats()[k],
                        (final(self).spec_stats()[k].total_nanos - s[k].total_nanos) as nat,
                    )
                    &&& forall|j: int|
                        0 <= j < s.len() && j != k ==> #[trigger] final(self).spec_stats()[j] == s[j]
                }
                &&& k == s.len() ==> {
                    &&& final(self).spec_stats().len() == s.len() + 1
                    &&& final(self).spec_stats().drop_last() == s
                    &&& final(self).spec_stats().last().operation@ == op
                    &&& final(self).spec_stats().last().count == 1
                }
            },
    {
        let current = self.current_operation.take();
        match current {
            None => Err(HiveGpuError::Other(String::from_str("No operation in progress"))),
            Some((operation, start)) => {
                let duration = elapsed_since(&start);
                let d = duration_nanos(&duration);
                match self.try_record_operation(operation, d) {
                    Ok(()) => Ok(duration),
                    Err(e) => Err(e),
                }
            },
        }
    }

    /// Statistics of `operation`, if it was recorded.
    pub fn get_operation_stats(&self, operation: &str) -> (r: Option<&OperationTotals>)
        requires
            self.wf(),
        ensures
            ({
                let k = position_of(self.spec_stats(), operation@);
                &&& k < self.spec_stats().len() ==> r == Some(&self.spec_stats()[k])
                &&& k == self.spec_stats().len() ==> r is None
            }),
    {
        let k = self.find(operation);
        if k < self.stats.len() {
            Some(&self.stats[k])
        } else {
            None
        }
    }

    /// Statistics of every operation, in first-recorded order.
    pub fn operation_stats(&self) -> (r: &Vec<OperationTotals>)
        ensures
            r@ == self.spec_stats(),
    {
        &self.stats
    }

    /// Number of runs and their total duration over all operations;
    /// `None` when either sum overflows (where std would stop the
    /// program).
    pub fn get_performance_totals(&self) -> (r: Option<(usize, u128)>)
        requires
            self.wf(),
        ensures
            count_sum(self.spec_stats()) <= usize::MAX && nanos_sum(self.spec_stats()) <= MAX_DURATION_NANOS
                <==> r is Some,
            r matches Some(t) ==> t.0 == count_sum(self.spec_stats()) && t.1 == nanos_sum(self.spec_stats()),
    {
        let mut count: usize = 0;
        let mut nanos: u128 = 0;
        let mut ok = true;
        let mut i: usize = 0;
        while i < self.stats.len()
            invariant
                self.wf(),
                i <= self.stats@.len(),
                ok ==> count == count_sum(self.stats@.take(i as int)) && nanos == nanos_sum(self.stats@.take(i as int)),
                ok ==> nanos <= MAX_DURATION_NANOS,
                !ok ==> count_sum(self.stats@.take(i as int)) > usize::MAX || nanos_sum(self.stats@.take(i as int))
                    > MAX_DURATION_NANOS,
            decreases self.stats.len() - i,
        {
            proof {
                assert(self.stats@.take(i + 1).drop_last() =~= self.stats@.take(i as int));
            }
            if ok {
                let t = &self.stats[i];
                assert(totals_wf(self.stats@[i as int]));
                if count > usize::MAX - t.count || nanos > MAX_DURATION_NANOS - t.total_nanos {
                    ok = false;
                } else {
                    count = count + t.count;
                    nanos = nanos + t.total_nanos;
                }
            }
            i = i + 1;
        }
        proof {
            assert(self.stats@.take(i as int) =~= self.stats@);
        }
        if ok {
            Some((count, nanos))
        } else {
            proof {
                lemma_sums_grow(self.stats@);
            }
            None
        }
    }

    /// Forgets every statistic.
    pub fn clear_stats(&mut self)
        requires
            old(self).wf(),
        ensures
            final(self).wf(),
            final(self).spec_stats().len() == 0,
            final(self).spec_current() == old(self).spec_current(),
    {
        self.stats.clear();
    }
}

/// Sums only grow along prefixes.
proof fn lemma_sums_grow(s: Seq<OperationTotals>)
    ensures
        forall|i: int| 0 <= i <= s.len() ==> count_sum(#[trigger] s.take(i)) <= count_sum(s) && nanos_sum(s.take(i))
            <= nanos_sum(s),
    decreases s.len(),
{
    if s.len() > 0 {
        lemma_sums_grow(s.drop_last());
        assert forall|i: int| 0 <= i <= s.len() implies count_sum(#[trigger] s.take(i)) <= count_sum(s) && nanos_sum(
            s.take(i),
        ) <= nanos_sum(s) by {
            if i < s.len() {
                assert(s.drop_last().take(i) =~= s.take(i));
            } else {
                assert(s.take(i) =~= s);
            }
        }
    }
}

/// Whether two strings are equal.
fn string_eq(a: &str, b: &str) -> (r: bool)
    ensures
        r == (a@ == b@),
{
    let x = crate::utils::text_search::chars_of(a);
    let y = crate::utils::text_search::chars_of(b);
    if x.len() != y.len() {
        return false;
    }
    let mut i: usize = 0;
    while i < x.len()
        invariant
            x@ == a@,
            y@ == b@,
            x.len() == y.len(),
            i <= x.len(),
            forall|j: int| 0 <= j < i ==> x@[j] == y@[j],
        decreases x.len() - i,
    {
        if x[i] != y[i] {
            return false;
        }
        i = i + 1;
    }
    proof {
        assert(x@ =~= y@);
    }
    true
}

} // verus!
