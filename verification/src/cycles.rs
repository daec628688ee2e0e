//! Cycles per core between two samples.
//!
//! Cycle counters only grow. What a core ran between two samples is the
//! difference of its two readings; a core that is read for the first time has
//! nothing to compare with and reports nothing.

use std::collections::HashMap;
use vstd::prelude::*;

verus! {

/// Cycles that core `cpu` ran up to the reading `count`, given the readings
/// `base` that were taken before: nothing on the first reading, and nothing
/// where the counter fell.
pub open spec fn delta(base: Map<i32, u64>, cpu: i32, count: u64) -> u64 {
    if base.contains_key(cpu) && count >= base[cpu] {
        (count - base[cpu]) as u64
    } else {
        0
    }
}

/// The baselines after the readings `counts` of the cores `cpus` were taken
/// in order.
pub open spec fn tracked_after(base: Map<i32, u64>, cpus: Seq<i32>, counts: Seq<u64>) -> Map<
    i32,
    u64,
>
    decreases cpus.len(),
{
    if cpus.len() == 0 || counts.len() != cpus.len() {
        base
    } else {
        tracked_after(base, cpus.drop_last(), counts.drop_last()).insert(
            cpus.last(),
            counts.last(),
        )
    }
}

/// The largest number of cycles that any of the readings reports; zero
/// where there is none.
pub open spec fn max_delta(base: Map<i32, u64>, cpus: Seq<i32>, counts: Seq<u64>) -> u64
    decreases cpus.len(),
{
    if cpus.len() == 0 || counts.len() != cpus.len() {
        0
    } else {
        let before = max_delta(base, cpus.drop_last(), counts.drop_last());
        let last = delta(
            tracked_after(base, cpus.drop_last(), counts.drop_last()),
            cpus.last(),
            counts.last(),
        );
        if before >= last {
            before
        } else {
            last
        }
    }
}

/// Reading cores changes the baselines of those cores only.
pub proof fn lemma_tracked_keys(base: Map<i32, u64>, cpus: Seq<i32>, counts: Seq<u64>, cpu: i32)
    requires
        counts.len() == cpus.len(),
    ensures
        tracked_after(base, cpus, counts).contains_key(cpu) <==> base.contains_key(cpu)
            || cpus.contains(cpu),
    decreases cpus.len(),
{
    if cpus.len() > 0 {
        let front = cpus.drop_last();
        lemma_tracked_keys(base, front, counts.drop_last(), cpu);
        if front.contains(cpu) {
            let k = choose|k: int| 0 <= k < front.len() && front[k] == cpu;
            assert(cpus[k] == cpu);
        }
        if cpus.contains(cpu) && cpu != cpus.last() {
            let k = choose|k: int| 0 <= k < cpus.len() && cpus[k] == cpu;
            assert(front[k] == cpu);
        }
        assert(cpus[cpus.len() - 1] == cpus.last());
    }
}

/// The first round of readings reports no cycles: where no core was read
/// before and no core is read twice, every reading only sets a baseline.
pub proof fn lemma_first_round_reports_nothing(cpus: Seq<i32>, counts: Seq<u64>)
    requires
        counts.len() == cpus.len(),
        cpus.no_duplicates(),
    ensures
        max_delta(Map::<i32, u64>::empty(), cpus, counts) == 0,
    decreases cpus.len(),
{
    if cpus.len() > 0 {
        let front = cpus.drop_last();
        let base = Map::<i32, u64>::empty();
        lemma_first_round_reports_nothing(front, counts.drop_last());
        lemma_tracked_keys(base, front, counts.drop_last(), cpus.last());
        if front.contains(cpus.last()) {
            let k = choose|k: int| 0 <= k < front.len() && front[k] == cpus.last();
            assert(cpus[k] == cpus[cpus.len() - 1]);
        }
    }
}

/// The last reading of each core.
pub struct CycleTracker {
    last: HashMap<i32, u64>,
}

impl View for CycleTracker {
    type V = Map<i32, u64>;

    closed spec fn view(&self) -> Map<i32, u64> {
        self.last@
    }
}

impl CycleTracker {
    /// A tracker that has read no core yet.
    pub fn new() -> (t: CycleTracker)
        ensures
            t@ == Map::<i32, u64>::empty(),
    {
        CycleTracker { last: HashMap::new() }
    }

    /// Takes the reading `count` of core `cpu` and returns the cycles the core
    /// ran since its last reading.
    pub fn observe(&mut self, cpu: i32, count: u64) -> (cycles: u64)
        ensures
            cycles == delta(old(self)@, cpu, count),
            final(self)@ == old(self)@.insert(cpu, count),
    {
        broadcast use vstd::std_specs::hash::group_hash_axioms;

        let cycles: u64 = match self.last.get(&cpu) {
            Some(prev) => if count >= *prev {
                count - *prev
            } else {
                0
            },
            None => 0,
        };
        self.last.insert(cpu, count);
        cycles
    }

    /// Takes one reading per core, in order, and returns the largest number
    /// of cycles that any of them reports.
    pub fn max_cycles(&mut self, cpus: &Vec<i32>, counts: &Vec<u64>) -> (cycles: u64)
        requires
            counts@.len() == cpus@.len(),
        ensures
            cycles == max_delta(old(self)@, cpus@, counts@),
            final(self)@ == tracked_after(old(self)@, cpus@, counts@),
    {
        let mut cycles: u64 = 0;
        let mut i: usize = 0;
        while i < cpus.len()
            invariant
                i <= cpus.len(),
                counts@.len() == cpus@.len(),
                cycles == max_delta(old(self)@, cpus@.take(i as int), counts@.take(i as int)),
                self@ == tracked_after(old(self)@, cpus@.take(i as int), counts@.take(i as int)),
            decreases cpus.len() - i,
        {
            proof {
                assert(cpus@.take(i as int + 1).drop_last() =~= cpus@.take(i as int));
                assert(counts@.take(i as int + 1).drop_last() =~= counts@.take(i as int));
            }
            let ran: u64 = self.observe(cpus[i], counts[i]);
            if ran > cycles {
                cycles = ran;
            }
            i = i + 1;
        }
        proof {
            assert(cpus@.take(cpus.len() as int) =~= cpus@);
            assert(counts@.take(counts.len() as int) =~= counts@);
        }
        cycles
    }
}

} // verus!
