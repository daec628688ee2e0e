//! The frequency scheduler of one CPU cluster.
//!
//! Each tick compares the headroom the cluster aims for with the workload it
//! observed and moves an index into the frequency table: down by one step when
//! the target is met, up by a growing burst when it is not. The mean of the
//! last two indices, rounded, selects the frequency that is committed.

use crate::error::SetupError;
use crate::shared::{load_hz, shared_cycles, store_hz};
use crate::table::{lists_frequencies, lists_frequency, strictly_ascending, FrequencyTable};
use crate::text::{count_words, words};
use atomic::Atomic;
use cpu_cycles_reader::Cycles;
use std::sync::Arc;
use vstd::prelude::*;

verus! {

/// Burst of a scheduler that has just been reset or has just stepped down.
pub const BURST_DEFAULT: usize = 0;

/// Largest number of table steps one tick can climb.
pub const BURST_MAX: usize = 2;

/// Headroom a new scheduler aims for: 200 MHz, in cycles per second.
pub const TARGET_DIFF_DEFAULT: i64 = 200_000_000;

/// The smaller of two integers.
pub open spec fn spec_min(a: int, b: int) -> int {
    if a <= b {
        a
    } else {
        b
    }
}

/// The larger of two integers.
pub open spec fn spec_max(a: int, b: int) -> int {
    if a >= b {
        a
    } else {
        b
    }
}

/// Number of worker threads of the write pool of a cluster with `cpu_count`
/// cores: half the cores, and never fewer than two.
pub open spec fn spec_pool_size(cpu_count: nat) -> nat {
    if cpu_count / 2 >= 2 {
        cpu_count / 2
    } else {
        2
    }
}

/// Number of worker threads of the write pool of a cluster with `cpu_count`
/// cores.
pub fn pool_size(cpu_count: usize) -> (size: usize)
    ensures
        size == spec_pool_size(cpu_count as nat),
{
    let half: usize = cpu_count / 2;
    if half >= 2 {
        half
    } else {
        2
    }
}

/// Mean of two table indices, halves rounded up.
pub open spec fn rounded_mean(a: int, b: int) -> int {
    (a + b + 1) / 2
}

/// What one tick observed: the two shared values as they were loaded, and the
/// measured workload.
pub struct Tick {
    pub target_diff: int,
    pub max_diff: int,
    pub diff: int,
}

impl Tick {
    /// The target after clamping to the ceiling.
    pub open spec fn target(self) -> int {
        spec_min(self.target_diff, self.max_diff)
    }

    /// The tick is rejected: a negative workload changes nothing.
    pub open spec fn rejected(self) -> bool {
        self.diff < 0
    }

    /// The target is met, so the scheduler steps down.
    pub open spec fn decays(self) -> bool {
        self.diff >= 0 && self.target() <= self.diff
    }

    /// The target is missed, so the scheduler climbs.
    pub open spec fn ramps(self) -> bool {
        self.diff >= 0 && self.target() > self.diff
    }
}

/// What a commit asks the write path to do.
#[derive(Clone, Copy, PartialEq, Eq, Structural, Debug)]
pub struct Commit {
    /// Frequency to write, in cycles per second.
    pub frequency: i64,
    /// Whether the governor is forced to its fixed string first.
    pub force_governor: bool,
}

impl Commit {
    /// The governor string that the write path sets before the frequency, if
    /// the commit forces one.
    pub fn governor(&self) -> (name: Option<&'static str>)
        ensures
            name is Some <==> self.force_governor,
            name matches Some(g) ==> g@ == "performance"@,
    {
        if self.force_governor {
            Some("performance")
        } else {
            None
        }
    }
}

/// The scheduler's own state, as mathematics.
pub struct ClusterState {
    pub table: Seq<i64>,
    pub pos: int,
    pub burst: int,
    /// The smoothing window: the index fed before the last one.
    pub older: int,
    /// The smoothing window: the index fed last.
    pub newer: int,
    pub smoothed_pos: int,
}

impl ClusterState {
    /// Index of the highest frequency.
    pub open spec fn top(self) -> int {
        self.table.len() - 1
    }

    /// The table is a frequency table, the index lies in it, the burst is
    /// at most its maximum, and the smoothing window ends with the index.
    pub open spec fn wf(self) -> bool {
        &&& self.table.len() > 0
        &&& strictly_ascending(self.table)
        &&& 0 <= self.pos <= self.top()
        &&& 0 <= self.burst <= BURST_MAX
        &&& 0 <= self.older <= self.top()
        &&& self.newer == self.pos
        &&& self.smoothed_pos == rounded_mean(self.older, self.newer)
    }

    /// The state after the index moved to `pos` and was fed to the smoothing
    /// window.
    pub open spec fn moved(self, pos: int, burst: int) -> ClusterState {
        ClusterState {
            table: self.table,
            pos,
            burst,
            older: self.newer,
            newer: pos,
            smoothed_pos: rounded_mean(self.newer, pos),
        }
    }

    /// One step down, never below the lowest frequency; the burst starts over.
    pub open spec fn decay(self) -> ClusterState {
        self.moved(spec_max(self.pos - 1, 0), BURST_DEFAULT as int)
    }

    /// Up by the current burst, never above the highest frequency; the burst
    /// grows by one up to its maximum.
    pub open spec fn ramp(self) -> ClusterState {
        self.moved(
            spec_min(self.pos + self.burst, self.top()),
            spec_min(self.burst + 1, BURST_MAX as int),
        )
    }

    /// The state after one tick.
    pub open spec fn tick(self, t: Tick) -> ClusterState {
        if t.rejected() {
            self
        } else if t.decays() {
            self.decay()
        } else {
            self.ramp()
        }
    }

    /// Full performance: top of the table, no burst, the window seeded there.
    pub open spec fn reset(self) -> ClusterState {
        ClusterState {
            table: self.table,
            pos: self.top(),
            burst: 0,
            older: self.top(),
            newer: self.top(),
            smoothed_pos: self.top(),
        }
    }

    /// The frequency the state commits.
    pub open spec fn frequency(self) -> i64 {
        self.table[self.smoothed_pos]
    }

    /// The state after a sequence of ticks, first tick first.
    pub open spec fn after(self, ticks: Seq<Tick>) -> ClusterState
        decreases ticks.len(),
    {
        if ticks.len() == 0 {
            self
        } else {
            self.after(ticks.drop_last()).tick(ticks.last())
        }
    }
}

/// Table steps climbed by `n` consecutive ramps that start without a burst:
/// none, then one, then two per tick.
pub open spec fn ramp_distance(n: nat) -> int {
    if n <= 1 {
        0
    } else {
        2 * n - 3
    }
}

/// A tick keeps a valid state valid.
pub proof fn lemma_tick_wf(s: ClusterState, t: Tick)
    requires
        s.wf(),
    ensures
        s.tick(t).wf(),
{
}

/// Whatever the ticks, the index stays inside the table: after every prefix
/// of the sequence the state is valid, so `0 <= pos <= top`.
pub proof fn lemma_pos_stays_in_table(s: ClusterState, ticks: Seq<Tick>)
    requires
        s.wf(),
    ensures
        s.after(ticks).wf(),
        0 <= s.after(ticks).pos <= s.top(),
        s.after(ticks).table == s.table,
        forall|k: int|
            0 <= k <= ticks.len() ==> 0 <= (#[trigger] s.after(ticks.take(k))).pos <= s.top(),
    decreases ticks.len(),
{
    if ticks.len() > 0 {
        lemma_pos_stays_in_table(s, ticks.drop_last());
        lemma_tick_wf(s.after(ticks.drop_last()), ticks.last());
    }
    assert forall|k: int| 0 <= k <= ticks.len() implies 0 <= (#[trigger] s.after(
        ticks.take(k),
    )).pos <= s.top() by {
        if k == ticks.len() {
            assert(ticks.take(k) =~= ticks);
        } else {
            assert(ticks.take(k) =~= ticks.drop_last().take(k));
        }
    }
}

/// While the target is met, the index falls by exactly one per tick until it
/// reaches the lowest frequency, and stays there.
pub proof fn lemma_decay_run(s: ClusterState, ticks: Seq<Tick>)
    requires
        s.wf(),
        forall|i: int| 0 <= i < ticks.len() ==> (#[trigger] ticks[i]).decays(),
    ensures
        s.after(ticks).pos == spec_max(s.pos - ticks.len(), 0),
        ticks.len() > 0 ==> s.after(ticks).burst == 0,
    decreases ticks.len(),
{
    if ticks.len() > 0 {
        let before = ticks.drop_last();
        assert forall|i: int| 0 <= i < before.len() implies (#[trigger] before[i]).decays() by {
            assert(before[i] == ticks[i]);
        }
        lemma_decay_run(s, before);
        assert(ticks.last() == ticks[ticks.len() - 1]);
    }
}

/// While the target is missed, starting without a burst, the burst before
/// each tick runs 0, 1, 2, 2, ... and the index climbs by that much per tick,
/// up to the highest frequency.
pub proof fn lemma_ramp_run(s: ClusterState, ticks: Seq<Tick>)
    requires
        s.wf(),
        s.burst == 0,
        forall|i: int| 0 <= i < ticks.len() ==> (#[trigger] ticks[i]).ramps(),
    ensures
        s.after(ticks).burst == spec_min(ticks.len() as int, BURST_MAX as int),
        s.after(ticks).pos == spec_min(s.pos + ramp_distance(ticks.len()), s.top()),
        ticks.len() > 0 ==> s.after(ticks).pos == spec_min(
            s.after(ticks.drop_last()).pos + s.after(ticks.drop_last()).burst,
            s.top(),
        ),
    decreases ticks.len(),
{
    if ticks.len() > 0 {
        let before = ticks.drop_last();
        assert forall|i: int| 0 <= i < before.len() implies (#[trigger] before[i]).ramps() by {
            assert(before[i] == ticks[i]);
        }
        lemma_ramp_run(s, before);
        lemma_pos_stays_in_table(s, before);
        assert(ticks.last() == ticks[ticks.len() - 1]);
    }
}

/// The smoothing window: the last two indices fed to it.
struct Smoother {
    older: usize,
    newer: usize,
}

impl Smoother {
    /// A window filled with `pos`.
    fn seeded(pos: usize) -> (w: Smoother)
        ensures
            w.older == pos,
            w.newer == pos,
    {
        Smoother { older: pos, newer: pos }
    }

    /// Feeds `pos` and returns the rounded mean of the window.
    fn next(&mut self, pos: usize) -> (mean: usize)
        ensures
            final(self).older == old(self).newer,
            final(self).newer == pos,
            mean == rounded_mean(old(self).newer as int, pos as int),
    {
        let prev: usize = self.newer;
        self.older = prev;
        self.newer = pos;
        let (low, high) = if prev <= pos {
            (prev, pos)
        } else {
            (pos, prev)
        };
        let gap: usize = high - low;
        low + gap / 2 + gap % 2
    }
}

/// The scheduler of one cluster. The three shared cells are open to other
/// threads; the rest is the scheduler's own.
pub struct Schedule {
    pub target_diff: Arc<Atomic<Cycles>>,
    pub max_diff: Arc<Atomic<Cycles>>,
    pub cur_freq: Arc<Atomic<Cycles>>,
    pos: usize,
    smooth: Smoother,
    smoothed_pos: usize,
    burst: usize,
    table: FrequencyTable,
    pool_size: usize,
}

impl View for Schedule {
    type V = ClusterState;

    closed spec fn view(&self) -> ClusterState {
        ClusterState {
            table: self.table@,
            pos: self.pos as int,
            burst: self.burst as int,
            older: self.smooth.older as int,
            newer: self.smooth.newer as int,
            smoothed_pos: self.smoothed_pos as int,
        }
    }
}

impl Schedule {
    /// The scheduler's state is valid.
    pub open spec fn wf(&self) -> bool {
        self@.wf()
    }

    /// Size of the write pool that commits this cluster's frequencies.
    pub closed spec fn spec_pool(&self) -> nat {
        self.pool_size as nat
    }

    /// Sets a cluster up from its two topology lists: `affected_cpus`, the
    /// cores of the cluster, and `frequencies`, the frequencies it supports in
    /// kilohertz. The scheduler starts at full performance: at the top of the
    /// table, without a burst. The target starts at 200 MHz; the ceiling and
    /// the committed frequency start at the highest frequency of the table.
    pub fn new(affected_cpus: &[u8], frequencies: &[u8]) -> (made: Result<Schedule, SetupError>)
        ensures
            match made {
                Ok(s) => {
                    &&& s.wf()
                    &&& lists_frequencies(frequencies@)
                    &&& forall|hz: i64| s@.table.contains(hz) <==> lists_frequency(frequencies@, hz)
                    &&& s@ == s@.reset()
                    &&& s.spec_pool() == spec_pool_size(words(affected_cpus@).len())
                },
                Err(SetupError::Unparseable) => !lists_frequencies(frequencies@),
                Err(SetupError::Empty) => lists_frequencies(frequencies@) && words(
                    frequencies@,
                ).len() == 0,
            },
    {
        let count: usize = count_words(affected_cpus);
        match FrequencyTable::parse(frequencies) {
            Ok(table) => Ok(Schedule::with_table(table, pool_size(count))),
            Err(e) => Err(e),
        }
    }

    fn with_table(table: FrequencyTable, pool_size: usize) -> (s: Schedule)
        requires
            table.wf(),
        ensures
            s.wf(),
            s@.table == table@,
            s@ == s@.reset(),
            s.spec_pool() == pool_size,
    {
        let pos: usize = table.top();
        let highest: i64 = table.get(pos);
        Schedule {
            target_diff: shared_cycles(TARGET_DIFF_DEFAULT),
            max_diff: shared_cycles(highest),
            cur_freq: shared_cycles(highest),
            pos,
            smooth: Smoother::seeded(pos),
            smoothed_pos: pos,
            burst: BURST_DEFAULT,
            table,
            pool_size,
        }
    }

    /// Size of the write pool that commits this cluster's frequencies.
    pub fn write_pool_size(&self) -> (size: usize)
        ensures
            size == self.spec_pool(),
    {
        self.pool_size
    }

    /// Current index into the table.
    pub fn pos(&self) -> (pos: usize)
        ensures
            pos == self@.pos,
    {
        self.pos
    }

    /// Current burst.
    pub fn burst(&self) -> (burst: usize)
        ensures
            burst == self@.burst,
    {
        self.burst
    }

    /// Index of the frequency committed last.
    pub fn smoothed_pos(&self) -> (pos: usize)
        ensures
            pos == self@.smoothed_pos,
    {
        self.smoothed_pos
    }

    /// The frequency table.
    pub fn table(&self) -> (table: &FrequencyTable)
        ensures
            table@ == self@.table,
    {
        &self.table
    }

    /// One tick with the shared values already loaded: `target_diff` and
    /// `max_diff` as read from the shared cells, `diff` the observed workload.
    /// A negative `diff` is rejected and nothing changes. Otherwise the state
    /// steps, the committed frequency is stored into `cur_freq`, and the
    /// commit is handed back for the write path.
    pub fn tick(&mut self, target_diff: i64, max_diff: i64, diff: i64) -> (commit: Option<Commit>)
        requires
            old(self).wf(),
        ensures
            final(self).wf(),
            final(self).spec_pool() == old(self).spec_pool(),
            final(self)@ == old(self)@.tick(
                Tick { target_diff: target_diff as int, max_diff: max_diff as int, diff: diff as int },
            ),
            diff < 0 ==> commit is None,
            diff >= 0 ==> commit == Some(
                Commit { frequency: final(self)@.frequency(), force_governor: false },
            ),
    {
        if diff < 0 {
            return None;
        }
        let target: i64 = if target_diff <= max_diff {
            target_diff
        } else {
            max_diff
        };
        let top: usize = self.table.top();
        if target <= diff {
            self.pos = if self.pos >= 1 {
                self.pos - 1
            } else {
                0
            };
            self.burst = BURST_DEFAULT;
        } else {
            self.pos = if self.burst >= top - self.pos {
                top
            } else {
                self.pos + self.burst
            };
            self.burst = if self.burst + 1 <= BURST_MAX {
                self.burst + 1
            } else {
                BURST_MAX
            };
        }
        self.smoothed_pos = self.smooth.next(self.pos);
        let frequency: i64 = self.table.get(self.smoothed_pos);
        store_hz(&self.cur_freq, frequency);
        Some(Commit { frequency, force_governor: false })
    }

    /// One tick: loads `target_diff` and `max_diff` from the shared cells and
    /// steps with them. Other threads decide what is loaded, so the state
    /// either stepped down or climbed; which of the two, `tick` says for each
    /// pair of loaded values.
    pub fn run(&mut self, diff: i64) -> (commit: Option<Commit>)
        requires
            old(self).wf(),
        ensures
            final(self).wf(),
            final(self).spec_pool() == old(self).spec_pool(),
            diff < 0 ==> final(self)@ == old(self)@ && commit is None,
            diff >= 0 ==> (final(self)@ == old(self)@.decay() || final(self)@ == old(self)@.ramp()),
            diff >= 0 ==> commit == Some(
                Commit { frequency: final(self)@.frequency(), force_governor: false },
            ),
    {
        if diff < 0 {
            return None;
        }
        let target_diff: i64 = load_hz(&self.target_diff);
        let max_diff: i64 = load_hz(&self.max_diff);
        self.tick(target_diff, max_diff, diff)
    }

    /// Back to full performance: no burst, the index and the smoothing window
    /// at the top of the table. The commit forces the governor and writes the
    /// highest frequency, which is also stored into `cur_freq`.
    pub fn init(&mut self) -> (commit: Commit)
        requires
            old(self).wf(),
        ensures
            final(self).wf(),
            final(self).spec_pool() == old(self).spec_pool(),
            final(self)@ == old(self)@.reset(),
            commit == (Commit { frequency: final(self)@.frequency(), force_governor: true }),
    {
        let top: usize = self.table.top();
        self.burst = 0;
        self.pos = top;
        self.smooth = Smoother::seeded(top);
        self.smoothed_pos = top;
        let frequency: i64 = self.table.get(top);
        store_hz(&self.cur_freq, frequency);
        Commit { frequency, force_governor: true }
    }
}

} // verus!
