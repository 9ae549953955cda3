//! The memory track: total size and a history of usage percentages.

use crate::history::{last_n, lemma_push_run, pushed, RollingHistory};
use vstd::prelude::*;

verus! {

/// Samples kept in the memory usage history.
pub const MEMORY_HISTORY: usize = 60;

/// Hundredths of a percent in a whole.
pub const FULL: u64 = 10_000;

/// Usage in hundredths of a percent, rounded down: `used / total * 100`,
/// limited only by what a `u64` holds. Nothing reported (a total of zero)
/// reads as idle.
pub open spec fn usage_of(used: u64, total: u64) -> u64 {
    if total == 0 {
        0
    } else {
        let q = (used * FULL) as int / total as int;
        if q > u64::MAX {
            u64::MAX
        } else {
            q as u64
        }
    }
}

/// `used` bytes of `total` as hundredths of a percent (see `usage_of`).
pub fn usage_hundredths(used: u64, total: u64) -> (r: u64)
    ensures
        r == usage_of(used, total),
        used <= total ==> r <= FULL,
{
    if total == 0 {
        0
    } else {
        assert(used * FULL <= u128::MAX) by (nonlinear_arith)
            requires
                used <= u64::MAX,
                FULL == 10_000,
        ;
        let num: u128 = used as u128 * FULL as u128;
        let q: u128 = num / total as u128;
        assert(used <= total ==> q <= FULL) by (nonlinear_arith)
            requires
                num == used * FULL,
                q == num / total as u128,
                total > 0,
        ;
        if q > u64::MAX as u128 {
            u64::MAX
        } else {
            q as u64
        }
    }
}

/// What does not change about the machine's memory.
pub struct MemoryInfo {
    pub total_memory: u64,
}

pub struct Memory {
    pub info: MemoryInfo,
    /// Usage in hundredths of a percent, oldest first.
    pub usages: RollingHistory<u64>,
    pub max_history: usize,
}

impl Memory {
    pub open spec fn wf(&self) -> bool {
        &&& self.usages.wf()
        &&& self.usages.cap() == self.max_history
    }

    /// What an update with `used` of `total` bytes makes of `self` (see `update`).
    pub open spec fn updated(&self, next: &Memory, used: u64, total: u64) -> bool {
        &&& next.info.total_memory == self.info.total_memory
        &&& next.max_history == self.max_history
        &&& next.usages@ == pushed(self.usages@, self.max_history as nat, usage_of(used, total))
    }

    /// A track for a machine with `total_memory` bytes and no samples yet.
    pub fn new(total_memory: u64) -> (r: Memory)
        ensures
            r.wf(),
            r.info.total_memory == total_memory,
            r.max_history == MEMORY_HISTORY,
            r.usages@ == Seq::<u64>::empty(),
    {
        Memory {
            info: MemoryInfo { total_memory },
            usages: RollingHistory::new(MEMORY_HISTORY),
            max_history: MEMORY_HISTORY,
        }
    }

    /// Pushes the usage of a fresh reading of `used` out of `total` bytes.
    pub fn update(&mut self, used: u64, total: u64)
        requires
            old(self).wf(),
        ensures
            final(self).wf(),
            old(self).updated(&*final(self), used, total),
    {
        let usage = usage_hundredths(used, total);
        self.usages.push(usage);
    }
}

/// After `n` updates of a new memory track (the `k`-th reading `used[k]` of
/// `total[k]` bytes), its history holds the usages of the last `min(n, 60)`
/// readings, oldest first.
pub proof fn lemma_memory_keeps_last(tracks: Seq<Memory>, used: Seq<u64>, total: Seq<u64>)
    requires
        tracks.len() == used.len() + 1,
        total.len() == used.len(),
        tracks[0].usages@ == Seq::<u64>::empty(),
        tracks[0].max_history == MEMORY_HISTORY,
        forall|k: int|
            0 <= k < used.len() ==> #[trigger] tracks[k].updated(&tracks[k + 1], used[k], total[k]),
    ensures
        tracks.last().usages@ == last_n(
            Seq::new(used.len(), |k: int| usage_of(used[k], total[k])),
            MEMORY_HISTORY as nat,
        ),
        tracks.last().usages@.len() == if used.len() < MEMORY_HISTORY {
            used.len()
        } else {
            MEMORY_HISTORY as nat
        },
{
    let xs = Seq::new(used.len(), |k: int| usage_of(used[k], total[k]));
    let states = Seq::new(tracks.len(), |k: int| tracks[k].usages@);
    assert forall|k: int| 0 <= k <= used.len() implies #[trigger] tracks[k].max_history
        == MEMORY_HISTORY by {
        lemma_memory_cap_kept(tracks, used, total, k);
    }
    assert forall|k: int| 0 <= k < xs.len() implies #[trigger] states[k + 1] == pushed(
        states[k],
        MEMORY_HISTORY as nat,
        xs[k],
    ) by {
        assert(tracks[k].updated(&tracks[k + 1], used[k], total[k]));
    }
    lemma_push_run(MEMORY_HISTORY as nat, states, xs);
}

proof fn lemma_memory_cap_kept(tracks: Seq<Memory>, used: Seq<u64>, total: Seq<u64>, k: int)
    requires
        0 <= k <= used.len(),
        tracks.len() == used.len() + 1,
        total.len() == used.len(),
        tracks[0].max_history == MEMORY_HISTORY,
        forall|j: int|
            0 <= j < used.len() ==> #[trigger] tracks[j].updated(&tracks[j + 1], used[j], total[j]),
    ensures
        tracks[k].max_history == MEMORY_HISTORY,
    decreases k,
{
    if k > 0 {
        lemma_memory_cap_kept(tracks, used, total, k - 1);
        assert(tracks[k - 1].updated(&tracks[(k - 1) + 1], used[k - 1], total[k - 1]));
    }
}

} // verus!
