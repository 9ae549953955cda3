//! The CPU track: each core's identity and usage history, and the history
//! of overall usage.

use crate::history::{last_n, lemma_push_run, pushed, RollingHistory};
use vstd::prelude::*;

verus! {

/// Samples kept in each CPU usage history.
pub const CPU_HISTORY: usize = 10;

/// How a core describes itself when the track is made.
pub struct CpuIdentity {
    pub brand: String,
    /// Frequency in MHz.
    pub frequency: u64,
    pub vendor_id: String,
}

pub struct CoreInfo {
    pub brand: String,
    pub frequency: u64,
    pub vendor_id: String,
    /// Usage in hundredths of a percent, oldest first.
    pub usages: RollingHistory<u64>,
    pub max_history: usize,
}

pub struct Cores {
    pub number: usize,
    pub cores: Vec<CoreInfo>,
    /// Overall usage in hundredths of a percent, oldest first.
    pub usages: RollingHistory<u64>,
    pub max_history: usize,
}

impl CoreInfo {
    pub open spec fn wf(&self) -> bool {
        &&& self.usages.wf()
        &&& self.usages.cap() == self.max_history
    }

    /// The same core with `usage` pushed onto its history.
    pub open spec fn after_push(&self, next: &CoreInfo, usage: u64) -> bool {
        &&& next.brand == self.brand
        &&& next.frequency == self.frequency
        &&& next.vendor_id == self.vendor_id
        &&& next.max_history == self.max_history
        &&& next.usages.cap() == self.usages.cap()
        &&& next.usages@ == pushed(self.usages@, self.max_history as nat, usage)
    }
}

impl Cores {
    pub open spec fn wf(&self) -> bool {
        &&& self.number == self.cores@.len()
        &&& self.usages.wf()
        &&& self.usages.cap() == self.max_history
        &&& forall|i: int| 0 <= i < self.cores@.len() ==> (#[trigger] self.cores@[i]).wf()
    }

    /// What an update with per-core usages `core_usages` and overall usage
    /// `total_usage` makes of `self` (see `update`).
    pub open spec fn updated(&self, next: &Cores, core_usages: Seq<u64>, total_usage: u64) -> bool {
        &&& next.number == self.number
        &&& next.max_history == self.max_history
        &&& next.cores@.len() == self.cores@.len()
        &&& forall|i: int|
            0 <= i < self.cores@.len() ==> self.cores@[i].after_push(
                &#[trigger] next.cores@[i],
                core_usages[i],
            )
        &&& next.usages@ == pushed(self.usages@, self.max_history as nat, total_usage)
    }

    /// One entry per CPU of `cpus`, in order, with its identity and empty
    /// histories of the standard length.
    pub open spec fn fresh_for(&self, cpus: Seq<CpuIdentity>) -> bool {
        &&& self.cores@.len() == cpus.len()
        &&& self.max_history == CPU_HISTORY
        &&& self.usages@ == Seq::<u64>::empty()
        &&& forall|i: int|
            0 <= i < cpus.len() ==> {
                &&& (#[trigger] self.cores@[i]).brand@ == cpus[i].brand@
                &&& self.cores@[i].frequency == cpus[i].frequency
                &&& self.cores@[i].vendor_id@ == cpus[i].vendor_id@
                &&& self.cores@[i].max_history == CPU_HISTORY
                &&& self.cores@[i].usages@ == Seq::<u64>::empty()
            }
    }

    /// One core entry per reported CPU, in the order given, with empty histories.
    pub fn new(cpus: &Vec<CpuIdentity>) -> (r: Cores)
        ensures
            r.wf(),
            r.fresh_for(cpus@),
    {
        let mut cores: Vec<CoreInfo> = Vec::with_capacity(cpus.len());
        let mut i: usize = 0;
        while i < cpus.len()
            invariant
                i <= cpus@.len(),
                cores@.len() == i,
                forall|j: int|
                    0 <= j < i ==> {
                        &&& (#[trigger] cores@[j]).wf()
                        &&& cores@[j].brand@ == cpus@[j].brand@
                        &&& cores@[j].frequency == cpus@[j].frequency
                        &&& cores@[j].vendor_id@ == cpus@[j].vendor_id@
                        &&& cores@[j].max_history == CPU_HISTORY
                        &&& cores@[j].usages@ == Seq::<u64>::empty()
                    },
            decreases cpus@.len() - i,
        {
            let cpu = &cpus[i];
            cores.push(
                CoreInfo {
                    brand: cpu.brand.clone(),
                    frequency: cpu.frequency,
                    vendor_id: cpu.vendor_id.clone(),
                    usages: RollingHistory::new(CPU_HISTORY),
                    max_history: CPU_HISTORY,
                },
            );
            i += 1;
        }
        Cores {
            number: cpus.len(),
            cores,
            usages: RollingHistory::new(CPU_HISTORY),
            max_history: CPU_HISTORY,
        }
    }

    /// Pushes each core's fresh usage onto its history, in core order, and
    /// the overall usage onto the overall history.
    pub fn update(&mut self, core_usages: &Vec<u64>, total_usage: u64)
        requires
            old(self).wf(),
            core_usages@.len() == old(self).cores@.len(),
        ensures
            final(self).wf(),
            old(self).updated(&*final(self), core_usages@, total_usage),
    {
        let mut i: usize = 0;
        while i < self.cores.len()
            invariant
                i <= self.cores@.len(),
                self.cores@.len() == old(self).cores@.len(),
                core_usages@.len() == old(self).cores@.len(),
                self.number == old(self).number,
                self.usages == old(self).usages,
                self.max_history == old(self).max_history,
                old(self).wf(),
                forall|j: int| 0 <= j < self.cores@.len() ==> (#[trigger] self.cores@[j]).wf(),
                forall|j: int|
                    0 <= j < i ==> old(self).cores@[j].after_push(
                        &#[trigger] self.cores@[j],
                        core_usages@[j],
                    ),
                forall|j: int| i <= j < self.cores@.len() ==> #[trigger] self.cores@[j] == old(self).cores@[j],
            decreases self.cores@.len() - i,
        {
            let u = core_usages[i];
            self.cores[i].usages.push(u);
            i += 1;
        }
        self.usages.push(total_usage);
    }
}

/// After `n` updates of a new CPU track (the `k`-th with per-core usages
/// `core_usages[k]` and overall usage `totals[k]`), core `i` holds its last
/// `min(n, 10)` usages and the overall history the last `min(n, 10)`
/// totals, oldest first.
pub proof fn lemma_cores_keep_last(
    tracks: Seq<Cores>,
    core_usages: Seq<Seq<u64>>,
    totals: Seq<u64>,
    i: int,
)
    requires
        tracks.len() == totals.len() + 1,
        core_usages.len() == totals.len(),
        tracks[0].max_history == CPU_HISTORY,
        tracks[0].usages@ == Seq::<u64>::empty(),
        0 <= i < tracks[0].cores@.len(),
        tracks[0].cores@[i].max_history == CPU_HISTORY,
        tracks[0].cores@[i].usages@ == Seq::<u64>::empty(),
        forall|k: int|
            0 <= k < totals.len() ==> #[trigger] tracks[k].updated(
                &tracks[k + 1],
                core_usages[k],
                totals[k],
            ),
    ensures
        tracks.last().cores@[i].usages@ == last_n(
            Seq::new(totals.len(), |k: int| core_usages[k][i]),
            CPU_HISTORY as nat,
        ),
        tracks.last().cores@[i].usages@.len() == if totals.len() < CPU_HISTORY {
            totals.len()
        } else {
            CPU_HISTORY as nat
        },
        tracks.last().usages@ == last_n(totals, CPU_HISTORY as nat),
        tracks.last().usages@.len() == if totals.len() < CPU_HISTORY {
            totals.len()
        } else {
            CPU_HISTORY as nat
        },
{
    let n = totals.len();
    assert forall|k: int| 0 <= k <= n implies {
        &&& #[trigger] tracks[k].max_history == CPU_HISTORY
        &&& tracks[k].cores@.len() == tracks[0].cores@.len()
        &&& tracks[k].cores@[i].max_history == CPU_HISTORY
    } by {
        lemma_cores_shape_kept(tracks, core_usages, totals, i, k);
    }
    let xs = Seq::new(n, |k: int| core_usages[k][i]);
    let states = Seq::new(tracks.len(), |k: int| tracks[k].cores@[i].usages@);
    assert forall|k: int| 0 <= k < n implies #[trigger] states[k + 1] == pushed(
        states[k],
        CPU_HISTORY as nat,
        xs[k],
    ) by {
        assert(tracks[k].updated(&tracks[k + 1], core_usages[k], totals[k]));
        assert(tracks[k].cores@[i].after_push(&tracks[k + 1].cores@[i], core_usages[k][i]));
    }
    lemma_push_run(CPU_HISTORY as nat, states, xs);
    let all = Seq::new(tracks.len(), |k: int| tracks[k].usages@);
    assert forall|k: int| 0 <= k < n implies #[trigger] all[k + 1] == pushed(
        all[k],
        CPU_HISTORY as nat,
        totals[k],
    ) by {
        assert(tracks[k].updated(&tracks[k + 1], core_usages[k], totals[k]));
    }
    lemma_push_run(CPU_HISTORY as nat, all, totals);
}

proof fn lemma_cores_shape_kept(
    tracks: Seq<Cores>,
    core_usages: Seq<Seq<u64>>,
    totals: Seq<u64>,
    i: int,
    k: int,
)
    requires
        0 <= k <= totals.len(),
        tracks.len() == totals.len() + 1,
        core_usages.len() == totals.len(),
        tracks[0].max_history == CPU_HISTORY,
        0 <= i < tracks[0].cores@.len(),
        tracks[0].cores@[i].max_history == CPU_HISTORY,
        forall|j: int|
            0 <= j < totals.len() ==> #[trigger] tracks[j].updated(
                &tracks[j + 1],
                core_usages[j],
                totals[j],
            ),
    ensures
        tracks[k].max_history == CPU_HISTORY,
        tracks[k].cores@.len() == tracks[0].cores@.len(),
        tracks[k].cores@[i].max_history == CPU_HISTORY,
    decreases k,
{
    if k > 0 {
        lemma_cores_shape_kept(tracks, core_usages, totals, i, k - 1);
        assert(tracks[k - 1].updated(&tracks[(k - 1) + 1], core_usages[k - 1], totals[k - 1]));
        assert(tracks[k - 1].cores@[i].after_push(
            &tracks[(k - 1) + 1].cores@[i],
            core_usages[k - 1][i],
        ));
    }
}

} // verus!
