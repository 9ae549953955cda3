//! The network track: the chosen interface, its last counters, and the
//! download and upload rate histories.

use crate::history::{last_n, lemma_push_run, lemma_pushed_elements, pushed, RollingHistory};
use crate::rate::{elapsed_nanos, saturating_subtract, RateSample};
use crate::select::{lowered_names, select_interface, selected, InterfaceSample};
use vstd::prelude::*;

verus! {

/// Samples kept in each rate history.
pub const NET_HISTORY: usize = 60;

/// The name shown when no interface could be chosen.
pub open spec fn no_interface() -> Seq<char> {
    "N/A"@
}

/// Why a network update did nothing.
#[derive(Clone, Copy, Debug, PartialEq, Eq, Structural)]
pub enum NetError {
    /// No interface was found when the track was initialized.
    NoInterface,
}

pub struct NetInfo {
    /// The followed interface, or `N/A`.
    pub interface_name: String,
    /// Cumulative bytes received at the last sample.
    pub received: u64,
    /// Cumulative bytes sent at the last sample.
    pub transmitted: u64,
    pub download_rates: RollingHistory<RateSample>,
    pub upload_rates: RollingHistory<RateSample>,
    /// Monotonic clock reading of the last sample, in nanoseconds.
    pub last_updated: u64,
}

/// Every sample covers some time, so its rate is defined.
pub open spec fn timed(samples: Seq<RateSample>) -> bool {
    forall|k: int| 0 <= k < samples.len() ==> #[trigger] samples[k].nanos > 0
}

/// The first interface in `ifaces` named `name`.
pub open spec fn find_named(ifaces: Seq<InterfaceSample>, name: Seq<char>, i: int) -> Option<int>
    decreases ifaces.len() - i,
{
    if i < 0 || i >= ifaces.len() {
        None
    } else if ifaces[i].name@ == name {
        Some(i)
    } else {
        find_named(ifaces, name, i + 1)
    }
}

/// The sample pushed for a counter that moved from `old_total` to
/// `new_total` over `nanos` nanoseconds.
pub open spec fn rate_of(old_total: u64, new_total: u64, nanos: u64) -> RateSample {
    RateSample {
        bytes: if new_total < old_total { 0 } else { (new_total - old_total) as u64 },
        nanos,
    }
}

fn no_interface_name() -> (r: String)
    ensures
        r@ == no_interface(),
{
    "N/A".to_owned()
}

impl NetInfo {
    pub open spec fn wf(&self) -> bool {
        &&& self.download_rates.wf()
        &&& self.upload_rates.wf()
        &&& self.download_rates.cap() == NET_HISTORY
        &&& self.upload_rates.cap() == NET_HISTORY
        &&& timed(self.download_rates@)
        &&& timed(self.upload_rates@)
    }

    /// What an update at `now` against `ifaces` makes of `self`, returning
    /// `r` (see `update`).
    pub open spec fn updated(
        &self,
        next: &NetInfo,
        ifaces: Seq<InterfaceSample>,
        now: u64,
        r: Result<(), NetError>,
    ) -> bool {
        if self.interface_name@ == no_interface() {
            r == Err::<(), NetError>(NetError::NoInterface) && *next == *self
        } else {
            &&& r is Ok
            &&& match find_named(ifaces, self.interface_name@, 0) {
                None => *next == *self,
                Some(i) => {
                    let s = ifaces[i];
                    let dt: u64 = if now > self.last_updated {
                        (now - self.last_updated) as u64
                    } else {
                        0
                    };
                    &&& next.interface_name == self.interface_name
                    &&& next.received == s.received
                    &&& next.transmitted == s.transmitted
                    &&& next.last_updated == now
                    &&& dt == 0 ==> next.download_rates == self.download_rates
                        && next.upload_rates == self.upload_rates
                    &&& dt > 0 ==> next.download_rates@ == pushed(
                        self.download_rates@,
                        NET_HISTORY as nat,
                        rate_of(self.received, s.received, dt),
                    ) && next.upload_rates@ == pushed(
                        self.upload_rates@,
                        NET_HISTORY as nat,
                        rate_of(self.transmitted, s.transmitted, dt),
                    )
                },
            }
        }
    }

    /// The state right after `new(now)` and `initialize(ifaces, now)`: empty
    /// histories, and the chosen interface's name and counters as baseline
    /// (`N/A` and zero counters when there is none).
    pub open spec fn started(&self, ifaces: Seq<InterfaceSample>, now: u64) -> bool {
        &&& self.download_rates@ == Seq::<RateSample>::empty()
        &&& self.upload_rates@ == Seq::<RateSample>::empty()
        &&& self.last_updated == now
        &&& match selected(lowered_names(ifaces)) {
            Some(i) => {
                &&& self.interface_name@ == ifaces[i].name@
                &&& self.received == ifaces[i].received
                &&& self.transmitted == ifaces[i].transmitted
            },
            None => {
                &&& self.interface_name@ == no_interface()
                &&& self.received == 0
                &&& self.transmitted == 0
            },
        }
    }

    /// A track with no interface chosen yet, zero counters and empty histories.
    pub fn new(now: u64) -> (r: NetInfo)
        ensures
            r.wf(),
            r.interface_name@ == Seq::<char>::empty(),
            r.received == 0,
            r.transmitted == 0,
            r.last_updated == now,
            r.download_rates@ == Seq::<RateSample>::empty(),
            r.upload_rates@ == Seq::<RateSample>::empty(),
    {
        NetInfo {
            interface_name: String::new(),
            received: 0,
            transmitted: 0,
            download_rates: RollingHistory::new(NET_HISTORY),
            upload_rates: RollingHistory::new(NET_HISTORY),
            last_updated: now,
        }
    }

    /// Chooses the interface to follow (see `select_interface`) and takes
    /// its counters and `now` as the baseline of the first rate; with no
    /// interface at all, the name becomes `N/A` and the rest is kept.
    pub fn initialize(&mut self, ifaces: &Vec<InterfaceSample>, now: u64)
        requires
            old(self).wf(),
        ensures
            final(self).wf(),
            final(self).download_rates == old(self).download_rates,
            final(self).upload_rates == old(self).upload_rates,
            match selected(lowered_names(ifaces@)) {
                Some(i) => {
                    &&& final(self).interface_name@ == ifaces@[i].name@
                    &&& final(self).received == ifaces@[i].received
                    &&& final(self).transmitted == ifaces@[i].transmitted
                    &&& final(self).last_updated == now
                },
                None => {
                    &&& final(self).interface_name@ == no_interface()
                    &&& final(self).received == old(self).received
                    &&& final(self).transmitted == old(self).transmitted
                    &&& final(self).last_updated == old(self).last_updated
                },
            },
    {
        match select_interface(ifaces) {
            Some(i) => {
                self.interface_name = ifaces[i].name.clone();
                self.received = ifaces[i].received;
                self.transmitted = ifaces[i].transmitted;
                self.last_updated = now;
            },
            None => {
                self.interface_name = no_interface_name();
            },
        }
    }

    /// Takes a fresh reading of the followed interface at clock reading `now`.
    ///
    /// Fails with `NoInterface`, changing nothing, when no interface was
    /// chosen. When the interface is not among `ifaces` nothing changes.
    /// Otherwise the byte deltas (zero where a counter went backwards) over
    /// the elapsed time are pushed onto the rate histories, unless no time
    /// elapsed, in which case the histories are left as they are; the
    /// counters and the clock reading are replaced either way.
    pub fn update(&mut self, ifaces: &Vec<InterfaceSample>, now: u64) -> (r: Result<(), NetError>)
        requires
            old(self).wf(),
        ensures
            final(self).wf(),
            old(self).updated(&*final(self), ifaces@, now, r),
    {
        let na = no_interface_name();
        if self.interface_name == na {
            return Err(NetError::NoInterface);
        }
        let mut i: usize = 0;
        while i < ifaces.len()
            invariant
                i <= ifaces@.len(),
                *self == *old(self),
                self.interface_name@ != no_interface(),
                self.wf(),
                find_named(ifaces@, self.interface_name@, 0) == find_named(
                    ifaces@,
                    self.interface_name@,
                    i as int,
                ),
            decreases ifaces@.len() - i,
        {
            if ifaces[i].name == self.interface_name {
                let new_received = ifaces[i].received;
                let new_transmitted = ifaces[i].transmitted;
                let dt = elapsed_nanos(self.last_updated, now);
                if dt > 0 {
                    let down = RateSample {
                        bytes: saturating_subtract(new_received, self.received),
                        nanos: dt,
                    };
                    let up = RateSample {
                        bytes: saturating_subtract(new_transmitted, self.transmitted),
                        nanos: dt,
                    };
                    proof {
                        lemma_pushed_elements(self.download_rates@, NET_HISTORY as nat, down);
                        lemma_pushed_elements(self.upload_rates@, NET_HISTORY as nat, up);
                    }
                    self.download_rates.push(down);
                    self.upload_rates.push(up);
                }
                self.received = new_received;
                self.transmitted = new_transmitted;
                self.last_updated = now;
                return Ok(());
            }
            i += 1;
        }
        Ok(())
    }

    /// The most recent download rate, if any was measured.
    pub fn current_download_rate(&self) -> (r: Option<RateSample>)
        requires
            self.wf(),
        ensures
            self.download_rates@.len() == 0 ==> r is None,
            self.download_rates@.len() > 0 ==> r == Some(self.download_rates@.last()),
            r is Some ==> r->0.nanos > 0,
    {
        self.download_rates.latest()
    }

    /// The most recent upload rate, if any was measured.
    pub fn current_upload_rate(&self) -> (r: Option<RateSample>)
        requires
            self.wf(),
        ensures
            self.upload_rates@.len() == 0 ==> r is None,
            self.upload_rates@.len() > 0 ==> r == Some(self.upload_rates@.last()),
            r is Some ==> r->0.nanos > 0,
    {
        self.upload_rates.latest()
    }

    pub fn get_interface_name(&self) -> (r: &str)
        ensures
            r@ == self.interface_name@,
    {
        self.interface_name.as_str()
    }
}

/// An update whose clock reading is not later than the last sample's adds
/// nothing to either rate history, so no rate is ever taken over zero time;
/// and every stored sample covers a positive time.
pub proof fn lemma_no_time_no_sample(
    before: NetInfo,
    after: NetInfo,
    ifaces: Seq<InterfaceSample>,
    now: u64,
    r: Result<(), NetError>,
)
    requires
        before.wf(),
        before.updated(&after, ifaces, now, r),
        now <= before.last_updated,
    ensures
        after.download_rates@ == before.download_rates@,
        after.upload_rates@ == before.upload_rates@,
        timed(after.download_rates@),
        timed(after.upload_rates@),
{
}

/// An update at `now` against `ifaces` finds the followed interface and
/// time has passed since the last sample.
pub open spec fn measures(t: NetInfo, ifaces: Seq<InterfaceSample>, now: u64) -> bool {
    &&& t.interface_name@ != no_interface()
    &&& find_named(ifaces, t.interface_name@, 0) is Some
    &&& now > t.last_updated
}

/// The download and upload samples such an update pushes.
pub open spec fn samples_of(t: NetInfo, ifaces: Seq<InterfaceSample>, now: u64) -> (
    RateSample,
    RateSample,
) {
    let s = ifaces[find_named(ifaces, t.interface_name@, 0)->0];
    let dt = (now - t.last_updated) as u64;
    (rate_of(t.received, s.received, dt), rate_of(t.transmitted, s.transmitted, dt))
}

/// After `n` measuring updates of a track with empty histories (the `k`-th
/// against `ifaces[k]` at `nows[k]`), each rate history holds the last
/// `min(n, 60)` samples pushed, oldest first.
pub proof fn lemma_rates_keep_last(
    tracks: Seq<NetInfo>,
    ifaces: Seq<Seq<InterfaceSample>>,
    nows: Seq<u64>,
    results: Seq<Result<(), NetError>>,
)
    requires
        tracks.len() == nows.len() + 1,
        ifaces.len() == nows.len(),
        results.len() == nows.len(),
        tracks[0].download_rates@ == Seq::<RateSample>::empty(),
        tracks[0].upload_rates@ == Seq::<RateSample>::empty(),
        forall|k: int|
            0 <= k < nows.len() ==> #[trigger] tracks[k].updated(
                &tracks[k + 1],
                ifaces[k],
                nows[k],
                results[k],
            ) && measures(tracks[k], ifaces[k], nows[k]),
    ensures
        tracks.last().download_rates@ == last_n(
            Seq::new(nows.len(), |k: int| samples_of(tracks[k], ifaces[k], nows[k]).0),
            NET_HISTORY as nat,
        ),
        tracks.last().upload_rates@ == last_n(
            Seq::new(nows.len(), |k: int| samples_of(tracks[k], ifaces[k], nows[k]).1),
            NET_HISTORY as nat,
        ),
        tracks.last().download_rates@.len() == if nows.len() < NET_HISTORY {
            nows.len()
        } else {
            NET_HISTORY as nat
        },
        tracks.last().upload_rates@.len() == if nows.len() < NET_HISTORY {
            nows.len()
        } else {
            NET_HISTORY as nat
        },
{
    let n = nows.len();
    let down = Seq::new(n, |k: int| samples_of(tracks[k], ifaces[k], nows[k]).0);
    let up = Seq::new(n, |k: int| samples_of(tracks[k], ifaces[k], nows[k]).1);
    let ds = Seq::new(tracks.len(), |k: int| tracks[k].download_rates@);
    let us = Seq::new(tracks.len(), |k: int| tracks[k].upload_rates@);
    assert forall|k: int| #![trigger ds[k + 1]] #![trigger us[k + 1]]
        0 <= k < n implies ds[k + 1] == pushed(ds[k], NET_HISTORY as nat, down[k]) && us[k + 1]
        == pushed(us[k], NET_HISTORY as nat, up[k]) by {
        assert(tracks[k].updated(&tracks[k + 1], ifaces[k], nows[k], results[k]));
    }
    lemma_push_run(NET_HISTORY as nat, ds, down);
    lemma_push_run(NET_HISTORY as nat, us, up);
}

} // verus!
