//! All tracked state of one run, and which panels are shown.

use crate::cpu::{Cores, CpuIdentity};
use crate::memory::{Memory, MEMORY_HISTORY};
use crate::net::{NetError, NetInfo};
use crate::select::InterfaceSample;
use vstd::prelude::*;

verus! {

/// One reading of the machine's counters, taken at a tick.
pub struct Reading {
    /// Per-core usage in hundredths of a percent, in core order.
    pub core_usages: Vec<u64>,
    /// Overall CPU usage in hundredths of a percent.
    pub total_usage: u64,
    pub used_memory: u64,
    pub total_memory: u64,
    pub interfaces: Vec<InterfaceSample>,
}

pub struct SystemInfo {
    pub cores: Cores,
    pub memory: Memory,
    pub net: NetInfo,
}

impl SystemInfo {
    pub open spec fn wf(&self) -> bool {
        &&& self.cores.wf()
        &&& self.memory.wf()
        &&& self.net.wf()
    }

    /// Tracks for the reported CPUs, the memory size and the interfaces
    /// present at clock reading `now`, with the network interface chosen.
    pub fn new(
        cpus: &Vec<CpuIdentity>,
        total_memory: u64,
        interfaces: &Vec<InterfaceSample>,
        now: u64,
    ) -> (r: SystemInfo)
        ensures
            r.wf(),
            r.cores.fresh_for(cpus@),
            r.memory.info.total_memory == total_memory,
            r.memory.max_history == MEMORY_HISTORY,
            r.memory.usages@ == Seq::<u64>::empty(),
            r.net.started(interfaces@, now),
    {
        let cores = Cores::new(cpus);
        let memory = Memory::new(total_memory);
        let mut net = NetInfo::new(now);
        net.initialize(interfaces, now);
        SystemInfo { cores, memory, net }
    }

    /// Feeds one reading taken at clock reading `now` to every track; the
    /// result is that of the network track.
    pub fn update(&mut self, reading: &Reading, now: u64) -> (r: Result<(), NetError>)
        requires
            old(self).wf(),
            reading.core_usages@.len() == old(self).cores.cores@.len(),
        ensures
            final(self).wf(),
            old(self).cores.updated(&final(self).cores, reading.core_usages@, reading.total_usage),
            old(self).memory.updated(&final(self).memory, reading.used_memory, reading.total_memory),
            old(self).net.updated(&final(self).net, reading.interfaces@, now, r),
    {
        self.cores.update(&reading.core_usages, reading.total_usage);
        self.memory.update(reading.used_memory, reading.total_memory);
        self.net.update(&reading.interfaces, now)
    }
}

/// The state handed to the renderer: the tracks and the panels to show.
pub struct App {
    pub system_info: SystemInfo,
    pub show_cpu: bool,
    pub show_memory: bool,
    pub show_gpu: bool,
    pub show_net: bool,
}

impl App {
    /// Shows exactly the panels asked for.
    pub fn new(
        system_info: SystemInfo,
        show_cpu: bool,
        show_memory: bool,
        show_gpu: bool,
        show_net: bool,
    ) -> (r: App)
        ensures
            r.system_info == system_info,
            r.show_cpu == show_cpu,
            r.show_memory == show_memory,
            r.show_gpu == show_gpu,
            r.show_net == show_net,
    {
        App { system_info, show_cpu, show_memory, show_gpu, show_net }
    }

    /// Shows every panel.
    pub fn default(system_info: SystemInfo) -> (r: App)
        ensures
            r.system_info == system_info,
            r.show_cpu && r.show_memory && r.show_gpu && r.show_net,
    {
        App { system_info, show_cpu: true, show_memory: true, show_gpu: true, show_net: true }
    }

    /// The panels named on the command line; when none is named, all of them.
    pub fn from_flags(system_info: SystemInfo, cpu: bool, memory: bool, gpu: bool, net: bool) -> (r:
        App)
        ensures
            r.system_info == system_info,
            !cpu && !memory && !gpu && !net ==> r.show_cpu && r.show_memory && r.show_gpu
                && r.show_net,
            cpu || memory || gpu || net ==> r.show_cpu == cpu && r.show_memory == memory
                && r.show_gpu == gpu && r.show_net == net,
    {
        if !cpu && !memory && !gpu && !net {
            App::default(system_info)
        } else {
            App::new(system_info, cpu, memory, gpu, net)
        }
    }
}

} // verus!
