use sysmon::cpu::CpuIdentity;
use sysmon::net::NetError;
use sysmon::rate::NANOS_PER_SEC;
use sysmon::select::InterfaceSample;
use sysmon::system::{App, Reading, SystemInfo};

fn cpus() -> Vec<CpuIdentity> {
    vec![
        CpuIdentity { brand: "A".to_string(), frequency: 1, vendor_id: "V".to_string() },
        CpuIdentity { brand: "B".to_string(), frequency: 2, vendor_id: "V".to_string() },
    ]
}

fn ifaces(received: u64) -> Vec<InterfaceSample> {
    vec![InterfaceSample { name: "eth0".to_string(), received, transmitted: 0 }]
}

fn reading(received: u64) -> Reading {
    Reading {
        core_usages: vec![1000, 2000],
        total_usage: 1500,
        used_memory: 4,
        total_memory: 16,
        interfaces: ifaces(received),
    }
}

#[test]
fn snapshot_update_feeds_every_track() {
    let mut s = SystemInfo::new(&cpus(), 16, &ifaces(0), 0);
    assert_eq!(s.net.get_interface_name(), "eth0");
    assert_eq!(s.update(&reading(2048), NANOS_PER_SEC), Ok(()));
    assert_eq!(s.cores.usages.snapshot(), vec![1500]);
    assert_eq!(s.cores.cores[1].usages.snapshot(), vec![2000]);
    assert_eq!(s.memory.usages.snapshot(), vec![2500]);
    assert_eq!(s.net.current_download_rate().unwrap().bytes_per_second(), 2048);
}

#[test]
fn snapshot_update_without_interface_reports_it_but_updates_the_rest() {
    let mut s = SystemInfo::new(&cpus(), 16, &Vec::new(), 0);
    assert_eq!(s.update(&reading(10), NANOS_PER_SEC), Err(NetError::NoInterface));
    assert_eq!(s.cores.usages.snapshot(), vec![1500]);
    assert_eq!(s.memory.usages.snapshot(), vec![2500]);
    assert_eq!(s.net.download_rates.len(), 0);
}

#[test]
fn app_shows_all_when_no_flag_given() {
    let a = App::from_flags(SystemInfo::new(&cpus(), 16, &Vec::new(), 0), false, false, false, false);
    assert!(a.show_cpu && a.show_memory && a.show_gpu && a.show_net);
}

#[test]
fn app_shows_only_flagged_panels() {
    let a = App::from_flags(SystemInfo::new(&cpus(), 16, &Vec::new(), 0), false, true, false, true);
    assert!(!a.show_cpu && a.show_memory && !a.show_gpu && a.show_net);
    let d = App::default(SystemInfo::new(&cpus(), 16, &Vec::new(), 0));
    assert!(d.show_cpu && d.show_memory && d.show_gpu && d.show_net);
    let n = App::new(SystemInfo::new(&cpus(), 16, &Vec::new(), 0), true, false, false, false);
    assert!(n.show_cpu && !n.show_memory && !n.show_gpu && !n.show_net);
}
