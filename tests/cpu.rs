use sysmon::cpu::{Cores, CpuIdentity, CPU_HISTORY};

fn identities(n: usize) -> Vec<CpuIdentity> {
    (0..n)
        .map(|i| CpuIdentity {
            brand: format!("Core {}", i),
            frequency: 3000 + i as u64,
            vendor_id: "GenuineIntel".to_string(),
        })
        .collect()
}

#[test]
fn new_keeps_identities_in_order() {
    let c = Cores::new(&identities(3));
    assert_eq!(c.number, 3);
    assert_eq!(c.cores.len(), 3);
    assert_eq!(c.cores[2].brand, "Core 2");
    assert_eq!(c.cores[1].frequency, 3001);
    assert_eq!(c.cores[0].vendor_id, "GenuineIntel");
    assert_eq!(c.cores[0].usages.len(), 0);
    assert_eq!(c.max_history, CPU_HISTORY);
}

#[test]
fn fifteen_samples_keep_last_ten() {
    let mut c = Cores::new(&identities(2));
    for k in 0u64..15 {
        c.update(&vec![k * 100, k * 200], k * 150);
    }
    let expected: Vec<u64> = (5u64..15).map(|k| k * 150).collect();
    assert_eq!(c.usages.snapshot(), expected);
    let core0: Vec<u64> = (5u64..15).map(|k| k * 100).collect();
    let core1: Vec<u64> = (5u64..15).map(|k| k * 200).collect();
    assert_eq!(c.cores[0].usages.snapshot(), core0);
    assert_eq!(c.cores[1].usages.snapshot(), core1);
    assert_eq!(c.cores[1].brand, "Core 1");
}

#[test]
fn no_cores_still_tracks_total() {
    let mut c = Cores::new(&Vec::new());
    c.update(&Vec::new(), 4200);
    assert_eq!(c.number, 0);
    assert_eq!(c.usages.snapshot(), vec![4200]);
}
