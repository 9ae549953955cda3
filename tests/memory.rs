use sysmon::memory::{usage_hundredths, Memory, MEMORY_HISTORY};

#[test]
fn usage_half_and_three_quarters() {
    let total = 16_000_000_000u64;
    let mut m = Memory::new(total);
    m.update(8_000_000_000, total);
    m.update(12_000_000_000, total);
    assert_eq!(m.usages.snapshot(), vec![5000, 7500]);
    let percent: Vec<f64> = m.usages.snapshot().iter().map(|u| *u as f64 / 100.0).collect();
    assert_eq!(percent, vec![50.0, 75.0]);
    assert_eq!(m.info.total_memory, total);
}

#[test]
fn usage_rounds_down() {
    assert_eq!(usage_hundredths(1, 3), 3333);
    assert_eq!(usage_hundredths(2, 3), 6666);
    assert_eq!(usage_hundredths(0, 3), 0);
}

#[test]
fn usage_edges() {
    assert_eq!(usage_hundredths(5, 0), 0);
    assert_eq!(usage_hundredths(7, 7), 10_000);
    assert_eq!(usage_hundredths(9, 7), 12_857);
    assert_eq!(usage_hundredths(2, 1), 20_000);
    assert_eq!(usage_hundredths(u64::MAX, 1), u64::MAX);
    assert_eq!(usage_hundredths(u64::MAX, 10_000), u64::MAX);
    assert_eq!(usage_hundredths(u64::MAX - 1, u64::MAX), 9999);
}

#[test]
fn memory_history_keeps_sixty() {
    let mut m = Memory::new(100);
    for used in 0u64..100 {
        m.update(used, 100);
    }
    assert_eq!(m.max_history, MEMORY_HISTORY);
    let snap = m.usages.snapshot();
    assert_eq!(snap.len(), 60);
    assert_eq!(snap[0], 4000);
    assert_eq!(snap[59], 9900);
}
