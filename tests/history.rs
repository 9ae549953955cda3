use sysmon::history::RollingHistory;

#[test]
fn new_history_is_empty() {
    let h: RollingHistory<u64> = RollingHistory::new(3);
    assert_eq!(h.len(), 0);
    assert!(h.is_empty());
    assert_eq!(h.capacity(), 3);
    assert_eq!(h.latest(), None);
    assert_eq!(h.snapshot(), Vec::<u64>::new());
}

#[test]
fn push_within_capacity_keeps_all_in_order() {
    let mut h = RollingHistory::new(5);
    for v in [4u64, 8, 15] {
        h.push(v);
    }
    assert_eq!(h.len(), 3);
    assert_eq!(h.snapshot(), vec![4, 8, 15]);
    assert_eq!(h.latest(), Some(15));
}

#[test]
fn push_beyond_capacity_drops_oldest() {
    let mut h = RollingHistory::new(3);
    for v in 1u64..=7 {
        h.push(v);
    }
    assert_eq!(h.len(), 3);
    assert_eq!(h.snapshot(), vec![5, 6, 7]);
    assert_eq!(h.latest(), Some(7));
}

#[test]
fn length_is_min_of_pushes_and_capacity() {
    for c in 1usize..=6 {
        for n in 0u64..=10 {
            let mut h = RollingHistory::new(c);
            for v in 0..n {
                h.push(v * 10);
            }
            let keep = std::cmp::min(n as usize, c);
            assert_eq!(h.len(), keep);
            let expected: Vec<u64> = (n - keep as u64..n).map(|v| v * 10).collect();
            assert_eq!(h.snapshot(), expected);
        }
    }
}

#[test]
fn capacity_one_holds_latest_only() {
    let mut h = RollingHistory::new(1);
    h.push(9u64);
    h.push(2);
    assert_eq!(h.snapshot(), vec![2]);
}

#[test]
fn snapshot_has_no_side_effect() {
    let mut h = RollingHistory::new(2);
    h.push(1u64);
    let a = h.snapshot();
    let b = h.snapshot();
    assert_eq!(a, b);
    assert_eq!(h.len(), 1);
}
