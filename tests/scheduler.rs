use sysmon::scheduler::{Action, LoopState, Scheduler, TICK_NANOS};

#[test]
fn waits_until_a_tick_has_passed() {
    let mut s = Scheduler::new(1000);
    assert_eq!(s.step(None, 1000 + TICK_NANOS - 1), Action::Wait);
    assert_eq!(s.step(None, 1000 + TICK_NANOS), Action::Refresh);
    assert!(s.is_running());
}

#[test]
fn refresh_clock_restarts_when_marked() {
    let mut s = Scheduler::new(0);
    assert_eq!(s.step(None, TICK_NANOS), Action::Refresh);
    s.mark_refreshed(TICK_NANOS + 5);
    assert_eq!(s.step(None, TICK_NANOS + 10), Action::Wait);
    assert_eq!(s.step(None, 2 * TICK_NANOS + 5), Action::Refresh);
}

#[test]
fn other_keys_do_not_stop() {
    let mut s = Scheduler::new(0);
    assert_eq!(s.step(Some('x'), 1), Action::Wait);
    assert_eq!(s.step(Some('Q'), TICK_NANOS), Action::Refresh);
    assert_eq!(s.state, LoopState::Running);
}

#[test]
fn quit_key_stops_for_good() {
    let mut s = Scheduler::new(0);
    assert_eq!(s.step(None, TICK_NANOS), Action::Refresh);
    assert_eq!(s.step(Some('q'), 10 * TICK_NANOS), Action::Stop);
    assert_eq!(s.state, LoopState::Stopped);
    assert!(!s.is_running());
    for k in 11u64..20 {
        assert_eq!(s.step(None, k * TICK_NANOS), Action::Stop);
        assert_eq!(s.step(Some('x'), k * TICK_NANOS), Action::Stop);
    }
    s.mark_refreshed(0);
    assert_eq!(s.step(None, 100 * TICK_NANOS), Action::Stop);
}

#[test]
fn backwards_clock_does_not_refresh() {
    let mut s = Scheduler::new(10 * TICK_NANOS);
    assert_eq!(s.step(None, 0), Action::Wait);
}
