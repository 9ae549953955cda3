use sysmon::select::{select_interface, select_lowered, InterfaceSample};

fn iface(name: &str) -> InterfaceSample {
    InterfaceSample { name: name.to_string(), received: 0, transmitted: 0 }
}

fn names(list: &[&str]) -> Vec<InterfaceSample> {
    list.iter().map(|n| iface(n)).collect()
}

#[test]
fn first_matching_interface_wins() {
    let ifaces = names(&["eth0", "lo", "wlan0"]);
    let i = select_interface(&ifaces).unwrap();
    assert_eq!(i, 0);
    assert_eq!(ifaces[i].name, "eth0");
}

#[test]
fn eth_chosen_without_wlan() {
    let ifaces = names(&["lo", "eth0", "docker0"]);
    assert_eq!(select_interface(&ifaces), Some(1));
}

#[test]
fn no_keyword_falls_back_to_first() {
    let ifaces = names(&["lo", "dummy0"]);
    let i = select_interface(&ifaces).unwrap();
    assert_eq!(ifaces[i].name, "lo");
}

#[test]
fn empty_set_selects_nothing() {
    assert_eq!(select_interface(&Vec::new()), None);
}

#[test]
fn enumeration_order_decides() {
    // Any keyword counts; the earliest interface holding one wins.
    assert_eq!(select_interface(&names(&["wl0", "en1"])), Some(0));
    assert_eq!(select_interface(&names(&["en0", "eth1"])), Some(0));
    assert_eq!(select_interface(&names(&["lo", "eth1", "eth0"])), Some(1));
    assert_eq!(select_interface(&names(&["lo", "docker0", "wlan0", "eth0"])), Some(2));
}

#[test]
fn names_are_compared_lowercased() {
    assert_eq!(select_interface(&names(&["lo", "ETH0"])), Some(1));
    assert_eq!(select_interface(&names(&["LO", "WLAN0"])), Some(1));
}

#[test]
fn select_lowered_takes_names_as_given() {
    let lowered = vec!["lo".to_string(), "eth0".to_string()];
    assert_eq!(select_lowered(&lowered), Some(1));
    let upper = vec!["lo".to_string(), "ETH0".to_string()];
    assert_eq!(select_lowered(&upper), Some(0));
    assert_eq!(select_lowered(&Vec::new()), None);
}
