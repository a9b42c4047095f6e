use rtcps::cli::{Cli, ConfigError, PortRangeError};
use rtcps::port_scanner::{run_scan, HostAddr, PortScanner};
use rtcps::ports::prepare_ports;

fn even_open(port: u16) -> bool {
    port % 2 == 0
}

fn contents(s: &PortScanner) -> Vec<(u16, bool)> {
    let mut v: Vec<(u16, bool)> = s.port_map.iter().map(|e| (*e.key(), *e.value())).collect();
    v.sort();
    v
}

fn config() -> Cli {
    Cli {
        addr: HostAddr::V4(127, 0, 0, 1),
        ports: None,
        common_ports: false,
        verbose: false,
        sequential: true,
        greppable: false,
    }
}

#[test]
fn one_entry_per_distinct_port() {
    let mut s = PortScanner::new(HostAddr::V4(10, 0, 0, 1));
    s.scan_ports(&vec![5, 3, 5, 8, 3], even_open);
    assert_eq!(contents(&s), vec![(3, false), (5, false), (8, true)]);
    assert_eq!(s.count_open_ports(), 1);
}

#[test]
fn rescan_overwrites_and_keeps_others() {
    let mut s = PortScanner::new(HostAddr::V4(10, 0, 0, 1));
    s.scan_ports(&vec![2, 4, 7], even_open);
    s.scan_ports(&vec![4], |_p: u16| false);
    assert_eq!(contents(&s), vec![(2, true), (4, false), (7, false)]);
    assert_eq!(s.count_open_ports(), 1);
}

#[test]
fn shuffled_and_sequential_scans_agree() {
    let ports: Vec<u16> = (1..=500).collect();
    let shuffled = prepare_ports(ports.clone(), false);
    let mut a = PortScanner::new(HostAddr::V4(10, 0, 0, 1));
    let mut b = PortScanner::new(HostAddr::V4(10, 0, 0, 1));
    a.scan_ports(&ports, even_open);
    b.scan_ports(&shuffled, even_open);
    assert_eq!(contents(&a), contents(&b));
    assert_eq!(a.count_open_ports(), 250);
}

#[test]
fn new_scanner_is_empty_and_bound() {
    let s = PortScanner::new(HostAddr::V6(0, 0, 0, 0, 0, 0, 0, 1));
    assert_eq!(s.addr(), HostAddr::V6(0, 0, 0, 0, 0, 0, 0, 1));
    assert_eq!(s.port_map.len(), 0);
    assert_eq!(s.count_open_ports(), 0);
}

#[test]
fn default_scanner_is_localhost() {
    let s = PortScanner::default();
    assert_eq!(s.addr(), HostAddr::V4(127, 0, 0, 1));
    assert_eq!(s.port_map.len(), 0);
}

#[test]
fn scanner_from_configuration() {
    let mut c = config();
    c.addr = HostAddr::V4(192, 168, 1, 9);
    let s = PortScanner::from(&c);
    assert_eq!(s.addr(), HostAddr::V4(192, 168, 1, 9));
    assert_eq!(s.port_map.len(), 0);
}

#[test]
fn run_scan_over_range() {
    let mut c = config();
    c.ports = Some((10, 19));
    let s = run_scan(&c, "", even_open).expect("valid configuration");
    assert_eq!(s.port_map.len(), 10);
    assert_eq!(s.count_open_ports(), 5);
    assert_eq!(s.port_map.get(&10).map(|e| *e.value()), Some(true));
    assert_eq!(s.port_map.get(&11).map(|e| *e.value()), Some(false));
}

#[test]
fn run_scan_over_common_ports() {
    let mut c = config();
    c.common_ports = true;
    c.sequential = false;
    let s = run_scan(&c, "22,\n80,\n443,\n8081", even_open).expect("valid configuration");
    assert_eq!(contents(&s), vec![(22, true), (80, true), (443, false), (8081, false)]);
}

#[test]
fn run_scan_rejects_bad_configuration() {
    let mut c = config();
    c.ports = Some((100, 50));
    let calls = std::cell::Cell::new(0u32);
    let r = run_scan(&c, "", |_p: u16| {
        calls.set(calls.get() + 1);
        true
    });
    assert!(matches!(r, Err(ConfigError::BadRange(PortRangeError::Reversed))));
    assert_eq!(calls.get(), 0);
}

#[test]
fn repeated_port_is_probed_once() {
    let calls = std::cell::Cell::new(0u32);
    let mut s = PortScanner::new(HostAddr::V4(10, 0, 0, 1));
    s.scan_ports(&vec![5, 3, 5, 8, 3, 8, 8], |p: u16| {
        calls.set(calls.get() + 1);
        even_open(p)
    });
    assert_eq!(calls.get(), 3);
    assert_eq!(contents(&s), vec![(3, false), (5, false), (8, true)]);
}
