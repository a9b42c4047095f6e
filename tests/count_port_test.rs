use dashmap::DashMap;
use rtcps::cli::{PORT_MAX, PORT_MIN};
use rtcps::port_scanner::count_open_ports;

#[test]
fn test_port_count() {
    let hashmap = DashMap::new();

    for i in PORT_MIN..=PORT_MAX {
        hashmap.insert(i, true);
    }

    assert_eq!(count_open_ports(&hashmap), PORT_MAX)
}

#[test]
fn count_all_open_up_to_n() {
    let hashmap = DashMap::new();
    for i in 1..=100u16 {
        hashmap.insert(i, true);
    }
    assert_eq!(count_open_ports(&hashmap), 100);
}

#[test]
fn count_only_true_entries() {
    let hashmap = DashMap::new();
    hashmap.insert(22u16, true);
    hashmap.insert(23u16, false);
    hashmap.insert(80u16, true);
    hashmap.insert(81u16, false);
    assert_eq!(count_open_ports(&hashmap), 2);
}

#[test]
fn count_empty_store() {
    let hashmap: DashMap<u16, bool> = DashMap::new();
    assert_eq!(count_open_ports(&hashmap), 0);
}
