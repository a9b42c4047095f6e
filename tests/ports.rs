use rtcps::cli::Cli;
use rtcps::get_common_ports_string;
use rtcps::port_scanner::HostAddr;
use rtcps::ports::{parse_port_list, port_range_list, prepare_ports, select_ports};
use rtcps::report::{decimal_string, open_port_line};

fn config() -> Cli {
    Cli {
        addr: HostAddr::V4(127, 0, 0, 1),
        ports: None,
        common_ports: false,
        verbose: false,
        sequential: true,
        greppable: false,
    }
}

fn sorted(mut v: Vec<u16>) -> Vec<u16> {
    v.sort();
    v
}

#[test]
fn port_list_parses_delimited_entries() {
    assert_eq!(parse_port_list("22,\n80,\n443"), vec![22, 80, 443]);
    assert_eq!(parse_port_list("1,2\n3\r\n4"), vec![1, 2, 3, 4]);
    assert_eq!(parse_port_list(""), Vec::<u16>::new());
}

#[test]
fn port_list_skips_invalid_entries() {
    assert_eq!(parse_port_list("22,\nssh,\n0,\n70000,\n,\n 80,\n8080,\n"), vec![22, 8080]);
}

#[test]
fn range_list_is_inclusive() {
    assert_eq!(port_range_list(3, 7), vec![3, 4, 5, 6, 7]);
    assert_eq!(port_range_list(9, 9), vec![9]);
    assert_eq!(port_range_list(9, 8), Vec::<u16>::new());
    assert_eq!(port_range_list(65534, 65535), vec![65534, 65535]);
    assert_eq!(port_range_list(1, 65535).len(), 65535);
}

#[test]
fn sequential_order_is_kept() {
    let ports = vec![9, 1, 5, 5, 2];
    assert_eq!(prepare_ports(ports.clone(), true), ports);
}

#[test]
fn shuffle_is_a_permutation() {
    let ports: Vec<u16> = (1..=1000).collect();
    let shuffled = prepare_ports(ports.clone(), false);
    assert_eq!(shuffled.len(), 1000);
    assert_ne!(shuffled, ports);
    assert_eq!(sorted(shuffled), ports);
}

#[test]
fn selected_ports_follow_configuration() {
    let mut c = config();
    c.ports = Some((20, 25));
    assert_eq!(select_ports(&c, "80"), vec![20, 21, 22, 23, 24, 25]);
    c.ports = None;
    c.common_ports = true;
    assert_eq!(select_ports(&c, "443,\n80"), vec![443, 80]);
    c.sequential = false;
    assert_eq!(sorted(select_ports(&c, "443,\n80,\n22")), vec![22, 80, 443]);
}

#[test]
fn common_ports_text_is_decoded() {
    assert_eq!(get_common_ports_string(b"22,\n80").unwrap(), "22,\n80");
    assert!(get_common_ports_string(&[0x32, 0xff, 0x33]).is_err());
    assert_eq!(get_common_ports_string("é".as_bytes()).unwrap(), "é");
}

#[test]
fn decimal_rendering() {
    assert_eq!(decimal_string(0), "0");
    assert_eq!(decimal_string(7), "7");
    assert_eq!(decimal_string(1080), "1080");
    assert_eq!(decimal_string(65535), "65535");
}

#[test]
fn open_port_lines() {
    let mut c = config();
    assert_eq!(open_port_line(22, &c), None);
    c.verbose = true;
    assert_eq!(open_port_line(22, &c), Some("port 22 open!".to_string()));
    c.verbose = false;
    c.greppable = true;
    assert_eq!(open_port_line(443, &c), Some("443".to_string()));
}

#[test]
fn port_list_accepts_plus_sign() {
    assert_eq!(parse_port_list("+22,\n+,\n80+"), vec![22]);
}
