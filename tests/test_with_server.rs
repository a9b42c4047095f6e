use rtcps::port_scanner::{HostAddr, PortScanner};
use std::time::Duration;

const PORT: u16 = 63486;

fn probe_local(port: u16) -> bool {
    smol::block_on(async {
        let attempt = async { smol::net::TcpStream::connect(("127.0.0.1", port)).await.is_ok() };
        let limit = async {
            smol::Timer::after(Duration::from_secs(3)).await;
            false
        };
        smol::future::or(attempt, limit).await
    })
}

#[test]
fn accepted_probe_is_recorded_true() {
    let mut port_scanner = PortScanner::new(HostAddr::V4(127, 0, 0, 1));
    port_scanner.scan_ports(&vec![PORT], |p: u16| p == PORT);
    assert_eq!(port_scanner.port_map.len(), 1);
    assert_eq!(port_scanner.port_map.get(&PORT).map(|e| *e.value()), Some(true));
    assert_eq!(port_scanner.count_open_ports(), 1);
}

#[test]
fn closed_port_is_recorded_false() {
    let mut port_scanner = PortScanner::new(HostAddr::V4(127, 0, 0, 1));
    port_scanner.scan_ports(&vec![1], probe_local);
    assert_eq!(port_scanner.port_map.len(), 1);
    assert_eq!(port_scanner.port_map.get(&1).map(|e| *e.value()), Some(false));
    assert_eq!(port_scanner.count_open_ports(), 0);
}

