use mdviz::port::{first_probe, scan_end, scan_start, scan_step, server_address, server_url, PortProbe};

/// Drives the scan against a set of ports that can be bound.
fn run_scan(requested: u16, free: impl Fn(u16) -> bool) -> u16 {
    let mut probe = first_probe(requested);
    loop {
        match probe {
            PortProbe::Use(p) => return p,
            PortProbe::Try(p) => probe = scan_step(p, scan_end(), free(p)),
        }
    }
}

#[test]
fn requested_port_is_used() {
    assert!(matches!(first_probe(8080), PortProbe::Use(8080)));
}

#[test]
fn scan_finds_first_free_port() {
    assert_eq!(run_scan(0, |p| p >= 20005), 20005);
    assert_eq!(run_scan(0, |_| true), 20000);
    assert_eq!(run_scan(0, |p| p == 20100), 20100);
}

#[test]
fn scan_falls_back_when_nothing_is_free() {
    assert_eq!(run_scan(0, |_| false), 20000);
    assert!(matches!(scan_start(10, 5), PortProbe::Use(20000)));
    assert!(matches!(scan_step(65535, 65535, false), PortProbe::Use(20000)));
    assert!(matches!(scan_step(7, 9, false), PortProbe::Try(8)));
}

#[test]
fn server_addresses() {
    assert_eq!(server_address(20000), "127.0.0.1:20000");
    assert_eq!(server_url(8), "http://127.0.0.1:8/");
}
