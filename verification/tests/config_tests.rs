use keyboard_it::config::{apply_ui, default_port, Config, Role};

fn cfg(host: &str, ip: &str) -> Config {
    let mut c = Config::default();
    c.peer_host = host.to_string();
    c.peer_ip = ip.to_string();
    c
}

#[test]
fn peer_addrs_prefers_host_then_ip() {
    let mut c = cfg("pc.local", "192.168.1.42");
    c.port = 5599;
    assert_eq!(c.peer_addrs(), vec!["pc.local:5599", "192.168.1.42:5599"]);
}

#[test]
fn peer_addrs_dedupes_and_skips_empty() {
    let one = cfg("pc.local", "");
    assert_eq!(one.peer_addrs(), vec!["pc.local:5599"]);

    let same = cfg("192.168.1.42", "192.168.1.42");
    assert_eq!(same.peer_addrs(), vec!["192.168.1.42:5599"]);

    assert!(Config::default().peer_addrs().is_empty());
}

#[test]
fn explicit_port_wins_but_ipv6_literal_is_not_mistaken_for_one() {
    let c = |h: &str| {
        let mut c = cfg(h, "");
        c.port = 5599;
        c
    };
    assert_eq!(c("pc.local:7000").peer_addr(), "pc.local:7000");
    assert_eq!(c("pc.local").peer_addr(), "pc.local:5599");
    assert_eq!(c("fe80::1").peer_addr(), "fe80::1:5599");
    assert_eq!(c("[fe80::1]:7000").peer_addr(), "[fe80::1]:7000");
}

#[test]
fn completeness_is_role_aware() {
    let mut c = Config::default();
    assert!(!c.is_complete());
    c.shared_secret = "k".into();
    c.role = Role::Receiver;
    assert!(c.is_complete());
    c.role = Role::Sender;
    assert!(!c.is_complete());
    c.peer_host = "host".into();
    assert!(c.is_complete());

    let mut ip_only = cfg("", "192.168.1.42");
    ip_only.shared_secret = "k".into();
    ip_only.role = Role::Sender;
    assert!(ip_only.is_complete());
}

#[test]
fn defaults_are_an_unpaired_sender_on_the_default_port() {
    let c = Config::default();
    assert_eq!(c.shared_secret, "");
    assert_eq!(c.peer_host, "");
    assert_eq!(c.peer_ip, "");
    assert_eq!(c.role, Role::Sender);
    assert_eq!(c.port, 5599);
    assert_eq!(default_port(), 5599);
    assert_eq!(Role::default(), Role::Sender);
}

#[test]
fn with_port_edge_cases() {
    assert_eq!(Config::with_port("", 1), ":1");
    assert_eq!(Config::with_port("h:", 9), "h::9");
    assert_eq!(Config::with_port("[::1]", 80), "[::1]:80");
    assert_eq!(Config::with_port("10.0.0.1:0", 80), "10.0.0.1:0");
}

#[test]
fn the_settings_window_only_touches_role_and_port() {
    let mut c = cfg("pc.local", "10.0.0.5");
    c.shared_secret = "keep-me".into();
    c.port = 1234;
    apply_ui(&mut c, "  7000 ");
    assert_eq!(c.role, Role::Receiver);
    assert_eq!(c.port, 7000);
    assert_eq!(c.shared_secret, "keep-me");
    assert_eq!(c.peer_host, "pc.local");
    assert_eq!(c.peer_ip, "10.0.0.5");
    apply_ui(&mut c, "not a port");
    assert_eq!(c.port, 5599);
    apply_ui(&mut c, "70000");
    assert_eq!(c.port, 5599);
    apply_ui(&mut c, "+80");
    assert_eq!(c.port, 80);
}

#[test]
fn normalising_twice_changes_nothing() {
    for h in ["pc.local", "192.168.1.42", "[fe80::1]", "pc.local:7000"] {
        let once = Config::with_port(h, 5599);
        assert_eq!(Config::with_port(&once, 6000), once);
    }
    assert_eq!(Config::with_port("pc.local", 5599), "pc.local:5599");
    // A bare IPv6 literal is the exception: its last group reads as a port
    // only once a colon follows it.
    assert_eq!(Config::with_port("fe80::1", 5599), "fe80::1:5599");
    assert_eq!(Config::with_port("fe80::1:5599", 6000), "fe80::1:5599:6000");
}
