use cc_switch::ipv4::{
    format_ipv4, is_link_local, is_loopback, parse_ipv4_str, subnet_broadcast, Ipv4,
};
#[test]
fn ipv4_parse_accepts_dotted_quads() {
    assert_eq!(parse_ipv4_str("192.168.1.5"), Some(Ipv4(192, 168, 1, 5)));
    assert_eq!(parse_ipv4_str("0.0.0.0"), Some(Ipv4(0, 0, 0, 0)));
    assert_eq!(parse_ipv4_str("255.255.255.255"), Some(Ipv4(255, 255, 255, 255)));
    assert_eq!(parse_ipv4_str("1.2.3.0"), Some(Ipv4(1, 2, 3, 0)));
    assert_eq!(parse_ipv4_str("127.0.0.1"), Some(Ipv4(127, 0, 0, 1)));
    assert_eq!(parse_ipv4_str("10.0.0.255"), Some(Ipv4(10, 0, 0, 255)));
}

#[test]
fn ipv4_parse_refuses_malformed_text() {
    let samples = [
        "256.1.1.1", "1.2.3", "1.2.3.4.5", "01.2.3.4", "1.2.3.04", "1..2.3", "", " 1.2.3.4",
        "1.2.3.4 ", "1.2.3.4/24", "0001.2.3.4", "1.2.3.-4", "1.2.3.+4", "a.b.c.d", "1.2.3.4.",
        "\u{ff11}.2.3.4", "999.999.999.999", "00.0.0.0",
    ];
    for s in samples {
        assert_eq!(parse_ipv4_str(s), None, "{:?}", s);
    }
}

#[test]
fn ipv4_text_round_trip() {
    assert_eq!(format_ipv4(Ipv4(0, 0, 0, 0)), "0.0.0.0");
    assert_eq!(format_ipv4(Ipv4(192, 168, 6, 255)), "192.168.6.255");
    for ip in [Ipv4(0, 0, 0, 0), Ipv4(192, 168, 6, 255), Ipv4(10, 1, 20, 100), Ipv4(255, 255, 255, 255)] {
        assert_eq!(parse_ipv4_str(&format_ipv4(ip)), Some(ip));
    }
}

#[test]
fn loopback_and_link_local() {
    assert!(is_loopback(Ipv4(127, 0, 0, 1)));
    assert!(is_loopback(Ipv4(127, 9, 9, 9)));
    assert!(!is_loopback(Ipv4(192, 168, 1, 1)));
    assert!(is_link_local(Ipv4(169, 254, 3, 4)));
    assert!(!is_link_local(Ipv4(169, 253, 3, 4)));
    assert!(!is_link_local(Ipv4(10, 254, 3, 4)));
}

#[test]
fn subnet_broadcast_of_lan_address() {
    assert_eq!(subnet_broadcast("192.168.1.5"), Some("192.168.1.255".to_string()));
    assert_eq!(subnet_broadcast("10.0.7.20"), Some("10.0.7.255".to_string()));
}

#[test]
fn subnet_broadcast_refused() {
    assert_eq!(subnet_broadcast("127.0.0.1"), None);
    assert_eq!(subnet_broadcast("169.254.1.2"), None);
    assert_eq!(subnet_broadcast("not an ip"), None);
    assert_eq!(subnet_broadcast(""), None);
}

#[test]
fn subnet_broadcast_is_idempotent() {
    for ip in ["192.168.1.5", "10.0.7.20", "172.16.3.255"] {
        let b = subnet_broadcast(ip).unwrap();
        assert_eq!(subnet_broadcast(&b), Some(b.clone()));
    }
}
