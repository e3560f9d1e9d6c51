use cc_switch::ipv4::Ipv4;
use cc_switch::local_ip::{
    fallback_address_text, interfaces_to_probe, ipv4_from_ifconfig, ipv4_from_ip_addr,
    ipv4_from_ipconfig, loopback_fallback,
};
const IPCONFIG_EN: &str = "\r\nWindows IP Configuration\r\n\r\n\r\nEthernet adapter Ethernet:\r\n\r\n   Connection-specific DNS Suffix  . : lan\r\n   Link-local IPv6 Address . . . . . : fe80::1c2b:3a4d:5e6f:7a8b%12\r\n   Autoconfiguration IPv4 Address. . : 169.254.10.2(Preferred)\r\n   IPv4 Address. . . . . . . . . . . : 192.168.1.23(Preferred) \r\n   Subnet Mask . . . . . . . . . . . : 255.255.255.0\r\n";

const IPCONFIG_ZH: &str = "Windows IP 配置\r\n\r\n以太网适配器 以太网:\r\n\r\n   IPv4 地址 . . . . . . . . . . . . : 192.168.6.100(首选)\r\n";

const IPCONFIG_FULLWIDTH: &str = "   IPv4 地址：10.0.0.5\n";

const IFCONFIG_EN0: &str = "en0: flags=8863<UP,BROADCAST,SMART,RUNNING,SIMPLEX,MULTICAST> mtu 1500\n\tether 3c:22:fb:11:22:33\n\tinet6 fe80::1%en0 prefixlen 64 secured scopeid 0x6\n\tinet 192.168.1.42 netmask 0xffffff00 broadcast 192.168.1.255\n\tstatus: active\n";

const IP_ADDR: &str = "1: lo    inet 127.0.0.1/8 scope host lo\\       valid_lft forever preferred_lft forever\n2: eth0    inet 192.168.1.5/24 brd 192.168.1.255 scope global eth0\\       valid_lft forever preferred_lft forever\n";

#[test]
fn ipconfig_english_output() {
    assert_eq!(ipv4_from_ipconfig(IPCONFIG_EN), Some("192.168.1.23".to_string()));
}

#[test]
fn ipconfig_chinese_output() {
    assert_eq!(ipv4_from_ipconfig(IPCONFIG_ZH), Some("192.168.6.100".to_string()));
    assert_eq!(ipv4_from_ipconfig(IPCONFIG_FULLWIDTH), Some("10.0.0.5".to_string()));
}

#[test]
fn ipconfig_without_usable_address() {
    assert_eq!(ipv4_from_ipconfig(""), None);
    assert_eq!(ipv4_from_ipconfig("   IPv4 Address. . : 127.0.0.1\n   IPv4 Address : 169.254.1.1\n"), None);
    assert_eq!(ipv4_from_ipconfig("IPv4 Address: 1.2.3\n"), None);
}

#[test]
fn ifconfig_output() {
    assert_eq!(ipv4_from_ifconfig(IFCONFIG_EN0), Some("192.168.1.42".to_string()));
    assert_eq!(ipv4_from_ifconfig("lo0: flags=8049\n\tinet 127.0.0.1 netmask 0xff000000\n"), None);
    assert_eq!(ipv4_from_ifconfig("\tinet6 ::1 prefixlen 128\n"), None);
}

#[test]
fn ip_addr_output() {
    assert_eq!(ipv4_from_ip_addr(IP_ADDR), Some("192.168.1.5".to_string()));
    assert_eq!(ipv4_from_ip_addr("2: eth0 inet\n"), None);
    assert_eq!(ipv4_from_ip_addr(""), None);
}

#[test]
fn scanner_edge_cases() {
    assert_eq!(ipv4_from_ifconfig("inet 10.1.2.3\n"), Some("10.1.2.3".to_string()));
    assert_eq!(ipv4_from_ifconfig("  inet 010.1.2.3 netmask\n inet 10.1.2.4\n"), Some("10.1.2.4".to_string()));
    assert_eq!(ipv4_from_ip_addr("  inet 010.1.2.3 netmask\n inet 10.1.2.4\n"), Some("10.1.2.4".to_string()));
    assert_eq!(ipv4_from_ip_addr("x inet 172.16.0.9/12 y\n"), Some("172.16.0.9".to_string()));
    assert_eq!(ipv4_from_ip_addr("inet inet 10.0.0.1\n"), None);
    assert_eq!(ipv4_from_ifconfig("inet inet 10.0.0.1\n"), None);
    assert_eq!(ipv4_from_ipconfig("IPv4: 1.2.3.4.5 9.9.9.9\n"), Some("9.9.9.9".to_string()));
    assert_eq!(ipv4_from_ipconfig("IPv4 : 1.2.3.4x 5.6.7.8\n"), Some("1.2.3.4".to_string()));
    assert_eq!(ipv4_from_ipconfig("IPv4 a:b:10.0.0.1\n"), None);
    assert_eq!(ipv4_from_ipconfig("IPv4 Address : 10.0.0.1\nIPv4 Address : 10.0.0.2\n"), Some("10.0.0.1".to_string()));
    assert_eq!(ipv4_from_ipconfig(IFCONFIG_EN0), None);
    assert_eq!(ipv4_from_ip_addr(IPCONFIG_EN), None);
}

#[test]
fn interface_list_skips_loopback() {
    assert_eq!(
        interfaces_to_probe("lo0 gif0 stf0 en0 lo en1\n"),
        vec!["gif0".to_string(), "stf0".to_string(), "en0".to_string(), "en1".to_string()]
    );
    assert_eq!(interfaces_to_probe(""), Vec::<String>::new());
}

#[test]
fn fallback_addresses() {
    assert_eq!(fallback_address_text(Ipv4(192, 168, 6, 7)), Some("192.168.6.7".to_string()));
    assert_eq!(fallback_address_text(Ipv4(127, 0, 0, 1)), None);
    assert_eq!(loopback_fallback(), "127.0.0.1");
}
