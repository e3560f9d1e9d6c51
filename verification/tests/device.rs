use cc_switch::device::{
    computer_name_from_scutil, get_device_id, get_device_name, get_os_device_name,
    mac_hostname_fallback, unix_hostname, windows_hostname, Platform,
};

#[test]
fn device_name_format() {
    assert_eq!(get_os_device_name(Platform::MacOs, "Simon's MacBook"), "[MACOS:Simon's MacBook]");
    assert_eq!(get_os_device_name(Platform::Windows, "DESKTOP-1"), "[PC:DESKTOP-1]");
    assert_eq!(get_os_device_name(Platform::Other, "box"), "[PC:box]");
}

#[test]
fn device_id_is_the_host_name() {
    assert_eq!(get_device_id("DESKTOP-1"), "DESKTOP-1");
    assert_eq!(get_device_name(Platform::Windows, "DESKTOP-1"), "[PC:DESKTOP-1]");
    assert_eq!(get_device_name(Platform::MacOs, "m"), "[MACOS:m]");
}

#[test]
fn mac_host_names() {
    assert_eq!(computer_name_from_scutil(Some("  Studio\n")), Some("Studio".to_string()));
    assert_eq!(computer_name_from_scutil(Some(" \n")), None);
    assert_eq!(computer_name_from_scutil(None), None);
    assert_eq!(mac_hostname_fallback(Some("host.local\n")), "host.local");
    assert_eq!(mac_hostname_fallback(None), "Mac");
}

#[test]
fn env_host_names() {
    assert_eq!(windows_hostname(Some("PC1"), Some("h")), "PC1");
    assert_eq!(windows_hostname(None, Some("h")), "h");
    assert_eq!(windows_hostname(None, None), "PC");
    assert_eq!(unix_hostname(Some("srv")), "srv");
    assert_eq!(unix_hostname(None), "Linux");
}
