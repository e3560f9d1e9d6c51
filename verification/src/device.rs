//! The device name sent with pushed usage data and LAN announcements:
//! `[MACOS:<name>]` on macOS and `[PC:<name>]` elsewhere.

use vstd::prelude::*;
use crate::text::{trim, trimmed_string};

verus! {

/// The operating system the application was built for.
#[derive(Clone, Copy, Debug, PartialEq, Eq, Structural)]
pub enum Platform {
    MacOs,
    Windows,
    Other,
}

/// The device-name prefix of a platform: `MACOS` on macOS, `PC` on every
/// other system (Linux included).
pub open spec fn os_prefix(p: Platform) -> Seq<char> {
    match p {
        Platform::MacOs => "MACOS"@,
        _ => "PC"@,
    }
}

/// `[<prefix>:<hostname>]`.
pub open spec fn os_device_name(p: Platform, hostname: Seq<char>) -> Seq<char> {
    "["@ + os_prefix(p) + ":"@ + hostname + "]"@
}

/// The device name for `hostname` on `platform`, in the form `[MACOS:name]`
/// or `[PC:name]`; the client picks which device's data to show by it.
pub fn get_os_device_name(platform: Platform, hostname: &str) -> (r: String)
    ensures
        r@ == os_device_name(platform, hostname@),
{
    let prefix: &str = match platform {
        Platform::MacOs => "MACOS",
        _ => "PC",
    };
    let mut r = String::from_str("[");
    r.append(prefix);
    r.append(":");
    r.append(hostname);
    r.append("]");
    r
}

/// The name under which usage data is pushed.
pub fn get_device_name(platform: Platform, hostname: &str) -> (r: String)
    ensures
        r@ == os_device_name(platform, hostname@),
{
    get_os_device_name(platform, hostname)
}

/// The device id under which usage data is pushed: the host name itself.
pub fn get_device_id(hostname: &str) -> (r: String)
    ensures
        r@ == hostname@,
{
    String::from_str(hostname)
}

/// The computer name that `scutil --get ComputerName` printed, trimmed;
/// none when the command gave nothing usable or only whitespace.
pub fn computer_name_from_scutil(out: Option<&str>) -> (r: Option<String>)
    ensures
        out is None ==> r is None,
        out matches Some(o) ==> (if trim(o@).len() > 0 {
            r is Some && r->0@ == trim(o@)
        } else {
            r is None
        }),
{
    match out {
        Some(o) => {
            let t = trimmed_string(o);
            if !t.as_str().is_empty() {
                Some(t)
            } else {
                None
            }
        },
        None => None,
    }
}

/// The macOS host name when `scutil` gave none: what `hostname` printed,
/// trimmed, or `Mac` when that command failed.
pub fn mac_hostname_fallback(out: Option<&str>) -> (r: String)
    ensures
        out matches Some(o) ==> r@ == trim(o@),
        out is None ==> r@ == "Mac"@,
{
    match out {
        Some(o) => trimmed_string(o),
        None => String::from_str("Mac"),
    }
}

/// The Windows host name: `COMPUTERNAME`, else `HOSTNAME`, else `PC`.
pub fn windows_hostname(computername: Option<&str>, hostname: Option<&str>) -> (r: String)
    ensures
        computername matches Some(c) ==> r@ == c@,
        computername is None ==> (hostname matches Some(h) ==> r@ == h@),
        computername is None && hostname is None ==> r@ == "PC"@,
{
    match computername {
        Some(c) => String::from_str(c),
        None => match hostname {
            Some(h) => String::from_str(h),
            None => String::from_str("PC"),
        },
    }
}

/// The host name on Linux and other systems: `HOSTNAME`, else `Linux`.
pub fn unix_hostname(hostname: Option<&str>) -> (r: String)
    ensures
        hostname matches Some(h) ==> r@ == h@,
        hostname is None ==> r@ == "Linux"@,
{
    match hostname {
        Some(h) => String::from_str(h),
        None => String::from_str("Linux"),
    }
}

} // verus!
