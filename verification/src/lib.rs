//! Verified core of the LAN broadcast and usage push services.

pub mod clock;
pub mod device;
pub mod ipv4;
pub mod lan_broadcast;
pub mod local_ip;
pub mod number;
pub mod text;
pub mod usage_push;
