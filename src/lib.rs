//! Normalized network topology for cloud instances, and its rendering into
//! `systemd-networkd` unit files.

pub mod addr;
pub mod dns;
pub mod keys;
pub mod network;
pub mod packet;
pub mod proxmoxve;
pub mod text;
