//! The decisions of a WireGuard client for Private Internet Access that runs in a container: which
//! server to use, what the packet filter lets through, how to reconnect, when to renew a forwarded
//! port and when to restart.
//!
//! Nothing here touches the network, the file system or another program. What is to be done
//! outside is returned as a value, and what came of it is handed back.

pub mod command;
pub mod firewall;
pub mod health;
pub mod monitor;
pub mod outside;
pub mod reconnect;
pub mod route;
pub mod servers;
pub mod settings;
pub mod signature;
pub mod text;
