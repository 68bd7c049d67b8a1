//! Core of a VPN address tracker: it picks the VPN interface out of an
//! enumeration of network interfaces, decides whether its IPv4 address is a
//! change worth reporting, describes the report to send, and commits the new
//! state only once the remote endpoint has acknowledged it.
pub mod config;
pub mod iface;
pub mod selector;
pub mod report;
pub mod monitor;
pub mod service;
