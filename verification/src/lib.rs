//! Verified core of a LAN batch burn-in (aging) tool for BM1684X SoC devices.
pub mod ipv4;
pub mod text;
pub mod types;
pub mod remote;
pub mod workflow;
pub mod scan;
pub mod session;
pub mod platform;
pub mod state;
pub mod web;
