//! What a VNT client shows of its network: routes, peers, traffic, errors.

pub mod api;
pub mod config;
pub mod core_api;
pub mod devices;
pub mod errors;
pub mod ipv4;
pub mod logging;
pub mod opening;
pub mod routes;
pub mod startup;
pub mod text;
pub mod traffic;
