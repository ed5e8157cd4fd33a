//! Control plane of a host firewall: the firewall's configuration document, the
//! middleware that every request passes and the decisions of the three routes.

pub mod config;
pub mod config_routes;
pub mod cors_middleware;
pub mod http;
pub mod interfaces_routes;
pub mod json;
pub mod models;
pub mod router;
pub mod text;
pub mod wire;
