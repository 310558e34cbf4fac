//! Web server decisions: the server mode, the checks every POST passes, and who a
//! request is authenticated as.
pub mod server;
pub mod post_policy;
pub mod auth;
pub mod config_ui;
pub mod live_targets;
pub mod proxy;
pub mod config_routes;
pub mod route_gates;
