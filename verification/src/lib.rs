//! RustProxy: verified core of a TLS tunnel reverse proxy.
pub mod config;
pub mod proto;
pub mod text;
pub mod sniff;
pub mod validate;
pub mod auth;
pub mod rate_limit;
pub mod proxy_protocol;
pub mod runtime;
pub mod table;
pub mod db;
pub mod proxy_manager;
pub mod api;
pub mod session;
pub mod client;
pub mod listener;
pub mod bridge;
pub mod cert;
