//! Proxy pool service: reading proxy lists, serving proxies through an HTTP API,
//! and the decisions of its background tasks and schema upkeep.

pub mod api;
pub mod config;
pub mod db;
pub mod models;
pub mod scheduler;
pub mod sources;
pub mod text;
