//! Admission control for inbound HTTP requests: a fixed chain of bot
//! heuristics over per-address state held in a key-value store.

pub mod admin;
pub mod ban;
pub mod browser;
pub mod cdp;
pub mod config;
pub mod decimal;
pub mod geo;
pub mod honeypot;
pub mod js;
pub mod keys;
pub mod maze;
pub mod metrics;
pub mod pipeline;
pub mod rate;
pub mod record;
pub mod request;
pub mod router;
pub mod store;
pub mod text;
pub mod whitelist;
