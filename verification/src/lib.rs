//! Core of a health-checked, load-balancing reverse-proxy gateway.
//!
//! The crate models the decision pipeline of such a gateway: pools of
//! backend addresses with per-backend health state, fair round-robin
//! selection over the healthy subset, periodic health-snapshot
//! publication, content-based routing between service pools, outbound
//! request rewriting, and per-(service, backend) traffic counters.
//! Transport, listeners and the probe I/O itself live outside the
//! library; they hand plain values in and take plain values back.

pub mod backend;
pub mod errors;
pub mod gateway;
pub mod health;
pub mod metrics;
pub mod mutate;
pub mod pool;
pub mod router;
pub mod selection;
