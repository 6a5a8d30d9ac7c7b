//! A web-server bootstrap layer: configuration loading and merging, a
//! validated bind address, an append-only route registry, the health
//! sub-server's endpoints, TLS material loading with an accept-then-filter
//! serving policy, and the orchestrated lifecycle of a run from idle
//! through serving to graceful shutdown.

pub mod config;
pub mod errors;
pub mod health;
pub mod orchestrator;
pub mod parse;
pub mod registry;
pub mod tls;
