//! The resident soak campaign: seeded rounds, durable state, forward-only recovery and metrics.

pub mod accounts;
pub mod campaign;
pub mod catalog;
pub mod config;
pub mod drive;
pub mod faults;
pub mod fleet;
pub mod metrics;
pub mod plan;
pub mod resources;
pub mod rounds;
pub mod signing;
pub mod state;
