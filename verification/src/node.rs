//! The inbound side: listeners, partners, virtual files and the transfers they serve.

pub mod admission;
pub mod api;
pub mod backup;
pub mod cli;
pub mod config;
pub mod handler;
pub mod json;
pub mod manager;
pub mod material;
pub mod metrics;
pub mod model;
pub mod pki;
pub mod policy_laws;
pub mod record_laws;
pub mod schedule;
