//! The outbound side: servers to connect to, transfers and messages towards them.

pub mod api;
pub mod client_laws;
pub mod engine;
pub mod model;
