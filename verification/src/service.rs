//! Plumbing shared by the client and the server: HTTP answers, time, identifiers, the audit log.

pub mod audit;
pub mod http;
pub mod ident;
pub mod progress;
pub mod select;
pub mod service_laws;
pub mod time;
