//! Command-dispatch core of a multi-tenant IoT control plane.
//!
//! The crate models the typed topic-addressing scheme used to send commands
//! to devices over a publish/subscribe broker, the deterministic ACL rule
//! derivation that scopes each device's publish/subscribe rights, and the
//! correlation mechanism that matches a device response back to the request
//! that triggered it.

pub mod cache;
pub mod config;
pub mod dispatch;
pub mod errors;
pub mod io_schema;
pub mod oai_schema;
pub mod provision;
pub mod text;
pub mod topics;
