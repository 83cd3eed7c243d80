//! A node-local block-storage plugin: volume records, their lifecycle state
//! machine, and the request rules of the controller and node services.
//!
//! Everything here is pure decision logic. Reading and writing the record
//! store, running host commands and answering the transport are left to the
//! caller, which hands results back in as plain values.

pub mod capability;
pub mod config;
pub mod controller;
pub mod identity;
pub mod laws;
pub mod logger;
pub mod node;
pub mod request;
pub mod statfs;
pub mod status;
pub mod text;
pub mod volume;

pub use status::{fails_with, Code, Status};
