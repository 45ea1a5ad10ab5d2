//! Request dispatch and policy enforcement for a configurable mock HTTP
//! endpoint server: endpoint lookup, fixed-window rate limiting,
//! Basic/Bearer authentication, and CRUD response synthesis over a blob store.
//!
//! The library decides; the serving layer performs the waiting and the blob
//! I/O that a decision asks for and hands the outcome back.

pub mod text;
pub mod rate_limit;
pub mod config;
pub mod authentication;
pub mod handler;
