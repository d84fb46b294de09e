//! A small listing service: product identifiers ("EAN" codes) with display
//! names are read from a relational table and served as a JSON array.
//!
//! This crate holds the verified logic of that service: validating the
//! database configuration, building the connection string, serialising the
//! listing as JSON, and deciding the HTTP response. The unverified binary
//! around it performs the actual I/O (environment, database, HTTP) and hands
//! this library plain values.

pub mod config;
pub mod decode;
pub mod json;
pub mod model;
pub mod service;
