//! A record-management library for a book collection.
//!
//! The crate verifies the core of a small book service: field validation
//! of incoming requests, the create / read / list / update / delete
//! semantics of the record store, the planning of filtered list queries,
//! and the mapping of raw store rows back into domain records.

pub mod config;
pub mod errors;
pub mod laws;
pub mod listing;
pub mod mapping;
pub mod models;
pub mod service;
pub mod text;
pub mod validation;
