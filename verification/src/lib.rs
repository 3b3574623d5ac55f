//! An in-memory store of tasks and users, keyed by identifier.

pub mod laws;
pub mod model;
pub mod record;
pub mod service;
pub mod store;
