//! An in-memory URL shortener: short codes are allocated at random, kept
//! unique, and resolved back to the long URL they were allocated for.

pub mod code;
pub mod laws;
pub mod registry;
pub mod service;
