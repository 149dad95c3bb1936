//! Platform-specific conventions.

pub mod user;
