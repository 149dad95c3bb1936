//! File classification and relocation planning.

pub mod analyzer;
pub mod async_analyzer;
pub mod mover;
pub mod types;
