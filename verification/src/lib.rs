//! Classification-and-move engine for per-user file organization.
//!
//! The library classifies files and whole sub-folders by extension into the
//! categories music, video, image and docs, resolves a user's home directory
//! across platform conventions, derives localized destination directories,
//! and plans the relocation of inbox items (Downloads- and Desktop-role
//! folders) into the matching category directories.

pub mod config;
pub mod error;
pub mod organizer;
pub mod platform;
pub mod text;
