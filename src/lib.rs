//! A three-pane directory browser engine: listing policy, column navigation,
//! the modal key engine, the fuzzy finder and the transfer register.
//!
//! Everything that touches the disk or the terminal stays with the caller; the
//! engine asks for directory listings and file operations through plain values.

pub mod browser;
pub mod column;
pub mod commands;
pub mod effect;
pub mod entry;
pub mod finder;
pub mod keys;
pub mod laws;
pub mod listing;
pub mod mode;
pub mod order;
pub mod path;
pub mod report;
