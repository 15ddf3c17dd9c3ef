//! Locate and print files inside package archives.
//!
//! The crate resolves target identifiers to local package archives,
//! matches requested file patterns against archive entries, and routes
//! matched content to a terminal, a pager, or a destination file.

pub mod options;
pub mod pattern;
pub mod resolve;
pub mod scan;
pub mod strutil;

pub use options::{Args, ColorWhen};
