//! Native-side filesystem commands for a desktop UI: resolve a relative path
//! against a base, list a directory's entry names, and reveal a file in the
//! platform's file manager.
//!
//! Each command is a single-shot, stateless operation. This crate holds the
//! decision and computation half of each command, fully verified: joining
//! paths, computing a parent directory, choosing the platform's reveal
//! strategy, filtering decodable entry names, and mapping outcomes to the
//! command's error taxonomy. The surrounding binary performs the actual
//! filesystem reads and process launches and hands their outcomes back in as
//! plain values.

pub mod error;
pub mod listing;
pub mod resolve;
pub mod revealer;
