//! Directory listing with normalized desktop metadata and multi-criteria
//! sorting.
//!
//! The library models the wire shapes of an external metadata provider,
//! normalizes raw attribute values into a typed record, parses user tags,
//! and orders directory entries under eight selectable sort modes with
//! directories-first and deterministic tie-break semantics.

pub mod item;
pub mod mditem;
pub mod sorting;
pub mod text;
pub mod utils;
