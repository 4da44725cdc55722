//! Timestamp-based naming of photo files.
//!
//! A file's date and time come from the capture date that its image metadata
//! records, or from its modification time; the destination name is built from
//! them, in a directory per year, with a counter where names collide.

pub mod datetime;
pub mod decimal;
pub mod layout;
pub mod naming;
pub mod metadata;
pub mod modified;
pub mod extract;
