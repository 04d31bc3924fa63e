//! Helpers that the operations share.

pub mod dir;
pub mod read;
pub mod versions;
