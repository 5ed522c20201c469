//! Programs from end to end: what holds of scanning, parsing and running
//! taken together.

pub mod laws;
pub mod parsing;
pub mod scanning;
