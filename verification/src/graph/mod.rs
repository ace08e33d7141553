//! The facts of a file.

pub mod types;
