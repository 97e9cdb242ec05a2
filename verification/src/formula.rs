//! Errors of a formula as a whole.

pub mod error;
