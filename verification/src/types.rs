//! The types of values, and the check of an expression's type.

pub mod check;
pub mod error;
pub mod operator;
pub mod types;
