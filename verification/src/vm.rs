//! The stack machine: values, errors, the runtime context and the runner.

pub mod context;
pub mod error;
pub mod function;
pub mod object;
pub mod runner;
pub mod value;
