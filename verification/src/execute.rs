//! Tables of typed variables.

pub mod variable;
