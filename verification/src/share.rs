//! Types shared by the compiler and the virtual machine.

pub mod codec;
pub mod lowest;
pub mod operator;
pub mod rational;
pub mod text;
