//! The targets that code can be generated for.

pub mod aarch64;
pub mod x64;
