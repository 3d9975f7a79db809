//! Code generation for one function body.

pub mod call;
pub mod context;

pub use call::FnCall;
pub use context::CodeGenContext;
