//! Call-site code generation for a single-pass compiler backend.
//!
//! At each call instruction the backend saves the caller's live registers,
//! sizes the stack area the call needs, moves every argument to the place its
//! calling convention demands, emits the call, releases the stack and records
//! the result on the value stack. Every step is stated as a contract over a
//! mathematical model of the value stack, the register allocator and the
//! sequence of operations requested from the assembler.

pub mod abi;
pub mod codegen;
pub mod isa;
pub mod masm;
pub mod reg;
pub mod regalloc;
pub mod stack;
