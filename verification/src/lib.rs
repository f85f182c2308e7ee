//! An execution engine for a stack-based bytecode virtual machine with a
//! WebAssembly-style instruction set.
//!
//! [`parser`] holds the shape of a decoded module and a byte cursor for
//! decoders; [`exec`] holds the runtime: the store, the operand stack, the
//! frame stack, the control stack and the dispatch loop, each with a
//! mathematical model and contracts stated over it.

pub mod exec;
pub mod parser;
