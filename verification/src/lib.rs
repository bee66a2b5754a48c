//! A compile-and-run core for a small imperative language: an abstract syntax
//! tree is lowered to a flat register/stack bytecode with symbolic labels,
//! a local peephole pass collapses redundant push/pop pairs, labels are
//! resolved to absolute code indices, and a four-register virtual machine
//! interprets the finished code image one instruction at a time.
//!
//! The virtual machine is exposed as a step function: every instruction that
//! needs the host (byte output, byte input, IEEE-754 arithmetic on the raw
//! cells) is reported to the caller as an effect instead of being performed
//! here, so the whole transition relation is stated and proved in one place.

pub mod ast;
pub mod codegen;
pub mod laws;
pub mod machine;
pub mod opcode;
pub mod value;
