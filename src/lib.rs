//! A small compiler for a subset of C: lowering to three-address code,
//! instruction selection for x86-64, assembly rendering and the staged
//! driver policy, all with machine-checked contracts.

pub mod assembly;
pub mod ast;
pub mod codegen;
pub mod codes;
pub mod command;
pub mod diagnostics;
pub mod engine;
pub mod guarantees;
pub mod lowering;
pub mod pipeline;
pub mod render;
pub mod tacky;
pub mod text;
