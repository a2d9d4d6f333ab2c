//! Bytecode emission for a JavaScript front end.
//!
//! A script is compiled in two passes. [`scope::generate_scope_data`] walks
//! the syntax tree once and records, for every scope-introducing node, the
//! names bound there. [`ast_emitter::emit_program`] walks the tree a second
//! time and writes stack-machine instructions, resolving every name through
//! a scope stack that mirrors the records of the first pass.
//!
//! - [`tree`]: the syntax tree both passes read.
//! - [`scope`], [`scope_pass`]: scope records and the pass that collects them.
//! - [`opcode`], [`emitter`]: the instruction set and the instruction buffer.
//! - [`emitter_scope`]: the stack of open scopes and name resolution.
//! - [`control_structures`]: forward jumps and the stack of open loops.
//! - [`emission`]: what is emitted for every construct, as a function of the tree.
//! - [`reference_op_emitter`], [`ast_emitter`]: the emitter itself.
//! - [`laws`]: what holds of every emission.

pub mod tree;
pub mod opcode;
pub mod scope;
pub mod scope_pass;
pub mod emitter;
pub mod emitter_scope;
pub mod control_structures;
pub mod emission;
pub mod reference_op_emitter;
pub mod ast_emitter;
pub mod laws;
