//! An interpreter for a small assembly-like language on a register machine.
//!
//! Source text is split into raw tokens ([`parser`]), each token is
//! classified ([`tokenizer`]), the classified tokens are assembled into a
//! flat vector of instructions with labels resolved ([`interpreter`]), and the
//! vector is executed on a machine of eight registers, a zero flag and a
//! program counter ([`env_vars`], [`structures`]).
//!
//! What the instructions mean is laid down in [`semantics`], on a model of
//! the machine; the machine is proved to follow it. The machine does no
//! input or output and no floating-point arithmetic of its own: a run comes
//! to rest whenever a program prints or computes with floats, and the host
//! that drives the run does what is asked.

pub mod data_types;
pub mod env_vars;
pub mod flow_structure;
pub mod interpreter;
pub mod parser;
pub mod registers;
pub mod semantics;
pub mod stoi;
pub mod structures;
pub mod text;
pub mod tokenizer;
pub mod tokens;
