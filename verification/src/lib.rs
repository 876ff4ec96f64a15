//! A small bytecode virtual machine for guest programs.
//!
//! A [`Process`] executes a table of typed stack [`Instruction`]s under a
//! cycle budget and always ends with a [`HaltReason`].  Its operand stack
//! and call stack are bounded, so the memory a guest can use is known when
//! the host is built.
//!
//! What an opcode does is defined once, as mathematics, in [`semantics`];
//! the executable interpreter in [`process`] is proved to follow it, and
//! [`laws`] holds what follows for every program.  The two stacks are
//! `heapless` vectors, whose contracts stand in [`stacks`].
//!
//! Arithmetic never wraps and never aborts the host: a sum, difference or
//! product that does not fit its tag, a division or modulus by zero, a
//! signed quotient that does not fit, and a shift by 64 bits or more halt
//! the process with [`HaltReason::ArithmeticFault`].  A rotation takes its
//! amount modulo 64.
pub mod object;
pub mod instruction;
pub mod semantics;
mod alu;
pub mod stacks;
pub mod process;
pub mod laws;

pub use crate::instruction::{HaltReason, Instruction};
pub use crate::object::{Object, Tag, TypeMismatchError};
pub use crate::process::{Intrinsic, NoIntrinsics, Process, ProcessBuilder};
pub use crate::semantics::{CALL_MAX, SCRATCH_SLOTS, STACK_MAX};
pub use crate::stacks::StackFrame;
