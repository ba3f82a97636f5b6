//! A minimal register-based virtual machine: a fixed-size byte memory, sixteen
//! 32-bit registers (register 0 doubles as the instruction pointer), and a
//! fetch-decode-execute loop over an eight-opcode instruction set.
//!
//! The `semantics` module gives the machine's meaning as a mathematical
//! transition function over sequences; `machine` holds the executable machine,
//! verified against that meaning; `sink` is the caller-supplied destination for
//! the output instructions; `lemmas` proves the headline properties of the
//! instruction set.

pub mod lemmas;
pub mod machine;
pub mod semantics;
pub mod sink;
