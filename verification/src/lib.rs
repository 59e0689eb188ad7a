//! A minimal virtual machine: a bank of sixteen 64-bit registers driven by a
//! five-instruction interpreter, and a host that owns the execution units and
//! a flat, bounds-checked byte memory.
//!
//! Every executable function carries a contract over a mathematical model of
//! the machine (`CpuView`, `MachineView`), and the laws of the instruction set
//! are stated as proof functions next to the code they speak of.

pub mod cpu;
pub mod error;
pub mod machine;
