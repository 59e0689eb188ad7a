//! The errors that the machine reports.

use vstd::prelude::*;

verus! {

/// Why an operation of the machine was refused.
///
/// Every error is recoverable: the operation that reports one has changed
/// nothing, with the single exception of an illegal lifecycle transition,
/// which latches the host into its error state.
#[derive(Debug, Clone, Copy, PartialEq, Eq)]
pub enum ErrorKind {
    /// A register operand lies outside the register bank. `dest` is the
    /// register that the instruction writes; `src` is the register that it
    /// reads, where it reads one. Both are reported as the instruction gave
    /// them, so at least one of them is out of range.
    InvalidRegister { dest: usize, src: Option<usize> },
    /// A memory address lies at or beyond the end of the memory region.
    OutOfBounds { address: usize },
    /// A program was loaded into a host that has no execution unit.
    NoUnitsAvailable,
    /// The host was asked to stop while it was not running.
    IllegalTransition,
}

} // verus!
