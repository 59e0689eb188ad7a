//! The execution unit: register file, instruction set and the semantics of
//! each instruction.

use crate::error::ErrorKind;
use vstd::prelude::*;

verus! {

/// Number of general-purpose registers in one execution unit.
pub const REGISTER_COUNT: usize = 16;

/// One emulated processor: sixteen general-purpose registers, a program
/// counter and a running flag.
#[derive(Debug)]
pub struct CPU {
    pub registers: [u64; 16],
    pub program_counter: u64,
    pub running: bool,
}

/// One decoded operation. The set is closed: every consumer handles each of
/// the five variants by name.
#[derive(Debug, Clone, Copy)]
pub enum Instruction {
    /// Load an immediate value into a register.
    LoadImm { reg: usize, value: u64 },
    /// Copy the value of `src` into `dest`.
    Move { dest: usize, src: usize },
    /// Add the value of `src` to `dest`, modulo 2^64.
    Add { dest: usize, src: usize },
    /// Continue at `address`.
    Jump { address: u64 },
    /// Stop the execution.
    Halt,
}

/// The mathematical state of an execution unit.
pub struct CpuView {
    pub registers: Seq<u64>,
    pub program_counter: int,
    pub running: bool,
}

impl View for CPU {
    type V = CpuView;

    open spec fn view(&self) -> CpuView {
        CpuView {
            registers: self.registers@,
            program_counter: self.program_counter as int,
            running: self.running,
        }
    }
}

/// The sum of two register values modulo 2^64.
pub open spec fn wrapping_sum(a: u64, b: u64) -> u64 {
    ((a + b) % 0x1_0000_0000_0000_0000) as u64
}

impl Instruction {
    /// The error with which the instruction is refused, or `None` where all
    /// its register operands lie inside the register bank. It depends on the
    /// operands alone, never on the state of the unit.
    pub open spec fn fault(self) -> Option<ErrorKind> {
        match self {
            Instruction::LoadImm { reg, value } => if reg < REGISTER_COUNT {
                None
            } else {
                Some(ErrorKind::InvalidRegister { dest: reg, src: None })
            },
            Instruction::Move { dest, src } => if dest < REGISTER_COUNT && src < REGISTER_COUNT {
                None
            } else {
                Some(ErrorKind::InvalidRegister { dest, src: Some(src) })
            },
            Instruction::Add { dest, src } => if dest < REGISTER_COUNT && src < REGISTER_COUNT {
                None
            } else {
                Some(ErrorKind::InvalidRegister { dest, src: Some(src) })
            },
            Instruction::Jump { address } => None,
            Instruction::Halt => None,
        }
    }

    /// Whether the instruction moves the program counter on to the next
    /// position once it has been applied. `Jump` sets the counter itself and
    /// `Halt` leaves it alone.
    pub open spec fn advances(self) -> bool {
        match self {
            Instruction::LoadImm { reg, value } => true,
            Instruction::Move { dest, src } => true,
            Instruction::Add { dest, src } => true,
            Instruction::Jump { address } => false,
            Instruction::Halt => false,
        }
    }
}

impl CpuView {
    /// The state of a freshly built unit: all registers zero, program counter
    /// zero, not running.
    pub open spec fn reset() -> CpuView {
        CpuView {
            registers: Seq::new(REGISTER_COUNT as nat, |i: int| 0u64),
            program_counter: 0,
            running: false,
        }
    }

    /// The state after an instruction without a fault has been applied.
    pub open spec fn apply(self, instruction: Instruction) -> CpuView {
        match instruction {
            Instruction::LoadImm { reg, value } => CpuView {
                registers: self.registers.update(reg as int, value),
                program_counter: self.program_counter + 1,
                running: self.running,
            },
            Instruction::Move { dest, src } => CpuView {
                registers: self.registers.update(dest as int, self.registers[src as int]),
                program_counter: self.program_counter + 1,
                running: self.running,
            },
            Instruction::Add { dest, src } => CpuView {
                registers: self.registers.update(
                    dest as int,
                    wrapping_sum(self.registers[dest as int], self.registers[src as int]),
                ),
                program_counter: self.program_counter + 1,
                running: self.running,
            },
            Instruction::Jump { address } => CpuView {
                registers: self.registers,
                program_counter: address as int,
                running: self.running,
            },
            Instruction::Halt => CpuView {
                registers: self.registers,
                program_counter: self.program_counter,
                running: false,
            },
        }
    }

    /// The state after one instruction: a refused instruction has no effect.
    pub open spec fn step(self, instruction: Instruction) -> CpuView {
        if instruction.fault() is None {
            self.apply(instruction)
        } else {
            self
        }
    }

    /// Whether this is the state of some unit: sixteen registers and a
    /// program counter that fits in 64 bits.
    pub open spec fn wf(self) -> bool {
        &&& self.registers.len() == REGISTER_COUNT
        &&& 0 <= self.program_counter <= u64::MAX
    }

    /// Whether the unit has room for the instruction: one that will move the
    /// program counter on needs a counter below the largest 64-bit value.
    pub open spec fn admits(self, instruction: Instruction) -> bool {
        instruction.fault() is None && instruction.advances() ==> self.program_counter < u64::MAX
    }
}

impl CPU {
    /// Builds a unit in its reset state.
    pub fn new() -> (cpu: CPU)
        ensures
            cpu@ == CpuView::reset(),
            cpu@.wf(),
    {
        let cpu = CPU { registers: [0; 16], program_counter: 0, running: false };
        assert(cpu@.registers =~= CpuView::reset().registers);
        cpu
    }

    /// Whether `execute` may be called with this instruction in the present
    /// state.
    pub fn can_execute(&self, instruction: Instruction) -> (ok: bool)
        ensures
            ok == self@.admits(instruction),
    {
        match instruction {
            Instruction::LoadImm { reg, value } => reg >= REGISTER_COUNT || self.program_counter
                < u64::MAX,
            Instruction::Move { dest, src } => dest >= REGISTER_COUNT || src >= REGISTER_COUNT
                || self.program_counter < u64::MAX,
            Instruction::Add { dest, src } => dest >= REGISTER_COUNT || src >= REGISTER_COUNT
                || self.program_counter < u64::MAX,
            Instruction::Jump { address } => true,
            Instruction::Halt => true,
        }
    }

    /// Applies one instruction.
    ///
    /// The operands are checked before anything is written: the instruction
    /// either applies in full, and the new state is `apply` of the old one,
    /// or it is refused with its `fault` and the unit is left exactly as it
    /// was.
    ///
    /// An instruction that moves the program counter on needs a counter below
    /// the largest 64-bit value; `can_execute` tests for it.
    pub fn execute(&mut self, instruction: Instruction) -> (result: Result<(), ErrorKind>)
        requires
            old(self)@.admits(instruction),
        ensures
            instruction.fault() matches Some(e) ==> result == Err::<(), ErrorKind>(e)
                && *final(self) == *old(self),
            instruction.fault() is None ==> result is Ok
                && final(self)@ == old(self)@.apply(instruction),
            final(self)@ == old(self)@.step(instruction),
    {
        match instruction {
            Instruction::LoadImm { reg, value } => {
                if reg < REGISTER_COUNT {
                    self.registers[reg] = value;
                    self.program_counter += 1;
                    Ok(())
                } else {
                    Err(ErrorKind::InvalidRegister { dest: reg, src: None })
                }
            },
            Instruction::Move { dest, src } => {
                if dest < REGISTER_COUNT && src < REGISTER_COUNT {
                    self.registers[dest] = self.registers[src];
                    self.program_counter += 1;
                    Ok(())
                } else {
                    Err(ErrorKind::InvalidRegister { dest, src: Some(src) })
                }
            },
            Instruction::Add { dest, src } => {
                if dest < REGISTER_COUNT && src < REGISTER_COUNT {
                    self.registers[dest] = self.registers[dest].wrapping_add(self.registers[src]);
                    self.program_counter += 1;
                    Ok(())
                } else {
                    Err(ErrorKind::InvalidRegister { dest, src: Some(src) })
                }
            },
            Instruction::Jump { address } => {
                self.program_counter = address;
                Ok(())
            },
            Instruction::Halt => {
                self.running = false;
                Ok(())
            },
        }
    }
}

/// The view of every unit is well formed.
pub proof fn lemma_view_wf(cpu: CPU)
    ensures
        cpu@.wf(),
{
}

/// An instruction without a fault, applied to a state that admits it, leads
/// to a well-formed state again: the register bank keeps its size and the
/// program counter stays within 64 bits.
pub proof fn lemma_step_preserves_wf(s: CpuView, instruction: Instruction)
    requires
        s.wf(),
        s.admits(instruction),
    ensures
        s.step(instruction).wf(),
{
}

/// Loading an immediate into a register of the bank is never refused; the
/// register then holds exactly that value, every other register and the
/// running flag are as before, and the program counter has grown by exactly
/// one.
pub proof fn lemma_load_imm_sets_register(s: CpuView, reg: usize, value: u64)
    requires
        s.wf(),
        reg < REGISTER_COUNT,
    ensures
        (Instruction::LoadImm { reg, value }).fault() is None,
        s.step(Instruction::LoadImm { reg, value }).registers[reg as int] == value,
        s.step(Instruction::LoadImm { reg, value }).program_counter == s.program_counter + 1,
        s.step(Instruction::LoadImm { reg, value }).running == s.running,
        forall|r: int|
            0 <= r < REGISTER_COUNT && r != reg ==> s.step(
                Instruction::LoadImm { reg, value },
            ).registers[r] == s.registers[r],
{
}

/// Loading an immediate into a register outside the bank is refused as an
/// invalid register that names the operand, and changes nothing.
pub proof fn lemma_load_imm_rejects_bad_register(s: CpuView, reg: usize, value: u64)
    requires
        reg >= REGISTER_COUNT,
    ensures
        (Instruction::LoadImm { reg, value }).fault() == Some(
            ErrorKind::InvalidRegister { dest: reg, src: None },
        ),
        s.step(Instruction::LoadImm { reg, value }) == s,
{
}

/// A move or an add with an operand outside the bank is refused as an invalid
/// register that names both operands, and changes nothing.
pub proof fn lemma_two_operand_rejects_bad_register(s: CpuView, dest: usize, src: usize)
    requires
        dest >= REGISTER_COUNT || src >= REGISTER_COUNT,
    ensures
        (Instruction::Move { dest, src }).fault() == Some(
            ErrorKind::InvalidRegister { dest, src: Some(src) },
        ),
        (Instruction::Add { dest, src }).fault() == Some(
            ErrorKind::InvalidRegister { dest, src: Some(src) },
        ),
        s.step(Instruction::Move { dest, src }) == s,
        s.step(Instruction::Add { dest, src }) == s,
{
}

/// An add leaves in `dest` the exact sum of the two operands modulo 2^64,
/// touches no other register, and moves the program counter on by one.
pub proof fn lemma_add_is_exact(s: CpuView, dest: usize, src: usize)
    requires
        s.wf(),
        dest < REGISTER_COUNT,
        src < REGISTER_COUNT,
    ensures
        (Instruction::Add { dest, src }).fault() is None,
        s.step(Instruction::Add { dest, src }).registers[dest as int] == (s.registers[dest as int]
            + s.registers[src as int]) % 0x1_0000_0000_0000_0000,
        s.step(Instruction::Add { dest, src }).program_counter == s.program_counter + 1,
        s.step(Instruction::Add { dest, src }).running == s.running,
        forall|r: int|
            0 <= r < REGISTER_COUNT && r != dest ==> s.step(
                Instruction::Add { dest, src },
            ).registers[r] == s.registers[r],
{
}

/// Addition commutes in its result: from one state, adding `b` to `a` leaves
/// in `a` what adding `a` to `b` leaves in `b`.
pub proof fn lemma_add_commutes(s: CpuView, a: usize, b: usize)
    requires
        s.wf(),
        a < REGISTER_COUNT,
        b < REGISTER_COUNT,
    ensures
        s.step(Instruction::Add { dest: a, src: b }).registers[a as int] == s.step(
            Instruction::Add { dest: b, src: a },
        ).registers[b as int],
{
}

/// Overflow of an add is silent and wraps: where the operands sum to 2^64 or
/// more, the result is the sum less 2^64; otherwise it is the sum itself.
pub proof fn lemma_add_wraps(a: u64, b: u64)
    ensures
        a + b <= u64::MAX ==> wrapping_sum(a, b) == a + b,
        a + b > u64::MAX ==> wrapping_sum(a, b) == a + b - 0x1_0000_0000_0000_0000,
        wrapping_sum(a, b) == a.wrapping_add(b),
{
}

/// A move makes `dest` equal to `src` by value: both then hold what `src`
/// held, and a later load into `src` leaves `dest` untouched.
pub proof fn lemma_move_copies_by_value(s: CpuView, dest: usize, src: usize, later: u64)
    requires
        s.wf(),
        dest < REGISTER_COUNT,
        src < REGISTER_COUNT,
    ensures
        (Instruction::Move { dest, src }).fault() is None,
        s.step(Instruction::Move { dest, src }).registers[dest as int] == s.registers[src as int],
        s.step(Instruction::Move { dest, src }).registers[src as int] == s.registers[src as int],
        s.step(Instruction::Move { dest, src }).program_counter == s.program_counter + 1,
        s.step(Instruction::Move { dest, src }).running == s.running,
        forall|r: int|
            0 <= r < REGISTER_COUNT && r != dest ==> s.step(
                Instruction::Move { dest, src },
            ).registers[r] == s.registers[r],
        dest != src ==> s.step(Instruction::Move { dest, src }).step(
            Instruction::LoadImm { reg: src, value: later },
        ).registers[dest as int] == s.registers[src as int],
{
}

/// A jump is never refused and sets the program counter to exactly its
/// address, whatever the counter held before, without moving it on; the
/// registers and the running flag stay as they were.
pub proof fn lemma_jump_sets_program_counter(s: CpuView, address: u64)
    ensures
        (Instruction::Jump { address }).fault() is None,
        s.admits(Instruction::Jump { address }),
        s.step(Instruction::Jump { address }).program_counter == address,
        s.step(Instruction::Jump { address }).registers == s.registers,
        s.step(Instruction::Jump { address }).running == s.running,
{
}

/// A halt is never refused and clears the running flag, whatever the flag
/// held before; the registers and the program counter stay as they were.
pub proof fn lemma_halt_stops(s: CpuView)
    ensures
        Instruction::Halt.fault() is None,
        s.admits(Instruction::Halt),
        !s.step(Instruction::Halt).running,
        s.step(Instruction::Halt).registers == s.registers,
        s.step(Instruction::Halt).program_counter == s.program_counter,
{
}

/// Only a halt clears the running flag: every other instruction, refused or
/// applied, leaves the flag as it found it.
pub proof fn lemma_only_halt_stops(s: CpuView, instruction: Instruction)
    requires
        !(instruction is Halt),
    ensures
        s.step(instruction).running == s.running,
{
}

} // verus!
