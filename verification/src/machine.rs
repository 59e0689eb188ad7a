//! The host: it owns the execution units and the memory region, keeps a
//! coarse lifecycle state, and feeds programs to a unit.

use crate::cpu::{CpuView, Instruction, CPU, REGISTER_COUNT};
use crate::error::ErrorKind;
use vstd::prelude::*;

verus! {

/// The lifecycle of a host. It records what the host was asked to do and is
/// independent of the running flag of each unit: a halt clears a unit's flag
/// and leaves the lifecycle alone.
#[derive(Debug, Clone, Copy, PartialEq, Eq)]
pub enum VMState {
    Created,
    Running,
    Stopped,
    Error,
}

/// What a host is built from.
#[derive(Debug, Clone, Copy)]
pub struct VMConfig {
    /// Size of the memory region in bytes.
    pub memory_size: usize,
    /// Number of execution units.
    pub num_cpus: u32,
}

/// A host with its execution units and its memory region.
pub struct VirtualMachine {
    pub state: VMState,
    pub config: VMConfig,
    pub memory: Vec<u8>,
    pub cpus: Vec<CPU>,
}

/// The mathematical state of a host.
pub struct MachineView {
    pub state: VMState,
    pub config: VMConfig,
    pub memory: Seq<u8>,
    pub cpus: Seq<CpuView>,
}

impl View for VirtualMachine {
    type V = MachineView;

    open spec fn view(&self) -> MachineView {
        MachineView {
            state: self.state,
            config: self.config,
            memory: self.memory@,
            cpus: Seq::new(self.cpus@.len(), |i: int| self.cpus@[i]@),
        }
    }
}

impl CpuView {
    /// The state in which a loader hands a unit its program: the program
    /// counter at the start address, the running flag set, the registers as
    /// they were.
    pub open spec fn booted(self, start_address: u64) -> CpuView {
        CpuView {
            registers: self.registers,
            program_counter: start_address as int,
            running: true,
        }
    }

    /// The state in which feeding `program` to the unit ends. Instructions
    /// are applied in order; the feed ends at the first refused instruction,
    /// which has no effect, as soon as the running flag is clear after an
    /// instruction, or with the program. Nothing is rolled back.
    pub open spec fn run(self, program: Seq<Instruction>) -> CpuView
        decreases program.len(),
    {
        if program.len() == 0 || program[0].fault() is Some {
            self
        } else if !self.apply(program[0]).running {
            self.apply(program[0])
        } else {
            self.apply(program[0]).run(program.drop_first())
        }
    }

    /// How feeding `program` to the unit ends: with the fault of the first
    /// refused instruction that is reached, or without error.
    pub open spec fn run_result(self, program: Seq<Instruction>) -> Result<(), ErrorKind>
        decreases program.len(),
    {
        if program.len() == 0 {
            Ok(())
        } else {
            match program[0].fault() {
                Some(e) => Err(e),
                None => if !self.apply(program[0]).running {
                    Ok(())
                } else {
                    self.apply(program[0]).run_result(program.drop_first())
                },
            }
        }
    }

    /// Whether the unit has room for every instruction that feeding `program`
    /// to it reaches.
    pub open spec fn admits_run(self, program: Seq<Instruction>) -> bool
        decreases program.len(),
    {
        if program.len() == 0 || program[0].fault() is Some {
            true
        } else if !self.admits(program[0]) {
            false
        } else if !self.apply(program[0]).running {
            true
        } else {
            self.apply(program[0]).admits_run(program.drop_first())
        }
    }
}

impl MachineView {
    /// Whether the host is as its configuration says: the memory region has
    /// the configured size, there are as many units as configured, and each
    /// unit is well formed.
    pub open spec fn wf(self) -> bool {
        &&& self.memory.len() == self.config.memory_size
        &&& self.cpus.len() == self.config.num_cpus
        &&& forall|i: int| 0 <= i < self.cpus.len() ==> (#[trigger] self.cpus[i]).wf()
    }

    /// The state of a host that was just built from `config`: created, the
    /// memory all zero, every unit in its reset state.
    pub open spec fn fresh(config: VMConfig) -> MachineView {
        MachineView {
            state: VMState::Created,
            config,
            memory: Seq::new(config.memory_size as nat, |i: int| 0u8),
            cpus: Seq::new(config.num_cpus as nat, |i: int| CpuView::reset()),
        }
    }

    /// The host is asked to run: whatever its lifecycle state was, it is now
    /// running.
    pub open spec fn started(self) -> MachineView {
        MachineView { state: VMState::Running, ..self }
    }

    /// The host is asked to stop: a running host becomes stopped; any other
    /// host had no right to stop and latches into the error state.
    pub open spec fn stopped(self) -> MachineView {
        MachineView {
            state: if self.state == VMState::Running {
                VMState::Stopped
            } else {
                VMState::Error
            },
            ..self
        }
    }

    /// The host after `value` was stored at `address` of its memory.
    pub open spec fn written(self, address: usize, value: u8) -> MachineView {
        MachineView { memory: self.memory.update(address as int, value), ..self }
    }

    /// The host after `program` was fed to its first unit from
    /// `start_address`. Only that unit changes.
    pub open spec fn loaded(self, program: Seq<Instruction>, start_address: u64) -> MachineView {
        MachineView {
            cpus: self.cpus.update(0, self.cpus[0].booted(start_address).run(program)),
            ..self
        }
    }
}

impl VirtualMachine {
    /// Builds a host from its configuration.
    pub fn new(config: VMConfig) -> (vm: VirtualMachine)
        ensures
            vm@ == MachineView::fresh(config),
            vm@.wf(),
            vm.cpus@.len() == config.num_cpus,
            forall|i: int| 0 <= i < vm.cpus@.len() ==> (#[trigger] vm.cpus@[i])@ == CpuView::reset(),
    {
        let mut cpus: Vec<CPU> = Vec::with_capacity(config.num_cpus as usize);
        for n in 0..config.num_cpus
            invariant
                cpus@.len() == n,
                forall|i: int| 0 <= i < n ==> (#[trigger] cpus@[i])@ == CpuView::reset(),
        {
            cpus.push(CPU::new());
        }
        let vm = VirtualMachine {
            state: VMState::Created,
            memory: vec![0; config.memory_size],
            cpus,
            config,
        };
        assert(vm@.memory =~= MachineView::fresh(config).memory);
        assert(vm@.cpus =~= MachineView::fresh(config).cpus);
        vm
    }

    /// Marks the host as running.
    pub fn start(&mut self)
        ensures
            final(self)@ == old(self)@.started(),
            final(self).cpus@ == old(self).cpus@,
            old(self)@.wf() ==> final(self)@.wf(),
    {
        self.state = VMState::Running;
    }

    /// Marks a running host as stopped. A host that is not running cannot
    /// stop: the call fails and the host latches into the error state.
    pub fn stop(&mut self) -> (result: Result<(), ErrorKind>)
        ensures
            final(self)@ == old(self)@.stopped(),
            final(self).cpus@ == old(self).cpus@,
            old(self)@.wf() ==> final(self)@.wf(),
            old(self).state == VMState::Running ==> result is Ok,
            old(self).state != VMState::Running ==> result == Err::<(), ErrorKind>(
                ErrorKind::IllegalTransition,
            ),
    {
        match self.state {
            VMState::Running => {
                self.state = VMState::Stopped;
                Ok(())
            },
            VMState::Created | VMState::Stopped | VMState::Error => {
                self.state = VMState::Error;
                Err(ErrorKind::IllegalTransition)
            },
        }
    }

    /// Stores one byte in memory. An address at or beyond the end of the
    /// region is refused and nothing is stored.
    pub fn write_byte(&mut self, address: usize, value: u8) -> (result: Result<(), ErrorKind>)
        ensures
            address < old(self).memory@.len() ==> result is Ok
                && final(self)@ == old(self)@.written(address, value),
            address >= old(self).memory@.len() ==> result == Err::<(), ErrorKind>(
                ErrorKind::OutOfBounds { address },
            ) && *final(self) == *old(self),
            final(self).cpus@ == old(self).cpus@,
            old(self)@.wf() ==> final(self)@.wf(),
    {
        if address >= self.memory.len() {
            return Err(ErrorKind::OutOfBounds { address });
        }
        self.memory[address] = value;
        Ok(())
    }

    /// Reads one byte from memory. An address at or beyond the end of the
    /// region is refused.
    pub fn read_byte(&self, address: usize) -> (result: Result<u8, ErrorKind>)
        ensures
            address < self.memory@.len() ==> result == Ok::<u8, ErrorKind>(
                self.memory@[address as int],
            ),
            address >= self.memory@.len() ==> result == Err::<u8, ErrorKind>(
                ErrorKind::OutOfBounds { address },
            ),
    {
        if address >= self.memory.len() {
            return Err(ErrorKind::OutOfBounds { address });
        }
        Ok(self.memory[address])
    }

    /// Whether `load_program` may be called with this program and start
    /// address: whether the first unit, if there is one, has room for every
    /// instruction that the feed reaches. The registers play no part in it,
    /// so the program is followed by its program counter alone.
    pub fn can_load(&self, program: &[Instruction], start_address: u64) -> (ok: bool)
        ensures
            ok == (self.cpus@.len() > 0 ==> self@.cpus[0].booted(start_address).admits_run(
                program@,
            )),
    {
        if self.cpus.is_empty() {
            return true;
        }
        let ghost boot = self@.cpus[0].booted(start_address);
        let ghost mut unit = boot;
        assert(program@.skip(0) =~= program@);
        let mut counter: u64 = start_address;
        let mut i: usize = 0;
        while i < program.len()
            invariant
                i <= program@.len(),
                self.cpus@.len() > 0,
                boot == self@.cpus[0].booted(start_address),
                unit.program_counter == counter,
                unit.running,
                unit.admits_run(program@.skip(i as int)) == boot.admits_run(program@),
            decreases program@.len() - i,
        {
            let ghost rest = program@.skip(i as int);
            assert(rest.len() > 0 && rest[0] == program@[i as int]);
            assert(rest.drop_first() =~= program@.skip(i + 1));
            let valid = match program[i] {
                Instruction::LoadImm { reg, value } => reg < REGISTER_COUNT,
                Instruction::Move { dest, src } => dest < REGISTER_COUNT && src < REGISTER_COUNT,
                Instruction::Add { dest, src } => dest < REGISTER_COUNT && src < REGISTER_COUNT,
                Instruction::Jump { address } => true,
                Instruction::Halt => true,
            };
            if !valid {
                return true;
            }
            match program[i] {
                Instruction::LoadImm { .. } | Instruction::Move { .. } | Instruction::Add { .. } => {
                    if counter == u64::MAX {
                        return false;
                    }
                    counter += 1;
                },
                Instruction::Jump { address } => {
                    counter = address;
                },
                Instruction::Halt => {
                    return true;
                },
            }
            proof {
                unit = unit.apply(program@[i as int]);
            }
            i += 1;
        }
        true
    }

    /// Feeds a program to the first unit.
    ///
    /// A host without units refuses the program and nothing changes.
    /// Otherwise the unit is booted at `start_address` and the instructions
    /// are applied in order, until one is refused, which ends the feed with
    /// its error, or until the unit is no longer running, or the program
    /// ends. What was applied before a refused instruction stays applied. The
    /// lifecycle state of the host plays no part and is left alone.
    ///
    /// The unit must have room for every instruction that the feed reaches;
    /// `can_load` tests for it.
    pub fn load_program(&mut self, program: &[Instruction], start_address: u64) -> (result: Result<
        (),
        ErrorKind,
    >)
        requires
            old(self).cpus@.len() > 0 ==> old(self)@.cpus[0].booted(start_address).admits_run(
                program@,
            ),
        ensures
            old(self).cpus@.len() == 0 ==> result == Err::<(), ErrorKind>(
                ErrorKind::NoUnitsAvailable,
            ) && *final(self) == *old(self),
            old(self).cpus@.len() > 0 ==> result == old(self)@.cpus[0].booted(
                start_address,
            ).run_result(program@) && final(self)@ == old(self)@.loaded(program@, start_address),
            old(self).cpus@.len() > 0 ==> final(self).cpus@[0]@ == old(self).cpus@[0]@.booted(
                start_address,
            ).run(program@),
            old(self).cpus@.len() > 0 ==> final(self).cpus@ == old(self).cpus@.update(
                0,
                final(self).cpus@[0],
            ),
            old(self)@.wf() ==> final(self)@.wf(),
    {
        if self.cpus.is_empty() {
            return Err(ErrorKind::NoUnitsAvailable);
        }
        let cpu = &mut self.cpus[0];
        cpu.program_counter = start_address;
        cpu.running = true;

        let ghost boot = cpu@;
        assert(program@.skip(0) =~= program@);
        let mut result: Result<(), ErrorKind> = Ok(());
        let mut i: usize = 0;
        while i < program.len()
            invariant_except_break
                result == Ok::<(), ErrorKind>(()),
                cpu@.admits_run(program@.skip(i as int)),
                cpu@.run(program@.skip(i as int)) == boot.run(program@),
                cpu@.run_result(program@.skip(i as int)) == boot.run_result(program@),
            invariant
                i <= program@.len(),
                old(self).cpus@.len() > 0,
                after_borrow(self.cpus)@ == old(self).cpus@.update(0, *final(cpu)),
            ensures
                cpu@ == boot.run(program@),
                result == boot.run_result(program@),
            decreases program@.len() - i,
        {
            let ghost rest = program@.skip(i as int);
            assert(rest.len() > 0 && rest[0] == program@[i as int]);
            assert(rest.drop_first() =~= program@.skip(i + 1));
            match cpu.execute(program[i]) {
                Ok(()) => {},
                Err(e) => {
                    result = Err(e);
                    break;
                },
            }
            if !cpu.running {
                break;
            }
            i += 1;
        }
        assert(self@.cpus =~= old(self)@.loaded(program@, start_address).cpus);
        result
    }
}

/// Feeding a program that the unit has room for leads from a well-formed
/// state to a well-formed state.
pub proof fn lemma_run_preserves_wf(s: CpuView, program: Seq<Instruction>)
    requires
        s.wf(),
        s.admits_run(program),
    ensures
        s.run(program).wf(),
    decreases program.len(),
{
    if program.len() > 0 && program[0].fault() is None && s.apply(program[0]).running {
        lemma_run_preserves_wf(s.apply(program[0]), program.drop_first());
    }
}

/// A byte that was written is the byte that is read back from the same
/// address, and a write changes the memory at no other address, nor its size.
pub proof fn lemma_read_after_write(m: MachineView, address: usize, value: u8)
    requires
        address < m.memory.len(),
    ensures
        m.written(address, value).memory[address as int] == value,
        m.written(address, value).memory.len() == m.memory.len(),
        forall|a: int|
            0 <= a < m.memory.len() && a != address ==> m.written(address, value).memory[a]
                == m.memory[a],
{
}

/// Every unit of a freshly built host is in its reset state: all registers
/// and the program counter hold zero and the unit is not running.
pub proof fn lemma_fresh_units_are_reset(config: VMConfig, unit: int)
    requires
        0 <= unit < config.num_cpus,
    ensures
        MachineView::fresh(config).wf(),
        MachineView::fresh(config).cpus.len() == config.num_cpus,
        MachineView::fresh(config).cpus[unit].program_counter == 0,
        !MachineView::fresh(config).cpus[unit].running,
        forall|r: int|
            0 <= r < REGISTER_COUNT ==> MachineView::fresh(config).cpus[unit].registers[r] == 0,
{
}

/// Only a halt stops a unit: feeding a program that holds no halt leaves the
/// running flag as the caller set it, whether the feed ends with the program
/// or at a refused instruction.
pub proof fn lemma_run_without_halt_keeps_running(s: CpuView, program: Seq<Instruction>)
    requires
        forall|i: int| 0 <= i < program.len() ==> !(#[trigger] program[i] is Halt),
    ensures
        s.run(program).running == s.running,
    decreases program.len(),
{
    if program.len() > 0 && program[0].fault() is None && s.apply(program[0]).running {
        let rest = program.drop_first();
        assert forall|i: int| 0 <= i < rest.len() implies !(#[trigger] rest[i] is Halt) by {
            assert(rest[i] == program[i + 1]);
        }
        lemma_run_without_halt_keeps_running(s.apply(program[0]), rest);
    }
}

/// A feed that ends without error and leaves the unit running has gone
/// through the whole program: it met neither a halt nor a refused
/// instruction.
pub proof fn lemma_run_still_running_met_no_halt(s: CpuView, program: Seq<Instruction>)
    requires
        s.run_result(program) is Ok,
        s.run(program).running,
    ensures
        forall|i: int|
            0 <= i < program.len() ==> !(#[trigger] program[i] is Halt) && program[i].fault()
                is None,
    decreases program.len(),
{
    if program.len() > 0 {
        let rest = program.drop_first();
        lemma_run_still_running_met_no_halt(s.apply(program[0]), rest);
        assert forall|i: int| 0 <= i < program.len() implies !(#[trigger] program[i] is Halt)
            && program[i].fault() is None by {
            if i > 0 {
                assert(rest[i - 1] == program[i]);
            }
        }
    }
}

} // verus!
