use minivm::cpu::{Instruction, CPU, REGISTER_COUNT};
use minivm::error::ErrorKind;

#[test]
fn test_load_immediate() {
    let mut cpu = CPU::new();
    assert!(cpu.execute(Instruction::LoadImm { reg: 0, value: 42 }).is_ok());
    assert_eq!(cpu.registers[0], 42);
    assert_eq!(cpu.program_counter, 1);

    // test invalid register
    assert!(cpu.execute(Instruction::LoadImm { reg: 16, value: 42 }).is_err());
}

#[test]
fn test_move_between_registers() {
    let mut cpu = CPU::new();
    // first load a value
    cpu.execute(Instruction::LoadImm { reg: 0, value: 42 }).unwrap();
    // then move it
    assert!(cpu.execute(Instruction::Move { dest: 1, src: 0 }).is_ok());
    assert_eq!(cpu.registers[1], 42);

    // test invalid registers
    assert!(cpu.execute(Instruction::Move { dest: 16, src: 0 }).is_err());
    assert!(cpu.execute(Instruction::Move { dest: 0, src: 16 }).is_err());
}

#[test]
fn test_add() {
    let mut cpu = CPU::new();
    // load two values
    cpu.execute(Instruction::LoadImm { reg: 0, value: 42 }).unwrap();
    cpu.execute(Instruction::LoadImm { reg: 1, value: 58 }).unwrap();
    // Add them
    assert!(cpu.execute(Instruction::Add { dest: 0, src: 1 }).is_ok());
    assert_eq!(cpu.registers[0], 100);

    // test overflow (wrapping add)
    cpu.execute(Instruction::LoadImm { reg: 0, value: u64::MAX }).unwrap();
    cpu.execute(Instruction::LoadImm { reg: 1, value: 1 }).unwrap();
    cpu.execute(Instruction::Add { dest: 0, src: 1 }).unwrap();
    assert_eq!(cpu.registers[0], 0); // Should wrap around to 0
}

#[test]
fn test_jump() {
    let mut cpu = CPU::new();
    assert!(cpu.execute(Instruction::Jump { address: 42 }).is_ok());
    assert_eq!(cpu.program_counter, 42);
}

#[test]
fn test_halt() {
    let mut cpu = CPU::new();
    cpu.running = true;
    assert!(cpu.execute(Instruction::Halt).is_ok());
    assert!(!cpu.running);
}

#[test]
fn test_program_sequence() {
    let mut cpu = CPU::new();
    // small program: load two numbers, add them, move result
    let program = [
        Instruction::LoadImm { reg: 0, value: 30 },
        Instruction::LoadImm { reg: 1, value: 12 },
        Instruction::Add { dest: 0, src: 1 },
        Instruction::Move { dest: 2, src: 0 },
        Instruction::Halt,
    ];

    for instruction in program {
        assert!(cpu.execute(instruction).is_ok());
    }

    assert_eq!(cpu.registers[2], 42); // final result
    assert!(!cpu.running); // should be halted
}

#[test]
fn new_unit_is_reset() {
    let cpu = CPU::new();
    assert_eq!(cpu.registers, [0u64; 16]);
    assert_eq!(cpu.registers.len(), REGISTER_COUNT);
    assert_eq!(cpu.program_counter, 0);
    assert!(!cpu.running);
}

#[test]
fn load_immediate_reaches_every_register() {
    for reg in 0..16usize {
        let mut cpu = CPU::new();
        cpu.execute(Instruction::Jump { address: 1000 }).unwrap();
        let value = 0xdead_beef_0000_0000u64 + reg as u64;
        assert_eq!(cpu.execute(Instruction::LoadImm { reg, value }), Ok(()));
        for other in 0..16usize {
            let expected = if other == reg { value } else { 0 };
            assert_eq!(cpu.registers[other], expected);
        }
        assert_eq!(cpu.program_counter, 1001);
        assert!(!cpu.running);
    }
}

#[test]
fn load_immediate_out_of_range_changes_nothing() {
    for reg in [16usize, 17, 255, usize::MAX] {
        let mut cpu = CPU::new();
        cpu.execute(Instruction::LoadImm { reg: 3, value: 9 }).unwrap();
        cpu.running = true;
        let before = cpu.registers;
        assert_eq!(
            cpu.execute(Instruction::LoadImm { reg, value: 42 }),
            Err(ErrorKind::InvalidRegister { dest: reg, src: None })
        );
        assert_eq!(cpu.registers, before);
        assert_eq!(cpu.program_counter, 1);
        assert!(cpu.running);
    }
}

#[test]
fn move_reports_both_operands() {
    let mut cpu = CPU::new();
    cpu.execute(Instruction::LoadImm { reg: 0, value: 7 }).unwrap();
    let before = cpu.registers;
    assert_eq!(
        cpu.execute(Instruction::Move { dest: 16, src: 0 }),
        Err(ErrorKind::InvalidRegister { dest: 16, src: Some(0) })
    );
    assert_eq!(
        cpu.execute(Instruction::Move { dest: 0, src: 16 }),
        Err(ErrorKind::InvalidRegister { dest: 0, src: Some(16) })
    );
    assert_eq!(
        cpu.execute(Instruction::Move { dest: 20, src: 30 }),
        Err(ErrorKind::InvalidRegister { dest: 20, src: Some(30) })
    );
    assert_eq!(cpu.registers, before);
    assert_eq!(cpu.program_counter, 1);
}

#[test]
fn add_reports_both_operands() {
    let mut cpu = CPU::new();
    cpu.execute(Instruction::LoadImm { reg: 0, value: 7 }).unwrap();
    let before = cpu.registers;
    assert_eq!(
        cpu.execute(Instruction::Add { dest: 16, src: 0 }),
        Err(ErrorKind::InvalidRegister { dest: 16, src: Some(0) })
    );
    assert_eq!(
        cpu.execute(Instruction::Add { dest: 0, src: 16 }),
        Err(ErrorKind::InvalidRegister { dest: 0, src: Some(16) })
    );
    assert_eq!(cpu.registers, before);
    assert_eq!(cpu.program_counter, 1);
}

#[test]
fn add_is_exact_modulo_two_to_the_64() {
    let mut cpu = CPU::new();
    cpu.execute(Instruction::LoadImm { reg: 4, value: 0xffff_ffff_ffff_fff0 }).unwrap();
    cpu.execute(Instruction::LoadImm { reg: 5, value: 0x25 }).unwrap();
    cpu.execute(Instruction::Add { dest: 4, src: 5 }).unwrap();
    assert_eq!(cpu.registers[4], 0x15);
    assert_eq!(cpu.registers[5], 0x25);
    assert_eq!(cpu.program_counter, 3);

    cpu.execute(Instruction::LoadImm { reg: 6, value: u64::MAX }).unwrap();
    cpu.execute(Instruction::Add { dest: 6, src: 6 }).unwrap();
    assert_eq!(cpu.registers[6], u64::MAX - 1);
}

#[test]
fn add_commutes_in_its_result() {
    let mut left = CPU::new();
    left.execute(Instruction::LoadImm { reg: 1, value: u64::MAX - 3 }).unwrap();
    left.execute(Instruction::LoadImm { reg: 2, value: 10 }).unwrap();
    let mut right = CPU::new();
    right.execute(Instruction::LoadImm { reg: 1, value: u64::MAX - 3 }).unwrap();
    right.execute(Instruction::LoadImm { reg: 2, value: 10 }).unwrap();

    left.execute(Instruction::Add { dest: 1, src: 2 }).unwrap();
    right.execute(Instruction::Add { dest: 2, src: 1 }).unwrap();
    assert_eq!(left.registers[1], 6);
    assert_eq!(right.registers[2], 6);
    assert_eq!(left.registers[2], 10);
    assert_eq!(right.registers[1], u64::MAX - 3);
}

#[test]
fn move_copies_by_value() {
    let mut cpu = CPU::new();
    cpu.execute(Instruction::LoadImm { reg: 7, value: 1234 }).unwrap();
    cpu.execute(Instruction::Move { dest: 8, src: 7 }).unwrap();
    assert_eq!(cpu.registers[8], cpu.registers[7]);
    assert_eq!(cpu.registers[8], 1234);
    assert_eq!(cpu.program_counter, 2);

    cpu.execute(Instruction::LoadImm { reg: 7, value: 99 }).unwrap();
    assert_eq!(cpu.registers[7], 99);
    assert_eq!(cpu.registers[8], 1234);
}

#[test]
fn move_onto_itself_keeps_the_value() {
    let mut cpu = CPU::new();
    cpu.execute(Instruction::LoadImm { reg: 15, value: 5 }).unwrap();
    cpu.execute(Instruction::Move { dest: 15, src: 15 }).unwrap();
    assert_eq!(cpu.registers[15], 5);
    assert_eq!(cpu.program_counter, 2);
}

#[test]
fn jump_overrides_any_counter_and_does_not_advance() {
    let mut cpu = CPU::new();
    cpu.program_counter = 0xabcd;
    cpu.running = true;
    cpu.registers[3] = 3;
    assert_eq!(cpu.execute(Instruction::Jump { address: u64::MAX }), Ok(()));
    assert_eq!(cpu.program_counter, u64::MAX);
    assert_eq!(cpu.execute(Instruction::Jump { address: 0 }), Ok(()));
    assert_eq!(cpu.program_counter, 0);
    assert!(cpu.running);
    assert_eq!(cpu.registers[3], 3);
}

#[test]
fn halt_clears_the_flag_from_either_value() {
    let mut cpu = CPU::new();
    cpu.program_counter = 12;
    assert!(!cpu.running);
    assert_eq!(cpu.execute(Instruction::Halt), Ok(()));
    assert!(!cpu.running);
    cpu.running = true;
    assert_eq!(cpu.execute(Instruction::Halt), Ok(()));
    assert!(!cpu.running);
    assert_eq!(cpu.program_counter, 12);
    assert_eq!(cpu.registers, [0u64; 16]);
}

#[test]
fn only_halt_touches_the_running_flag() {
    let mut cpu = CPU::new();
    cpu.running = true;
    cpu.execute(Instruction::LoadImm { reg: 0, value: 1 }).unwrap();
    cpu.execute(Instruction::Move { dest: 1, src: 0 }).unwrap();
    cpu.execute(Instruction::Add { dest: 1, src: 0 }).unwrap();
    cpu.execute(Instruction::Jump { address: 9 }).unwrap();
    assert!(cpu.execute(Instruction::Add { dest: 99, src: 0 }).is_err());
    assert!(cpu.running);
    assert_eq!(cpu.registers[1], 2);
}

#[test]
fn can_execute_guards_the_last_counter_value() {
    let mut cpu = CPU::new();
    assert!(cpu.can_execute(Instruction::LoadImm { reg: 0, value: 1 }));
    cpu.execute(Instruction::Jump { address: u64::MAX }).unwrap();
    assert!(!cpu.can_execute(Instruction::LoadImm { reg: 0, value: 1 }));
    assert!(!cpu.can_execute(Instruction::Move { dest: 0, src: 1 }));
    assert!(!cpu.can_execute(Instruction::Add { dest: 0, src: 1 }));
    // a refused instruction, a jump and a halt leave the counter alone
    assert!(cpu.can_execute(Instruction::LoadImm { reg: 16, value: 1 }));
    assert!(cpu.can_execute(Instruction::Move { dest: 0, src: 16 }));
    assert!(cpu.can_execute(Instruction::Add { dest: 16, src: 0 }));
    assert!(cpu.can_execute(Instruction::Jump { address: 3 }));
    assert!(cpu.can_execute(Instruction::Halt));

    cpu.execute(Instruction::Jump { address: u64::MAX - 1 }).unwrap();
    assert!(cpu.can_execute(Instruction::LoadImm { reg: 0, value: 1 }));
    cpu.execute(Instruction::LoadImm { reg: 0, value: 1 }).unwrap();
    assert_eq!(cpu.program_counter, u64::MAX);
}
