use gameboy::cpu::CPU;

fn program(code: &[u8]) -> Vec<u8> {
    let mut program = vec![0; 0x100];
    program.extend_from_slice(code);
    program
}

#[test]
fn test_arithmetic() {
    let mut cpu = CPU::new();
    let program = program(&[0x3E, 0x0A, 0xC6, 0x05, 0xD6, 0x03]);
    cpu.bus.load_rom(&program);

    cpu.step();
    assert_eq!(cpu.a, 10, "A should be 10");
    cpu.step();
    assert_eq!(cpu.a, 15, "A should be 15");
    cpu.step();
    assert_eq!(cpu.a, 12, "A should be 12");
}

#[test]
fn test_16bit_ops() {
    let mut cpu = CPU::new();
    let program = program(&[0x01, 0x34, 0x12, 0x03]);
    cpu.bus.load_rom(&program);

    cpu.step();
    assert_eq!(cpu.get_bc(), 0x1234, "BC should be 0x1234");
    cpu.step();
    assert_eq!(cpu.get_bc(), 0x1235, "BC should be 0x1235");
}

#[test]
fn test_stack() {
    let mut cpu = CPU::new();
    let program = program(&[0x01, 0xCD, 0xAB, 0xC5, 0x01, 0x00, 0x00, 0xC1]);
    cpu.bus.load_rom(&program);

    cpu.step();
    cpu.step();
    let sp_after_push = cpu.sp;

    cpu.step();
    assert_eq!(cpu.get_bc(), 0x0000, "BC should be 0");

    cpu.step();
    assert_eq!(cpu.get_bc(), 0xABCD, "BC should be 0xABCD again");
    assert_eq!(cpu.sp, sp_after_push + 2, "SP should be restored");
}

#[test]
fn test_jumps() {
    let mut cpu = CPU::new();
    let program = program(&[0xAF, 0x28, 0x02, 0x3E, 0x63, 0x3E, 0x2A]);
    cpu.bus.load_rom(&program);

    cpu.step();
    assert_eq!(cpu.a, 0, "A should be 0");
    assert!(cpu.is_zero_flag_set(), "Z flag should be set");

    cpu.step();
    assert_eq!(cpu.pc, 0x0105, "PC should jump to 0x0105");

    cpu.step();
    assert_eq!(cpu.a, 42, "A should be 42");
}

#[test]
fn test_bit_ops() {
    let mut cpu = CPU::new();
    let program = program(&[0x3E, 0xAA, 0xCB, 0x7F, 0xCB, 0xBF]);
    cpu.bus.load_rom(&program);

    cpu.step();
    assert_eq!(cpu.a, 0xAA, "A should be 0xAA");

    cpu.step();
    assert!(!cpu.is_zero_flag_set(), "Bit 7 should be set, Z should be 0");

    cpu.step();
    assert_eq!(cpu.a, 0x2A, "A should be 0x2A (bit 7 cleared)");
}

#[test]
fn test_simple_program() {
    let mut cpu = CPU::new();
    let program = program(&[0x3E, 0x00, 0x06, 0x05, 0x80, 0x05, 0x20, 0xFC, 0x76]);
    cpu.bus.load_rom(&program);

    let max_steps = 100;
    let mut steps = 0;
    while !cpu.halted && steps < max_steps {
        cpu.step();
        steps += 1;
    }

    assert_eq!(cpu.a, 15, "A should be 15 (sum of 1 to 5)");
    assert!(cpu.halted, "CPU should be halted");
}
