use gameboy::gameboy::{GameBoy, FRAME_STEP_LIMIT};

fn console_with(code: &[u8]) -> GameBoy {
    let mut rom = vec![0u8; 0x100];
    rom.extend_from_slice(code);
    rom.resize(0x8000, 0x00);
    let mut gb = GameBoy::new();
    gb.load_rom(&rom);
    gb
}

#[test]
fn console_powers_on_at_entry_point() {
    let gb = GameBoy::new();
    assert_eq!(gb.cpu.pc, 0x0100);
    assert_eq!(gb.cpu.sp, 0xFFFE);
    assert_eq!(gb.cpu.cycles, 0);
}

#[test]
fn step_services_a_pending_interrupt() {
    let mut gb = console_with(&[0x00]);
    gb.cpu.bus.interrupts.ime = true;
    gb.cpu.bus.interrupts.interrupt_enable = 0x04;
    gb.cpu.bus.interrupts.interrupt_flag = 0x05;
    assert_eq!(gb.step(), 20);
    assert_eq!(gb.cpu.pc, 0x0050);
    assert!(!gb.cpu.bus.interrupts.ime);
    assert_eq!(gb.cpu.bus.interrupts.interrupt_flag, 0x01);
    assert_eq!(gb.cpu.sp, 0xFFFC);
    assert_eq!(gb.cpu.pop(), 0x0100);
    assert_eq!(gb.cpu.cycles, 0);
}

#[test]
fn interrupt_wakes_a_halted_cpu() {
    let mut gb = console_with(&[0x76]);
    assert_eq!(gb.step(), 4);
    assert!(gb.cpu.halted);
    assert_eq!(gb.step(), 4);
    assert!(gb.cpu.halted);
    gb.cpu.bus.interrupts.ime = true;
    gb.cpu.bus.interrupts.interrupt_enable = 0x01;
    gb.cpu.bus.interrupts.interrupt_flag = 0x01;
    assert_eq!(gb.step(), 20);
    assert!(!gb.cpu.halted);
    assert_eq!(gb.cpu.pc, 0x0040);
}

#[test]
fn pending_without_a_source_steps_the_cpu() {
    let mut gb = console_with(&[0x3E, 0x07]);
    gb.cpu.bus.interrupts.ime = true;
    gb.cpu.bus.interrupts.interrupt_enable = 0x80;
    gb.cpu.bus.interrupts.interrupt_flag = 0x80;
    assert_eq!(gb.step(), 8);
    assert_eq!(gb.cpu.a, 0x07);
    assert!(gb.cpu.bus.interrupts.ime);
}

#[test]
fn steps_advance_the_timer() {
    let mut gb = console_with(&[0x00; 16]);
    gb.cpu.bus.write_byte(0xFF07, 0x05);
    for _ in 0..4 {
        assert_eq!(gb.step(), 4);
    }
    assert_eq!(gb.cpu.bus.read_byte(0xFF05), 1);
}

#[test]
fn steps_advance_the_ppu() {
    let mut gb = console_with(&[0x00; 64]);
    for _ in 0..20 {
        gb.step();
    }
    assert_eq!(gb.cpu.bus.read_byte(0xFF41) & 0x03, 3);
}

#[test]
fn timer_interrupt_is_taken_by_the_next_step() {
    let mut gb = console_with(&[0x00; 16]);
    gb.cpu.bus.write_byte(0xFF05, 0xFF);
    gb.cpu.bus.write_byte(0xFF07, 0x05);
    gb.cpu.bus.interrupts.ime = true;
    gb.cpu.bus.interrupts.interrupt_enable = 0x04;
    for _ in 0..4 {
        gb.step();
    }
    assert_eq!(gb.cpu.bus.interrupts.interrupt_flag & 0x04, 0x04);
    assert_eq!(gb.step(), 20);
    assert_eq!(gb.cpu.pc, 0x0050);
}

#[test]
fn run_frame_reaches_vblank() {
    let mut gb = console_with(&[0x18, 0xFE]);
    assert!(gb.run_frame());
    assert_eq!(gb.cpu.bus.read_byte(0xFF44), 144);
    assert_eq!(gb.cpu.bus.interrupts.interrupt_flag & 0x01, 0x01);
    assert_eq!(gb.cpu.pc, 0x0100);
    assert!(!gb.cpu.bus.ppu.is_frame_ready());
    assert!(gb.cpu.cycles >= 144 * 456);
    assert!(gb.run_frame());
    assert_eq!(gb.cpu.bus.read_byte(0xFF44), 144);
}

#[test]
fn run_frame_gives_up_with_lcd_off() {
    let mut gb = console_with(&[0x18, 0xFE]);
    gb.cpu.bus.write_byte(0xFF40, 0x00);
    assert!(!gb.run_frame());
    assert_eq!(gb.cpu.cycles, 12 * FRAME_STEP_LIMIT);
}

#[test]
fn run_frame_stops_before_an_undefined_step() {
    let mut gb = console_with(&[0xC3, 0xFE, 0xFF]);
    assert!(!gb.run_frame());
    assert_eq!(gb.cpu.pc, 0xFFFF);
    assert_eq!(gb.cpu.cycles, 20);
}

#[test]
fn reset_starts_over_at_zero() {
    let mut gb = console_with(&[0x3E, 0x12]);
    gb.step();
    gb.reset();
    assert_eq!(gb.cpu.pc, 0);
    assert_eq!(gb.cpu.sp, 0);
    assert_eq!(gb.cpu.a, 0);
    assert_eq!(gb.cpu.cycles, 0);
}

#[test]
fn run_frame_runs_code_in_high_ram() {
    let mut gb = console_with(&[0xC3, 0xFD, 0xFF]);
    gb.cpu.bus.write_byte(0xFFFD, 0x18);
    gb.cpu.bus.write_byte(0xFFFE, 0xFE);
    assert!(gb.run_frame());
    assert_eq!(gb.cpu.pc, 0xFFFD);
    assert_eq!(gb.cpu.bus.read_byte(0xFF44), 144);
}
