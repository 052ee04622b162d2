use gameboy::cpu::CPU;

const Z: u8 = 0x80;
const N: u8 = 0x40;
const H: u8 = 0x20;
const C: u8 = 0x10;

/// A CPU whose cartridge holds `code` at 0x0100, where execution starts.
fn cpu_with(code: &[u8]) -> CPU {
    let mut rom = vec![0u8; 0x100];
    rom.extend_from_slice(code);
    let mut cpu = CPU::new();
    cpu.bus.load_rom(&rom);
    cpu
}

#[test]
fn power_on_registers() {
    let cpu = CPU::new();
    assert_eq!(cpu.pc, 0x0100);
    assert_eq!(cpu.sp, 0xFFFE);
    assert_eq!(cpu.get_af(), 0);
    assert_eq!(cpu.cycles, 0);
    assert!(!cpu.halted);
}

#[test]
fn register_pairs_round_trip() {
    let mut cpu = CPU::new();
    cpu.set_bc(0xBEEF);
    assert_eq!((cpu.b, cpu.c), (0xBE, 0xEF));
    assert_eq!(cpu.get_bc(), 0xBEEF);
    cpu.set_de(0x1234);
    assert_eq!((cpu.d, cpu.e), (0x12, 0x34));
    assert_eq!(cpu.get_de(), 0x1234);
    cpu.set_hl(0xC0DE);
    assert_eq!((cpu.h, cpu.l), (0xC0, 0xDE));
    assert_eq!(cpu.get_hl(), 0xC0DE);
}

#[test]
fn af_drops_low_flag_bits() {
    let mut cpu = CPU::new();
    cpu.set_af(0x12FF);
    assert_eq!(cpu.a, 0x12);
    assert_eq!(cpu.f, 0xF0);
    assert_eq!(cpu.get_af(), 0x12F0);
}

#[test]
fn flag_setters_touch_one_bit() {
    let mut cpu = CPU::new();
    cpu.set_zero_flag(true);
    assert_eq!(cpu.f, Z);
    cpu.set_subtract_flag(true);
    cpu.set_half_carry_flag(true);
    cpu.set_carry_flag(true);
    assert_eq!(cpu.f, Z | N | H | C);
    assert!(cpu.is_zero_flag_set() && cpu.is_subtract_flag_set());
    assert!(cpu.is_half_carry_flag_set() && cpu.is_carry_flag_set());
    cpu.set_half_carry_flag(false);
    assert_eq!(cpu.f, Z | N | C);
    assert!(!cpu.is_half_carry_flag_set());
    cpu.f = 0x0F;
    cpu.set_zero_flag(false);
    assert_eq!(cpu.f, 0x0F);
}

#[test]
fn loads_into_registers() {
    let mut cpu = CPU::new();
    cpu.load_a(1);
    cpu.load_b(2);
    cpu.load_c(3);
    cpu.load_d(4);
    cpu.load_e(5);
    cpu.load_h(6);
    cpu.load_l(7);
    assert_eq!([cpu.a, cpu.b, cpu.c, cpu.d, cpu.e, cpu.h, cpu.l], [1, 2, 3, 4, 5, 6, 7]);
}

#[test]
fn add_takes_half_carry_from_the_sum() {
    let mut cpu = CPU::new();
    cpu.a = 0x0A;
    cpu.add_to_a(0x0F);
    assert_eq!(cpu.a, 0x19);
    assert_eq!(cpu.f, H);
    cpu.a = 0x0F;
    cpu.add_to_a(0x01);
    assert_eq!(cpu.a, 0x10);
    assert_eq!(cpu.f, 0);
    cpu.a = 0xFF;
    cpu.add_to_a(0x01);
    assert_eq!(cpu.a, 0x00);
    assert_eq!(cpu.f, Z | C);
}

#[test]
fn sub_sets_subtract_and_borrow() {
    let mut cpu = CPU::new();
    cpu.a = 0x10;
    cpu.sub_from_a(0x01);
    assert_eq!(cpu.a, 0x0F);
    assert_eq!(cpu.f, N | H);
    cpu.a = 0x01;
    cpu.sub_from_a(0x02);
    assert_eq!(cpu.a, 0xFF);
    assert_eq!(cpu.f, N | H | C);
    cpu.a = 0x42;
    cpu.sub_from_a(0x42);
    assert_eq!(cpu.a, 0);
    assert_eq!(cpu.f, Z | N);
}

#[test]
fn adc_and_sbc_use_the_carry() {
    let mut cpu = CPU::new();
    cpu.a = 0xFF;
    cpu.f = C;
    cpu.adc(0x00);
    assert_eq!(cpu.a, 0x00);
    assert_eq!(cpu.f, Z | H | C);
    cpu.a = 0x10;
    cpu.f = 0;
    cpu.adc(0x20);
    assert_eq!(cpu.a, 0x30);
    assert_eq!(cpu.f, 0);
    cpu.a = 0x00;
    cpu.f = C;
    cpu.sbc(0x00);
    assert_eq!(cpu.a, 0xFF);
    assert_eq!(cpu.f, N | H | C);
    cpu.a = 0x20;
    cpu.f = C;
    cpu.sbc(0x0F);
    assert_eq!(cpu.a, 0x10);
    assert_eq!(cpu.f, N | H);
}

#[test]
fn logic_operations() {
    let mut cpu = CPU::new();
    cpu.a = 0xF0;
    cpu.and(0x0F);
    assert_eq!(cpu.a, 0);
    assert_eq!(cpu.f, Z | H);
    cpu.a = 0xF0;
    cpu.f = C;
    cpu.or(0x0F);
    assert_eq!(cpu.a, 0xFF);
    assert_eq!(cpu.f, 0);
    cpu.xor(0xFF);
    assert_eq!(cpu.a, 0);
    assert_eq!(cpu.f, Z);
}

#[test]
fn compare_leaves_a() {
    let mut cpu = CPU::new();
    cpu.a = 0x3C;
    cpu.cp(0x2F);
    assert_eq!(cpu.a, 0x3C);
    assert_eq!(cpu.f, N | H);
    cpu.cp(0x3C);
    assert_eq!(cpu.f, Z | N);
    cpu.cp(0x40);
    assert_eq!(cpu.f, N | C);
}

#[test]
fn inc_and_dec_keep_carry() {
    let mut cpu = CPU::new();
    cpu.f = C;
    assert_eq!(cpu.inc(0x0F), 0x10);
    assert_eq!(cpu.f, H | C);
    assert_eq!(cpu.inc(0xFF), 0x00);
    assert_eq!(cpu.f, Z | H | C);
    cpu.f = 0;
    assert_eq!(cpu.dec(0x10), 0x0F);
    assert_eq!(cpu.f, N | H);
    assert_eq!(cpu.dec(0x01), 0x00);
    assert_eq!(cpu.f, Z | N);
    assert_eq!(cpu.dec(0x00), 0xFF);
    assert_eq!(cpu.f, N | H);
}

#[test]
fn add_hl_keeps_zero() {
    let mut cpu = CPU::new();
    cpu.f = Z;
    cpu.set_hl(0x0FFF);
    cpu.add_hl(0x0001);
    assert_eq!(cpu.get_hl(), 0x1000);
    assert_eq!(cpu.f, Z | H);
    cpu.set_hl(0xFFFF);
    cpu.add_hl(0x0001);
    assert_eq!(cpu.get_hl(), 0x0000);
    assert_eq!(cpu.f, Z | H | C);
    cpu.f = 0;
    cpu.set_hl(0x1234);
    cpu.add_hl(0x1111);
    assert_eq!(cpu.get_hl(), 0x2345);
    assert_eq!(cpu.f, 0);
}

#[test]
fn accumulator_rotates() {
    let mut cpu = CPU::new();
    cpu.a = 0x85;
    cpu.f = Z;
    cpu.rlca();
    assert_eq!(cpu.a, 0x0B);
    assert_eq!(cpu.f, C);
    cpu.a = 0x85;
    cpu.f = 0;
    cpu.rla();
    assert_eq!(cpu.a, 0x0A);
    assert_eq!(cpu.f, C);
    cpu.rla();
    assert_eq!(cpu.a, 0x15);
    assert_eq!(cpu.f, 0);
    cpu.a = 0x01;
    cpu.rrca();
    assert_eq!(cpu.a, 0x80);
    assert_eq!(cpu.f, C);
    cpu.a = 0x00;
    cpu.rra();
    assert_eq!(cpu.a, 0x80);
    assert_eq!(cpu.f, 0);
}

#[test]
fn decimal_adjust() {
    let mut cpu = CPU::new();
    cpu.a = 0x3C;
    cpu.f = 0;
    cpu.daa();
    assert_eq!(cpu.a, 0x42);
    assert_eq!(cpu.f, 0);
    cpu.a = 0x9A;
    cpu.f = 0;
    cpu.daa();
    assert_eq!(cpu.a, 0x00);
    assert_eq!(cpu.f, Z | C);
    cpu.a = 0x00;
    cpu.f = N | H | C;
    cpu.daa();
    assert_eq!(cpu.a, 0x9A);
    assert_eq!(cpu.f, N | C);
    cpu.a = 0x15;
    cpu.f = 0;
    cpu.add_to_a(0x27);
    cpu.daa();
    assert_eq!(cpu.a, 0x42);
}

#[test]
fn fetches_advance_pc() {
    let mut cpu = cpu_with(&[0x34, 0x12, 0x56]);
    assert_eq!(cpu.fetch_word(), 0x1234);
    assert_eq!(cpu.pc, 0x0102);
    assert_eq!(cpu.fetch_byte(), 0x56);
    assert_eq!(cpu.pc, 0x0103);
}

#[test]
fn push_then_pop() {
    let mut cpu = CPU::new();
    cpu.push(0xBEEF);
    assert_eq!(cpu.sp, 0xFFFC);
    assert_eq!(cpu.bus.read_byte(0xFFFD), 0xBE);
    assert_eq!(cpu.bus.read_byte(0xFFFC), 0xEF);
    cpu.push(0x1234);
    assert_eq!(cpu.pop(), 0x1234);
    assert_eq!(cpu.pop(), 0xBEEF);
    assert_eq!(cpu.sp, 0xFFFE);
}

#[test]
fn call_and_return() {
    let mut code = vec![0xCD, 0x00, 0x02];
    code.resize(0x100, 0x00);
    code.push(0xC9);
    let mut cpu = cpu_with(&code);
    assert_eq!(cpu.step(), 24);
    assert_eq!(cpu.pc, 0x0200);
    assert_eq!(cpu.sp, 0xFFFC);
    assert_eq!(cpu.bus.read_byte(0xFFFC), 0x03);
    assert_eq!(cpu.bus.read_byte(0xFFFD), 0x01);
    assert_eq!(cpu.step(), 16);
    assert_eq!(cpu.pc, 0x0103);
    assert_eq!(cpu.sp, 0xFFFE);
    assert_eq!(cpu.cycles, 40);
}

#[test]
fn conditional_calls_and_returns() {
    let mut cpu = cpu_with(&[0xC4, 0x00, 0x03, 0xC8, 0xD8, 0xC0]);
    cpu.f = Z;
    assert_eq!(cpu.step(), 12);
    assert_eq!(cpu.pc, 0x0103);
    cpu.push(0x0150);
    assert_eq!(cpu.step(), 20);
    assert_eq!(cpu.pc, 0x0150);
    let mut cpu = cpu_with(&[0xD8]);
    assert_eq!(cpu.step(), 8);
    assert_eq!(cpu.pc, 0x0101);
}

#[test]
fn relative_jumps() {
    let mut cpu = cpu_with(&[0x18, 0xFE]);
    assert_eq!(cpu.step(), 12);
    assert_eq!(cpu.pc, 0x0100);
    let mut cpu = cpu_with(&[0x20, 0x05]);
    cpu.f = Z;
    assert_eq!(cpu.step(), 8);
    assert_eq!(cpu.pc, 0x0102);
    let mut cpu = cpu_with(&[0x38, 0x10]);
    cpu.f = C;
    assert_eq!(cpu.step(), 12);
    assert_eq!(cpu.pc, 0x0112);
    let mut cpu = cpu_with(&[0x30, 0x80]);
    assert_eq!(cpu.step(), 12);
    assert_eq!(cpu.pc, 0x0082);
}

#[test]
fn absolute_jumps() {
    let mut cpu = cpu_with(&[0xC3, 0x50, 0x01]);
    assert_eq!(cpu.step(), 16);
    assert_eq!(cpu.pc, 0x0150);
    let mut cpu = cpu_with(&[0xCA, 0x50, 0x01]);
    assert_eq!(cpu.step(), 12);
    assert_eq!(cpu.pc, 0x0103);
    let mut cpu = cpu_with(&[0xD2, 0x50, 0x01]);
    assert_eq!(cpu.step(), 16);
    assert_eq!(cpu.pc, 0x0150);
    let mut cpu = cpu_with(&[0xE9]);
    cpu.set_hl(0x4321);
    assert_eq!(cpu.step(), 4);
    assert_eq!(cpu.pc, 0x4321);
}

#[test]
fn restarts_push_the_next_pc() {
    let mut cpu = cpu_with(&[0xFF]);
    assert_eq!(cpu.step(), 16);
    assert_eq!(cpu.pc, 0x0038);
    assert_eq!(cpu.pop(), 0x0101);
    let mut cpu = cpu_with(&[0xD7]);
    cpu.step();
    assert_eq!(cpu.pc, 0x0010);
}

#[test]
fn reti_does_not_enable_interrupts() {
    let mut cpu = cpu_with(&[0xD9]);
    cpu.push(0x0123);
    assert_eq!(cpu.step(), 16);
    assert_eq!(cpu.pc, 0x0123);
    assert!(!cpu.bus.interrupts.ime);
}

#[test]
fn di_and_ei_take_four_cycles_and_leave_ime() {
    let mut cpu = cpu_with(&[0xFB, 0xF3]);
    assert_eq!(cpu.step(), 4);
    assert!(!cpu.bus.interrupts.ime);
    cpu.bus.interrupts.ime = true;
    assert_eq!(cpu.step(), 4);
    assert!(cpu.bus.interrupts.ime);
}

#[test]
fn memory_loads_and_stores() {
    let mut cpu = cpu_with(&[
        0x21, 0x00, 0xC0, // LD HL,0xC000
        0x3E, 0x55, // LD A,0x55
        0x22, // LD (HL+),A
        0x36, 0x66, // LD (HL),0x66
        0x3A, // LD A,(HL-)
        0x46, // LD B,(HL)
        0xEA, 0x10, 0xC0, // LD (0xC010),A
        0xFA, 0x00, 0xC0, // LD A,(0xC000)
    ]);
    assert_eq!(cpu.step(), 12);
    assert_eq!(cpu.step(), 8);
    assert_eq!(cpu.step(), 8);
    assert_eq!(cpu.get_hl(), 0xC001);
    assert_eq!(cpu.bus.read_byte(0xC000), 0x55);
    assert_eq!(cpu.step(), 12);
    assert_eq!(cpu.bus.read_byte(0xC001), 0x66);
    assert_eq!(cpu.step(), 8);
    assert_eq!(cpu.a, 0x66);
    assert_eq!(cpu.get_hl(), 0xC000);
    assert_eq!(cpu.step(), 8);
    assert_eq!(cpu.b, 0x55);
    assert_eq!(cpu.step(), 16);
    assert_eq!(cpu.bus.read_byte(0xC010), 0x66);
    assert_eq!(cpu.step(), 16);
    assert_eq!(cpu.a, 0x55);
}

#[test]
fn high_page_loads() {
    let mut cpu = cpu_with(&[0x3E, 0x42, 0xE0, 0x80, 0xAF, 0xF0, 0x80, 0x0E, 0x81, 0xE2, 0xF2]);
    cpu.step();
    assert_eq!(cpu.step(), 12);
    assert_eq!(cpu.bus.read_byte(0xFF80), 0x42);
    cpu.step();
    assert_eq!(cpu.a, 0);
    assert_eq!(cpu.step(), 12);
    assert_eq!(cpu.a, 0x42);
    cpu.step();
    assert_eq!(cpu.step(), 8);
    assert_eq!(cpu.bus.read_byte(0xFF81), 0x42);
    cpu.bus.write_byte(0xFF81, 0x24);
    assert_eq!(cpu.step(), 8);
    assert_eq!(cpu.a, 0x24);
}

#[test]
fn stack_pointer_instructions() {
    let mut cpu = cpu_with(&[
        0x31, 0x00, 0xD0, // LD SP,0xD000
        0x08, 0x00, 0xC0, // LD (0xC000),SP
        0xE8, 0xFE, // ADD SP,-2
        0x33, // INC SP
        0x3B, // DEC SP
        0x21, 0x34, 0x12, // LD HL,0x1234
        0xF9, // LD SP,HL
    ]);
    assert_eq!(cpu.step(), 12);
    assert_eq!(cpu.sp, 0xD000);
    assert_eq!(cpu.step(), 20);
    assert_eq!(cpu.bus.read_byte(0xC000), 0x00);
    assert_eq!(cpu.bus.read_byte(0xC001), 0xD0);
    assert_eq!(cpu.step(), 16);
    assert_eq!(cpu.sp, 0xCFFE);
    assert_eq!(cpu.f, 0);
    assert_eq!(cpu.step(), 8);
    assert_eq!(cpu.sp, 0xCFFF);
    assert_eq!(cpu.step(), 8);
    assert_eq!(cpu.sp, 0xCFFE);
    cpu.step();
    assert_eq!(cpu.step(), 8);
    assert_eq!(cpu.sp, 0x1234);
}

#[test]
fn add_sp_flags_from_low_byte() {
    let mut cpu = cpu_with(&[0xE8, 0xFE]);
    cpu.f = Z | N;
    assert_eq!(cpu.step(), 16);
    assert_eq!(cpu.sp, 0xFFFC);
    assert_eq!(cpu.f, H | C);
}

#[test]
fn sixteen_bit_increments_wrap() {
    let mut cpu = cpu_with(&[0x0B, 0x13, 0x23, 0x29, 0x09]);
    cpu.set_bc(0x0000);
    cpu.set_de(0xFFFF);
    cpu.set_hl(0x7FFF);
    cpu.step();
    assert_eq!(cpu.get_bc(), 0xFFFF);
    cpu.step();
    assert_eq!(cpu.get_de(), 0x0000);
    cpu.step();
    assert_eq!(cpu.get_hl(), 0x8000);
    assert_eq!(cpu.step(), 8);
    assert_eq!(cpu.get_hl(), 0x0000);
    assert!(cpu.is_carry_flag_set());
    cpu.step();
    assert_eq!(cpu.get_hl(), 0xFFFF);
}

#[test]
fn push_and_pop_af() {
    let mut cpu = cpu_with(&[0xF5, 0xF1]);
    cpu.a = 0x12;
    cpu.f = 0xFF;
    assert_eq!(cpu.step(), 16);
    cpu.a = 0;
    cpu.f = 0;
    assert_eq!(cpu.step(), 12);
    assert_eq!(cpu.a, 0x12);
    assert_eq!(cpu.f, 0xF0);
}

#[test]
fn register_to_register_loads() {
    let mut cpu = cpu_with(&[0x78, 0x4F, 0x6A, 0x53]);
    cpu.b = 0x11;
    cpu.d = 0x22;
    cpu.e = 0x33;
    assert_eq!(cpu.step(), 4);
    assert_eq!(cpu.a, 0x11);
    cpu.step();
    assert_eq!(cpu.c, 0x11);
    cpu.step();
    assert_eq!(cpu.l, 0x22);
    cpu.step();
    assert_eq!(cpu.d, 0x33);
}

#[test]
fn alu_on_memory_operand() {
    let mut cpu = cpu_with(&[0x86, 0x34, 0x35, 0x35, 0xBE]);
    cpu.set_hl(0xC000);
    cpu.bus.write_byte(0xC000, 0x05);
    cpu.a = 0x10;
    assert_eq!(cpu.step(), 8);
    assert_eq!(cpu.a, 0x15);
    assert_eq!(cpu.step(), 12);
    assert_eq!(cpu.bus.read_byte(0xC000), 0x06);
    cpu.step();
    cpu.step();
    assert_eq!(cpu.bus.read_byte(0xC000), 0x04);
    cpu.a = 0x04;
    cpu.step();
    assert!(cpu.is_zero_flag_set());
}

#[test]
fn complement_and_carry_flag_instructions() {
    let mut cpu = cpu_with(&[0x2F, 0x37, 0x3F, 0x3F]);
    cpu.a = 0x35;
    cpu.step();
    assert_eq!(cpu.a, 0xCA);
    assert_eq!(cpu.f, N | H);
    cpu.step();
    assert_eq!(cpu.f, C);
    cpu.step();
    assert_eq!(cpu.f, 0);
    cpu.step();
    assert_eq!(cpu.f, C);
}

#[test]
fn halt_and_stop() {
    let mut cpu = cpu_with(&[0x76, 0x00]);
    assert_eq!(cpu.step(), 4);
    assert!(cpu.halted);
    assert_eq!(cpu.pc, 0x0101);
    assert_eq!(cpu.step(), 4);
    assert_eq!(cpu.pc, 0x0101);
    assert_eq!(cpu.cycles, 4);
    let mut cpu = cpu_with(&[0x10, 0x00]);
    assert_eq!(cpu.step(), 4);
    assert!(cpu.halted);
    assert_eq!(cpu.pc, 0x0102);
}

#[test]
fn unknown_opcode_is_a_four_cycle_no_op() {
    let mut cpu = cpu_with(&[0xD3]);
    cpu.a = 0x77;
    assert_eq!(cpu.step(), 4);
    assert_eq!(cpu.pc, 0x0101);
    assert_eq!(cpu.a, 0x77);
    assert_eq!(cpu.f, 0);
}

#[test]
fn cb_shifts_and_swaps() {
    let mut cpu = CPU::new();
    cpu.a = 0xF1;
    assert_eq!(cpu.execute_cb_instruction(0x37), 8);
    assert_eq!(cpu.a, 0x1F);
    assert_eq!(cpu.f, 0);
    cpu.b = 0x01;
    cpu.execute_cb_instruction(0x38);
    assert_eq!(cpu.b, 0x00);
    assert_eq!(cpu.f, Z | C);
    cpu.a = 0x81;
    cpu.execute_cb_instruction(0x2F);
    assert_eq!(cpu.a, 0xC0);
    assert_eq!(cpu.f, C);
    cpu.a = 0x80;
    cpu.execute_cb_instruction(0x27);
    assert_eq!(cpu.a, 0x00);
    assert_eq!(cpu.f, Z | C);
    cpu.c = 0x80;
    cpu.f = 0;
    cpu.execute_cb_instruction(0x01);
    assert_eq!(cpu.c, 0x01);
    assert_eq!(cpu.f, C);
    cpu.e = 0x01;
    cpu.execute_cb_instruction(0x1B);
    assert_eq!(cpu.e, 0x80);
    assert_eq!(cpu.f, C);
    cpu.d = 0x00;
    cpu.execute_cb_instruction(0x12);
    assert_eq!(cpu.d, 0x01);
    assert_eq!(cpu.f, 0);
    cpu.h = 0x01;
    cpu.execute_cb_instruction(0x0C);
    assert_eq!(cpu.h, 0x80);
    assert_eq!(cpu.f, C);
}

#[test]
fn cb_bit_tests() {
    let mut cpu = CPU::new();
    cpu.f = C;
    cpu.l = 0x10;
    assert_eq!(cpu.execute_cb_instruction(0x65), 8);
    assert_eq!(cpu.f, H | C);
    assert_eq!(cpu.execute_cb_instruction(0x6D), 8);
    assert_eq!(cpu.f, Z | H | C);
    cpu.set_hl(0xC000);
    cpu.bus.write_byte(0xC000, 0x80);
    assert_eq!(cpu.execute_cb_instruction(0x7E), 12);
    assert!(!cpu.is_zero_flag_set());
    assert_eq!(cpu.execute_cb_instruction(0x46), 12);
    assert!(cpu.is_zero_flag_set());
}

#[test]
fn cb_set_and_reset() {
    let mut cpu = CPU::new();
    cpu.set_hl(0xC000);
    cpu.bus.write_byte(0xC000, 0x00);
    assert_eq!(cpu.execute_cb_instruction(0xDE), 16);
    assert_eq!(cpu.bus.read_byte(0xC000), 0x08);
    assert_eq!(cpu.execute_cb_instruction(0x9E), 16);
    assert_eq!(cpu.bus.read_byte(0xC000), 0x00);
    cpu.a = 0xFF;
    cpu.f = 0xF0;
    assert_eq!(cpu.execute_cb_instruction(0xBF), 8);
    assert_eq!(cpu.a, 0x7F);
    assert_eq!(cpu.f, 0xF0);
    cpu.b = 0;
    cpu.execute_cb_instruction(0xC0);
    assert_eq!(cpu.b, 0x01);
}

#[test]
fn cb_on_memory_operand() {
    let mut cpu = CPU::new();
    cpu.set_hl(0xC100);
    cpu.bus.write_byte(0xC100, 0x12);
    assert_eq!(cpu.execute_cb_instruction(0x36), 16);
    assert_eq!(cpu.bus.read_byte(0xC100), 0x21);
    assert_eq!(cpu.execute_cb_instruction(0x3E), 16);
    assert_eq!(cpu.bus.read_byte(0xC100), 0x10);
    assert!(cpu.is_carry_flag_set());
}

#[test]
fn prefixed_opcode_through_step() {
    let mut cpu = cpu_with(&[0xCB, 0x37]);
    cpu.a = 0xAB;
    assert_eq!(cpu.step(), 8);
    assert_eq!(cpu.a, 0xBA);
    assert_eq!(cpu.pc, 0x0102);
}

#[test]
fn execute_instruction_directly() {
    let mut cpu = CPU::new();
    cpu.b = 0x07;
    assert_eq!(cpu.execute_instruction(0x80), 4);
    assert_eq!(cpu.a, 0x07);
    assert_eq!(cpu.pc, 0x0100);
}

#[test]
fn run_cycles_runs_enough_instructions() {
    let mut cpu = cpu_with(&[0x00; 32]);
    cpu.run_cycles(40);
    assert_eq!(cpu.cycles, 40);
    assert_eq!(cpu.pc, 0x010A);
    let mut cpu = cpu_with(&[0x01, 0x00, 0x00, 0x00, 0x00]);
    cpu.run_cycles(13);
    assert_eq!(cpu.cycles, 16);
    cpu.run_cycles(0);
    assert_eq!(cpu.cycles, 16);
}

#[test]
fn run_cycles_stops_when_halted() {
    let mut cpu = cpu_with(&[0x00, 0x76]);
    cpu.run_cycles(1000);
    assert!(cpu.halted);
    assert_eq!(cpu.cycles, 8);
}

#[test]
fn next_step_ok_finds_the_faulting_steps() {
    let cpu = cpu_with(&[0x00]);
    assert!(cpu.next_step_ok());
    let mut cpu = CPU::new();
    cpu.pc = 0xFFFD;
    assert!(cpu.next_step_ok());
    cpu.pc = 0xFFFF;
    assert!(!cpu.next_step_ok());
    cpu.pc = 0xFFFE;
    cpu.bus.write_byte(0xFFFE, 0x3E);
    assert!(!cpu.next_step_ok());
    let cpu = cpu_with(&[0x08, 0xFF, 0xFF]);
    assert!(!cpu.next_step_ok());
    let cpu = cpu_with(&[0x08, 0xFE, 0xFF]);
    assert!(cpu.next_step_ok());
    let mut cpu = cpu_with(&[0x00]);
    cpu.cycles = u64::MAX - 3;
    assert!(!cpu.next_step_ok());
    cpu.cycles = u64::MAX - 4;
    assert!(cpu.next_step_ok());
    cpu.halted = true;
    cpu.cycles = u64::MAX;
    assert!(cpu.next_step_ok());
}

#[test]
fn next_step_ok_follows_the_cartridge() {
    let mut rom = vec![0u8; 0x200];
    rom[0x147] = 0x01;
    rom[0x100] = 0x00;
    let mut cpu = CPU::new();
    cpu.bus.load_rom(&rom);
    assert!(cpu.next_step_ok());
    cpu.bus.write_byte(0x6000, 1);
    assert!(!cpu.next_step_ok());
    cpu.pc = 0xC000;
    cpu.bus.write_byte(0xC000, 0x00);
    assert!(cpu.next_step_ok());
    cpu.bus.write_byte(0xC000, 0xFA);
    cpu.bus.write_byte(0xC001, 0x00);
    cpu.bus.write_byte(0xC002, 0x40);
    assert!(!cpu.next_step_ok());
    cpu.bus.write_byte(0xC002, 0xD0);
    assert!(cpu.next_step_ok());
    cpu.bus.write_byte(0xC000, 0xC5);
    cpu.sp = 0xFF48;
    cpu.b = 0x10;
    cpu.c = 0x00;
    assert!(cpu.next_step_ok());
    cpu.c = 0x01;
    assert!(!cpu.next_step_ok());
    cpu.c = 0xC1;
    assert!(cpu.next_step_ok());
}

#[test]
fn run_cycles_runs_up_to_the_last_byte() {
    let mut cpu = CPU::new();
    cpu.pc = 0xFFFD;
    cpu.run_cycles(4);
    assert_eq!(cpu.cycles, 4);
    assert_eq!(cpu.pc, 0xFFFE);
    cpu.run_cycles(100);
    assert_eq!(cpu.cycles, 8);
    assert_eq!(cpu.pc, 0xFFFF);
}

#[test]
fn reset_clears_registers_but_not_memory() {
    let mut cpu = cpu_with(&[0x00]);
    cpu.a = 1;
    cpu.set_bc(0x2345);
    cpu.halted = true;
    cpu.cycles = 99;
    cpu.bus.write_byte(0xC000, 0x77);
    cpu.reset();
    assert_eq!(cpu.get_af(), 0);
    assert_eq!(cpu.get_bc(), 0);
    assert_eq!(cpu.get_de(), 0);
    assert_eq!(cpu.get_hl(), 0);
    assert_eq!(cpu.pc, 0);
    assert_eq!(cpu.sp, 0);
    assert_eq!(cpu.cycles, 0);
    assert!(!cpu.halted);
    assert_eq!(cpu.bus.read_byte(0xC000), 0x77);
}

#[test]
fn cpu_load_rom() {
    let mut cpu = CPU::new();
    let mut rom = vec![0u8; 0x8000];
    rom[0x1234] = 0x9C;
    cpu.load_rom(&rom);
    assert_eq!(cpu.bus.read_byte(0x1234), 0x9C);
}

#[test]
fn flag_low_bits_stay_clear() {
    let mut cpu = cpu_with(&[
        0x01, 0xFF, 0xFF, // LD BC,0xFFFF
        0xC5, // PUSH BC
        0xF1, // POP AF
        0x3C, // INC A
        0x27, // DAA
        0x37, // SCF
        0x3F, // CCF
        0xCB, 0x11, // RL C
        0x2F, // CPL
        0x87, // ADD A,A
        0xE8, 0x01, // ADD SP,1
        0x76, // HALT
    ]);
    let mut steps = 0;
    while !cpu.halted {
        cpu.step();
        assert_eq!(cpu.f & 0x0F, 0);
        steps += 1;
    }
    assert_eq!(steps, 12);
    assert_eq!(cpu.a, 0x32);
}

#[test]
fn implemented_opcodes() {
    let missing = [0xD3u8, 0xDB, 0xDD, 0xE3, 0xE4, 0xEB, 0xEC, 0xED, 0xF4, 0xF8, 0xFC, 0xFD];
    for op in 0u16..=0xFF {
        let op = op as u8;
        assert_eq!(CPU::is_implemented_opcode(op), !missing.contains(&op), "opcode {:02X}", op);
    }
}

#[test]
fn compare_matches_subtract_flags() {
    for (a, v) in [(0x3Cu8, 0x2Fu8), (0x10, 0x01), (0x00, 0x01), (0x42, 0x42), (0xFF, 0x0F)] {
        let mut cp = CPU::new();
        let mut sub = CPU::new();
        cp.a = a;
        sub.a = a;
        cp.cp(v);
        sub.sub_from_a(v);
        assert_eq!(cp.f, sub.f);
        assert_eq!(cp.a, a);
    }
}

#[test]
fn decimal_adjust_after_adc_and_sbc() {
    let mut cpu = CPU::new();
    for (x, y, sum, carry) in [(0x45u8, 0x38u8, 0x83u8, false), (0x99, 0x01, 0x00, true), (0x50, 0x50, 0x00, true), (0x08, 0x08, 0x16, false), (0x19, 0x28, 0x47, false)] {
        cpu.a = x;
        cpu.f = 0;
        cpu.adc(y);
        cpu.daa();
        assert_eq!(cpu.a, sum, "{:02X} + {:02X}", x, y);
        assert_eq!(cpu.is_carry_flag_set(), carry);
        assert_eq!(cpu.is_zero_flag_set(), sum == 0);
        assert!(!cpu.is_half_carry_flag_set());
    }
    for (x, y, diff, borrow) in [(0x12u8, 0x34u8, 0x78u8, true), (0x83, 0x38, 0x45, false), (0x10, 0x01, 0x09, false), (0x00, 0x00, 0x00, false)] {
        cpu.a = x;
        cpu.f = 0;
        cpu.sbc(y);
        cpu.daa();
        assert_eq!(cpu.a, diff, "{:02X} - {:02X}", x, y);
        assert_eq!(cpu.is_carry_flag_set(), borrow);
        assert!(cpu.is_subtract_flag_set());
    }
}

#[test]
fn decimal_adjust_after_add_uses_the_add_half_carry() {
    let mut cpu = CPU::new();
    cpu.a = 0x08;
    cpu.add_to_a(0x08);
    cpu.daa();
    assert_eq!(cpu.a, 0x10);
}
