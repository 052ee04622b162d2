use vstd::prelude::*;
use crate::bus::MemoryBus;
use crate::isa::{
    CpuView, alu_add, alu_adc, alu_and, alu_cp, alu_or, alu_sbc, alu_sub, alu_xor, daa, dec8,
    flag_c, flag_h, flag_n, flag_z, inc8, lemma_set_flags, lemma_word_bits, set_flag, shift_op,
    sign_extend,
    with_flags,
};

verus! {

const INITIAL_PC: u16 = 0x0100;
const INITIAL_SP: u16 = 0xFFFE;

const ZERO_FLAG: u8 = 0b1000_0000;
const SUBTRACT_FLAG: u8 = 0b0100_0000;
const HALF_CARRY_FLAG: u8 = 0b0010_0000;
const CARRY_FLAG: u8 = 0b0001_0000;

/// The Sharp LR35902 CPU: its registers, its bus, the cycles it has run and
/// whether it is halted.
pub struct CPU {
    pub a: u8,
    pub b: u8,
    pub c: u8,
    pub d: u8,
    pub e: u8,
    pub h: u8,
    pub l: u8,
    pub f: u8,
    pub pc: u16,
    pub sp: u16,
    pub bus: MemoryBus,
    pub cycles: u64,
    pub halted: bool,
}

impl View for CPU {
    type V = CpuView;

    open spec fn view(&self) -> CpuView {
        CpuView {
            a: self.a,
            b: self.b,
            c: self.c,
            d: self.d,
            e: self.e,
            h: self.h,
            l: self.l,
            f: self.f,
            pc: self.pc,
            sp: self.sp,
            bus: self.bus@,
            cycles: self.cycles,
            halted: self.halted,
            ok: true,
        }
    }
}

impl CPU {
    pub open spec fn wf(&self) -> bool {
        self.bus.wf()
    }

    /// A CPU at power-on: registers cleared, PC 0x0100, SP 0xFFFE, over a
    /// bus at power-on.
    pub fn new() -> (r: Self)
        ensures
            r.wf(),
            r.a == 0 && r.b == 0 && r.c == 0 && r.d == 0 && r.e == 0 && r.h == 0 && r.l == 0
                && r.f == 0,
            r.pc == 0x0100,
            r.sp == 0xFFFE,
            r.cycles == 0,
            !r.halted,
            r.bus@.mem == crate::memory::memory_power_on(),
            r.bus@.ppu == crate::ppu::ppu_power_on(),
            r.bus.interrupts.interrupt_enable == 0 && r.bus.interrupts.interrupt_flag == 0
                && !r.bus.interrupts.ime,
            r.bus.timer.wf() && r.bus.timer.pending_cycles() == 0 && r.bus.timer.divider_spec() == 0
                && r.bus.timer.counter_spec() == 0 && r.bus.timer.modulo_spec() == 0
                && r.bus.timer.control_spec() == 0,
            r.bus.joypad.read_spec() == 0xFF,
    {
        CPU {
            a: 0,
            b: 0,
            c: 0,
            d: 0,
            e: 0,
            h: 0,
            l: 0,
            f: 0,
            pc: INITIAL_PC,
            sp: INITIAL_SP,
            bus: MemoryBus::new(),
            cycles: 0,
            halted: false,
        }
    }

    // Register pairs
    pub fn get_bc(&self) -> (r: u16)
        ensures
            r == self@.bc(),
    {
        proof {
            lemma_word_bits(0, self.b, self.c, 0);
        }
        ((self.b as u16) << 8) | (self.c as u16)
    }

    pub fn set_bc(&mut self, value: u16)
        ensures
            final(self)@ == old(self)@.with_bc(value),
    {
        proof {
            lemma_word_bits(value, 0, 0, 0);
        }
        self.b = (value >> 8) as u8;
        self.c = (value & 0xFF) as u8;
    }

    pub fn get_de(&self) -> (r: u16)
        ensures
            r == self@.de(),
    {
        proof {
            lemma_word_bits(0, self.d, self.e, 0);
        }
        ((self.d as u16) << 8) | (self.e as u16)
    }

    pub fn set_de(&mut self, value: u16)
        ensures
            final(self)@ == old(self)@.with_de(value),
    {
        proof {
            lemma_word_bits(value, 0, 0, 0);
        }
        self.d = (value >> 8) as u8;
        self.e = (value & 0xFF) as u8;
    }

    pub fn get_hl(&self) -> (r: u16)
        ensures
            r == self@.hl(),
    {
        proof {
            lemma_word_bits(0, self.h, self.l, 0);
        }
        ((self.h as u16) << 8) | (self.l as u16)
    }

    pub fn set_hl(&mut self, value: u16)
        ensures
            final(self)@ == old(self)@.with_hl(value),
    {
        proof {
            lemma_word_bits(value, 0, 0, 0);
        }
        self.h = (value >> 8) as u8;
        self.l = (value & 0xFF) as u8;
    }

    pub fn get_af(&self) -> (r: u16)
        ensures
            r == self@.af(),
    {
        proof {
            lemma_word_bits(0, self.a, self.f, 0);
        }
        ((self.a as u16) << 8) | (self.f as u16)
    }

    /// Sets AF; the low nibble of F is always 0.
    pub fn set_af(&mut self, value: u16)
        ensures
            final(self)@ == old(self)@.with_af(value),
    {
        proof {
            lemma_word_bits(value, 0, 0, 0);
        }
        self.a = (value >> 8) as u8;
        self.f = (value & 0xF0) as u8;
    }

    // Flags
    pub fn set_zero_flag(&mut self, value: bool)
        ensures
            final(self)@ == old(self)@.with_f(set_flag(old(self).f, 0x80, value)),
    {
        if value {
            self.f = self.f | ZERO_FLAG;
        } else {
            self.f = self.f & !ZERO_FLAG;
        }
    }

    pub fn set_half_carry_flag(&mut self, value: bool)
        ensures
            final(self)@ == old(self)@.with_f(set_flag(old(self).f, 0x20, value)),
    {
        if value {
            self.f = self.f | HALF_CARRY_FLAG;
        } else {
            self.f = self.f & !HALF_CARRY_FLAG;
        }
    }

    pub fn set_carry_flag(&mut self, value: bool)
        ensures
            final(self)@ == old(self)@.with_f(set_flag(old(self).f, 0x10, value)),
    {
        if value {
            self.f = self.f | CARRY_FLAG;
        } else {
            self.f = self.f & !CARRY_FLAG;
        }
    }

    pub fn is_zero_flag_set(&self) -> (r: bool)
        ensures
            r == flag_z(self.f),
    {
        self.f & ZERO_FLAG != 0
    }

    pub fn is_carry_flag_set(&self) -> (r: bool)
        ensures
            r == flag_c(self.f),
    {
        self.f & CARRY_FLAG != 0
    }

    pub fn is_half_carry_flag_set(&self) -> (r: bool)
        ensures
            r == flag_h(self.f),
    {
        self.f & HALF_CARRY_FLAG != 0
    }

    pub fn is_subtract_flag_set(&self) -> (r: bool)
        ensures
            r == flag_n(self.f),
    {
        self.f & SUBTRACT_FLAG != 0
    }

    pub fn set_subtract_flag(&mut self, value: bool)
        ensures
            final(self)@ == old(self)@.with_f(set_flag(old(self).f, 0x40, value)),
    {
        if value {
            self.f = self.f | SUBTRACT_FLAG;
        } else {
            self.f = self.f & !SUBTRACT_FLAG;
        }
    }

    /// Sets all four flags.
    fn set_flags(&mut self, z: bool, n: bool, h: bool, c: bool)
        ensures
            final(self)@ == old(self)@.with_f(with_flags(old(self).f, z, n, h, c)),
    {
        proof {
            lemma_set_flags(self.f, z, n, h, c);
        }
        self.set_zero_flag(z);
        self.set_subtract_flag(n);
        self.set_half_carry_flag(h);
        self.set_carry_flag(c);
    }

    // Loads
    pub fn load_a(&mut self, value: u8)
        ensures
            final(self)@ == (CpuView { a: value, ..old(self)@ }),
    {
        self.a = value;
    }

    pub fn load_b(&mut self, value: u8)
        ensures
            final(self)@ == (CpuView { b: value, ..old(self)@ }),
    {
        self.b = value;
    }

    pub fn load_c(&mut self, value: u8)
        ensures
            final(self)@ == (CpuView { c: value, ..old(self)@ }),
    {
        self.c = value;
    }

    pub fn load_d(&mut self, value: u8)
        ensures
            final(self)@ == (CpuView { d: value, ..old(self)@ }),
    {
        self.d = value;
    }

    pub fn load_e(&mut self, value: u8)
        ensures
            final(self)@ == (CpuView { e: value, ..old(self)@ }),
    {
        self.e = value;
    }

    pub fn load_h(&mut self, value: u8)
        ensures
            final(self)@ == (CpuView { h: value, ..old(self)@ }),
    {
        self.h = value;
    }

    pub fn load_l(&mut self, value: u8)
        ensures
            final(self)@ == (CpuView { l: value, ..old(self)@ }),
    {
        self.l = value;
    }

    // 8-bit arithmetic and logic
    pub fn add_to_a(&mut self, value: u8)
        ensures
            final(self)@ == alu_add(old(self)@, value),
    {
        let carry = (self.a as u16) + (value as u16) > 0xFF;
        let result = self.a.wrapping_add(value);
        self.a = result;
        proof {
            lemma_word_bits(0, 0, 0, self.a);
            lemma_word_bits(0, 0, 0, value);
        }
        let half = (self.a & 0x0F) + (value & 0x0F) > 0x0F;
        self.set_flags(self.a == 0, false, half, carry);
    }

    pub fn sub_from_a(&mut self, value: u8)
        ensures
            final(self)@ == alu_sub(old(self)@, value),
    {
        let carry = self.a < value;
        let result = self.a.wrapping_sub(value);
        self.a = result;
        proof {
            lemma_word_bits(0, 0, 0, self.a);
            lemma_word_bits(0, 0, 0, value);
        }
        let half = (self.a & 0x0F) + (value & 0x0F) > 0x0F;
        self.set_flags(self.a == 0, true, half, carry);
    }

    /// ADC: adds `value` and the carry flag to A.
    pub fn adc(&mut self, value: u8)
        ensures
            final(self)@ == alu_adc(old(self)@, value),
    {
        let carry: u16 = if self.is_carry_flag_set() {
            1
        } else {
            0
        };
        let result = self.a as u16 + value as u16 + carry;
        proof {
            lemma_word_bits(0, 0, 0, self.a);
            lemma_word_bits(0, 0, 0, value);
            lemma_word_bits(result, 0, 0, 0);
        }
        let half = (self.a & 0x0F) + (value & 0x0F) + carry as u8 > 0x0F;
        self.set_flags((result & 0xFF) == 0, false, half, result > 0xFF);
        self.a = result as u8;
    }

    /// SBC: subtracts `value` and the carry flag from A.
    pub fn sbc(&mut self, value: u8)
        ensures
            final(self)@ == alu_sbc(old(self)@, value),
    {
        let carry: u8 = if self.is_carry_flag_set() {
            1
        } else {
            0
        };
        let result = self.a.wrapping_sub(value).wrapping_sub(carry);
        let borrow = (self.a as u16) < (value as u16) + (carry as u16);
        proof {
            lemma_word_bits(0, 0, 0, self.a);
            lemma_word_bits(0, 0, 0, value);
        }
        let half = (self.a & 0x0F) < (value & 0x0F) + carry;
        self.set_flags(result == 0, true, half, borrow);
        self.a = result;
    }

    pub fn and(&mut self, value: u8)
        ensures
            final(self)@ == alu_and(old(self)@, value),
    {
        self.a = self.a & value;
        self.set_flags(self.a == 0, false, true, false);
    }

    pub fn or(&mut self, value: u8)
        ensures
            final(self)@ == alu_or(old(self)@, value),
    {
        self.a = self.a | value;
        self.set_flags(self.a == 0, false, false, false);
    }

    pub fn xor(&mut self, value: u8)
        ensures
            final(self)@ == alu_xor(old(self)@, value),
    {
        self.a = self.a ^ value;
        self.set_flags(self.a == 0, false, false, false);
    }

    /// CP: sets the flags as SUB would, leaving A unchanged.
    pub fn cp(&mut self, value: u8)
        ensures
            final(self)@ == alu_cp(old(self)@, value),
    {
        let result = self.a.wrapping_sub(value);
        self.set_flags(result == 0, true, (self.a & 0x0F) < (value & 0x0F), self.a < value);
    }

    /// INC: returns `value + 1` modulo 256 and sets Z, N and H.
    pub fn inc(&mut self, value: u8) -> (r: u8)
        ensures
            r == inc8(old(self).f, value).0,
            final(self)@ == old(self)@.with_f(inc8(old(self).f, value).1),
    {
        let result = value.wrapping_add(1);
        let c = self.is_carry_flag_set();
        self.set_flags(result == 0, false, (value & 0x0F) == 0x0F, c);
        result
    }

    /// DEC: returns `value - 1` modulo 256 and sets Z, N and H.
    pub fn dec(&mut self, value: u8) -> (r: u8)
        ensures
            r == dec8(old(self).f, value).0,
            final(self)@ == old(self)@.with_f(dec8(old(self).f, value).1),
    {
        let result = value.wrapping_sub(1);
        let c = self.is_carry_flag_set();
        self.set_flags(result == 0, true, (value & 0x0F) == 0, c);
        result
    }

    /// ADD HL,value.
    pub fn add_hl(&mut self, value: u16)
        ensures
            final(self)@ == old(self)@.add_hl(value),
    {
        let hl = self.get_hl();
        let result = hl.wrapping_add(value);
        proof {
            lemma_word_bits(hl, 0, 0, 0);
            lemma_word_bits(value, 0, 0, 0);
        }
        let z = self.is_zero_flag_set();
        self.set_flags(z, false, (hl & 0x0FFF) + (value & 0x0FFF) > 0x0FFF, hl > 0xFFFF - value);
        self.set_hl(result);
    }

    /// RLCA: rotates A left, bit 7 into C and bit 0.
    pub fn rlca(&mut self)
        ensures
            final(self)@ == old(self)@.rotate_a(0),
    {
        let carry = (self.a & 0x80) != 0;
        self.a = (self.a << 1) | (if carry {
            1
        } else {
            0
        });
        self.set_flags(false, false, false, carry);
    }

    /// RLA: rotates A left through C.
    pub fn rla(&mut self)
        ensures
            final(self)@ == old(self)@.rotate_a(2),
    {
        let old_carry: u8 = if self.is_carry_flag_set() {
            1
        } else {
            0
        };
        let new_carry = (self.a & 0x80) != 0;
        self.a = (self.a << 1) | old_carry;
        self.set_flags(false, false, false, new_carry);
    }

    /// RRCA: rotates A right, bit 0 into C and bit 7.
    pub fn rrca(&mut self)
        ensures
            final(self)@ == old(self)@.rotate_a(1),
    {
        let carry = (self.a & 0x01) != 0;
        self.a = (self.a >> 1) | (if carry {
            0x80
        } else {
            0
        });
        self.set_flags(false, false, false, carry);
    }

    /// RRA: rotates A right through C.
    pub fn rra(&mut self)
        ensures
            final(self)@ == old(self)@.rotate_a(3),
    {
        let old_carry: u8 = if self.is_carry_flag_set() {
            0x80
        } else {
            0
        };
        let new_carry = (self.a & 0x01) != 0;
        self.a = (self.a >> 1) | old_carry;
        self.set_flags(false, false, false, new_carry);
    }

    /// DAA: decimal adjustment of A after a BCD addition or subtraction.
    #[verifier::rlimit(40)]
    pub fn daa(&mut self)
        ensures
            final(self)@ == daa(old(self)@),
    {
        let mut a = self.a as u16;
        let n = self.is_subtract_flag_set();
        let hflag = self.is_half_carry_flag_set();
        let mut cflag = self.is_carry_flag_set();
        if !n {
            if cflag || a > 0x99 {
                a = a.wrapping_add(0x60);
                cflag = true;
            }
            proof {
                lemma_word_bits(a, 0, 0, 0);
            }
            if hflag || (a & 0x0F) > 0x09 {
                a = a.wrapping_add(0x06);
            }
        } else {
            if cflag {
                a = a.wrapping_sub(0x60);
            }
            if hflag {
                a = a.wrapping_sub(0x06);
            }
        }
        proof {
            lemma_word_bits(a, 0, 0, 0);
        }
        self.a = a as u8;
        self.set_flags(self.a == 0, n, false, cflag);
    }

    // Rotates, shifts and bit operations of the CB-prefixed instructions
    fn rlc(&mut self, value: u8) -> (r: u8)
        ensures
            r == shift_op(0, value, flag_c(old(self).f)).0,
            final(self)@ == old(self)@.with_f(
                with_flags(old(self).f, r == 0, false, false, shift_op(0, value, flag_c(old(self).f)).1),
            ),
    {
        let carry = (value & 0x80) != 0;
        let result = (value << 1) | (if carry {
            1
        } else {
            0
        });
        self.set_flags(result == 0, false, false, carry);
        result
    }

    fn rrc(&mut self, value: u8) -> (r: u8)
        ensures
            r == shift_op(1, value, flag_c(old(self).f)).0,
            final(self)@ == old(self)@.with_f(
                with_flags(old(self).f, r == 0, false, false, shift_op(1, value, flag_c(old(self).f)).1),
            ),
    {
        let carry = (value & 0x01) != 0;
        let result = (value >> 1) | (if carry {
            0x80
        } else {
            0
        });
        self.set_flags(result == 0, false, false, carry);
        result
    }

    fn rl(&mut self, value: u8) -> (r: u8)
        ensures
            r == shift_op(2, value, flag_c(old(self).f)).0,
            final(self)@ == old(self)@.with_f(
                with_flags(old(self).f, r == 0, false, false, shift_op(2, value, flag_c(old(self).f)).1),
            ),
    {
        let old_carry: u8 = if self.is_carry_flag_set() {
            1
        } else {
            0
        };
        let new_carry = (value & 0x80) != 0;
        let result = (value << 1) | old_carry;
        self.set_flags(result == 0, false, false, new_carry);
        result
    }

    fn rr(&mut self, value: u8) -> (r: u8)
        ensures
            r == shift_op(3, value, flag_c(old(self).f)).0,
            final(self)@ == old(self)@.with_f(
                with_flags(old(self).f, r == 0, false, false, shift_op(3, value, flag_c(old(self).f)).1),
            ),
    {
        let old_carry: u8 = if self.is_carry_flag_set() {
            0x80
        } else {
            0
        };
        let new_carry = (value & 0x01) != 0;
        let result = (value >> 1) | old_carry;
        self.set_flags(result == 0, false, false, new_carry);
        result
    }

    fn sla(&mut self, value: u8) -> (r: u8)
        ensures
            r == shift_op(4, value, flag_c(old(self).f)).0,
            final(self)@ == old(self)@.with_f(
                with_flags(old(self).f, r == 0, false, false, shift_op(4, value, flag_c(old(self).f)).1),
            ),
    {
        let carry = (value & 0x80) != 0;
        let result = value << 1;
        self.set_flags(result == 0, false, false, carry);
        result
    }

    fn sra(&mut self, value: u8) -> (r: u8)
        ensures
            r == shift_op(5, value, flag_c(old(self).f)).0,
            final(self)@ == old(self)@.with_f(
                with_flags(old(self).f, r == 0, false, false, shift_op(5, value, flag_c(old(self).f)).1),
            ),
    {
        let carry = (value & 0x01) != 0;
        let result = (value >> 1) | (value & 0x80);
        self.set_flags(result == 0, false, false, carry);
        result
    }

    fn swap(&mut self, value: u8) -> (r: u8)
        ensures
            r == shift_op(6, value, flag_c(old(self).f)).0,
            final(self)@ == old(self)@.with_f(
                with_flags(old(self).f, r == 0, false, false, shift_op(6, value, flag_c(old(self).f)).1),
            ),
    {
        let result = (value >> 4) | (value << 4);
        self.set_flags(result == 0, false, false, false);
        result
    }

    fn srl(&mut self, value: u8) -> (r: u8)
        ensures
            r == shift_op(7, value, flag_c(old(self).f)).0,
            final(self)@ == old(self)@.with_f(
                with_flags(old(self).f, r == 0, false, false, shift_op(7, value, flag_c(old(self).f)).1),
            ),
    {
        let carry = (value & 0x01) != 0;
        let result = value >> 1;
        self.set_flags(result == 0, false, false, carry);
        result
    }

    /// BIT: Z tells whether bit `bit` of `value` is clear.
    fn bit(&mut self, bit: u8, value: u8)
        requires
            bit < 8,
        ensures
            final(self)@ == old(self)@.with_f(
                with_flags(old(self).f, value & (1u8 << bit) == 0, false, true, flag_c(old(self).f)),
            ),
    {
        let result = value & (1 << bit);
        let c = self.is_carry_flag_set();
        self.set_flags(result == 0, false, true, c);
    }

    fn res(&self, bit: u8, value: u8) -> (r: u8)
        requires
            bit < 8,
        ensures
            r == value & !(1u8 << bit),
    {
        value & !(1 << bit)
    }

    fn set_bit(&self, bit: u8, value: u8) -> (r: u8)
        requires
            bit < 8,
        ensures
            r == value | (1u8 << bit),
    {
        value | (1 << bit)
    }

    // The bus
    /// Reads the byte at PC and advances PC.
    pub fn fetch_byte(&mut self) -> (r: u8)
        requires
            old(self).wf(),
            old(self)@.fetch().0.ok,
        ensures
            final(self).wf(),
            (final(self)@, r) == old(self)@.fetch(),
    {
        let byte = self.bus.read_byte(self.pc);
        self.pc = self.pc + 1;
        byte
    }

    /// Reads the little-endian word at PC and advances PC by two.
    pub fn fetch_word(&mut self) -> (r: u16)
        requires
            old(self).wf(),
            old(self)@.fetch_word().0.ok,
        ensures
            final(self).wf(),
            (final(self)@, r) == old(self)@.fetch_word(),
    {
        let low = self.fetch_byte();
        let high = self.fetch_byte();
        proof {
            lemma_word_bits(0, high, low, 0);
        }
        ((high as u16) << 8) | (low as u16)
    }

    /// Pushes a word onto the stack.
    pub fn push(&mut self, value: u16)
        requires
            old(self).wf(),
            old(self)@.push(value).ok,
        ensures
            final(self).wf(),
            final(self)@ == old(self)@.push(value),
    {
        proof {
            lemma_word_bits(value, 0, 0, 0);
        }
        self.sp = self.sp.wrapping_sub(1);
        self.bus.write_byte(self.sp, (value >> 8) as u8);
        self.sp = self.sp.wrapping_sub(1);
        self.bus.write_byte(self.sp, (value & 0xFF) as u8);
    }

    /// Pops a word from the stack.
    pub fn pop(&mut self) -> (r: u16)
        requires
            old(self).wf(),
            old(self)@.pop().0.ok,
        ensures
            final(self).wf(),
            (final(self)@, r) == old(self)@.pop(),
    {
        let low = self.bus.read_byte(self.sp);
        self.sp = self.sp.wrapping_add(1);
        let high = self.bus.read_byte(self.sp);
        self.sp = self.sp.wrapping_add(1);
        proof {
            lemma_word_bits(0, high, low, 0);
        }
        ((high as u16) << 8) | (low as u16)
    }

    /// The operand that the low three bits of an opcode select.
    pub(crate) fn read_reg8(&self, r: u8) -> (v: u8)
        requires
            self.wf(),
            r < 8,
            r == 6 ==> self@.bus.read_ok(self@.hl()),
        ensures
            v == self@.reg8(r),
    {
        if r == 0 {
            self.b
        } else if r == 1 {
            self.c
        } else if r == 2 {
            self.d
        } else if r == 3 {
            self.e
        } else if r == 4 {
            self.h
        } else if r == 5 {
            self.l
        } else if r == 6 {
            let addr = self.get_hl();
            self.bus.read_byte(addr)
        } else {
            self.a
        }
    }

    /// Sets the operand that the low three bits of an opcode select.
    fn write_reg8(&mut self, r: u8, v: u8)
        requires
            old(self).wf(),
            r < 8,
            r == 6 ==> old(self)@.bus.write_ok(old(self)@.hl(), v),
        ensures
            final(self).wf(),
            final(self)@ == old(self)@.with_reg8(r, v),
    {
        if r == 0 {
            self.b = v;
        } else if r == 1 {
            self.c = v;
        } else if r == 2 {
            self.d = v;
        } else if r == 3 {
            self.e = v;
        } else if r == 4 {
            self.h = v;
        } else if r == 5 {
            self.l = v;
        } else if r == 6 {
            let addr = self.get_hl();
            self.bus.write_byte(addr, v);
        } else {
            self.a = v;
        }
    }

    /// The rotate or shift of kind `kind` (RLC, RRC, RL, RR, SLA, SRA,
    /// SWAP, SRL) applied to `value`, setting the flags.
    fn cb_shift(&mut self, kind: u8, value: u8) -> (r: u8)
        requires
            kind < 8,
        ensures
            r == shift_op(kind, value, flag_c(old(self).f)).0,
            final(self)@ == old(self)@.with_f(
                with_flags(old(self).f, r == 0, false, false, shift_op(kind, value, flag_c(old(self).f)).1),
            ),
    {
        if kind == 0 {
            self.rlc(value)
        } else if kind == 1 {
            self.rrc(value)
        } else if kind == 2 {
            self.rl(value)
        } else if kind == 3 {
            self.rr(value)
        } else if kind == 4 {
            self.sla(value)
        } else if kind == 5 {
            self.sra(value)
        } else if kind == 6 {
            self.swap(value)
        } else {
            self.srl(value)
        }
    }

    /// LD r,r' (0x40-0x7F but HALT).
    fn execute_load(&mut self, opcode: u8) -> (r: u32)
        requires
            old(self).wf(),
            0x40 <= opcode <= 0x7F,
            opcode != 0x76,
            old(self)@.exec_ld_r_r(opcode).0.ok,
        ensures
            final(self).wf(),
            (final(self)@, r) == old(self)@.exec_ld_r_r(opcode),
    {
        let ghost s0 = self@;
        let src = opcode % 8;
        let dst = (opcode / 8) % 8;
        let value = self.read_reg8(src);
        assert(s0.reading_reg8(src) == s0);
        self.write_reg8(dst, value);
        if dst == 6 || src == 6 {
            8
        } else {
            4
        }
    }

    /// ALU A,r (0x80-0xBF).
    fn execute_alu(&mut self, opcode: u8) -> (r: u32)
        requires
            old(self).wf(),
            0x80 <= opcode <= 0xBF,
            old(self)@.exec_alu_r(opcode).0.ok,
        ensures
            final(self).wf(),
            (final(self)@, r) == old(self)@.exec_alu_r(opcode),
    {
        let ghost s0 = self@;
        let src = opcode % 8;
        let kind = (opcode / 8) % 8;
        let value = self.read_reg8(src);
        assert(s0.reading_reg8(src) == s0);
        self.alu_op(kind, value);
        if src == 6 {
            8
        } else {
            4
        }
    }

    /// The ALU operation `kind` (ADD, ADC, SUB, SBC, AND, XOR, OR, CP) on A
    /// and `value`.
    fn alu_op(&mut self, kind: u8, value: u8)
        requires
            kind < 8,
        ensures
            final(self)@ == crate::isa::alu(old(self)@, kind, value),
    {
        if kind == 0 {
            self.add_to_a(value);
        } else if kind == 1 {
            self.adc(value);
        } else if kind == 2 {
            self.sub_from_a(value);
        } else if kind == 3 {
            self.sbc(value);
        } else if kind == 4 {
            self.and(value);
        } else if kind == 5 {
            self.xor(value);
        } else if kind == 6 {
            self.or(value);
        } else {
            self.cp(value);
        }
    }

    /// A relative jump by the signed offset `n` from the current PC.
    fn jump_relative(&mut self, n: u8)
        ensures
            final(self)@ == (CpuView { pc: old(self).pc.wrapping_add(sign_extend(n)), ..old(self)@ }),
    {
        proof {
            lemma_word_bits(0, 0, 0, n);
        }
        let offset = n as i8;
        self.pc = self.pc.wrapping_add(offset as u16);
    }


    /// Executes a CB-prefixed instruction and returns its cycles.
    pub fn execute_cb_instruction(&mut self, opcode: u8) -> (r: u32)
        requires
            old(self).wf(),
            old(self)@.exec_cb(opcode).0.ok,
        ensures
            final(self).wf(),
            (final(self)@, r) == old(self)@.exec_cb(opcode),
    {
        if opcode < 0x40 {
            self.exec_cb_shift(opcode)
        } else if opcode < 0x80 {
            self.exec_cb_bit(opcode)
        } else if opcode < 0xC0 {
            self.exec_cb_res_set(opcode, false)
        } else {
            self.exec_cb_res_set(opcode, true)
        }
    }

    fn exec_cb_shift(&mut self, opcode: u8) -> (r: u32)
        requires
            old(self).wf(),
            opcode < 0x40,
            old(self)@.cb_shift(opcode).0.ok,
        ensures
            final(self).wf(),
            (final(self)@, r) == old(self)@.cb_shift(opcode),
    {
        proof {
            reveal(CpuView::cb_shift);
            lemma_word_bits(0, 0, 0, opcode);
        }
        let ghost s0 = self@;
        let reg = opcode & 0x07;
        let value = self.read_reg8(reg);
        assert(s0.reading_reg8(reg) == s0);
        let result = self.cb_shift(opcode / 8, value);
        self.write_reg8(reg, result);
        if reg == 6 {
            16
        } else {
            8
        }
    }

    fn exec_cb_bit(&mut self, opcode: u8) -> (r: u32)
        requires
            old(self).wf(),
            0x40 <= opcode < 0x80,
            old(self)@.cb_bit(opcode).0.ok,
        ensures
            final(self).wf(),
            (final(self)@, r) == old(self)@.cb_bit(opcode),
    {
        proof {
            reveal(CpuView::cb_bit);
            lemma_word_bits(0, 0, 0, opcode);
        }
        let ghost s0 = self@;
        let bit = (opcode - 0x40) / 8;
        let reg = opcode & 0x07;
        let value = self.read_reg8(reg);
        assert(s0.reading_reg8(reg) == s0);
        self.bit(bit, value);
        if reg == 6 {
            12
        } else {
            8
        }
    }

    fn exec_cb_res_set(&mut self, opcode: u8, set: bool) -> (r: u32)
        requires
            old(self).wf(),
            0x80 <= opcode,
            set <==> opcode >= 0xC0,
            old(self)@.cb_res_set(opcode, set).0.ok,
        ensures
            final(self).wf(),
            (final(self)@, r) == old(self)@.cb_res_set(opcode, set),
    {
        proof {
            reveal(CpuView::cb_res_set);
            lemma_word_bits(0, 0, 0, opcode);
        }
        let ghost s0 = self@;
        let reg = opcode & 0x07;
        let value = self.read_reg8(reg);
        assert(s0.reading_reg8(reg) == s0);
        let result = if set {
            let bit = (opcode - 0xC0) / 8;
            self.set_bit(bit, value)
        } else {
            let bit = (opcode - 0x80) / 8;
            self.res(bit, value)
        };
        self.write_reg8(reg, result);
        if reg == 6 {
            16
        } else {
            8
        }
    }

    /// The register pair BC, DE, HL or SP that `p` selects.
    pub(crate) fn read_pair_sp(&self, p: u8) -> (v: u16)
        ensures
            v == self@.pair_sp(p),
    {
        if p == 0 {
            self.get_bc()
        } else if p == 1 {
            self.get_de()
        } else if p == 2 {
            self.get_hl()
        } else {
            self.sp
        }
    }

    fn write_pair_sp(&mut self, p: u8, v: u16)
        ensures
            final(self)@ == old(self)@.with_pair_sp(p, v),
    {
        if p == 0 {
            self.set_bc(v);
        } else if p == 1 {
            self.set_de(v);
        } else if p == 2 {
            self.set_hl(v);
        } else {
            self.sp = v;
        }
    }

    /// The condition NZ, Z, NC or C that `cc` selects.
    pub(crate) fn condition(&self, cc: u8) -> (r: bool)
        ensures
            r == self@.condition(cc),
    {
        if cc == 0 {
            !self.is_zero_flag_set()
        } else if cc == 1 {
            self.is_zero_flag_set()
        } else if cc == 2 {
            !self.is_carry_flag_set()
        } else {
            self.is_carry_flag_set()
        }
    }

    fn exec_ld_rr_nn(&mut self, p: u8) -> (r: u32)
        requires
            old(self).wf(),
            old(self)@.i_ld_rr_nn(p).0.ok,
        ensures
            final(self).wf(),
            (final(self)@, r) == old(self)@.i_ld_rr_nn(p),
    {
        proof {
            reveal(CpuView::i_ld_rr_nn);
        }
        let value = self.fetch_word();
        self.write_pair_sp(p, value);
        12
    }

    fn exec_st_a(&mut self, addr: u16) -> (r: u32)
        requires
            old(self).wf(),
            old(self)@.i_st_a(addr).0.ok,
        ensures
            final(self).wf(),
            (final(self)@, r) == old(self)@.i_st_a(addr),
    {
        proof {
            reveal(CpuView::i_st_a);
        }
        self.bus.write_byte(addr, self.a);
        8
    }

    fn exec_ld_a(&mut self, addr: u16) -> (r: u32)
        requires
            old(self).wf(),
            old(self)@.i_ld_a(addr).0.ok,
        ensures
            final(self).wf(),
            (final(self)@, r) == old(self)@.i_ld_a(addr),
    {
        proof {
            reveal(CpuView::i_ld_a);
        }
        self.a = self.bus.read_byte(addr);
        8
    }

    fn exec_st_a_hl(&mut self, inc: bool) -> (r: u32)
        requires
            old(self).wf(),
            old(self)@.i_st_a_hl(inc).0.ok,
        ensures
            final(self).wf(),
            (final(self)@, r) == old(self)@.i_st_a_hl(inc),
    {
        proof {
            reveal(CpuView::i_st_a_hl);
        }
        let addr = self.get_hl();
        self.bus.write_byte(addr, self.a);
        let hl = self.get_hl();
        if inc {
            self.set_hl(hl.wrapping_add(1));
        } else {
            self.set_hl(hl.wrapping_sub(1));
        }
        8
    }

    fn exec_ld_a_hl(&mut self, inc: bool) -> (r: u32)
        requires
            old(self).wf(),
            old(self)@.i_ld_a_hl(inc).0.ok,
        ensures
            final(self).wf(),
            (final(self)@, r) == old(self)@.i_ld_a_hl(inc),
    {
        proof {
            reveal(CpuView::i_ld_a_hl);
        }
        let addr = self.get_hl();
        self.a = self.bus.read_byte(addr);
        let hl = self.get_hl();
        if inc {
            self.set_hl(hl.wrapping_add(1));
        } else {
            self.set_hl(hl.wrapping_sub(1));
        }
        8
    }

    fn exec_inc_dec_rr(&mut self, p: u8, inc: bool) -> (r: u32)
        requires
            old(self).wf(),
        ensures
            final(self).wf(),
            (final(self)@, r) == old(self)@.i_inc_dec_rr(p, inc),
    {
        proof {
            reveal(CpuView::i_inc_dec_rr);
        }
        let v = self.read_pair_sp(p);
        if inc {
            self.write_pair_sp(p, v.wrapping_add(1));
        } else {
            self.write_pair_sp(p, v.wrapping_sub(1));
        }
        8
    }

    fn exec_add_hl_rr(&mut self, p: u8) -> (r: u32)
        requires
            old(self).wf(),
        ensures
            final(self).wf(),
            (final(self)@, r) == old(self)@.i_add_hl_rr(p),
    {
        proof {
            reveal(CpuView::i_add_hl_rr);
        }
        let v = self.read_pair_sp(p);
        self.add_hl(v);
        8
    }

    fn exec_inc_dec_r(&mut self, reg: u8, inc: bool) -> (r: u32)
        requires
            old(self).wf(),
            reg < 8,
            old(self)@.i_inc_dec_r(reg, inc).0.ok,
        ensures
            final(self).wf(),
            (final(self)@, r) == old(self)@.i_inc_dec_r(reg, inc),
    {
        proof {
            reveal(CpuView::i_inc_dec_r);
        }
        let ghost s0 = self@;
        let value = self.read_reg8(reg);
        assert(s0.reading_reg8(reg) == s0);
        let result = if inc {
            self.inc(value)
        } else {
            self.dec(value)
        };
        self.write_reg8(reg, result);
        if reg == 6 {
            12
        } else {
            4
        }
    }

    fn exec_ld_r_n(&mut self, reg: u8) -> (r: u32)
        requires
            old(self).wf(),
            reg < 8,
            old(self)@.i_ld_r_n(reg).0.ok,
        ensures
            final(self).wf(),
            (final(self)@, r) == old(self)@.i_ld_r_n(reg),
    {
        proof {
            reveal(CpuView::i_ld_r_n);
        }
        let value = self.fetch_byte();
        self.write_reg8(reg, value);
        if reg == 6 {
            12
        } else {
            8
        }
    }

    fn exec_ld_nn_sp(&mut self) -> (r: u32)
        requires
            old(self).wf(),
            old(self)@.i_ld_nn_sp().0.ok,
        ensures
            final(self).wf(),
            (final(self)@, r) == old(self)@.i_ld_nn_sp(),
    {
        proof {
            reveal(CpuView::i_ld_nn_sp);
        }
        let addr = self.fetch_word();
        let sp = self.sp;
        proof {
            lemma_word_bits(sp, 0, 0, 0);
        }
        self.bus.write_byte(addr, (sp & 0xFF) as u8);
        self.bus.write_byte(addr + 1, (sp >> 8) as u8);
        20
    }

    fn exec_stop(&mut self) -> (r: u32)
        requires
            old(self).wf(),
            old(self)@.i_stop().0.ok,
        ensures
            final(self).wf(),
            (final(self)@, r) == old(self)@.i_stop(),
    {
        proof {
            reveal(CpuView::i_stop);
        }
        self.fetch_byte();
        self.halted = true;
        4
    }

    fn exec_jr(&mut self, taken: bool) -> (r: u32)
        requires
            old(self).wf(),
            old(self)@.i_jr(taken).0.ok,
        ensures
            final(self).wf(),
            (final(self)@, r) == old(self)@.i_jr(taken),
    {
        proof {
            reveal(CpuView::i_jr);
        }
        let n = self.fetch_byte();
        if taken {
            self.jump_relative(n);
            12
        } else {
            8
        }
    }

    fn exec_cpl(&mut self) -> (r: u32)
        ensures
            old(self).wf() ==> final(self).wf(),
            (final(self)@, r) == old(self)@.i_cpl(),
    {
        proof {
            reveal(CpuView::i_cpl);
            lemma_set_flags(self.f, false, false, false, false);
        }
        self.a = !self.a;
        self.set_subtract_flag(true);
        self.set_half_carry_flag(true);
        4
    }

    fn exec_scf_ccf(&mut self, set: bool) -> (r: u32)
        ensures
            old(self).wf() ==> final(self).wf(),
            (final(self)@, r) == old(self)@.i_scf_ccf(set),
    {
        proof {
            reveal(CpuView::i_scf_ccf);
            lemma_set_flags(self.f, false, false, false, false);
        }
        if set {
            self.set_carry_flag(true);
        } else {
            let c = self.is_carry_flag_set();
            self.set_carry_flag(!c);
        }
        self.set_subtract_flag(false);
        self.set_half_carry_flag(false);
        4
    }

    /// The instructions 0x00-0x3F.
    fn execute_block0(&mut self, opcode: u8) -> (r: u32)
        requires
            old(self).wf(),
            opcode < 0x40,
            old(self)@.exec_block0(opcode).0.ok,
        ensures
            final(self).wf(),
            (final(self)@, r) == old(self)@.exec_block0(opcode),
    {
        let reg = (opcode / 8) % 8;
        let p = (opcode / 16) % 4;
        let cc = (opcode / 8) % 4;
        if opcode == 0x00 {
            return 4;
        }
        match opcode {
            0x01 | 0x11 | 0x21 | 0x31 => self.exec_ld_rr_nn(p),
            0x02 => {
                let addr = self.get_bc();
                self.exec_st_a(addr)
            },
            0x12 => {
                let addr = self.get_de();
                self.exec_st_a(addr)
            },
            0x22 => self.exec_st_a_hl(true),
            0x32 => self.exec_st_a_hl(false),
            0x0A => {
                let addr = self.get_bc();
                self.exec_ld_a(addr)
            },
            0x1A => {
                let addr = self.get_de();
                self.exec_ld_a(addr)
            },
            0x2A => self.exec_ld_a_hl(true),
            0x3A => self.exec_ld_a_hl(false),
            0x03 | 0x13 | 0x23 | 0x33 => self.exec_inc_dec_rr(p, true),
            0x0B | 0x1B | 0x2B | 0x3B => self.exec_inc_dec_rr(p, false),
            0x09 | 0x19 | 0x29 | 0x39 => self.exec_add_hl_rr(p),
            0x04 | 0x0C | 0x14 | 0x1C | 0x24 | 0x2C | 0x34 | 0x3C => self.exec_inc_dec_r(reg, true),
            0x05 | 0x0D | 0x15 | 0x1D | 0x25 | 0x2D | 0x35 | 0x3D => self.exec_inc_dec_r(reg, false),
            0x06 | 0x0E | 0x16 | 0x1E | 0x26 | 0x2E | 0x36 | 0x3E => self.exec_ld_r_n(reg),
            0x07 => {
                self.rlca();
                4
            },
            0x0F => {
                self.rrca();
                4
            },
            0x17 => {
                self.rla();
                4
            },
            0x1F => {
                self.rra();
                4
            },
            0x08 => self.exec_ld_nn_sp(),
            0x10 => self.exec_stop(),
            0x18 => self.exec_jr(true),
            0x20 | 0x28 | 0x30 | 0x38 => {
                let taken = self.condition(cc);
                self.exec_jr(taken)
            },
            0x27 => {
                self.daa();
                4
            },
            0x2F => self.exec_cpl(),
            0x37 => self.exec_scf_ccf(true),
            _ => self.exec_scf_ccf(false),
        }
    }

    /// The register pair BC, DE, HL or AF that `p` selects.
    fn read_pair_af(&self, p: u8) -> (v: u16)
        ensures
            v == self@.pair_af(p),
    {
        if p == 3 {
            self.get_af()
        } else {
            self.read_pair_sp(p)
        }
    }

    fn write_pair_af(&mut self, p: u8, v: u16)
        ensures
            final(self)@ == old(self)@.with_pair_af(p, v),
    {
        if p == 3 {
            self.set_af(v);
        } else {
            self.write_pair_sp(p, v);
        }
    }

    fn exec_ret(&mut self, taken: bool, conditional: bool) -> (r: u32)
        requires
            old(self).wf(),
            old(self)@.i_ret(taken, conditional).0.ok,
        ensures
            final(self).wf(),
            (final(self)@, r) == old(self)@.i_ret(taken, conditional),
    {
        proof {
            reveal(CpuView::i_ret);
        }
        if taken {
            self.pc = self.pop();
            if conditional {
                20
            } else {
                16
            }
        } else {
            8
        }
    }

    fn exec_pop(&mut self, p: u8) -> (r: u32)
        requires
            old(self).wf(),
            old(self)@.i_pop(p).0.ok,
        ensures
            final(self).wf(),
            (final(self)@, r) == old(self)@.i_pop(p),
    {
        proof {
            reveal(CpuView::i_pop);
        }
        let value = self.pop();
        self.write_pair_af(p, value);
        12
    }

    fn exec_push(&mut self, p: u8) -> (r: u32)
        requires
            old(self).wf(),
            old(self)@.i_push(p).0.ok,
        ensures
            final(self).wf(),
            (final(self)@, r) == old(self)@.i_push(p),
    {
        proof {
            reveal(CpuView::i_push);
        }
        let value = self.read_pair_af(p);
        self.push(value);
        16
    }

    fn exec_jp(&mut self, taken: bool) -> (r: u32)
        requires
            old(self).wf(),
            old(self)@.i_jp(taken).0.ok,
        ensures
            final(self).wf(),
            (final(self)@, r) == old(self)@.i_jp(taken),
    {
        proof {
            reveal(CpuView::i_jp);
        }
        let addr = self.fetch_word();
        if taken {
            self.pc = addr;
            16
        } else {
            12
        }
    }

    fn exec_call(&mut self, taken: bool) -> (r: u32)
        requires
            old(self).wf(),
            old(self)@.i_call(taken).0.ok,
        ensures
            final(self).wf(),
            (final(self)@, r) == old(self)@.i_call(taken),
    {
        proof {
            reveal(CpuView::i_call);
        }
        let addr = self.fetch_word();
        if taken {
            let pc = self.pc;
            self.push(pc);
            self.pc = addr;
            24
        } else {
            12
        }
    }

    fn exec_alu_n(&mut self, kind: u8) -> (r: u32)
        requires
            old(self).wf(),
            kind < 8,
            old(self)@.i_alu_n(kind).0.ok,
        ensures
            final(self).wf(),
            (final(self)@, r) == old(self)@.i_alu_n(kind),
    {
        proof {
            reveal(CpuView::i_alu_n);
        }
        let value = self.fetch_byte();
        self.alu_op(kind, value);
        8
    }

    fn exec_rst(&mut self, target: u16) -> (r: u32)
        requires
            old(self).wf(),
            old(self)@.i_rst(target).0.ok,
        ensures
            final(self).wf(),
            (final(self)@, r) == old(self)@.i_rst(target),
    {
        proof {
            reveal(CpuView::i_rst);
        }
        let pc = self.pc;
        self.push(pc);
        self.pc = target;
        16
    }

    fn exec_ldh_n_a(&mut self) -> (r: u32)
        requires
            old(self).wf(),
            old(self)@.i_ldh_n_a().0.ok,
        ensures
            final(self).wf(),
            (final(self)@, r) == old(self)@.i_ldh_n_a(),
    {
        proof {
            reveal(CpuView::i_ldh_n_a);
        }
        let offset = self.fetch_byte();
        let addr = 0xFF00 + (offset as u16);
        self.bus.write_byte(addr, self.a);
        12
    }

    fn exec_ldh_a_n(&mut self) -> (r: u32)
        requires
            old(self).wf(),
            old(self)@.i_ldh_a_n().0.ok,
        ensures
            final(self).wf(),
            (final(self)@, r) == old(self)@.i_ldh_a_n(),
    {
        proof {
            reveal(CpuView::i_ldh_a_n);
        }
        let offset = self.fetch_byte();
        let addr = 0xFF00 + (offset as u16);
        self.a = self.bus.read_byte(addr);
        12
    }

    fn exec_add_sp(&mut self) -> (r: u32)
        requires
            old(self).wf(),
            old(self)@.i_add_sp().0.ok,
        ensures
            final(self).wf(),
            (final(self)@, r) == old(self)@.i_add_sp(),
    {
        proof {
            reveal(CpuView::i_add_sp);
        }
        let n = self.fetch_byte();
        proof {
            lemma_word_bits(0, 0, 0, n);
        }
        let value = n as i8 as i16 as u16;
        let sp = self.sp;
        self.sp = sp.wrapping_add(value);
        proof {
            lemma_word_bits(sp, 0, 0, 0);
            lemma_word_bits(value, 0, 0, 0);
        }
        self.set_flags(false, false, (sp & 0x0F) + (value & 0x0F) > 0x0F, (sp & 0xFF) + (value & 0xFF) > 0xFF);
        16
    }

    fn exec_st_a_nn(&mut self) -> (r: u32)
        requires
            old(self).wf(),
            old(self)@.i_st_a_nn().0.ok,
        ensures
            final(self).wf(),
            (final(self)@, r) == old(self)@.i_st_a_nn(),
    {
        proof {
            reveal(CpuView::i_st_a_nn);
        }
        let addr = self.fetch_word();
        self.bus.write_byte(addr, self.a);
        16
    }

    fn exec_ld_a_nn(&mut self) -> (r: u32)
        requires
            old(self).wf(),
            old(self)@.i_ld_a_nn().0.ok,
        ensures
            final(self).wf(),
            (final(self)@, r) == old(self)@.i_ld_a_nn(),
    {
        proof {
            reveal(CpuView::i_ld_a_nn);
        }
        let addr = self.fetch_word();
        self.a = self.bus.read_byte(addr);
        16
    }

    /// The instructions 0xC0-0xFF, and HALT.
    fn execute_block3(&mut self, opcode: u8) -> (r: u32)
        requires
            old(self).wf(),
            opcode >= 0xC0 || opcode == 0x76,
            old(self)@.exec_block3(opcode).0.ok,
        ensures
            final(self).wf(),
            (final(self)@, r) == old(self)@.exec_block3(opcode),
    {
        let p = (opcode / 16) % 4;
        let cc = (opcode / 8) % 4;
        let kind = (opcode / 8) % 8;
        match opcode {
            0x76 => {
                self.halted = true;
                4
            },
            0xC0 | 0xC8 | 0xD0 | 0xD8 => {
                let taken = self.condition(cc);
                self.exec_ret(taken, true)
            },
            0xC1 | 0xD1 | 0xE1 | 0xF1 => self.exec_pop(p),
            0xC2 | 0xCA | 0xD2 | 0xDA => {
                let taken = self.condition(cc);
                self.exec_jp(taken)
            },
            0xC3 => self.exec_jp(true),
            0xC4 | 0xCC | 0xD4 | 0xDC => {
                let taken = self.condition(cc);
                self.exec_call(taken)
            },
            0xC5 | 0xD5 | 0xE5 | 0xF5 => self.exec_push(p),
            0xC6 | 0xCE | 0xD6 | 0xDE | 0xE6 | 0xEE | 0xF6 | 0xFE => self.exec_alu_n(kind),
            0xC7 | 0xCF | 0xD7 | 0xDF | 0xE7 | 0xEF | 0xF7 | 0xFF => self.exec_rst(
                (opcode - 0xC7) as u16,
            ),
            0xC9 | 0xD9 => self.exec_ret(true, false),
            0xCB => {
                let cb_opcode = self.fetch_byte();
                self.execute_cb_instruction(cb_opcode)
            },
            0xCD => self.exec_call(true),
            0xE0 => self.exec_ldh_n_a(),
            0xF0 => self.exec_ldh_a_n(),
            0xE2 => {
                let addr = 0xFF00 + (self.c as u16);
                self.exec_st_a(addr)
            },
            0xF2 => {
                let addr = 0xFF00 + (self.c as u16);
                self.exec_ld_a(addr)
            },
            0xE8 => self.exec_add_sp(),
            0xE9 => {
                self.pc = self.get_hl();
                4
            },
            0xEA => self.exec_st_a_nn(),
            0xFA => self.exec_ld_a_nn(),
            0xF9 => {
                self.sp = self.get_hl();
                8
            },
            _ => {
                // DI, EI and the opcodes left out: 4 cycles, no change.
                4
            },
        }
    }

    /// Executes the instruction `opcode`, whose opcode byte has been
    /// fetched, and returns its cycles.
    pub fn execute_instruction(&mut self, opcode: u8) -> (r: u32)
        requires
            old(self).wf(),
            old(self)@.execute(opcode).0.ok,
        ensures
            final(self).wf(),
            (final(self)@, r) == old(self)@.execute(opcode),
    {
        if 0x40 <= opcode && opcode <= 0x7F && opcode != 0x76 {
            self.execute_load(opcode)
        } else if 0x80 <= opcode && opcode <= 0xBF {
            self.execute_alu(opcode)
        } else if opcode < 0x40 {
            self.execute_block0(opcode)
        } else {
            self.execute_block3(opcode)
        }
    }

    /// Whether `opcode` names an instruction; the others run as 4-cycle
    /// no-ops.
    pub fn is_implemented_opcode(opcode: u8) -> (r: bool)
        ensures
            r == crate::isa::implemented(opcode),
    {
        !(opcode == 0xD3 || opcode == 0xDB || opcode == 0xDD || opcode == 0xE3 || opcode == 0xE4
            || opcode == 0xEB || opcode == 0xEC || opcode == 0xED || opcode == 0xF4 || opcode
            == 0xF8 || opcode == 0xFC || opcode == 0xFD)
    }

    /// Executes one instruction and returns the cycles it took; a halted CPU
    /// takes 4 cycles and does nothing.
    pub fn step(&mut self) -> (r: u32)
        requires
            old(self).wf(),
            old(self)@.step().0.ok,
        ensures
            final(self).wf(),
            (final(self)@, r) == old(self)@.step(),
    {
        if self.halted {
            return 4;
        }
        let opcode = self.fetch_byte();
        let cycles = self.execute_instruction(opcode);
        self.cycles = self.cycles + cycles as u64;
        cycles
    }

    /// Runs instructions until at least `target_cycles` cycles have passed.
    /// It stops early where the next step is undefined (the point where
    /// execution would fault), and when the CPU is halted: nothing here can
    /// wake it, so the cycle count would never grow.
    #[verifier::rlimit(50)]
    pub fn run_cycles(&mut self, target_cycles: u32)
        requires
            old(self).wf(),
        ensures
            final(self).wf(),
            exists|n: nat|
                {
                    &&& final(self)@ == old(self)@.steps(n)
                    &&& forall|j: nat|
                        j < n ==> #[trigger] old(self)@.steps(j).cycles - old(self).cycles
                            < target_cycles && !old(self)@.steps(j).halted && old(
                            self,
                        )@.steps(j).step().0.ok
                },
            final(self).cycles - old(self).cycles >= target_cycles || final(self).halted
                || !final(self)@.step().0.ok,
            final(self).cycles >= old(self).cycles,
            final(self).cycles - old(self).cycles < target_cycles + 24,
    {
        let start_cycles = self.cycles;
        let ghost s0 = self@;
        let ghost mut n: nat = 0;
        while (self.cycles - start_cycles) < target_cycles as u64
            invariant
                self.wf(),
                self.cycles >= start_cycles,
                self.cycles - start_cycles < target_cycles + 24,
                start_cycles == s0.cycles,
                self@ == s0.steps(n),
                forall|j: nat|
                    j < n ==> #[trigger] s0.steps(j).cycles - s0.cycles < target_cycles
                        && !s0.steps(j).halted && s0.steps(j).step().0.ok,
            ensures
                (self.cycles - start_cycles) >= target_cycles || self.halted
                    || !self@.step().0.ok,
            decreases target_cycles + 24 - (self.cycles - start_cycles),
        {
            if self.halted || !self.next_step_ok() {
                break;
            }
            let ghost before = self@;
            let c = self.step();
            assert(self.cycles == before.cycles + c);
            proof {
                let m = n;
                n = n + 1;
                assert(s0.steps(n) == s0.steps(m).step().0);
                assert forall|j: nat|
                    j < n implies #[trigger] s0.steps(j).cycles - s0.cycles < target_cycles
                        && !s0.steps(j).halted && s0.steps(j).step().0.ok by {
                    if j == m {
                        assert(s0.steps(j) == before);
                    }
                }
            }
        }
    }

    /// Puts the cartridge that the ROM image's header asks for on the bus.
    pub fn load_rom(&mut self, rom: &[u8])
        requires
            old(self).wf(),
        ensures
            final(self).wf(),
            final(self)@ == (CpuView {
                bus: crate::bus::BusView {
                    mem: crate::memory::MemView {
                        cart: crate::mbc::cartridge_for(rom@),
                        ..old(self)@.bus.mem
                    },
                    ..old(self)@.bus
                },
                ..old(self)@
            }),
    {
        self.bus.load_rom(rom);
    }

    /// Clears the registers, PC and SP, the cycle count and the halt state;
    /// the bus is untouched.
    pub fn reset(&mut self)
        ensures
            final(self)@ == (CpuView {
                a: 0,
                b: 0,
                c: 0,
                d: 0,
                e: 0,
                h: 0,
                l: 0,
                f: 0,
                pc: 0,
                sp: 0,
                cycles: 0,
                halted: false,
                ..old(self)@
            }),
    {
        self.a = 0x00;
        self.f = 0x00;
        self.b = 0x00;
        self.c = 0x00;
        self.d = 0x00;
        self.e = 0x00;
        self.h = 0x00;
        self.l = 0x00;
        self.pc = 0x0000;
        self.sp = 0x0000;
        self.cycles = 0;
        self.halted = false;
    }
}

} // verus!
