use vstd::prelude::*;
use crate::bus::BusView;

verus! {

/// The state of the CPU and of everything behind its bus. `ok` records
/// whether every step taken so far was defined: it turns false at a step
/// that would overflow the program counter or the cycle counter, or access
/// the bus where it cannot serve the access.
pub struct CpuView {
    pub a: u8,
    pub b: u8,
    pub c: u8,
    pub d: u8,
    pub e: u8,
    pub h: u8,
    pub l: u8,
    pub f: u8,
    pub pc: u16,
    pub sp: u16,
    pub bus: BusView,
    pub cycles: u64,
    pub halted: bool,
    pub ok: bool,
}

// ---------------------------------------------------------------------------
// Flags
// ---------------------------------------------------------------------------

/// Z, bit 7 of F.
pub open spec fn flag_z(f: u8) -> bool {
    f & 0x80 != 0
}

/// N, bit 6 of F.
pub open spec fn flag_n(f: u8) -> bool {
    f & 0x40 != 0
}

/// H, bit 5 of F.
pub open spec fn flag_h(f: u8) -> bool {
    f & 0x20 != 0
}

/// C, bit 4 of F.
pub open spec fn flag_c(f: u8) -> bool {
    f & 0x10 != 0
}

/// F with the four flags given and its low nibble kept.
pub open spec fn with_flags(f: u8, z: bool, n: bool, h: bool, c: bool) -> u8 {
    (f & 0x0F) | (if z {
        0x80u8
    } else {
        0u8
    }) | (if n {
        0x40u8
    } else {
        0u8
    }) | (if h {
        0x20u8
    } else {
        0u8
    }) | (if c {
        0x10u8
    } else {
        0u8
    })
}

/// F with the bits of `mask` set or cleared.
pub open spec fn set_flag(f: u8, mask: u8, on: bool) -> u8 {
    if on {
        f | mask
    } else {
        f & !mask
    }
}

/// Setting the four flags one after the other, in any of the orders that
/// the instructions use, gives F with those flags.
pub proof fn lemma_set_flags(f: u8, z: bool, n: bool, h: bool, c: bool)
    by (bit_vector)
    ensures
        set_flag(set_flag(set_flag(set_flag(f, 0x80, z), 0x40, n), 0x20, h), 0x10, c)
            == with_flags(f, z, n, h, c),
        flag_z(with_flags(f, z, n, h, c)) == z,
        flag_n(with_flags(f, z, n, h, c)) == n,
        flag_h(with_flags(f, z, n, h, c)) == h,
        flag_c(with_flags(f, z, n, h, c)) == c,
        with_flags(f, z, n, h, c) & 0x0F == f & 0x0F,
        with_flags(f, flag_z(f), flag_n(f), flag_h(f), flag_c(f)) == f,
        set_flag(set_flag(f, 0x40, true), 0x20, true) == with_flags(f, flag_z(f), true, true, flag_c(f)),
        set_flag(set_flag(set_flag(f, 0x10, true), 0x40, false), 0x20, false) == with_flags(f, flag_z(f), false, false, true),
        set_flag(set_flag(set_flag(f, 0x10, !flag_c(f)), 0x40, false), 0x20, false) == with_flags(f, flag_z(f), false, false, !flag_c(f)),
{
}

// ---------------------------------------------------------------------------
// Words
// ---------------------------------------------------------------------------

/// The 16-bit value with high byte `hi` and low byte `lo`.
pub open spec fn word(hi: u8, lo: u8) -> u16 {
    (hi * 256 + lo) as u16
}

/// The high byte of a 16-bit value.
pub open spec fn hi_byte(v: u16) -> u8 {
    (v / 256) as u8
}

/// The low byte of a 16-bit value.
pub open spec fn lo_byte(v: u16) -> u8 {
    (v % 256) as u8
}

/// A byte read as a signed offset, extended to 16 bits.
pub open spec fn sign_extend(n: u8) -> u16 {
    if n < 128 {
        n as u16
    } else {
        (n + 0xFF00) as u16
    }
}

proof fn lemma_mask_bits(v: u16, n: u8)
    ensures
        n & 0x07 == n % 8,
        v & 0x0F <= 0x0F,
        v & 0xFF <= 0xFF,
        v & 0x0FFF <= 0x0FFF,
        (v & 0x0F) == v % 16,
        (v & 0xFF) == v % 256,
        (v as u8) == v % 256,
{
    assert(n & 0x07 == n % 8) by (bit_vector);
    assert(v & 0x0FFF <= 0x0FFF && (v & 0x0F) == v % 16 && (v & 0xFF) == v % 256) by (bit_vector);
    assert((v as u8) == v % 256) by (bit_vector);
}

proof fn lemma_word_bits_raw(v: u16, hi: u8, lo: u8, n: u8)
    by (bit_vector)
    ensures
        ((v >> 8u16) as u8) == v / 256,
        ((v & 0xFF) as u8) == v % 256,
        ((v & 0xF0) as u8) == (v % 256) / 16 * 16,
        (((hi as u16) << 8u16) | (lo as u16)) == hi * 256 + lo,
        n < 128 ==> ((n as i8) as u16) == n,
        n >= 128 ==> ((n as i8) as u16) == n + 0xFF00,
        n < 128 ==> (((n as i8) as i16) as u16) == n,
        n >= 128 ==> (((n as i8) as i16) as u16) == n + 0xFF00,
        n & 0x0F <= 15,
{
}

/// The bit-level forms that the executable code uses for these.
pub proof fn lemma_word_bits(v: u16, hi: u8, lo: u8, n: u8)
    ensures
        ((v >> 8u16) as u8) == hi_byte(v),
        ((v & 0xFF) as u8) == lo_byte(v),
        ((v & 0xF0) as u8) == (lo_byte(v) / 16 * 16) as u8,
        (((hi as u16) << 8u16) | (lo as u16)) == word(hi, lo),
        ((n as i8) as u16) == sign_extend(n),
        (((n as i8) as i16) as u16) == sign_extend(n),
        n & 0x0F <= 15,
        n & 0x07 == n % 8,
        v & 0x0F <= 0x0F,
        v & 0xFF <= 0xFF,
        v & 0x0FFF <= 0x0FFF,
        (v & 0x0F) == v % 16,
        (v & 0xFF) == v % 256,
        (v as u8) == v % 256,
{
    lemma_word_bits_raw(v, hi, lo, n);
    lemma_mask_bits(v, n);
}

pub proof fn lemma_word_bytes(v: u16)
    ensures
        word(hi_byte(v), lo_byte(v)) == v,
{
}

pub proof fn lemma_bytes_word(hi: u8, lo: u8)
    ensures
        hi_byte(word(hi, lo)) == hi,
        lo_byte(word(hi, lo)) == lo,
{
}

// ---------------------------------------------------------------------------
// Arithmetic and logic on the accumulator
// ---------------------------------------------------------------------------

/// ADD: A + v modulo 256. H is computed from the new A's low nibble plus
/// v's (as this CPU model does); C is the carry out of bit 7.
pub open spec fn alu_add(s: CpuView, v: u8) -> CpuView {
    let r = ((s.a + v) % 256) as u8;
    CpuView {
        a: r,
        f: with_flags(s.f, r == 0, false, (r & 0x0F) + (v & 0x0F) > 0x0F, s.a + v > 255),
        ..s
    }
}

/// ADC: A + v + C modulo 256, with H and C the carries out of bits 3 and 7.
pub open spec fn alu_adc(s: CpuView, v: u8) -> CpuView {
    let cin: int = if flag_c(s.f) {
        1
    } else {
        0
    };
    let total = s.a + v + cin;
    CpuView {
        a: (total % 256) as u8,
        f: with_flags(
            s.f,
            total % 256 == 0,
            false,
            (s.a & 0x0F) + (v & 0x0F) + cin > 0x0F,
            total > 255,
        ),
        ..s
    }
}

/// SUB: A - v modulo 256. H is computed from the new A's low nibble plus
/// v's (as this CPU model does); C is set when v exceeds A.
pub open spec fn alu_sub(s: CpuView, v: u8) -> CpuView {
    let r = ((s.a - v + 256) % 256) as u8;
    CpuView {
        a: r,
        f: with_flags(s.f, r == 0, true, (r & 0x0F) + (v & 0x0F) > 0x0F, s.a < v),
        ..s
    }
}

/// SBC: A - v - C modulo 256, with H and C the borrows from bits 4 and 8.
pub open spec fn alu_sbc(s: CpuView, v: u8) -> CpuView {
    let cin: int = if flag_c(s.f) {
        1
    } else {
        0
    };
    let total = s.a - v - cin;
    CpuView {
        a: ((total + 512) % 256) as u8,
        f: with_flags(
            s.f,
            (total + 512) % 256 == 0,
            true,
            (s.a & 0x0F) < (v & 0x0F) + cin,
            total < 0,
        ),
        ..s
    }
}

pub open spec fn alu_and(s: CpuView, v: u8) -> CpuView {
    let r = s.a & v;
    CpuView { a: r, f: with_flags(s.f, r == 0, false, true, false), ..s }
}

pub open spec fn alu_xor(s: CpuView, v: u8) -> CpuView {
    let r = s.a ^ v;
    CpuView { a: r, f: with_flags(s.f, r == 0, false, false, false), ..s }
}

pub open spec fn alu_or(s: CpuView, v: u8) -> CpuView {
    let r = s.a | v;
    CpuView { a: r, f: with_flags(s.f, r == 0, false, false, false), ..s }
}

/// CP: the flags of A - v, with A unchanged.
pub open spec fn alu_cp(s: CpuView, v: u8) -> CpuView {
    CpuView {
        f: with_flags(s.f, s.a == v, true, (s.a & 0x0F) < (v & 0x0F), s.a < v),
        ..s
    }
}

/// The ALU operation that bits 5-3 of an opcode select.
pub open spec fn alu(s: CpuView, k: u8, v: u8) -> CpuView {
    if k == 0 {
        alu_add(s, v)
    } else if k == 1 {
        alu_adc(s, v)
    } else if k == 2 {
        alu_sub(s, v)
    } else if k == 3 {
        alu_sbc(s, v)
    } else if k == 4 {
        alu_and(s, v)
    } else if k == 5 {
        alu_xor(s, v)
    } else if k == 6 {
        alu_or(s, v)
    } else {
        alu_cp(s, v)
    }
}

/// INC of an 8-bit value: the result and the new F (C kept).
pub open spec fn inc8(f: u8, v: u8) -> (u8, u8) {
    let r = ((v + 1) % 256) as u8;
    (r, with_flags(f, r == 0, false, (v & 0x0F) == 0x0F, flag_c(f)))
}

/// DEC of an 8-bit value: the result and the new F (C kept).
pub open spec fn dec8(f: u8, v: u8) -> (u8, u8) {
    let r = ((v + 255) % 256) as u8;
    (r, with_flags(f, r == 0, true, (v & 0x0F) == 0, flag_c(f)))
}

/// DAA: adjusts A to binary-coded decimal after an addition (N clear) or a
/// subtraction (N set). C is set when an addition needed the high
/// correction, and never cleared.
pub open spec fn daa(s: CpuView) -> CpuView {
    let a0 = s.a as int;
    let high = flag_c(s.f) || a0 > 0x99;
    let r: int = if !flag_n(s.f) {
        let a1 = if high {
            a0 + 0x60
        } else {
            a0
        };
        if flag_h(s.f) || a1 % 16 > 9 {
            a1 + 6
        } else {
            a1
        }
    } else {
        let a1 = if flag_c(s.f) {
            a0 - 0x60
        } else {
            a0
        };
        if flag_h(s.f) {
            a1 - 6
        } else {
            a1
        }
    };
    let a = ((r + 0x10000) % 256) as u8;
    CpuView {
        a,
        f: with_flags(s.f, a == 0, flag_n(s.f), false, flag_c(s.f) || (!flag_n(s.f) && high)),
        ..s
    }
}

// ---------------------------------------------------------------------------
// Rotates and shifts: the result and the carry out
// ---------------------------------------------------------------------------

/// The rotate or shift that bits 5-3 of a CB-prefixed opcode below 0x40
/// select, applied to `v` with carry in `cin`: RLC, RRC, RL, RR, SLA, SRA,
/// SWAP, SRL. Returns the result and the carry out.
pub open spec fn shift_op(k: u8, v: u8, cin: bool) -> (u8, bool) {
    if k == 0 {
        ((v << 1u8) | (if v & 0x80 != 0 {
            1u8
        } else {
            0u8
        }), v & 0x80 != 0)
    } else if k == 1 {
        ((v >> 1u8) | (if v & 0x01 != 0 {
            0x80u8
        } else {
            0u8
        }), v & 0x01 != 0)
    } else if k == 2 {
        ((v << 1u8) | (if cin {
            1u8
        } else {
            0u8
        }), v & 0x80 != 0)
    } else if k == 3 {
        ((v >> 1u8) | (if cin {
            0x80u8
        } else {
            0u8
        }), v & 0x01 != 0)
    } else if k == 4 {
        (v << 1u8, v & 0x80 != 0)
    } else if k == 5 {
        ((v >> 1u8) | (v & 0x80), v & 0x01 != 0)
    } else if k == 6 {
        ((v >> 4u8) | (v << 4u8), false)
    } else {
        (v >> 1u8, v & 0x01 != 0)
    }
}

impl CpuView {
    // -----------------------------------------------------------------------
    // Registers
    // -----------------------------------------------------------------------
    pub open spec fn bc(self) -> u16 {
        word(self.b, self.c)
    }

    pub open spec fn de(self) -> u16 {
        word(self.d, self.e)
    }

    pub open spec fn hl(self) -> u16 {
        word(self.h, self.l)
    }

    pub open spec fn af(self) -> u16 {
        word(self.a, self.f)
    }

    pub open spec fn with_bc(self, v: u16) -> CpuView {
        CpuView { b: hi_byte(v), c: lo_byte(v), ..self }
    }

    pub open spec fn with_de(self, v: u16) -> CpuView {
        CpuView { d: hi_byte(v), e: lo_byte(v), ..self }
    }

    pub open spec fn with_hl(self, v: u16) -> CpuView {
        CpuView { h: hi_byte(v), l: lo_byte(v), ..self }
    }

    /// AF takes the high byte into A and the high nibble of the low byte
    /// into F: the low nibble of F always reads 0 afterwards.
    pub open spec fn with_af(self, v: u16) -> CpuView {
        CpuView { a: hi_byte(v), f: (lo_byte(v) / 16 * 16) as u8, ..self }
    }

    /// The register pair that bits 5-4 of an opcode select: BC, DE, HL, SP.
    pub open spec fn pair_sp(self, p: u8) -> u16 {
        if p == 0 {
            self.bc()
        } else if p == 1 {
            self.de()
        } else if p == 2 {
            self.hl()
        } else {
            self.sp
        }
    }

    pub open spec fn with_pair_sp(self, p: u8, v: u16) -> CpuView {
        if p == 0 {
            self.with_bc(v)
        } else if p == 1 {
            self.with_de(v)
        } else if p == 2 {
            self.with_hl(v)
        } else {
            CpuView { sp: v, ..self }
        }
    }

    /// The register pair that bits 5-4 of PUSH and POP select: BC, DE, HL,
    /// AF.
    pub open spec fn pair_af(self, p: u8) -> u16 {
        if p == 3 {
            self.af()
        } else {
            self.pair_sp(p)
        }
    }

    pub open spec fn with_pair_af(self, p: u8, v: u16) -> CpuView {
        if p == 3 {
            self.with_af(v)
        } else {
            self.with_pair_sp(p, v)
        }
    }

    /// The condition that bits 4-3 of a conditional jump select: NZ, Z, NC,
    /// C.
    pub open spec fn condition(self, cc: u8) -> bool {
        if cc == 0 {
            !flag_z(self.f)
        } else if cc == 1 {
            flag_z(self.f)
        } else if cc == 2 {
            !flag_c(self.f)
        } else {
            flag_c(self.f)
        }
    }

    // -----------------------------------------------------------------------
    // The bus
    // -----------------------------------------------------------------------
    /// What reading `addr` gives.
    pub open spec fn rd(self, addr: u16) -> u8 {
        self.bus.read(addr)
    }

    /// The state after reading `addr` (reads change nothing but definedness).
    pub open spec fn reading(self, addr: u16) -> CpuView {
        CpuView { ok: self.ok && self.bus.read_ok(addr), ..self }
    }

    /// The state after writing `value` to `addr`.
    pub open spec fn wr(self, addr: u16, value: u8) -> CpuView {
        CpuView {
            bus: self.bus.written(addr, value),
            ok: self.ok && self.bus.write_ok(addr, value),
            ..self
        }
    }

    /// Fetching the byte at PC advances PC; PC must not pass 0xFFFF.
    pub open spec fn fetch(self) -> (CpuView, u8) {
        (
            CpuView {
                pc: (self.pc + 1) as u16,
                ok: self.ok && self.pc < 0xFFFF && self.bus.read_ok(self.pc),
                ..self
            },
            self.rd(self.pc),
        )
    }

    /// Fetching a little-endian word at PC.
    pub open spec fn fetch_word(self) -> (CpuView, u16) {
        let (s1, lo) = self.fetch();
        let (s2, hi) = s1.fetch();
        (s2, word(hi, lo))
    }

    /// Pushing a word: SP goes down by one before each byte is written, the
    /// high byte first.
    pub open spec fn push(self, v: u16) -> CpuView {
        let sp1 = self.sp.wrapping_sub(1);
        let s1 = CpuView { sp: sp1, ..self }.wr(sp1, hi_byte(v));
        let sp2 = sp1.wrapping_sub(1);
        CpuView { sp: sp2, ..s1 }.wr(sp2, lo_byte(v))
    }

    /// Popping a word: the low byte at SP, the high byte above it; SP goes
    /// up by two.
    pub open spec fn pop(self) -> (CpuView, u16) {
        let lo = self.rd(self.sp);
        let s1 = self.reading(self.sp);
        let sp1 = self.sp.wrapping_add(1);
        let hi = s1.rd(sp1);
        let s2 = s1.reading(sp1);
        (CpuView { sp: sp1.wrapping_add(1), ..s2 }, word(hi, lo))
    }

    /// The 8-bit operand that the low three bits of an opcode select: B, C,
    /// D, E, H, L, the byte at HL, A.
    pub open spec fn reg8(self, r: u8) -> u8 {
        if r == 0 {
            self.b
        } else if r == 1 {
            self.c
        } else if r == 2 {
            self.d
        } else if r == 3 {
            self.e
        } else if r == 4 {
            self.h
        } else if r == 5 {
            self.l
        } else if r == 6 {
            self.rd(self.hl())
        } else {
            self.a
        }
    }

    /// The state after reading operand `r`.
    pub open spec fn reading_reg8(self, r: u8) -> CpuView {
        if r == 6 {
            self.reading(self.hl())
        } else {
            self
        }
    }

    /// The state after setting operand `r` to `v`.
    pub open spec fn with_reg8(self, r: u8, v: u8) -> CpuView {
        if r == 0 {
            CpuView { b: v, ..self }
        } else if r == 1 {
            CpuView { c: v, ..self }
        } else if r == 2 {
            CpuView { d: v, ..self }
        } else if r == 3 {
            CpuView { e: v, ..self }
        } else if r == 4 {
            CpuView { h: v, ..self }
        } else if r == 5 {
            CpuView { l: v, ..self }
        } else if r == 6 {
            self.wr(self.hl(), v)
        } else {
            CpuView { a: v, ..self }
        }
    }

    /// The state with F replaced.
    pub open spec fn with_f(self, f: u8) -> CpuView {
        CpuView { f, ..self }
    }

    // -----------------------------------------------------------------------
    // 16-bit arithmetic
    // -----------------------------------------------------------------------
    /// ADD HL,v: H and C are the carries out of bits 11 and 15; Z is kept.
    pub open spec fn add_hl(self, v: u16) -> CpuView {
        let hl = self.hl();
        CpuView {
            f: with_flags(
                self.f,
                flag_z(self.f),
                false,
                (hl & 0x0FFF) + (v & 0x0FFF) > 0x0FFF,
                hl + v > 0xFFFF,
            ),
            ..self
        }.with_hl(hl.wrapping_add(v))
    }

    /// The accumulator rotates RLCA, RRCA, RLA, RRA (shift kinds 0 to 3):
    /// like their CB forms but with Z always clear.
    pub open spec fn rotate_a(self, k: u8) -> CpuView {
        let (r, carry) = shift_op(k, self.a, flag_c(self.f));
        CpuView { a: r, f: with_flags(self.f, false, false, false, carry), ..self }
    }

    // -----------------------------------------------------------------------
    // Instructions
    // -----------------------------------------------------------------------
    /// LD r,r' (0x40-0x7F but 0x76): 4 cycles, 8 with the byte at HL.
    pub open spec fn exec_ld_r_r(self, op: u8) -> (CpuView, u32) {
        let dst = ((op / 8) % 8) as u8;
        let src = (op % 8) as u8;
        let v = self.reg8(src);
        (self.reading_reg8(src).with_reg8(dst, v), if dst == 6 || src == 6 {
            8
        } else {
            4
        })
    }

    /// ALU A,r (0x80-0xBF): 4 cycles, 8 with the byte at HL.
    pub open spec fn exec_alu_r(self, op: u8) -> (CpuView, u32) {
        let k = ((op / 8) % 8) as u8;
        let src = (op % 8) as u8;
        (alu(self.reading_reg8(src), k, self.reg8(src)), if src == 6 {
            8
        } else {
            4
        })
    }

    /// LD rr,nn (0x01, 0x11, 0x21, 0x31): 12 cycles.
    #[verifier::opaque]
    pub open spec fn i_ld_rr_nn(self, p: u8) -> (CpuView, u32) {
        let (s1, w) = self.fetch_word();
        (s1.with_pair_sp(p, w), 12)
    }

    /// LD (addr),A: 8 cycles.
    #[verifier::opaque]
    pub open spec fn i_st_a(self, addr: u16) -> (CpuView, u32) {
        (self.wr(addr, self.a), 8)
    }

    /// LD A,(addr): 8 cycles.
    #[verifier::opaque]
    pub open spec fn i_ld_a(self, addr: u16) -> (CpuView, u32) {
        (CpuView { a: self.rd(addr), ..self.reading(addr) }, 8)
    }

    /// LD (HL+),A and LD (HL-),A (0x22, 0x32): 8 cycles.
    #[verifier::opaque]
    pub open spec fn i_st_a_hl(self, inc: bool) -> (CpuView, u32) {
        let hl = self.hl();
        (self.wr(hl, self.a).with_hl(
            if inc {
                hl.wrapping_add(1)
            } else {
                hl.wrapping_sub(1)
            },
        ), 8)
    }

    /// LD A,(HL+) and LD A,(HL-) (0x2A, 0x3A): 8 cycles.
    #[verifier::opaque]
    pub open spec fn i_ld_a_hl(self, inc: bool) -> (CpuView, u32) {
        let hl = self.hl();
        (CpuView { a: self.rd(hl), ..self.reading(hl) }.with_hl(
            if inc {
                hl.wrapping_add(1)
            } else {
                hl.wrapping_sub(1)
            },
        ), 8)
    }

    /// INC rr and DEC rr (0x03-0x3B): 8 cycles, no flags.
    #[verifier::opaque]
    pub open spec fn i_inc_dec_rr(self, p: u8, inc: bool) -> (CpuView, u32) {
        let v = self.pair_sp(p);
        (self.with_pair_sp(
            p,
            if inc {
                v.wrapping_add(1)
            } else {
                v.wrapping_sub(1)
            },
        ), 8)
    }

    /// ADD HL,rr (0x09, 0x19, 0x29, 0x39): 8 cycles.
    #[verifier::opaque]
    pub open spec fn i_add_hl_rr(self, p: u8) -> (CpuView, u32) {
        (self.add_hl(self.pair_sp(p)), 8)
    }

    /// INC r and DEC r: 4 cycles, 12 on the byte at HL.
    #[verifier::opaque]
    pub open spec fn i_inc_dec_r(self, r: u8, inc: bool) -> (CpuView, u32) {
        let (v, f) = if inc {
            inc8(self.f, self.reg8(r))
        } else {
            dec8(self.f, self.reg8(r))
        };
        (self.reading_reg8(r).with_f(f).with_reg8(r, v), if r == 6 {
            12
        } else {
            4
        })
    }

    /// LD r,n: 8 cycles, 12 into the byte at HL.
    #[verifier::opaque]
    pub open spec fn i_ld_r_n(self, r: u8) -> (CpuView, u32) {
        let (s1, n) = self.fetch();
        (s1.with_reg8(r, n), if r == 6 {
            12
        } else {
            8
        })
    }

    /// LD (nn),SP (0x08): 20 cycles; the second byte goes to nn + 1, which
    /// must not pass 0xFFFF.
    #[verifier::opaque]
    pub open spec fn i_ld_nn_sp(self) -> (CpuView, u32) {
        let (s1, addr) = self.fetch_word();
        let s2 = s1.wr(addr, lo_byte(self.sp));
        let s3 = CpuView { ok: s2.ok && addr < 0xFFFF, ..s2 };
        (s3.wr((addr + 1) as u16, hi_byte(self.sp)), 20)
    }

    /// STOP (0x10): skips its operand byte and halts; 4 cycles.
    #[verifier::opaque]
    pub open spec fn i_stop(self) -> (CpuView, u32) {
        let (s1, _) = self.fetch();
        (CpuView { halted: true, ..s1 }, 4)
    }

    /// JR n and JR cc,n: jumps by the signed operand when `taken`; 12 cycles
    /// when it jumps, 8 when not.
    #[verifier::opaque]
    pub open spec fn i_jr(self, taken: bool) -> (CpuView, u32) {
        let (s1, n) = self.fetch();
        if taken {
            (CpuView { pc: s1.pc.wrapping_add(sign_extend(n)), ..s1 }, 12)
        } else {
            (s1, 8)
        }
    }

    /// CPL (0x2F): complements A, sets N and H.
    #[verifier::opaque]
    pub open spec fn i_cpl(self) -> (CpuView, u32) {
        (CpuView {
            a: !self.a,
            f: with_flags(self.f, flag_z(self.f), true, true, flag_c(self.f)),
            ..self
        }, 4)
    }

    /// SCF (0x37) sets C, CCF (0x3F) complements it; N and H cleared.
    #[verifier::opaque]
    pub open spec fn i_scf_ccf(self, set: bool) -> (CpuView, u32) {
        (CpuView {
            f: with_flags(
                self.f,
                flag_z(self.f),
                false,
                false,
                if set {
                    true
                } else {
                    !flag_c(self.f)
                },
            ),
            ..self
        }, 4)
    }

    /// The instructions 0x00-0x3F.
    pub open spec fn exec_block0(self, op: u8) -> (CpuView, u32) {
        let r = ((op / 8) % 8) as u8;
        let p = ((op / 16) % 4) as u8;
        let cc = ((op / 8) % 4) as u8;
        if op == 0x00 {
            (self, 4)
        } else if op == 0x01 || op == 0x11 || op == 0x21 || op == 0x31 {
            self.i_ld_rr_nn(p)
        } else if op == 0x02 {
            self.i_st_a(self.bc())
        } else if op == 0x12 {
            self.i_st_a(self.de())
        } else if op == 0x22 {
            self.i_st_a_hl(true)
        } else if op == 0x32 {
            self.i_st_a_hl(false)
        } else if op == 0x0A {
            self.i_ld_a(self.bc())
        } else if op == 0x1A {
            self.i_ld_a(self.de())
        } else if op == 0x2A {
            self.i_ld_a_hl(true)
        } else if op == 0x3A {
            self.i_ld_a_hl(false)
        } else if op == 0x03 || op == 0x13 || op == 0x23 || op == 0x33 {
            self.i_inc_dec_rr(p, true)
        } else if op == 0x0B || op == 0x1B || op == 0x2B || op == 0x3B {
            self.i_inc_dec_rr(p, false)
        } else if op == 0x09 || op == 0x19 || op == 0x29 || op == 0x39 {
            self.i_add_hl_rr(p)
        } else if op % 8 == 4 {
            self.i_inc_dec_r(r, true)
        } else if op % 8 == 5 {
            self.i_inc_dec_r(r, false)
        } else if op % 8 == 6 {
            self.i_ld_r_n(r)
        } else if op == 0x07 {
            (self.rotate_a(0), 4)
        } else if op == 0x0F {
            (self.rotate_a(1), 4)
        } else if op == 0x17 {
            (self.rotate_a(2), 4)
        } else if op == 0x1F {
            (self.rotate_a(3), 4)
        } else if op == 0x08 {
            self.i_ld_nn_sp()
        } else if op == 0x10 {
            self.i_stop()
        } else if op == 0x18 {
            self.i_jr(true)
        } else if op == 0x20 || op == 0x28 || op == 0x30 || op == 0x38 {
            self.i_jr(self.condition(cc))
        } else if op == 0x27 {
            (daa(self), 4)
        } else if op == 0x2F {
            self.i_cpl()
        } else if op == 0x37 {
            self.i_scf_ccf(true)
        } else {
            // 0x3F, CCF
            self.i_scf_ccf(false)
        }
    }

    /// A rotate or shift (CB 0x00-0x3F).
    #[verifier::opaque]
    pub open spec fn cb_shift(self, op: u8) -> (CpuView, u32) {
        let r = (op % 8) as u8;
        let (res, carry) = shift_op(((op / 8) % 8) as u8, self.reg8(r), flag_c(self.f));
        (self.reading_reg8(r).with_f(with_flags(self.f, res == 0, false, false, carry)).with_reg8(
            r,
            res,
        ), if r == 6 {
            16
        } else {
            8
        })
    }

    /// BIT b,r (CB 0x40-0x7F).
    #[verifier::opaque]
    pub open spec fn cb_bit(self, op: u8) -> (CpuView, u32) {
        let r = (op % 8) as u8;
        let k = ((op / 8) % 8) as u8;
        (self.reading_reg8(r).with_f(
            with_flags(self.f, self.reg8(r) & (1u8 << k) == 0, false, true, flag_c(self.f)),
        ), if r == 6 {
            12
        } else {
            8
        })
    }

    /// RES b,r (CB 0x80-0xBF) and SET b,r (CB 0xC0-0xFF).
    #[verifier::opaque]
    pub open spec fn cb_res_set(self, op: u8, set: bool) -> (CpuView, u32) {
        let r = (op % 8) as u8;
        let k = ((op / 8) % 8) as u8;
        let v = self.reg8(r);
        (self.reading_reg8(r).with_reg8(
            r,
            if set {
                v | (1u8 << k)
            } else {
                v & !(1u8 << k)
            },
        ), if r == 6 {
            16
        } else {
            8
        })
    }

    /// The CB-prefixed instructions: rotates and shifts, BIT, RES and SET,
    /// on the operand in the low three bits; 8 cycles, and with the byte at
    /// HL 16 (12 for BIT).
    pub open spec fn exec_cb(self, op: u8) -> (CpuView, u32) {
        if op < 0x40 {
            self.cb_shift(op)
        } else if op < 0x80 {
            self.cb_bit(op)
        } else if op < 0xC0 {
            self.cb_res_set(op, false)
        } else {
            self.cb_res_set(op, true)
        }
    }

    /// RET and RET cc: pops PC when `taken`; 16 cycles for RET, 20 and 8 for
    /// a conditional return taken and not.
    #[verifier::opaque]
    pub open spec fn i_ret(self, taken: bool, conditional: bool) -> (CpuView, u32) {
        if taken {
            let (s1, addr) = self.pop();
            (CpuView { pc: addr, ..s1 }, if conditional {
                20
            } else {
                16
            })
        } else {
            (self, 8)
        }
    }

    /// POP rr: 12 cycles.
    #[verifier::opaque]
    pub open spec fn i_pop(self, p: u8) -> (CpuView, u32) {
        let (s1, v) = self.pop();
        (s1.with_pair_af(p, v), 12)
    }

    /// PUSH rr: 16 cycles.
    #[verifier::opaque]
    pub open spec fn i_push(self, p: u8) -> (CpuView, u32) {
        (self.push(self.pair_af(p)), 16)
    }

    /// JP nn and JP cc,nn: 16 cycles when it jumps, 12 when not.
    #[verifier::opaque]
    pub open spec fn i_jp(self, taken: bool) -> (CpuView, u32) {
        let (s1, addr) = self.fetch_word();
        if taken {
            (CpuView { pc: addr, ..s1 }, 16)
        } else {
            (s1, 12)
        }
    }

    /// CALL nn and CALL cc,nn: pushes the address after the instruction and
    /// jumps; 24 cycles when it calls, 12 when not.
    #[verifier::opaque]
    pub open spec fn i_call(self, taken: bool) -> (CpuView, u32) {
        let (s1, addr) = self.fetch_word();
        if taken {
            (CpuView { pc: addr, ..s1.push(s1.pc) }, 24)
        } else {
            (s1, 12)
        }
    }

    /// ALU A,n: 8 cycles.
    #[verifier::opaque]
    pub open spec fn i_alu_n(self, k: u8) -> (CpuView, u32) {
        let (s1, n) = self.fetch();
        (alu(s1, k, n), 8)
    }

    /// RST t: pushes PC and jumps to `target`; 16 cycles.
    #[verifier::opaque]
    pub open spec fn i_rst(self, target: u16) -> (CpuView, u32) {
        (CpuView { pc: target, ..self.push(self.pc) }, 16)
    }

    /// LDH (n),A (0xE0): 12 cycles.
    #[verifier::opaque]
    pub open spec fn i_ldh_n_a(self) -> (CpuView, u32) {
        let (s1, n) = self.fetch();
        (s1.wr((0xFF00 + n) as u16, self.a), 12)
    }

    /// LDH A,(n) (0xF0): 12 cycles.
    #[verifier::opaque]
    pub open spec fn i_ldh_a_n(self) -> (CpuView, u32) {
        let (s1, n) = self.fetch();
        let addr = (0xFF00 + n) as u16;
        (CpuView { a: s1.rd(addr), ..s1.reading(addr) }, 12)
    }

    /// ADD SP,n (0xE8): Z and N cleared, H and C the carries out of bits 3
    /// and 7 of the low byte; 16 cycles.
    #[verifier::opaque]
    pub open spec fn i_add_sp(self) -> (CpuView, u32) {
        let (s1, n) = self.fetch();
        let v = sign_extend(n);
        (CpuView {
            sp: self.sp.wrapping_add(v),
            f: with_flags(
                self.f,
                false,
                false,
                (self.sp & 0x0F) + (v & 0x0F) > 0x0F,
                (self.sp & 0xFF) + (v & 0xFF) > 0xFF,
            ),
            ..s1
        }, 16)
    }

    /// LD (nn),A (0xEA): 16 cycles.
    #[verifier::opaque]
    pub open spec fn i_st_a_nn(self) -> (CpuView, u32) {
        let (s1, addr) = self.fetch_word();
        (s1.wr(addr, self.a), 16)
    }

    /// LD A,(nn) (0xFA): 16 cycles.
    #[verifier::opaque]
    pub open spec fn i_ld_a_nn(self) -> (CpuView, u32) {
        let (s1, addr) = self.fetch_word();
        (CpuView { a: s1.rd(addr), ..s1.reading(addr) }, 16)
    }

    /// The instructions 0xC0-0xFF, and HALT (0x76).
    pub open spec fn exec_block3(self, op: u8) -> (CpuView, u32) {
        let p = ((op / 16) % 4) as u8;
        let cc = ((op / 8) % 4) as u8;
        let k = ((op / 8) % 8) as u8;
        if op == 0x76 {
            (CpuView { halted: true, ..self }, 4)
        } else if op == 0xC0 || op == 0xC8 || op == 0xD0 || op == 0xD8 {
            self.i_ret(self.condition(cc), true)
        } else if op == 0xC1 || op == 0xD1 || op == 0xE1 || op == 0xF1 {
            self.i_pop(p)
        } else if op == 0xC2 || op == 0xCA || op == 0xD2 || op == 0xDA {
            self.i_jp(self.condition(cc))
        } else if op == 0xC3 {
            self.i_jp(true)
        } else if op == 0xC4 || op == 0xCC || op == 0xD4 || op == 0xDC {
            self.i_call(self.condition(cc))
        } else if op == 0xC5 || op == 0xD5 || op == 0xE5 || op == 0xF5 {
            self.i_push(p)
        } else if op % 8 == 6 {
            self.i_alu_n(k)
        } else if op % 8 == 7 {
            self.i_rst((op - 0xC7) as u16)
        } else if op == 0xC9 || op == 0xD9 {
            self.i_ret(true, false)
        } else if op == 0xCB {
            let (s1, cb) = self.fetch();
            let (s2, c) = s1.exec_cb(cb);
            (CpuView { ok: s1.ok && s2.ok, ..s2 }, c)
        } else if op == 0xCD {
            self.i_call(true)
        } else if op == 0xE0 {
            self.i_ldh_n_a()
        } else if op == 0xF0 {
            self.i_ldh_a_n()
        } else if op == 0xE2 {
            self.i_st_a((0xFF00 + self.c) as u16)
        } else if op == 0xF2 {
            self.i_ld_a((0xFF00 + self.c) as u16)
        } else if op == 0xE8 {
            self.i_add_sp()
        } else if op == 0xE9 {
            (CpuView { pc: self.hl(), ..self }, 4)
        } else if op == 0xEA {
            self.i_st_a_nn()
        } else if op == 0xFA {
            self.i_ld_a_nn()
        } else if op == 0xF9 {
            (CpuView { sp: self.hl(), ..self }, 8)
        } else {
            // DI (0xF3), EI (0xFB), and the opcodes this model leaves out
            // (0xD3, 0xDB, 0xDD, 0xE3, 0xE4, 0xEB, 0xEC, 0xED, 0xF4, 0xF8,
            // 0xFC, 0xFD) take 4 cycles and change nothing.
            (self, 4)
        }
    }

    /// Executing the instruction `op`, whose opcode byte has been fetched:
    /// the new state and the cycles taken.
    pub open spec fn execute(self, op: u8) -> (CpuView, u32) {
        if 0x40 <= op <= 0x7F && op != 0x76 {
            self.exec_ld_r_r(op)
        } else if 0x80 <= op <= 0xBF {
            self.exec_alu_r(op)
        } else if op < 0x40 {
            self.exec_block0(op)
        } else {
            self.exec_block3(op)
        }
    }

    /// The state after `n` steps.
    pub open spec fn steps(self, n: nat) -> CpuView
        decreases n,
    {
        if n == 0 {
            self
        } else {
            self.steps((n - 1) as nat).step().0
        }
    }

    /// One step: a halted CPU takes 4 cycles and does nothing; else the
    /// instruction at PC is fetched and executed and its cycles are added to
    /// the cycle counter.
    pub open spec fn step(self) -> (CpuView, u32) {
        if self.halted {
            (self, 4)
        } else {
            let (s1, op) = self.fetch();
            let (s2, c) = s1.execute(op);
            (CpuView {
                cycles: (s2.cycles + c) as u64,
                ok: s1.ok && s2.ok && s2.cycles + c <= u64::MAX,
                ..s2
            }, c)
        }
    }
}

// ---------------------------------------------------------------------------
// Laws
// ---------------------------------------------------------------------------

/// Setting a register pair and reading it back gives the value set; for AF
/// the low nibble of F reads 0.
pub proof fn lemma_pair_round_trip(s: CpuView, v: u16)
    ensures
        s.with_bc(v).bc() == v,
        s.with_de(v).de() == v,
        s.with_hl(v).hl() == v,
        s.with_af(v).af() == (v / 16 * 16) as u16,
{
}

/// Setting one flag makes it read as set, and leaves the other flags and
/// the low nibble of F as they were.
pub proof fn lemma_flag_setters(f: u8, v: bool)
    ensures
        flag_z(set_flag(f, 0x80, v)) == v,
        flag_n(set_flag(f, 0x40, v)) == v,
        flag_h(set_flag(f, 0x20, v)) == v,
        flag_c(set_flag(f, 0x10, v)) == v,
        set_flag(f, 0x80, v) == with_flags(f, v, flag_n(f), flag_h(f), flag_c(f)),
        set_flag(f, 0x40, v) == with_flags(f, flag_z(f), v, flag_h(f), flag_c(f)),
        set_flag(f, 0x20, v) == with_flags(f, flag_z(f), flag_n(f), v, flag_c(f)),
        set_flag(f, 0x10, v) == with_flags(f, flag_z(f), flag_n(f), flag_h(f), v),
{
    lemma_flag_setters_raw(f, v);
}

proof fn lemma_flag_setters_raw(f: u8, v: bool)
    by (bit_vector)
    ensures
        flag_z(set_flag(f, 0x80, v)) == v,
        flag_n(set_flag(f, 0x40, v)) == v,
        flag_h(set_flag(f, 0x20, v)) == v,
        flag_c(set_flag(f, 0x10, v)) == v,
        set_flag(f, 0x80, v) == with_flags(f, v, flag_n(f), flag_h(f), flag_c(f)),
        set_flag(f, 0x40, v) == with_flags(f, flag_z(f), v, flag_h(f), flag_c(f)),
        set_flag(f, 0x20, v) == with_flags(f, flag_z(f), flag_n(f), v, flag_c(f)),
        set_flag(f, 0x10, v) == with_flags(f, flag_z(f), flag_n(f), flag_h(f), v),
{
}

/// Popping what was just pushed gives it back and restores SP, when both
/// stack bytes are plain storage.
pub proof fn lemma_push_pop(s: CpuView, v: u16)
    requires
        s.bus.wf(),
        crate::bus::is_plain_ram(s.sp.wrapping_sub(1)),
        crate::bus::is_plain_ram(s.sp.wrapping_sub(2)),
    ensures
        s.push(v).pop().1 == v,
        s.push(v).pop().0.sp == s.sp,
{
    let sp1 = s.sp.wrapping_sub(1);
    let sp2 = sp1.wrapping_sub(1);
    let s1 = CpuView { sp: sp1, ..s }.wr(sp1, hi_byte(v));
    let s2 = CpuView { sp: sp2, ..s1 }.wr(sp2, lo_byte(v));
    crate::bus::lemma_read_after_write(s.bus, sp1, hi_byte(v));
    crate::bus::lemma_read_after_write(s1.bus, sp2, lo_byte(v));
    crate::bus::lemma_write_leaves_other_cells(s1.bus, sp2, lo_byte(v), sp1);
    assert(sp2.wrapping_add(1) == sp1);
    assert(sp1.wrapping_add(1) == s.sp);
    lemma_word_bytes(v);
}

/// BIT after SET of the same bit finds it set; after RES, clear; SWAP
/// twice gives the value back.
pub proof fn lemma_bit_ops(v: u8, k: u8)
    requires
        k < 8,
    ensures
        (v | (1u8 << k)) & (1u8 << k) != 0,
        (v & !(1u8 << k)) & (1u8 << k) == 0,
        shift_op(6, shift_op(6, v, false).0, false).0 == v,
{
    assert(k < 8 ==> (v | (1u8 << k)) & (1u8 << k) != 0 && (v & !(1u8 << k)) & (1u8 << k) == 0
        && ((((v >> 4u8) | (v << 4u8)) >> 4u8) | (((v >> 4u8) | (v << 4u8)) << 4u8)) == v)
        by (bit_vector);
}

/// A halted CPU's step changes nothing and takes 4 cycles.
pub proof fn lemma_halted_step(s: CpuView)
    requires
        s.halted,
    ensures
        s.step() == (s, 4u32),
{
}

/// Whether the instruction set has an instruction with opcode `op`: all
/// opcodes but 0xD3, 0xDB, 0xDD, 0xE3, 0xE4, 0xEB, 0xEC, 0xED, 0xF4, 0xF8,
/// 0xFC and 0xFD.
pub open spec fn implemented(op: u8) -> bool {
    !(op == 0xD3 || op == 0xDB || op == 0xDD || op == 0xE3 || op == 0xE4 || op == 0xEB || op
        == 0xEC || op == 0xED || op == 0xF4 || op == 0xF8 || op == 0xFC || op == 0xFD)
}

/// An opcode without an instruction takes 4 cycles and changes nothing.
pub proof fn lemma_unimplemented_is_no_op(s: CpuView, op: u8)
    requires
        !implemented(op),
    ensures
        s.execute(op) == (s, 4u32),
{
}

/// CP sets the flags as SUB does, and leaves A as it was.
pub proof fn lemma_cp_is_sub_without_result(s: CpuView, v: u8)
    ensures
        alu_cp(s, v) == (CpuView { a: s.a, ..alu_sub(s, v) }),
{
    let a = s.a;
    assert((((a - v + 256) % 256) as u8 == 0) == (a == v)) by (bit_vector);
    assert((((((a - v + 256) % 256) as u8) & 0x0F) + (v & 0x0F) > 0x0F) == ((a & 0x0F) < (v
        & 0x0F))) by (bit_vector);
}

/// The CP instructions (0xB8-0xBF, 0xFE) do what the matching SUB
/// instructions (0x90-0x97, 0xD6) do, but keep A.
#[verifier::rlimit(50)]
pub proof fn lemma_cp_instructions_are_sub(s: CpuView, op: u8)
    requires
        0xB8 <= op <= 0xBF || op == 0xFE,
    ensures
        s.execute(op) == ((CpuView { a: s.a, ..s.execute((op - 0x28) as u8).0 }, s.execute(
            (op - 0x28) as u8,
        ).1)),
{
    let sub = (op - 0x28) as u8;
    if op == 0xFE {
        reveal(CpuView::i_alu_n);
        let (s1, n) = s.fetch();
        assert(s.execute(op) == s.exec_block3(op));
        assert(s.exec_block3(op) == s.i_alu_n(7));
        assert(s.execute(sub) == s.exec_block3(sub));
        assert(s.exec_block3(sub) == s.i_alu_n(2));
        lemma_cp_is_sub_without_result(s1, n);
    } else {
        let src = (op % 8) as u8;
        assert(s.execute(op) == s.exec_alu_r(op));
        assert(s.execute(sub) == s.exec_alu_r(sub));
        assert(sub % 8 == src && (op / 8) % 8 == 7 && (sub / 8) % 8 == 2);
        lemma_cp_is_sub_without_result(s.reading_reg8(src), s.reg8(src));
    }
}

// ---------------------------------------------------------------------------
// Decimal arithmetic
// ---------------------------------------------------------------------------

/// Whether `z` is packed binary-coded decimal: two digits 0-9.
pub open spec fn is_bcd(z: u8) -> bool {
    z / 16 <= 9 && z % 16 <= 9
}

/// The number 0-99 that a packed BCD byte stands for.
pub open spec fn bcd_value(z: u8) -> int {
    10 * (z / 16) + z % 16
}

/// Reading back the flags that `with_flags` sets.
proof fn lemma_with_flags_reads(f: u8, z: bool, n: bool, h: bool, c: bool)
    ensures
        flag_z(with_flags(f, z, n, h, c)) == z,
        flag_n(with_flags(f, z, n, h, c)) == n,
        flag_h(with_flags(f, z, n, h, c)) == h,
        flag_c(with_flags(f, z, n, h, c)) == c,
{
    assert(flag_z(with_flags(f, z, n, h, c)) == z) by (bit_vector);
    assert(flag_n(with_flags(f, z, n, h, c)) == n) by (bit_vector);
    assert(flag_h(with_flags(f, z, n, h, c)) == h) by (bit_vector);
    assert(flag_c(with_flags(f, z, n, h, c)) == c) by (bit_vector);
}

/// The low nibble of a byte is its remainder by 16.
proof fn lemma_low_nibble_is_mod(x: u8)
    ensures
        x & 0x0F == x % 16,
{
    assert(x & 0x0F == x % 16) by (bit_vector);
}

/// DAA's result on A, as a function of A and the N, H and C flags.
pub open spec fn daa_result(a: u8, n: bool, h: bool, c: bool) -> u8 {
    if !n {
        if h || (if c || a > 0x99 {
            a + 0x60
        } else {
            a as int
        }) % 16 > 9 {
            (((if c || a > 0x99 {
                a + 0x60
            } else {
                a as int
            }) + 6 + 0x10000) % 256) as u8
        } else {
            (((if c || a > 0x99 {
                a + 0x60
            } else {
                a as int
            }) + 0x10000) % 256) as u8
        }
    } else {
        ((((if c {
            a - 0x60
        } else {
            a as int
        }) - (if h {
            6int
        } else {
            0int
        })) + 0x10000) % 256) as u8
    }
}

proof fn lemma_daa_result(s: CpuView)
    ensures
        daa(s).a == daa_result(s.a, flag_n(s.f), flag_h(s.f), flag_c(s.f)),
{
}

proof fn lemma_bcd_add_core(x: u8, y: u8)
    by (bit_vector)
    requires
        x / 16 <= 9 && x % 16 <= 9,
        y / 16 <= 9 && y % 16 <= 9,
    ensures
        daa_result(((x + y) % 256) as u8, false, x % 16 + y % 16 > 15, x + y > 255) / 16 <= 9,
        daa_result(((x + y) % 256) as u8, false, x % 16 + y % 16 > 15, x + y > 255) % 16 <= 9,
        10 * (daa_result(((x + y) % 256) as u8, false, x % 16 + y % 16 > 15, x + y > 255) / 16)
            + daa_result(((x + y) % 256) as u8, false, x % 16 + y % 16 > 15, x + y > 255) % 16
            == (10 * (x / 16) + x % 16 + 10 * (y / 16) + y % 16) % 100,
        (x + y > 255 || ((x + y) % 256) as u8 > 0x99) == (10 * (x / 16) + x % 16 + 10 * (y / 16)
            + y % 16 >= 100),
{
}

proof fn lemma_bcd_sub_core(x: u8, y: u8)
    by (bit_vector)
    requires
        x / 16 <= 9 && x % 16 <= 9,
        y / 16 <= 9 && y % 16 <= 9,
    ensures
        daa_result(((x - y + 512) % 256) as u8, true, x % 16 < y % 16, x < y) / 16 <= 9,
        daa_result(((x - y + 512) % 256) as u8, true, x % 16 < y % 16, x < y) % 16 <= 9,
        10 * (daa_result(((x - y + 512) % 256) as u8, true, x % 16 < y % 16, x < y) / 16)
            + daa_result(((x - y + 512) % 256) as u8, true, x % 16 < y % 16, x < y) % 16
            == (10 * (x / 16) + x % 16 - 10 * (y / 16) - y % 16 + 100) % 100,
{
}

/// DAA after adding two BCD numbers with ADC (carry clear) gives their sum
/// in BCD, modulo 100, with C set when the sum reached 100; Z tells whether
/// the result is 0, and H and N are clear.
pub proof fn lemma_daa_after_adc(s: CpuView, y: u8)
    requires
        is_bcd(s.a),
        is_bcd(y),
        !flag_c(s.f),
    ensures
        ({
            let t = daa(alu_adc(s, y));
            let sum = bcd_value(s.a) + bcd_value(y);
            &&& is_bcd(t.a)
            &&& bcd_value(t.a) == sum % 100
            &&& flag_c(t.f) == (sum >= 100)
            &&& flag_z(t.f) == (t.a == 0)
            &&& !flag_h(t.f)
            &&& !flag_n(t.f)
        }),
{
    let x = s.a;
    let total = x + y;
    let s1 = alu_adc(s, y);
    lemma_low_nibble_is_mod(x);
    lemma_low_nibble_is_mod(y);
    lemma_with_flags_reads(s.f, total % 256 == 0, false, (x & 0x0F) + (y & 0x0F) > 0x0F, total > 255);
    lemma_daa_result(s1);
    lemma_bcd_add_core(x, y);
    let t = daa(s1);
    lemma_with_flags_reads(s1.f, t.a == 0, false, false, flag_c(s1.f) || s1.a as int > 0x99);
}

/// DAA after subtracting two BCD numbers with SBC (carry clear) gives their
/// difference in BCD, modulo 100, with C set when it borrowed; Z tells
/// whether the result is 0, H is clear and N set.
pub proof fn lemma_daa_after_sbc(s: CpuView, y: u8)
    requires
        is_bcd(s.a),
        is_bcd(y),
        !flag_c(s.f),
    ensures
        ({
            let t = daa(alu_sbc(s, y));
            let diff = bcd_value(s.a) - bcd_value(y);
            &&& is_bcd(t.a)
            &&& bcd_value(t.a) == (diff + 100) % 100
            &&& flag_c(t.f) == (diff < 0)
            &&& flag_z(t.f) == (t.a == 0)
            &&& !flag_h(t.f)
            &&& flag_n(t.f)
        }),
{
    let x = s.a;
    let total = x - y;
    let s1 = alu_sbc(s, y);
    lemma_low_nibble_is_mod(x);
    lemma_low_nibble_is_mod(y);
    lemma_with_flags_reads(s.f, (total + 512) % 256 == 0, true, (x & 0x0F) < (y & 0x0F), total < 0);
    lemma_daa_result(s1);
    lemma_bcd_sub_core(x, y);
    assert((x < y) == (10 * (x / 16) + x % 16 - 10 * (y / 16) - y % 16 < 0));
    let t = daa(s1);
    lemma_with_flags_reads(s1.f, t.a == 0, true, false, flag_c(s1.f));
}

// ---------------------------------------------------------------------------
// Cycle counts
// ---------------------------------------------------------------------------

proof fn lemma_cycles_block0(s: CpuView, op: u8)
    requires
        op < 0x40,
    ensures
        4 <= s.exec_block0(op).1 <= 24,
        s.exec_block0(op).1 % 4 == 0,
{
    reveal(CpuView::i_ld_rr_nn);
    reveal(CpuView::i_st_a);
    reveal(CpuView::i_ld_a);
    reveal(CpuView::i_st_a_hl);
    reveal(CpuView::i_ld_a_hl);
    reveal(CpuView::i_inc_dec_rr);
    reveal(CpuView::i_add_hl_rr);
    reveal(CpuView::i_inc_dec_r);
    reveal(CpuView::i_ld_r_n);
    reveal(CpuView::i_ld_nn_sp);
    reveal(CpuView::i_stop);
    reveal(CpuView::i_jr);
    reveal(CpuView::i_cpl);
    reveal(CpuView::i_scf_ccf);
}

proof fn lemma_cycles_cb(s: CpuView, op: u8)
    ensures
        8 <= s.exec_cb(op).1 <= 16,
        s.exec_cb(op).1 % 4 == 0,
{
    reveal(CpuView::cb_shift);
    reveal(CpuView::cb_bit);
    reveal(CpuView::cb_res_set);
}

#[verifier::rlimit(40)]
proof fn lemma_cycles_block3(s: CpuView, op: u8)
    requires
        op >= 0xC0 || op == 0x76,
    ensures
        4 <= s.exec_block3(op).1 <= 24,
        s.exec_block3(op).1 % 4 == 0,
{
    reveal(CpuView::i_st_a);
    reveal(CpuView::i_ld_a);
    reveal(CpuView::i_ret);
    reveal(CpuView::i_pop);
    reveal(CpuView::i_push);
    reveal(CpuView::i_jp);
    reveal(CpuView::i_call);
    reveal(CpuView::i_alu_n);
    reveal(CpuView::i_rst);
    reveal(CpuView::i_ldh_n_a);
    reveal(CpuView::i_ldh_a_n);
    reveal(CpuView::i_add_sp);
    reveal(CpuView::i_st_a_nn);
    reveal(CpuView::i_ld_a_nn);
    if op == 0xCB {
        let (s1, cb) = s.fetch();
        lemma_cycles_cb(s1, cb);
    }
}

/// Every instruction takes 4 to 24 cycles, a multiple of 4.
pub proof fn lemma_execute_cycles(s: CpuView, op: u8)
    ensures
        4 <= s.execute(op).1 <= 24,
        s.execute(op).1 % 4 == 0,
{
    if 0x40 <= op <= 0x7F && op != 0x76 {
    } else if 0x80 <= op <= 0xBF {
    } else if op < 0x40 {
        lemma_cycles_block0(s, op);
    } else {
        lemma_cycles_block3(s, op);
    }
}

/// Every step, halted or not, takes 4 to 24 cycles, a multiple of 4.
pub proof fn lemma_step_cycles(s: CpuView)
    ensures
        4 <= s.step().1 <= 24,
        s.step().1 % 4 == 0,
{
    if !s.halted {
        let (s1, op) = s.fetch();
        lemma_execute_cycles(s1, op);
    }
}

// ---------------------------------------------------------------------------
// Conditional control flow
// ---------------------------------------------------------------------------

/// Conditional CALL: CALL NZ (0xC4) calls exactly when Z is clear, CALL Z
/// (0xCC) when Z is set, CALL NC (0xD4) when C is clear and CALL C (0xDC)
/// when C is set. A call pushes the address after the instruction, jumps to
/// the operand and takes 24 cycles; otherwise only the three bytes are
/// consumed, in 12 cycles.
pub proof fn lemma_conditional_call(s: CpuView, op: u8)
    requires
        op == 0xC4 || op == 0xCC || op == 0xD4 || op == 0xDC,
    ensures
        ({
            let taken = if op == 0xC4 {
                s.f & 0x80 == 0
            } else if op == 0xCC {
                s.f & 0x80 != 0
            } else if op == 0xD4 {
                s.f & 0x10 == 0
            } else {
                s.f & 0x10 != 0
            };
            let (s1, target) = s.fetch_word();
            &&& taken ==> s.execute(op) == (CpuView { pc: target, ..s1.push(s1.pc) }, 24u32)
            &&& !taken ==> s.execute(op) == (s1, 12u32)
        }),
{
    reveal(CpuView::i_call);
    assert(s.execute(op) == s.exec_block3(op));
}

/// Conditional JP (0xC2, 0xCA, 0xD2, 0xDA), JR (0x20, 0x28, 0x30, 0x38) and
/// RET (0xC0, 0xC8, 0xD0, 0xD8) are taken under NZ, Z, NC and C in that
/// order: Z clear, Z set, C clear, C set.
pub proof fn lemma_conditional_jumps(s: CpuView, op: u8)
    requires
        op == 0xC2 || op == 0xCA || op == 0xD2 || op == 0xDA || op == 0x20 || op == 0x28 || op
            == 0x30 || op == 0x38 || op == 0xC0 || op == 0xC8 || op == 0xD0 || op == 0xD8,
    ensures
        ({
            let kind = (op / 8) % 4;
            let taken = if kind == 0 {
                s.f & 0x80 == 0
            } else if kind == 1 {
                s.f & 0x80 != 0
            } else if kind == 2 {
                s.f & 0x10 == 0
            } else {
                s.f & 0x10 != 0
            };
            &&& (op == 0xC2 || op == 0xCA || op == 0xD2 || op == 0xDA) ==> ({
                let (s1, target) = s.fetch_word();
                s.execute(op) == if taken {
                    (CpuView { pc: target, ..s1 }, 16u32)
                } else {
                    (s1, 12u32)
                }
            })
            &&& (op == 0x20 || op == 0x28 || op == 0x30 || op == 0x38) ==> ({
                let (s1, n) = s.fetch();
                s.execute(op) == if taken {
                    (CpuView { pc: s1.pc.wrapping_add(sign_extend(n)), ..s1 }, 12u32)
                } else {
                    (s1, 8u32)
                }
            })
            &&& (op == 0xC0 || op == 0xC8 || op == 0xD0 || op == 0xD8) ==> ({
                let (s1, target) = s.pop();
                s.execute(op) == if taken {
                    (CpuView { pc: target, ..s1 }, 20u32)
                } else {
                    (s, 8u32)
                }
            })
        }),
{
    reveal(CpuView::i_jp);
    reveal(CpuView::i_jr);
    reveal(CpuView::i_ret);
    if op < 0x40 {
        assert(s.execute(op) == s.exec_block0(op));
    } else {
        assert(s.execute(op) == s.exec_block3(op));
    }
}

/// ADD and SUB undo each other on A; ADD's carry is set exactly when the
/// sum wrapped (the result is below A), SUB's exactly when it borrowed (the
/// result is above A); both set Z exactly when A becomes 0 and keep the low
/// nibble of F; ADD clears N and SUB sets it.
pub proof fn lemma_add_sub_relations(s: CpuView, v: u8)
    ensures
        alu_sub(alu_add(s, v), v).a == s.a,
        alu_add(alu_sub(s, v), v).a == s.a,
        (alu_add(s, v).f & 0x10 != 0) == (v != 0 && alu_add(s, v).a < s.a),
        (alu_sub(s, v).f & 0x10 != 0) == (v != 0 && alu_sub(s, v).a > s.a),
        (alu_add(s, v).f & 0x80 != 0) == (alu_add(s, v).a == 0),
        (alu_sub(s, v).f & 0x80 != 0) == (alu_sub(s, v).a == 0),
        alu_add(s, v).f & 0x40 == 0,
        alu_sub(s, v).f & 0x40 != 0,
        alu_add(s, v).f & 0x0F == s.f & 0x0F,
        alu_sub(s, v).f & 0x0F == s.f & 0x0F,
{
    let a = s.a;
    let r1 = ((a + v) % 256) as u8;
    let r2 = ((a - v + 256) % 256) as u8;
    lemma_with_flags_reads(s.f, r1 == 0, false, (r1 & 0x0F) + (v & 0x0F) > 0x0F, a + v > 255);
    lemma_with_flags_reads(s.f, r2 == 0, true, (r2 & 0x0F) + (v & 0x0F) > 0x0F, a < v);
    lemma_flag_writes_low_nibble();
}

// ---------------------------------------------------------------------------
// The low nibble of F
// ---------------------------------------------------------------------------

/// Setting flags keeps the low nibble of F; loading F through AF clears it.
proof fn lemma_flag_writes_low_nibble()
    ensures
        forall|f: u8, z: bool, n: bool, h: bool, c: bool|
            #[trigger] with_flags(f, z, n, h, c) & 0x0F == f & 0x0F,
        forall|s: CpuView, v: u16| #[trigger] s.with_af(v).f & 0x0F == 0,
{
    assert forall|f: u8, z: bool, n: bool, h: bool, c: bool|
        #[trigger] with_flags(f, z, n, h, c) & 0x0F == f & 0x0F by {
        assert(with_flags(f, z, n, h, c) & 0x0F == f & 0x0F) by (bit_vector);
    }
    assert forall|s: CpuView, v: u16| #[trigger] s.with_af(v).f & 0x0F == 0 by {
        let lo = lo_byte(v);
        assert(((lo / 16 * 16) as u8) & 0x0F == 0) by (bit_vector);
    }
}

#[verifier::rlimit(40)]
proof fn lemma_low_nibble_block0(s: CpuView, op: u8)
    requires
        s.f & 0x0F == 0,
        op < 0x40,
    ensures
        s.exec_block0(op).0.f & 0x0F == 0,
{
    lemma_flag_writes_low_nibble();
    reveal(CpuView::i_ld_rr_nn);
    reveal(CpuView::i_st_a);
    reveal(CpuView::i_ld_a);
    reveal(CpuView::i_st_a_hl);
    reveal(CpuView::i_ld_a_hl);
    reveal(CpuView::i_inc_dec_rr);
    reveal(CpuView::i_add_hl_rr);
    reveal(CpuView::i_inc_dec_r);
    reveal(CpuView::i_ld_r_n);
    reveal(CpuView::i_ld_nn_sp);
    reveal(CpuView::i_stop);
    reveal(CpuView::i_jr);
    reveal(CpuView::i_cpl);
    reveal(CpuView::i_scf_ccf);
}

#[verifier::rlimit(40)]
proof fn lemma_low_nibble_cb(s: CpuView, op: u8)
    requires
        s.f & 0x0F == 0,
    ensures
        s.exec_cb(op).0.f & 0x0F == 0,
{
    lemma_flag_writes_low_nibble();
    reveal(CpuView::cb_shift);
    reveal(CpuView::cb_bit);
    reveal(CpuView::cb_res_set);
}

#[verifier::rlimit(40)]
proof fn lemma_low_nibble_block3(s: CpuView, op: u8)
    requires
        s.f & 0x0F == 0,
        op >= 0xC0 || op == 0x76,
    ensures
        s.exec_block3(op).0.f & 0x0F == 0,
{
    lemma_flag_writes_low_nibble();
    reveal(CpuView::i_st_a);
    reveal(CpuView::i_ld_a);
    reveal(CpuView::i_ret);
    reveal(CpuView::i_pop);
    reveal(CpuView::i_push);
    reveal(CpuView::i_jp);
    reveal(CpuView::i_call);
    reveal(CpuView::i_alu_n);
    reveal(CpuView::i_rst);
    reveal(CpuView::i_ldh_n_a);
    reveal(CpuView::i_ldh_a_n);
    reveal(CpuView::i_add_sp);
    reveal(CpuView::i_st_a_nn);
    reveal(CpuView::i_ld_a_nn);
    if op == 0xCB {
        let (s1, cb) = s.fetch();
        lemma_low_nibble_cb(s1, cb);
    }
}

/// No instruction sets the four low bits of F once they are clear.
pub proof fn lemma_execute_keeps_flag_low_bits(s: CpuView, op: u8)
    requires
        s.f & 0x0F == 0,
    ensures
        s.execute(op).0.f & 0x0F == 0,
{
    lemma_flag_writes_low_nibble();
    if 0x40 <= op <= 0x7F && op != 0x76 {
    } else if 0x80 <= op <= 0xBF {
    } else if op < 0x40 {
        lemma_low_nibble_block0(s, op);
    } else {
        lemma_low_nibble_block3(s, op);
    }
}

/// The four low bits of F read as zero on the hardware: once they are
/// clear, no step sets them.
pub proof fn lemma_step_keeps_flag_low_bits(s: CpuView)
    requires
        s.f & 0x0F == 0,
    ensures
        s.step().0.f & 0x0F == 0,
{
    if !s.halted {
        let (s1, op) = s.fetch();
        lemma_execute_keeps_flag_low_bits(s1, op);
    }
}

} // verus!
