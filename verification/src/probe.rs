use vstd::prelude::*;
use crate::cpu::CPU;
use crate::isa::{CpuView, word, hi_byte, lo_byte, shift_op, inc8, dec8, flag_c, lemma_word_bits};

verus! {

/// The state `s` with PC moved to `pc`: the state an instruction whose
/// opcode byte has been fetched starts from.
pub open spec fn at_pc(s: CpuView, pc: u16) -> CpuView {
    CpuView { pc, ..s }
}

/// What an instruction's execution from `s` is checked against: whether it
/// is defined, its cycles, and that it leaves the cycle counter alone.
pub open spec fn probed(s: CpuView, op: u8, r: (bool, u32)) -> bool {
    &&& r.0 == s.execute(op).0.ok
    &&& r.0 ==> r.1 == s.execute(op).1 && 4 <= r.1 <= 24 && s.execute(op).0.cycles == s.cycles
}

impl CPU {
    /// Whether a byte can be fetched at `pc`.
    fn fetch_ok(&self, pc: u16) -> (r: bool)
        requires
            self.wf(),
        ensures
            r == (pc < 0xFFFF && self@.bus.read_ok(pc)),
    {
        pc < 0xFFFF && self.bus.can_read(pc)
    }

    /// Whether a word can be fetched at `pc`, and the word.
    fn fetch_word_ok(&self, pc: u16) -> (r: (bool, u16))
        requires
            self.wf(),
        ensures
            r.0 == at_pc(self@, pc).fetch_word().0.ok,
            r.0 ==> r.1 == at_pc(self@, pc).fetch_word().1,
    {
        if self.fetch_ok(pc) && self.fetch_ok(pc + 1) {
            let lo = self.bus.read_byte(pc);
            let hi = self.bus.read_byte(pc + 1);
            proof {
                lemma_word_bits(0, hi, lo, 0);
            }
            (true, ((hi as u16) << 8) | (lo as u16))
        } else {
            (false, 0)
        }
    }

    /// Whether pushing `v` can be carried out.
    pub(crate) fn push_ok(&self, v: u16) -> (r: bool)
        requires
            self.wf(),
        ensures
            forall|pc: u16| r == #[trigger] at_pc(self@, pc).push(v).ok,
    {
        let sp1 = self.sp.wrapping_sub(1);
        let sp2 = sp1.wrapping_sub(1);
        proof {
            lemma_word_bits(v, 0, 0, 0);
        }
        let hi = (v >> 8) as u8;
        let lo = (v & 0xFF) as u8;
        let first = self.bus.can_write(sp1, hi);
        let second = self.bus.can_write(sp2, lo);
        proof {
            let b = self@.bus;
            if sp2 == 0xFF46 {
                assert(b.written(sp1, hi).mem == b.mem);
                assert(sp1 == 0xFF47);
                assert forall|x: u16|
                    #![trigger b.written(sp1, hi).read_ok(x)]
                    #![trigger b.read_ok(x)]
                    b.written(sp1, hi).read_ok(x) == b.read_ok(x) by {}
                assert(b.written(sp1, hi).write_ok(sp2, lo) == b.write_ok(sp2, lo));
            }
        }
        first && second
    }

    /// LD r,r' and ALU A,r.
    fn probe_register_ops(&self, pc: u16, op: u8) -> (r: (bool, u32))
        requires
            self.wf(),
            0x40 <= op <= 0xBF,
            op != 0x76,
        ensures
            probed(at_pc(self@, pc), op, r),
    {
        let src = op % 8;
        let hl = self.get_hl();
        if op <= 0x7F {
            let dst = (op / 8) % 8;
            if src == 6 {
                (self.bus.can_read(hl), 8)
            } else if dst == 6 {
                let v = self.read_reg8(src);
                (self.bus.can_write(hl, v), 8)
            } else {
                (true, 4)
            }
        } else if src == 6 {
            (self.bus.can_read(hl), 8)
        } else {
            (true, 4)
        }
    }

    /// The instructions 0x00-0x3F.
    #[verifier::rlimit(50)]
    fn probe_block0(&self, pc: u16, op: u8) -> (r: (bool, u32))
        requires
            self.wf(),
            op < 0x40,
        ensures
            probed(at_pc(self@, pc), op, r),
    {
        proof {
            reveal(CpuView::i_ld_rr_nn);
            reveal(CpuView::i_st_a);
            reveal(CpuView::i_ld_a);
            reveal(CpuView::i_st_a_hl);
            reveal(CpuView::i_ld_a_hl);
            reveal(CpuView::i_inc_dec_rr);
            reveal(CpuView::i_add_hl_rr);
            reveal(CpuView::i_inc_dec_r);
            reveal(CpuView::i_ld_r_n);
            reveal(CpuView::i_ld_nn_sp);
            reveal(CpuView::i_stop);
            reveal(CpuView::i_jr);
            reveal(CpuView::i_cpl);
            reveal(CpuView::i_scf_ccf);
        }
        let r = (op / 8) % 8;
        let hl = self.get_hl();
        if op == 0x01 || op == 0x11 || op == 0x21 || op == 0x31 {
            (self.fetch_word_ok(pc).0, 12)
        } else if op == 0x02 {
            (self.bus.can_write(self.get_bc(), self.a), 8)
        } else if op == 0x12 {
            (self.bus.can_write(self.get_de(), self.a), 8)
        } else if op == 0x22 || op == 0x32 {
            (self.bus.can_write(hl, self.a), 8)
        } else if op == 0x0A {
            (self.bus.can_read(self.get_bc()), 8)
        } else if op == 0x1A {
            (self.bus.can_read(self.get_de()), 8)
        } else if op == 0x2A || op == 0x3A {
            (self.bus.can_read(hl), 8)
        } else if op == 0x03 || op == 0x13 || op == 0x23 || op == 0x33 || op == 0x0B || op == 0x1B
            || op == 0x2B || op == 0x3B || op == 0x09 || op == 0x19 || op == 0x29 || op == 0x39 {
            (true, 8)
        } else if op % 8 == 4 || op % 8 == 5 {
            if r == 6 {
                if !self.bus.can_read(hl) {
                    return (false, 12);
                }
                let v = self.bus.read_byte(hl);
                let res = if op % 8 == 4 {
                    v.wrapping_add(1)
                } else {
                    v.wrapping_sub(1)
                };
                proof {
                    assert(res == inc8(self.f, v).0 || op % 8 == 5);
                    assert(res == dec8(self.f, v).0 || op % 8 == 4);
                }
                (self.bus.can_write(hl, res), 12)
            } else {
                (true, 4)
            }
        } else if op % 8 == 6 {
            if !self.fetch_ok(pc) {
                return (false, 8);
            }
            if r == 6 {
                let n = self.bus.read_byte(pc);
                (self.bus.can_write(hl, n), 12)
            } else {
                (true, 8)
            }
        } else if op == 0x08 {
            let (ok, addr) = self.fetch_word_ok(pc);
            if !ok {
                return (false, 20);
            }
            proof {
                lemma_word_bits(self.sp, 0, 0, 0);
            }
            let lo = (self.sp & 0xFF) as u8;
            let hi = (self.sp >> 8) as u8;
            if !self.bus.can_write(addr, lo) || addr == 0xFFFF {
                return (false, 20);
            }
            let second = self.bus.can_write(addr + 1, hi);
            proof {
                let b = self@.bus;
                if addr + 1 == 0xFF46 {
                    assert(b.written(addr, lo).mem == b.mem);
                    assert(addr == 0xFF45);
                    assert forall|x: u16|
                        #![trigger b.written(addr, lo).read_ok(x)]
                        #![trigger b.read_ok(x)]
                        b.written(addr, lo).read_ok(x) == b.read_ok(x) by {}
                    assert(b.written(addr, lo).write_ok((addr + 1) as u16, hi) == b.write_ok(
                        (addr + 1) as u16,
                        hi,
                    ));
                }
            }
            (second, 20)
        } else if op == 0x10 {
            (self.fetch_ok(pc), 4)
        } else if op == 0x18 {
            (self.fetch_ok(pc), 12)
        } else if op == 0x20 || op == 0x28 || op == 0x30 || op == 0x38 {
            let taken = self.condition((op / 8) % 4);
            (self.fetch_ok(pc), if taken {
                12
            } else {
                8
            })
        } else {
            (true, 4)
        }
    }

    /// The CB-prefixed instructions, whose second byte is `cb`.
    fn probe_cb(&self, pc: u16, cb: u8) -> (r: (bool, u32))
        requires
            self.wf(),
        ensures
            r.0 == at_pc(self@, pc).exec_cb(cb).0.ok,
            r.0 ==> r.1 == at_pc(self@, pc).exec_cb(cb).1 && 8 <= r.1 <= 16
                && at_pc(self@, pc).exec_cb(cb).0.cycles == self.cycles,
    {
        proof {
            reveal(CpuView::cb_shift);
            reveal(CpuView::cb_bit);
            reveal(CpuView::cb_res_set);
        }
        let r = cb % 8;
        let k = (cb / 8) % 8;
        if r != 6 {
            return (true, 8);
        }
        let hl = self.get_hl();
        if !self.bus.can_read(hl) {
            return (false, 8);
        }
        let v = self.bus.read_byte(hl);
        if cb < 0x40 {
            let res = shift_value(k, v, self.is_carry_flag_set());
            (self.bus.can_write(hl, res), 16)
        } else if cb < 0x80 {
            (true, 12)
        } else if cb < 0xC0 {
            (self.bus.can_write(hl, v & !(1u8 << k)), 16)
        } else {
            (self.bus.can_write(hl, v | (1u8 << k)), 16)
        }
    }

    /// The instructions 0xC0-0xFF, and HALT.
    #[verifier::rlimit(50)]
    fn probe_block3(&self, pc: u16, op: u8) -> (r: (bool, u32))
        requires
            self.wf(),
            op >= 0xC0 || op == 0x76,
        ensures
            probed(at_pc(self@, pc), op, r),
    {
        proof {
            reveal(CpuView::i_st_a);
            reveal(CpuView::i_ld_a);
            reveal(CpuView::i_ret);
            reveal(CpuView::i_pop);
            reveal(CpuView::i_push);
            reveal(CpuView::i_jp);
            reveal(CpuView::i_call);
            reveal(CpuView::i_alu_n);
            reveal(CpuView::i_rst);
            reveal(CpuView::i_ldh_n_a);
            reveal(CpuView::i_ldh_a_n);
            reveal(CpuView::i_add_sp);
            reveal(CpuView::i_st_a_nn);
            reveal(CpuView::i_ld_a_nn);
        }
        let cc = (op / 8) % 4;
        let sp = self.sp;
        let pop_ok = self.bus.can_read(sp) && self.bus.can_read(sp.wrapping_add(1));
        if op == 0x76 {
            (true, 4)
        } else if op == 0xC0 || op == 0xC8 || op == 0xD0 || op == 0xD8 {
            if self.condition(cc) {
                (pop_ok, 20)
            } else {
                (true, 8)
            }
        } else if op == 0xC1 || op == 0xD1 || op == 0xE1 || op == 0xF1 {
            (pop_ok, 12)
        } else if op == 0xC2 || op == 0xCA || op == 0xD2 || op == 0xDA || op == 0xC3 {
            let taken = op == 0xC3 || self.condition(cc);
            (self.fetch_word_ok(pc).0, if taken {
                16
            } else {
                12
            })
        } else if op == 0xC4 || op == 0xCC || op == 0xD4 || op == 0xDC || op == 0xCD {
            let taken = op == 0xCD || self.condition(cc);
            if !self.fetch_word_ok(pc).0 {
                return (false, 12);
            }
            if taken {
                let ok = self.push_ok(pc + 2);
                proof {
                    assert(at_pc(self@, pc).fetch_word().0 == at_pc(self@, (pc + 2) as u16));
                }
                (ok, 24)
            } else {
                (true, 12)
            }
        } else if op == 0xC5 || op == 0xD5 || op == 0xE5 || op == 0xF5 {
            let p = (op / 16) % 4;
            let v = if p == 3 {
                self.get_af()
            } else {
                self.read_pair_sp(p)
            };
            (self.push_ok(v), 16)
        } else if op % 8 == 6 {
            (self.fetch_ok(pc), 8)
        } else if op % 8 == 7 {
            (self.push_ok(pc), 16)
        } else if op == 0xC9 || op == 0xD9 {
            (pop_ok, 16)
        } else if op == 0xCB {
            if !self.fetch_ok(pc) {
                return (false, 8);
            }
            let cb = self.bus.read_byte(pc);
            self.probe_cb(pc + 1, cb)
        } else if op == 0xE0 {
            if !self.fetch_ok(pc) {
                return (false, 12);
            }
            let n = self.bus.read_byte(pc);
            (self.bus.can_write(0xFF00 + n as u16, self.a), 12)
        } else if op == 0xF0 {
            if !self.fetch_ok(pc) {
                return (false, 12);
            }
            let n = self.bus.read_byte(pc);
            (self.bus.can_read(0xFF00 + n as u16), 12)
        } else if op == 0xE2 {
            (self.bus.can_write(0xFF00 + self.c as u16, self.a), 8)
        } else if op == 0xF2 {
            (self.bus.can_read(0xFF00 + self.c as u16), 8)
        } else if op == 0xE8 {
            (self.fetch_ok(pc), 16)
        } else if op == 0xE9 {
            (true, 4)
        } else if op == 0xEA || op == 0xFA {
            let (ok, addr) = self.fetch_word_ok(pc);
            if !ok {
                return (false, 16);
            }
            if op == 0xEA {
                (self.bus.can_write(addr, self.a), 16)
            } else {
                (self.bus.can_read(addr), 16)
            }
        } else if op == 0xF9 {
            (true, 8)
        } else {
            (true, 4)
        }
    }

    /// Whether executing `op` from PC `pc` is defined, and its cycles.
    fn probe_execute(&self, pc: u16, op: u8) -> (r: (bool, u32))
        requires
            self.wf(),
        ensures
            probed(at_pc(self@, pc), op, r),
    {
        if 0x40 <= op && op <= 0xBF && op != 0x76 {
            self.probe_register_ops(pc, op)
        } else if op < 0x40 {
            self.probe_block0(pc, op)
        } else {
            self.probe_block3(pc, op)
        }
    }

    /// Whether the next step is defined: the instruction at PC lies before
    /// 0xFFFF with all its operand bytes, every byte it reads can be served
    /// (a cartridge controller in a state that cannot serve ROM reads fails
    /// them), LD (nn),SP does not write past 0xFFFF, and the cycle counter
    /// has room for the instruction's cycles. A halted step is always
    /// defined.
    pub fn next_step_ok(&self) -> (r: bool)
        requires
            self.wf(),
        ensures
            r == self@.step().0.ok,
            r && !self.halted ==> 4 <= self@.step().1 <= 24 && self@.step().0.cycles
                == self.cycles + self@.step().1,
    {
        if self.halted {
            return true;
        }
        if !self.fetch_ok(self.pc) {
            return false;
        }
        let op = self.bus.read_byte(self.pc);
        let pc1 = self.pc + 1;
        let (ok, c) = self.probe_execute(pc1, op);
        proof {
            assert(self@.fetch().0 == at_pc(self@, pc1));
        }
        ok && self.cycles <= u64::MAX - c as u64
    }
}

/// The rotate or shift of kind `k` applied to `v` with carry in `cin`.
fn shift_value(k: u8, v: u8, cin: bool) -> (r: u8)
    ensures
        r == shift_op(k, v, cin).0,
{
    if k == 0 {
        (v << 1u8) | (if v & 0x80 != 0 {
            1u8
        } else {
            0u8
        })
    } else if k == 1 {
        (v >> 1u8) | (if v & 0x01 != 0 {
            0x80u8
        } else {
            0u8
        })
    } else if k == 2 {
        (v << 1u8) | (if cin {
            1u8
        } else {
            0u8
        })
    } else if k == 3 {
        (v >> 1u8) | (if cin {
            0x80u8
        } else {
            0u8
        })
    } else if k == 4 {
        v << 1u8
    } else if k == 5 {
        (v >> 1u8) | (v & 0x80)
    } else if k == 6 {
        (v >> 4u8) | (v << 4u8)
    } else {
        v >> 1u8
    }
}

} // verus!
