use vstd::prelude::*;
use crate::cpu::CPU;
use crate::isa::{
    CpuView,
    lemma_step_keeps_flag_low_bits,
};
use crate::bus::BusView;
use crate::interrupts::{Interrupts, InterruptType};
use crate::ppu::PpuView;
use crate::probe::at_pc;

verus! {

/// At most this many steps are run while waiting for a frame: a frame takes
/// 70224 cycles and a step at least 4, so with the LCD on a frame is
/// completed long before; with the LCD off none ever is.
pub const FRAME_STEP_LIMIT: u64 = 1_000_000;

/// The console: a CPU with everything behind its bus.
pub struct GameBoy {
    pub cpu: CPU,
}

/// Whether a step begins by servicing an interrupt.
pub open spec fn takes_interrupt(s: CpuView) -> bool {
    s.bus.interrupts.pending_spec() && s.bus.interrupts.next_source() is Some
}

/// The first half of a step: when IME is on and a requested source is
/// enabled, the highest-priority one is serviced (its request withdrawn,
/// IME cleared, HALT left, PC pushed and set to its vector; 20 cycles);
/// else the CPU steps.
#[verifier::opaque]
pub open spec fn dispatch(s: CpuView) -> (CpuView, u32) {
    if takes_interrupt(s) {
        let source = s.bus.interrupts.next_source().unwrap();
        let ints = Interrupts { ime: false, ..s.bus.interrupts.serviced() };
        let s1 = CpuView { halted: false, bus: BusView { interrupts: ints, ..s.bus }, ..s };
        (CpuView { pc: source.vector(), ..s1.push(s1.pc) }, 20)
    } else {
        s.step()
    }
}

/// The second half of a step: the timer and then the PPU advance by the
/// step's cycles, each requesting its interrupt as it fires.
#[verifier::opaque]
pub open spec fn ticked(s: CpuView, cycles: u32) -> CpuView {
    let t = s.bus.timer;
    let i1 = if t.tick_overflows(cycles) {
        s.bus.interrupts.requested(InterruptType::Timer)
    } else {
        s.bus.interrupts
    };
    let p = s.bus.ppu;
    let i2 = if p.tick_enters_vblank(cycles) {
        i1.requested(InterruptType::VBlank)
    } else {
        i1
    };
    CpuView {
        bus: BusView { timer: t.ticked(cycles), ppu: p.ticked(cycles), interrupts: i2, ..s.bus },
        ok: s.ok && t.tick_ok(cycles) && p.tick_ok(cycles),
        ..s
    }
}

/// One step of the console and its cycles.
#[verifier::opaque]
pub open spec fn console_step(s: CpuView) -> (CpuView, u32) {
    let (s1, c) = dispatch(s);
    (ticked(s1, c), c)
}

/// The console after `n` steps.
pub open spec fn console_steps(s: CpuView, n: nat) -> CpuView
    decreases n,
{
    if n == 0 {
        s
    } else {
        console_step(console_steps(s, (n - 1) as nat)).0
    }
}

/// The state with the PPU's frame report taken.
pub open spec fn frame_taken(s: CpuView) -> CpuView {
    CpuView {
        bus: BusView { ppu: PpuView { frame_ready: false, ..s.bus.ppu }, ..s.bus },
        ..s
    }
}

/// How `run_frame` may end after `n` full steps from `s`: every earlier
/// step was defined and ended without a frame; then either the frame report
/// is taken (`ready`), or, without a report, the step limit was reached or
/// the next step is undefined: its first half already (the state is then
/// the one before it), or the PPU's advance after it (the state is then the
/// one after the first half).
pub open spec fn frame_run_outcome(s: CpuView, n: nat, end: CpuView, ready: bool) -> bool {
    let t = console_steps(s, n);
    &&& n <= FRAME_STEP_LIMIT
    &&& forall|j: nat|
        j < n ==> !(#[trigger] console_steps(s, j)).bus.ppu.frame_ready && console_step(
            console_steps(s, j),
        ).0.ok
    &&& ready ==> t.bus.ppu.frame_ready && end == frame_taken(t)
    &&& !ready && n < FRAME_STEP_LIMIT ==> !console_step(t).0.ok
    &&& !ready ==> !t.bus.ppu.frame_ready && ((n == FRAME_STEP_LIMIT && end == t) || (
    !dispatch(t).0.ok && end == t) || (dispatch(t).0.ok && !ticked(dispatch(t).0, dispatch(t).1).ok
        && end == dispatch(t).0))
}

impl View for GameBoy {
    type V = CpuView;

    open spec fn view(&self) -> CpuView {
        self.cpu@
    }
}

impl GameBoy {
    pub open spec fn wf(&self) -> bool {
        self.cpu.wf()
    }

    pub fn new() -> (r: Self)
        ensures
            r.wf(),
            r.cpu.pc == 0x0100,
            r.cpu.sp == 0xFFFE,
            !r.cpu.halted,
            r.cpu.cycles == 0,
            r.cpu.bus@.mem == crate::memory::memory_power_on(),
            r.cpu.bus@.ppu == crate::ppu::ppu_power_on(),
            r.cpu.a == 0 && r.cpu.b == 0 && r.cpu.c == 0 && r.cpu.d == 0 && r.cpu.e == 0 && r.cpu.h
                == 0 && r.cpu.l == 0 && r.cpu.f == 0,
            r.cpu.bus.interrupts.interrupt_enable == 0 && r.cpu.bus.interrupts.interrupt_flag == 0
                && !r.cpu.bus.interrupts.ime,
            r.cpu.bus.timer.wf() && r.cpu.bus.timer.pending_cycles() == 0 && r.cpu.bus.timer.divider_spec() == 0
                && r.cpu.bus.timer.counter_spec() == 0 && r.cpu.bus.timer.modulo_spec() == 0
                && r.cpu.bus.timer.control_spec() == 0,
            r.cpu.bus.joypad.read_spec() == 0xFF,
    {
        GameBoy { cpu: CPU::new() }
    }

    /// Puts the cartridge that the ROM image's header asks for in place.
    pub fn load_rom(&mut self, rom: &[u8])
        requires
            old(self).wf(),
        ensures
            final(self).wf(),
            final(self)@ == (CpuView {
                bus: BusView {
                    mem: crate::memory::MemView {
                        cart: crate::mbc::cartridge_for(rom@),
                        ..old(self)@.bus.mem
                    },
                    ..old(self)@.bus
                },
                ..old(self)@
            }),
    {
        self.cpu.bus.load_rom(rom);
    }

    /// Resets the CPU (not the bus).
    pub fn reset(&mut self)
        requires
            old(self).wf(),
        ensures
            final(self).wf(),
            final(self)@ == (CpuView {
                a: 0,
                b: 0,
                c: 0,
                d: 0,
                e: 0,
                h: 0,
                l: 0,
                f: 0,
                pc: 0,
                sp: 0,
                cycles: 0,
                halted: false,
                ..old(self)@
            }),
    {
        self.cpu.reset();
    }

    /// The first half of a step.
    fn dispatch(&mut self) -> (r: u32)
        requires
            old(self).wf(),
            dispatch(old(self)@).0.ok,
        ensures
            final(self).wf(),
            (final(self)@, r) == dispatch(old(self)@),
    {
        proof {
            reveal(dispatch);
        }
        if self.cpu.bus.interrupts.has_pending_interrupt() {
            let ghost s0 = self@;
            if let Some(addr) = self.cpu.bus.interrupts.get_next_interrupt() {
                self.cpu.halted = false;
                self.cpu.bus.interrupts.ime = false;
                let pc = self.cpu.pc;
                self.cpu.push(pc);
                self.cpu.pc = addr;
                20
            } else {
                assert(self@ == s0);
                self.cpu.step()
            }
        } else {
            self.cpu.step()
        }
    }

    /// The second half of a step.
    fn tick_components(&mut self, cycles: u32)
        requires
            old(self).wf(),
            ticked(old(self)@, cycles).ok,
        ensures
            final(self).wf(),
            final(self)@ == ticked(old(self)@, cycles),
    {
        proof {
            reveal(ticked);
            crate::timer::lemma_tick_keeps_wf(self.cpu.bus.timer, cycles);
        }
        self.cpu.bus.timer.tick(cycles, &mut self.cpu.bus.interrupts);
        self.cpu.bus.ppu.tick(cycles, &mut self.cpu.bus.interrupts);
    }

    /// Runs one step: services an interrupt or executes an instruction, then
    /// advances the timer and the PPU by its cycles, which it returns.
    pub fn step(&mut self) -> (r: u32)
        requires
            old(self).wf(),
            console_step(old(self)@).0.ok,
        ensures
            final(self).wf(),
            (final(self)@, r) == console_step(old(self)@),
    {
        proof {
            reveal(console_step);
            reveal(ticked);
        }
        let cycles = self.dispatch();
        self.tick_components(cycles);
        cycles
    }

    /// Whether the first half of the next step is defined: servicing an
    /// interrupt needs its push to be defined, executing an instruction
    /// needs the instruction to be.
    fn dispatch_ok(&self) -> (r: bool)
        requires
            self.wf(),
        ensures
            r == dispatch(self@).0.ok,
            r ==> dispatch(self@).1 <= 24,
    {
        proof {
            reveal(dispatch);
        }
        if self.cpu.bus.interrupts.has_pending_interrupt()
            && self.cpu.bus.interrupts.will_service() {
            let r = self.cpu.push_ok(self.cpu.pc);
            proof {
                let s = self@;
                let ints = Interrupts { ime: false, ..s.bus.interrupts.serviced() };
                let s1 = CpuView { halted: false, bus: BusView { interrupts: ints, ..s.bus }, ..s };
                let b = s.bus;
                let b1 = s1.bus;
                let sp1 = s.sp.wrapping_sub(1);
                let sp2 = sp1.wrapping_sub(1);
                let hi = crate::isa::hi_byte(s.pc);
                let lo = crate::isa::lo_byte(s.pc);
                assert(b1.written(sp1, hi).mem == b.written(sp1, hi).mem);
                assert forall|x: u16|
                    #![trigger b1.read_ok(x)]
                    #![trigger b.read_ok(x)]
                    b1.read_ok(x) == b.read_ok(x) by {}
                assert forall|x: u16|
                    #![trigger b1.written(sp1, hi).read_ok(x)]
                    #![trigger b.written(sp1, hi).read_ok(x)]
                    b1.written(sp1, hi).read_ok(x) == b.written(sp1, hi).read_ok(x) by {}
                assert(b1.write_ok(sp1, hi) == b.write_ok(sp1, hi));
                assert(b1.written(sp1, hi).write_ok(sp2, lo) == b.written(sp1, hi).write_ok(sp2, lo));
                assert(s1.push(s1.pc).ok == at_pc(s, s.pc).push(s.pc).ok);
            }
            r
        } else {
            self.cpu.next_step_ok()
        }
    }

    /// Takes the PPU's frame report if there is one (returning 1); else
    /// runs one step when it is defined (returning 0), or stops before an
    /// undefined step (returning 2) or after its first half, where the PPU
    /// could not advance (returning 3).
    fn step_toward_frame(&mut self) -> (r: u8)
        requires
            old(self).wf(),
        ensures
            final(self).wf(),
            r <= 3,
            r == 1 <==> old(self)@.bus.ppu.frame_ready,
            r == 1 ==> final(self)@ == frame_taken(old(self)@),
            r == 0 ==> console_step(old(self)@).0.ok && final(self)@ == console_step(
                old(self)@,
            ).0,
            r == 2 ==> !dispatch(old(self)@).0.ok && final(self)@ == old(self)@,
            r >= 2 ==> !console_step(old(self)@).0.ok,
            r == 3 ==> dispatch(old(self)@).0.ok && !ticked(
                dispatch(old(self)@).0,
                dispatch(old(self)@).1,
            ).ok && final(self)@ == dispatch(old(self)@).0,
    {
        let ghost before = self@;
        if self.cpu.bus.ppu.is_frame_ready() {
            return 1;
        }
        assert(self@ == before);
        if !self.dispatch_ok() {
            proof {
                reveal(console_step);
                reveal(ticked);
            }
            return 2;
        }
        let cycles = self.dispatch();
        if !self.cpu.bus.ppu.can_tick(cycles) {
            proof {
                reveal(ticked);
                reveal(console_step);
            }
            return 3;
        }
        proof {
            reveal(ticked);
            reveal(console_step);
            crate::timer::lemma_tick_keeps_wf(self.cpu.bus.timer, cycles);
        }
        self.tick_components(cycles);
        0
    }

    /// Runs steps until the PPU reports a completed frame, and takes the
    /// report; returns whether it did. It stops early, returning false,
    /// after `FRAME_STEP_LIMIT` steps (with the LCD off no frame ever
    /// comes), or where the next step is undefined: before it, when
    /// servicing the interrupt or executing the instruction is undefined, or
    /// after its first half, when the PPU cannot advance by its cycles.
    pub fn run_frame(&mut self) -> (r: bool)
        requires
            old(self).wf(),
        ensures
            final(self).wf(),
            exists|n: nat|
                #![trigger frame_run_outcome(old(self)@, n, final(self)@, r)]
                frame_run_outcome(old(self)@, n, final(self)@, r),
    {
        let ghost s0 = self@;
        let ghost mut n: nat = 0;
        let mut count: u64 = 0;
        loop
            invariant
                self.wf(),
                s0 == old(self)@,
                self@ == console_steps(s0, n),
                n == count,
                count <= FRAME_STEP_LIMIT,
                forall|j: nat|
                    j < n ==> !(#[trigger] console_steps(s0, j)).bus.ppu.frame_ready
                        && console_step(console_steps(s0, j)).0.ok,
            decreases FRAME_STEP_LIMIT - count,
        {
            let ghost before = self@;
            if count >= FRAME_STEP_LIMIT {
                let ready = self.cpu.bus.ppu.is_frame_ready();
                assert(frame_run_outcome(s0, n, self@, ready));
                return ready;
            }
            let outcome = self.step_toward_frame();
            if outcome == 1 {
                assert(frame_run_outcome(s0, n, self@, true));
                return true;
            }
            if outcome >= 2 {
                assert(frame_run_outcome(s0, n, self@, false));
                return false;
            }
            proof {
                let m = n;
                n = n + 1;
                assert(console_steps(s0, n) == console_step(console_steps(s0, m)).0);
                assert forall|j: nat|
                    j < n implies !(#[trigger] console_steps(s0, j)).bus.ppu.frame_ready
                        && console_step(console_steps(s0, j)).0.ok by {
                    if j == m {
                        assert(console_steps(s0, j) == before);
                    }
                }
            }
            count = count + 1;
        }
    }
}

/// The low nibble of F stays clear over console steps: servicing an
/// interrupt and advancing the timer and the PPU leave F alone, and no
/// instruction sets those bits.
pub proof fn lemma_console_step_keeps_flag_low_bits(s: CpuView)
    requires
        s.f & 0x0F == 0,
    ensures
        console_step(s).0.f & 0x0F == 0,
{
    reveal(console_step);
    reveal(dispatch);
    reveal(ticked);
    if !takes_interrupt(s) {
        lemma_step_keeps_flag_low_bits(s);
    }
}

} // verus!
