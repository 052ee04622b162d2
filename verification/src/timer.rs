use vstd::prelude::*;
use crate::interrupts::{Interrupts, InterruptType};

verus! {

const DIVIDER_REGISTER: u16 = 0xFF04;
const TIMER_COUNTER: u16 = 0xFF05;
const TIMER_MODULO: u16 = 0xFF06;
const TIMER_CONTROL: u16 = 0xFF07;

/// The timer: DIV (0xFF04), TIMA (0xFF05), TMA (0xFF06) and TAC (0xFF07),
/// with the cycles that TIMA has not yet counted.
pub struct Timer {
    divider: u16,
    counter: u8,
    modulo: u8,
    control: u8,
    counter_cycles: u32,
}

/// The number of cycles per TIMA increment that the clock select bits of TAC
/// choose.
pub open spec fn threshold_of(control: u8) -> u32 {
    let select = control & 0b00000011;
    if select == 0 {
        1024
    } else if select == 1 {
        16
    } else if select == 2 {
        64
    } else {
        256
    }
}

/// TIMA after `n` increments from `counter`, reloaded from `modulo` each time
/// it overflows, and whether it overflowed at least once.
pub open spec fn count_up(counter: u8, modulo: u8, n: nat) -> (u8, bool)
    decreases n,
{
    if n == 0 {
        (counter, false)
    } else {
        let (c, overflowed) = count_up(counter, modulo, (n - 1) as nat);
        if c == 255 {
            (modulo, true)
        } else {
            ((c + 1) as u8, overflowed)
        }
    }
}

impl Timer {
    pub closed spec fn divider_spec(self) -> u16 {
        self.divider
    }

    pub closed spec fn counter_spec(self) -> u8 {
        self.counter
    }

    pub closed spec fn modulo_spec(self) -> u8 {
        self.modulo
    }

    pub closed spec fn control_spec(self) -> u8 {
        self.control
    }

    pub closed spec fn pending_cycles(self) -> u32 {
        self.counter_cycles
    }

    /// The timer keeps fewer pending cycles than the longest period.
    pub open spec fn wf(self) -> bool {
        self.pending_cycles() < 1024
    }

    /// Whether TAC enables TIMA.
    pub open spec fn enabled_spec(self) -> bool {
        self.control_spec() & 0b00000100 != 0
    }

    /// The inputs on which `tick` adds without overflow.
    pub open spec fn tick_ok(self, cycles: u32) -> bool {
        self.enabled_spec() ==> self.pending_cycles() + cycles <= u32::MAX
    }

    /// The timer after `cycles` cycles: DIV advances by `cycles` modulo 2^16;
    /// when enabled, TIMA counts one for each full period of the pending
    /// cycles, and the remainder stays pending.
    pub closed spec fn ticked(self, cycles: u32) -> Timer {
        let divider = ((self.divider + cycles) % 0x10000) as u16;
        if !self.enabled_spec() {
            Timer { divider, ..self }
        } else {
            let total = self.counter_cycles + cycles;
            let t = threshold_of(self.control);
            Timer {
                divider,
                counter: count_up(self.counter, self.modulo, (total / (t as int)) as nat).0,
                counter_cycles: (total % (t as int)) as u32,
                ..self
            }
        }
    }

    /// Whether TIMA overflows during those cycles, which requests the timer
    /// interrupt.
    pub closed spec fn tick_overflows(self, cycles: u32) -> bool {
        if !self.enabled_spec() {
            false
        } else {
            let total = self.counter_cycles + cycles;
            let t = threshold_of(self.control);
            count_up(self.counter, self.modulo, (total / (t as int)) as nat).1
        }
    }

    /// What reading `addr` gives: the high byte of DIV, TIMA, TMA, TAC, or
    /// 0xFF elsewhere.
    pub closed spec fn read_spec(self, addr: u16) -> u8 {
        if addr == DIVIDER_REGISTER {
            (self.divider >> 8) as u8
        } else if addr == TIMER_COUNTER {
            self.counter
        } else if addr == TIMER_MODULO {
            self.modulo
        } else if addr == TIMER_CONTROL {
            self.control
        } else {
            0xFF
        }
    }

    /// The timer after writing `value` to `addr`: writing DIV resets it, TAC
    /// keeps its three low bits.
    pub closed spec fn written(self, addr: u16, value: u8) -> Timer {
        if addr == DIVIDER_REGISTER {
            Timer { divider: 0, ..self }
        } else if addr == TIMER_COUNTER {
            Timer { counter: value, ..self }
        } else if addr == TIMER_MODULO {
            Timer { modulo: value, ..self }
        } else if addr == TIMER_CONTROL {
            Timer { control: value & 0b00000111, ..self }
        } else {
            self
        }
    }

    pub fn new() -> (r: Self)
        ensures
            r.divider_spec() == 0,
            r.counter_spec() == 0,
            r.modulo_spec() == 0,
            r.control_spec() == 0,
            r.pending_cycles() == 0,
            r.wf(),
    {
        Timer { divider: 0, counter: 0, modulo: 0, control: 0, counter_cycles: 0 }
    }

    /// Advances the timer by `cycles` cycles, requesting the timer interrupt
    /// when TIMA overflows.
    pub fn tick(&mut self, cycles: u32, interrupts: &mut Interrupts)
        requires
            old(self).tick_ok(cycles),
        ensures
            *final(self) == old(self).ticked(cycles),
            *final(interrupts) == (if old(self).tick_overflows(cycles) {
                old(interrupts).requested(InterruptType::Timer)
            } else {
                *old(interrupts)
            }),
    {
        proof {
            assert((cycles as u16) == cycles % 0x10000) by (bit_vector);
        }
        self.divider = self.divider.wrapping_add(cycles as u16);

        if !self.is_enabled() {
            return;
        }
        let ghost total: int = self.counter_cycles + cycles;
        let ghost c0 = self.counter;

        self.counter_cycles = self.counter_cycles + cycles;
        let threshold = self.get_frequency_threshold();
        let ghost mut n: nat = 0;
        let ghost i0 = *interrupts;

        while self.counter_cycles >= threshold
            invariant
                threshold == threshold_of(self.control),
                threshold > 0,
                self.counter_cycles + n * threshold == total,
                self.counter == count_up(c0, self.modulo, n).0,
                *interrupts == (if count_up(c0, self.modulo, n).1 {
                    i0.requested(InterruptType::Timer)
                } else {
                    i0
                }),
                self.divider == old(self).ticked(cycles).divider,
                self.modulo == old(self).modulo,
                self.control == old(self).control,
                self.enabled_spec(),
                old(self).counter == c0,
            decreases self.counter_cycles,
        {
            self.counter_cycles = self.counter_cycles - threshold;
            self.counter = self.counter.wrapping_add(1);

            if self.counter == 0 {
                self.counter = self.modulo;
                interrupts.request_interrupt(InterruptType::Timer);
            }
            proof {
                assert(n * threshold + threshold == (n + 1) * threshold) by (nonlinear_arith);
                n = n + 1;
                assert(i0.requested(InterruptType::Timer).requested(InterruptType::Timer)
                    == i0.requested(InterruptType::Timer)) by {
                    let f = i0.interrupt_flag;
                    assert((f | 4u8) | 4u8 == f | 4u8) by (bit_vector);
                }
            }
        }
        proof {
            vstd::arithmetic::div_mod::lemma_fundamental_div_mod_converse(
                total,
                threshold as int,
                n as int,
                self.counter_cycles as int,
            );
        }
    }

    fn is_enabled(&self) -> (r: bool)
        ensures
            r == self.enabled_spec(),
    {
        self.control & 0b00000100 != 0
    }

    fn get_frequency_threshold(&self) -> (r: u32)
        ensures
            r == threshold_of(self.control_spec()),
    {
        let select = self.control & 0b00000011;
        if select == 0 {
            1024
        } else if select == 1 {
            16
        } else if select == 2 {
            64
        } else {
            256
        }
    }

    pub fn read(&self, addr: u16) -> (r: u8)
        ensures
            r == self.read_spec(addr),
    {
        match addr {
            DIVIDER_REGISTER => (self.divider >> 8) as u8,
            TIMER_COUNTER => self.counter,
            TIMER_MODULO => self.modulo,
            TIMER_CONTROL => self.control,
            _ => 0xFF,
        }
    }

    pub fn write(&mut self, addr: u16, value: u8)
        ensures
            *final(self) == old(self).written(addr, value),
    {
        match addr {
            DIVIDER_REGISTER => self.divider = 0,
            TIMER_COUNTER => self.counter = value,
            TIMER_MODULO => self.modulo = value,
            TIMER_CONTROL => self.control = value & 0b00000111,
            _ => {},
        }
    }
}

/// Ticking keeps fewer pending cycles than the longest period, so a timer
/// that starts well formed stays so.
pub proof fn lemma_tick_keeps_wf(t: Timer, cycles: u32)
    requires
        t.wf(),
        t.tick_ok(cycles),
    ensures
        t.ticked(cycles).wf(),
        t.ticked(cycles).modulo_spec() == t.modulo_spec(),
        t.ticked(cycles).control_spec() == t.control_spec(),
{
    let th = threshold_of(t.control);
    assert(th == 1024 || th == 16 || th == 64 || th == 256);
    if t.enabled_spec() {
        let total = t.counter_cycles + cycles;
        vstd::arithmetic::div_mod::lemma_mod_bound(total, th as int);
    }
}

/// Writing any timer register keeps the timer well formed.
pub proof fn lemma_write_keeps_wf(t: Timer, addr: u16, value: u8)
    requires
        t.wf(),
    ensures
        t.written(addr, value).wf(),
{
}

/// Reading back what was written: TIMA and TMA give the value, TAC its three
/// low bits, and DIV reads 0 after any write.
pub proof fn lemma_timer_read_after_write(t: Timer, value: u8)
    ensures
        t.written(0xFF05, value).read_spec(0xFF05) == value,
        t.written(0xFF06, value).read_spec(0xFF06) == value,
        t.written(0xFF07, value).read_spec(0xFF07) == value & 0b00000111,
        t.written(0xFF04, value).read_spec(0xFF04) == 0,
{
    assert(((0u16 >> 8u16) as u8) == 0) by (bit_vector);
}

/// Counting up `n1` and then `n2` times is counting up `n1 + n2` times; TIMA
/// overflows over the whole run exactly when it does in one of the parts.
pub proof fn lemma_count_up_adds(counter: u8, modulo: u8, n1: nat, n2: nat)
    ensures
        count_up(counter, modulo, n1 + n2) == ({
            let (c1, o1) = count_up(counter, modulo, n1);
            let (c2, o2) = count_up(c1, modulo, n2);
            (c2, o1 || o2)
        }),
    decreases n2,
{
    if n2 > 0 {
        lemma_count_up_adds(counter, modulo, n1, (n2 - 1) as nat);
        assert((n1 + n2 - 1) as nat == n1 + (n2 - 1) as nat);
    }
}

/// The timer counts the same whether cycles arrive in one tick or split over
/// two: ticking by `a` and then by `b` is ticking by `a + b`, and the timer
/// interrupt is requested over the two ticks exactly when the single tick
/// requests it.
pub proof fn lemma_ticks_compose(t: Timer, a: u32, b: u32)
    requires
        t.wf(),
        a + b <= u32::MAX,
        t.tick_ok((a + b) as u32),
    ensures
        t.tick_ok(a),
        t.ticked(a).tick_ok(b),
        t.ticked(a).ticked(b) == t.ticked((a + b) as u32),
        t.tick_overflows((a + b) as u32) == (t.tick_overflows(a) || t.ticked(a).tick_overflows(b)),
{
    let ab = (a + b) as u32;
    let d = t.divider as int;
    let d1 = (d + a) % 0x10000;
    assert(((d1 + b) % 0x10000) == (d + a + b) % 0x10000) by {
        vstd::arithmetic::div_mod::lemma_fundamental_div_mod(d + a, 0x10000);
        vstd::arithmetic::div_mod::lemma_fundamental_div_mod(d1 + b, 0x10000);
        vstd::arithmetic::div_mod::lemma_mod_bound(d1 + b, 0x10000);
        vstd::arithmetic::div_mod::lemma_mod_bound(d + a, 0x10000);
        vstd::arithmetic::div_mod::lemma_fundamental_div_mod_converse(
            d + a + b,
            0x10000,
            (d + a) / 0x10000 + (d1 + b) / 0x10000,
            (d1 + b) % 0x10000,
        );
    }
    if t.enabled_spec() {
        let th = threshold_of(t.control) as int;
        assert(th == 1024 || th == 16 || th == 64 || th == 256);
        let p = t.counter_cycles as int;
        let q1 = (p + a) / th;
        let r1 = (p + a) % th;
        let q2 = (r1 + b) / th;
        let r2 = (r1 + b) % th;
        vstd::arithmetic::div_mod::lemma_fundamental_div_mod(p + a, th);
        vstd::arithmetic::div_mod::lemma_fundamental_div_mod(r1 + b, th);
        vstd::arithmetic::div_mod::lemma_mod_bound(p + a, th);
        vstd::arithmetic::div_mod::lemma_mod_bound(r1 + b, th);
        assert(q1 >= 0 && q2 >= 0) by {
            vstd::arithmetic::div_mod::lemma_div_pos_is_pos(p + a, th);
            vstd::arithmetic::div_mod::lemma_div_pos_is_pos(r1 + b, th);
        }
        assert(p + a + b == (q1 + q2) * th + r2) by (nonlinear_arith)
            requires
                p + a == th * q1 + r1,
                r1 + b == th * q2 + r2,
        ;
        vstd::arithmetic::div_mod::lemma_fundamental_div_mod_converse(p + a + b, th, q1 + q2, r2);
        lemma_count_up_adds(t.counter, t.modulo, q1 as nat, q2 as nat);
        assert((q1 + q2) as nat == q1 as nat + q2 as nat);
    }
}

/// What a tick does to the registers: DIV advances by `cycles` modulo
/// 2^16; when TAC enables the counter, TIMA counts one for each full period
/// of the pending cycles (reloading TMA on each overflow) and the rest stays
/// pending; TMA and TAC are kept. Disabled, only DIV moves.
pub proof fn lemma_ticked_registers(t: Timer, cycles: u32)
    ensures
        t.ticked(cycles).divider_spec() == (t.divider_spec() + cycles) % 0x10000,
        t.ticked(cycles).modulo_spec() == t.modulo_spec(),
        t.ticked(cycles).control_spec() == t.control_spec(),
        !t.enabled_spec() ==> t.ticked(cycles).counter_spec() == t.counter_spec()
            && t.ticked(cycles).pending_cycles() == t.pending_cycles() && !t.tick_overflows(cycles),
        t.enabled_spec() ==> ({
            let total = t.pending_cycles() + cycles;
            let period = threshold_of(t.control_spec()) as int;
            &&& t.ticked(cycles).counter_spec() == count_up(
                t.counter_spec(),
                t.modulo_spec(),
                (total / period) as nat,
            ).0
            &&& t.ticked(cycles).pending_cycles() == total % period
            &&& t.tick_overflows(cycles) == count_up(
                t.counter_spec(),
                t.modulo_spec(),
                (total / period) as nat,
            ).1
        }),
{
}

/// What the registers read: DIV its high byte, TIMA, TMA and TAC
/// themselves, anything else 0xFF; and what a write changes: the register
/// written (DIV to 0, TAC to its three low bits), and nothing else.
pub proof fn lemma_timer_registers(t: Timer, addr: u16, value: u8)
    ensures
        t.read_spec(0xFF04) == (t.divider_spec() >> 8) as u8,
        t.read_spec(0xFF05) == t.counter_spec(),
        t.read_spec(0xFF06) == t.modulo_spec(),
        t.read_spec(0xFF07) == t.control_spec(),
        !(0xFF04 <= addr <= 0xFF07) ==> t.read_spec(addr) == 0xFF && t.written(addr, value) == t,
        t.written(addr, value).divider_spec() == (if addr == 0xFF04 {
            0
        } else {
            t.divider_spec()
        }),
        t.written(addr, value).counter_spec() == (if addr == 0xFF05 {
            value
        } else {
            t.counter_spec()
        }),
        t.written(addr, value).modulo_spec() == (if addr == 0xFF06 {
            value
        } else {
            t.modulo_spec()
        }),
        t.written(addr, value).control_spec() == (if addr == 0xFF07 {
            value & 0b00000111
        } else {
            t.control_spec()
        }),
        t.written(addr, value).pending_cycles() == t.pending_cycles(),
{
}

/// The counting rates of TAC: with the timer enabled (TAC bit 2), nothing
/// pending and TIMA below 255, TIMA counts once after 1024, 16, 64 or 256
/// cycles for TAC's low bits 0, 1, 2, 3, and not one cycle earlier; DIV
/// counts up by 1 every 256 cycles whatever TAC holds.
pub proof fn lemma_counting_rates(t: Timer)
    requires
        t.wf(),
        t.pending_cycles() == 0,
        t.counter_spec() < 255,
        t.control_spec() & 0x04 != 0,
    ensures
        ({
            let period: u32 = if t.control_spec() & 0x03 == 0 {
                1024
            } else if t.control_spec() & 0x03 == 1 {
                16
            } else if t.control_spec() & 0x03 == 2 {
                64
            } else {
                256
            };
            &&& t.ticked(period).counter_spec() == t.counter_spec() + 1
            &&& t.ticked(period).pending_cycles() == 0
            &&& t.ticked((period - 1) as u32).counter_spec() == t.counter_spec()
            &&& !t.tick_overflows(period)
        }),
        t.ticked(256).divider_spec() == (t.divider_spec() + 256) % 0x10000,
{
    let c = t.control_spec();
    assert(c & 0x03 == 0 || c & 0x03 == 1 || c & 0x03 == 2 || c & 0x03 == 3) by (bit_vector);
    assert(count_up(t.counter_spec(), t.modulo_spec(), 0) == (t.counter_spec(), false));
    assert(count_up(t.counter_spec(), t.modulo_spec(), 1) == (
    (t.counter_spec() + 1) as u8, false));
}

} // verus!
