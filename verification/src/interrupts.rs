use vstd::prelude::*;

verus! {

const VBLANK: u8 = 0b00000001;
const LCD_STAT: u8 = 0b00000010;
const TIMER: u8 = 0b00000100;
const SERIAL: u8 = 0b00001000;
const JOYPAD: u8 = 0b00010000;

/// The interrupt controller: the enable register (IE, 0xFFFF), the flag
/// register (IF, 0xFF0F) and the master enable (IME).
pub struct Interrupts {
    pub interrupt_enable: u8,
    pub interrupt_flag: u8,
    pub ime: bool,
}

/// The five interrupt sources, in order of priority (highest first).
#[derive(Copy, Clone)]
pub enum InterruptType {
    VBlank,
    LcdStat,
    Timer,
    Serial,
    Joypad,
}

impl InterruptType {
    /// The bit that stands for this source in IE and IF.
    pub open spec fn bit(self) -> u8 {
        match self {
            InterruptType::VBlank => 0b00000001,
            InterruptType::LcdStat => 0b00000010,
            InterruptType::Timer => 0b00000100,
            InterruptType::Serial => 0b00001000,
            InterruptType::Joypad => 0b00010000,
        }
    }

    /// The address the CPU jumps to when it services this source.
    pub open spec fn vector(self) -> u16 {
        match self {
            InterruptType::VBlank => 0x0040,
            InterruptType::LcdStat => 0x0048,
            InterruptType::Timer => 0x0050,
            InterruptType::Serial => 0x0058,
            InterruptType::Joypad => 0x0060,
        }
    }

    /// The bit of this source, as the executable code uses it.
    pub fn mask(self) -> (m: u8)
        ensures
            m == self.bit(),
    {
        match self {
            InterruptType::VBlank => VBLANK,
            InterruptType::LcdStat => LCD_STAT,
            InterruptType::Timer => TIMER,
            InterruptType::Serial => SERIAL,
            InterruptType::Joypad => JOYPAD,
        }
    }
}

/// The requested and enabled source of highest priority in `pending`
/// (the lowest of bits 0 to 4 that is set), if any.
pub open spec fn highest_priority(pending: u8) -> Option<InterruptType> {
    if pending & InterruptType::VBlank.bit() != 0 {
        Some(InterruptType::VBlank)
    } else if pending & InterruptType::LcdStat.bit() != 0 {
        Some(InterruptType::LcdStat)
    } else if pending & InterruptType::Timer.bit() != 0 {
        Some(InterruptType::Timer)
    } else if pending & InterruptType::Serial.bit() != 0 {
        Some(InterruptType::Serial)
    } else if pending & InterruptType::Joypad.bit() != 0 {
        Some(InterruptType::Joypad)
    } else {
        None
    }
}

impl Interrupts {
    /// The sources that are both requested and enabled.
    pub open spec fn pending(self) -> u8 {
        self.interrupt_enable & self.interrupt_flag
    }

    /// The controller after `source` has been requested.
    pub open spec fn requested(self, source: InterruptType) -> Interrupts {
        Interrupts { interrupt_flag: self.interrupt_flag | source.bit(), ..self }
    }

    /// Whether the CPU is to be interrupted.
    pub open spec fn pending_spec(self) -> bool {
        self.ime && self.pending() != 0
    }

    /// The source that is serviced next, if any.
    pub open spec fn next_source(self) -> Option<InterruptType> {
        if self.ime {
            highest_priority(self.pending())
        } else {
            None
        }
    }

    /// The controller after the next source has been serviced: its request is
    /// withdrawn.
    pub open spec fn serviced(self) -> Interrupts {
        match self.next_source() {
            Some(source) => Interrupts {
                interrupt_flag: self.interrupt_flag & !source.bit(),
                ..self
            },
            None => self,
        }
    }

    pub fn new() -> (r: Self)
        ensures
            r.interrupt_enable == 0,
            r.interrupt_flag == 0,
            !r.ime,
    {
        Interrupts { interrupt_enable: 0, interrupt_flag: 0, ime: false }
    }

    /// Whether `get_next_interrupt` would service a source.
    pub fn will_service(&self) -> (r: bool)
        ensures
            r == (self.next_source() is Some),
    {
        let pending = self.interrupt_enable & self.interrupt_flag;
        self.ime && (pending & VBLANK != 0 || pending & LCD_STAT != 0 || pending & TIMER != 0
            || pending & SERIAL != 0 || pending & JOYPAD != 0)
    }

    pub fn request_interrupt(&mut self, interrupt: InterruptType)
        ensures
            *final(self) == old(self).requested(interrupt),
    {
        self.interrupt_flag = self.interrupt_flag | interrupt.mask();
    }

    pub fn has_pending_interrupt(&self) -> (r: bool)
        ensures
            r == self.pending_spec(),
    {
        self.ime && (self.interrupt_enable & self.interrupt_flag) != 0
    }

    /// Services the pending source of highest priority: withdraws its request
    /// and returns its vector. Returns `None`, changing nothing, when IME is
    /// off or no source in bits 0 to 4 is both requested and enabled.
    pub fn get_next_interrupt(&mut self) -> (r: Option<u16>)
        ensures
            *final(self) == old(self).serviced(),
            r == (match old(self).next_source() {
                Some(source) => Some(source.vector()),
                None => None,
            }),
    {
        if !self.ime {
            return None;
        }
        let pending = self.interrupt_enable & self.interrupt_flag;

        if pending & VBLANK != 0 {
            self.interrupt_flag = self.interrupt_flag & !VBLANK;
            Some(0x0040)
        } else if pending & LCD_STAT != 0 {
            self.interrupt_flag = self.interrupt_flag & !LCD_STAT;
            Some(0x0048)
        } else if pending & TIMER != 0 {
            self.interrupt_flag = self.interrupt_flag & !TIMER;
            Some(0x0050)
        } else if pending & SERIAL != 0 {
            self.interrupt_flag = self.interrupt_flag & !SERIAL;
            Some(0x0058)
        } else if pending & JOYPAD != 0 {
            self.interrupt_flag = self.interrupt_flag & !JOYPAD;
            Some(0x0060)
        } else {
            None
        }
    }
}

/// A requested source that is enabled makes the CPU interruptible while IME
/// is on.
pub proof fn lemma_request_enabled_is_pending(i: Interrupts, source: InterruptType)
    requires
        i.ime,
        i.interrupt_enable & source.bit() != 0,
    ensures
        i.requested(source).pending_spec(),
{
    let ie = i.interrupt_enable;
    let f = i.interrupt_flag;
    let m = source.bit();
    assert(ie & m != 0 ==> ie & (f | m) != 0) by (bit_vector);
}

/// Servicing withdraws exactly the serviced source's request: its bit is
/// clear afterwards and every other bit of IF is unchanged.
pub proof fn lemma_serviced_clears_only_source(i: Interrupts, source: InterruptType, k: u8)
    requires
        i.next_source() == Some(source),
        k < 8,
    ensures
        i.serviced().interrupt_flag & source.bit() == 0,
        (1u8 << k) != source.bit() ==> (i.serviced().interrupt_flag & (1u8 << k)) == (
        i.interrupt_flag & (1u8 << k)),
        i.serviced().interrupt_enable == i.interrupt_enable,
        i.serviced().ime == i.ime,
{
    let f = i.interrupt_flag;
    let m = source.bit();
    assert(m == 1 || m == 2 || m == 4 || m == 8 || m == 16);
    assert((f & !m) & m == 0) by (bit_vector);
    assert(k < 8 && (m == 1 || m == 2 || m == 4 || m == 8 || m == 16) && (1u8 << k) != m ==> ((f
        & !m) & (1u8 << k)) == (f & (1u8 << k))) by (bit_vector);
}

/// The serviced source was requested and enabled.
pub proof fn lemma_next_source_was_pending(i: Interrupts, source: InterruptType)
    requires
        i.next_source() == Some(source),
    ensures
        i.ime,
        i.interrupt_enable & source.bit() != 0,
        i.interrupt_flag & source.bit() != 0,
{
    let ie = i.interrupt_enable;
    let f = i.interrupt_flag;
    let m = source.bit();
    assert((ie & f) & m != 0 ==> ie & m != 0 && f & m != 0) by (bit_vector);
}

/// The source serviced is the lowest set bit of bits 0-4 of IE & IF, with
/// vector 0x40 + 8 * (its bit number), and only its request is withdrawn;
/// nothing is serviced while IME is off or no such bit is set.
pub proof fn lemma_lowest_pending_bit_first(i: Interrupts)
    ensures
        ({
            let p = i.interrupt_enable & i.interrupt_flag;
            let f = i.interrupt_flag;
            &&& (i.next_source() is None) == (!i.ime || p & 0x1F == 0)
            &&& i.ime && p & 0x01 != 0 ==> i.next_source().unwrap().vector() == 0x0040
                && i.serviced().interrupt_flag == f & !0x01u8
            &&& i.ime && p & 0x01 == 0 && p & 0x02 != 0 ==> i.next_source().unwrap().vector()
                == 0x0048 && i.serviced().interrupt_flag == f & !0x02u8
            &&& i.ime && p & 0x03 == 0 && p & 0x04 != 0 ==> i.next_source().unwrap().vector()
                == 0x0050 && i.serviced().interrupt_flag == f & !0x04u8
            &&& i.ime && p & 0x07 == 0 && p & 0x08 != 0 ==> i.next_source().unwrap().vector()
                == 0x0058 && i.serviced().interrupt_flag == f & !0x08u8
            &&& i.ime && p & 0x0F == 0 && p & 0x10 != 0 ==> i.next_source().unwrap().vector()
                == 0x0060 && i.serviced().interrupt_flag == f & !0x10u8
            &&& (i.next_source() is None) ==> i.serviced() == i
        }),
{
    let p = i.interrupt_enable & i.interrupt_flag;
    assert(((p & 0x1F == 0) == (p & 0x01 == 0 && p & 0x02 == 0 && p & 0x04 == 0 && p & 0x08 == 0
        && p & 0x10 == 0)) && ((p & 0x03 == 0) == (p & 0x01 == 0 && p & 0x02 == 0)) && ((p & 0x07
        == 0) == (p & 0x03 == 0 && p & 0x04 == 0)) && ((p & 0x0F == 0) == (p & 0x07 == 0 && p
        & 0x08 == 0))) by (bit_vector);
}

} // verus!
