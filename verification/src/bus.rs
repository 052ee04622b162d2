use vstd::prelude::*;
use crate::memory::{Memory, MemView, memory_power_on};
use crate::ppu::{PPU, PpuView, ppu_power_on};
use crate::timer::Timer;
use crate::joypad::Joypad;
use crate::interrupts::Interrupts;

verus! {

/// The memory bus: routes each address to the PPU, the timer, the joypad,
/// the interrupt registers or the memory.
pub struct MemoryBus {
    pub memory: Memory,
    pub ppu: PPU,
    pub timer: Timer,
    pub joypad: Joypad,
    pub interrupts: Interrupts,
}

/// The state of everything behind the bus.
pub struct BusView {
    pub mem: MemView,
    pub ppu: PpuView,
    pub timer: Timer,
    pub joypad: Joypad,
    pub interrupts: Interrupts,
}

/// The addresses that the PPU serves: VRAM, OAM and the LCD registers.
pub open spec fn is_ppu_addr(addr: u16) -> bool {
    (0x8000 <= addr <= 0x9FFF) || (0xFE00 <= addr <= 0xFE9F) || (0xFF40 <= addr <= 0xFF4B)
}

/// The addresses that the timer serves.
pub open spec fn is_timer_addr(addr: u16) -> bool {
    0xFF04 <= addr <= 0xFF07
}

/// Addresses that are plain storage: what is written there reads back.
/// VRAM, work RAM and its mirror, OAM and high RAM.
pub open spec fn is_plain_ram(addr: u16) -> bool {
    (0x8000 <= addr <= 0x9FFF) || (0xC000 <= addr <= 0xFDFF) || (0xFE00 <= addr <= 0xFE9F) || (
    0xFF80 <= addr <= 0xFFFE)
}

/// The storage cell behind an address: the mirror at 0xE000-0xFDFF shares
/// the cells of 0xC000-0xDDFF; every other address is its own cell.
pub open spec fn cell(addr: u16) -> int {
    if 0xE000 <= addr <= 0xFDFF {
        addr - 0x2000
    } else {
        addr as int
    }
}

/// The first address of the 160 bytes that a write of `value` to 0xFF46
/// copies into OAM.
pub open spec fn dma_source(value: u8) -> int {
    value * 256
}

impl BusView {
    pub open spec fn wf(self) -> bool {
        self.mem.wf() && self.ppu.wf() && self.timer.wf()
    }

    /// The reads that the bus can serve.
    pub open spec fn read_ok(self, addr: u16) -> bool {
        self.mem.read_ok(addr)
    }

    /// What reading `addr` gives.
    pub open spec fn read(self, addr: u16) -> u8 {
        if is_ppu_addr(addr) {
            self.ppu.read(addr)
        } else if is_timer_addr(addr) {
            self.timer.read_spec(addr)
        } else if addr == 0xFF00 {
            self.joypad.read_spec()
        } else if addr == 0xFF0F {
            self.interrupts.interrupt_flag
        } else if addr == 0xFFFF {
            self.interrupts.interrupt_enable
        } else {
            self.mem.read(addr)
        }
    }

    /// The bus after the OAM DMA that a write of `value` to 0xFF46 starts:
    /// OAM holds the 160 bytes read from `value * 0x100` on.
    pub open spec fn dma(self, value: u8) -> BusView {
        BusView {
            ppu: PpuView {
                oam: Seq::new(0xA0, |i: int| self.read((dma_source(value) + i) as u16)),
                ..self.ppu
            },
            ..self
        }
    }

    /// The writes that the bus can carry out: an OAM DMA reads its 160
    /// source bytes.
    pub open spec fn write_ok(self, addr: u16, value: u8) -> bool {
        addr == 0xFF46 ==> forall|i: int|
            0 <= i < 0xA0 ==> #[trigger] self.read_ok((dma_source(value) + i) as u16)
    }

    /// The bus after writing `value` to `addr`.
    pub open spec fn written(self, addr: u16, value: u8) -> BusView {
        if addr == 0xFF46 {
            self.dma(value)
        } else if is_ppu_addr(addr) {
            BusView { ppu: self.ppu.written(addr, value), ..self }
        } else if is_timer_addr(addr) {
            BusView { timer: self.timer.written(addr, value), ..self }
        } else if addr == 0xFF00 {
            BusView { joypad: self.joypad.written(value), ..self }
        } else if addr == 0xFF0F {
            BusView { interrupts: Interrupts { interrupt_flag: value, ..self.interrupts }, ..self }
        } else if addr == 0xFFFF {
            BusView { interrupts: Interrupts { interrupt_enable: value, ..self.interrupts }, ..self }
        } else {
            BusView { mem: self.mem.written(addr, value), ..self }
        }
    }
}

impl View for MemoryBus {
    type V = BusView;

    open spec fn view(&self) -> BusView {
        BusView {
            mem: self.memory@,
            ppu: self.ppu@,
            timer: self.timer,
            joypad: self.joypad,
            interrupts: self.interrupts,
        }
    }
}

impl MemoryBus {
    pub open spec fn wf(&self) -> bool {
        self@.wf()
    }

    pub fn new() -> (r: Self)
        ensures
            r.wf(),
            r.memory@ == memory_power_on(),
            r.ppu@ == ppu_power_on(),
            r.timer.wf(),
            r.timer.pending_cycles() == 0 && r.timer.divider_spec() == 0 && r.timer.counter_spec()
                == 0 && r.timer.modulo_spec() == 0 && r.timer.control_spec() == 0,
            r.joypad.read_spec() == 0xFF,
            r.interrupts.interrupt_enable == 0 && r.interrupts.interrupt_flag == 0
                && !r.interrupts.ime,
    {
        let r = MemoryBus {
            memory: Memory::new(),
            ppu: PPU::new(),
            timer: Timer::new(),
            joypad: Joypad::new(),
            interrupts: Interrupts::new(),
        };
        proof {
            assert((0xC0u8 | 0x20u8 | 0x10u8 | 0x0Fu8) == 0xFF) by (bit_vector);
        }
        r
    }

    pub fn read_byte(&self, addr: u16) -> (r: u8)
        requires
            self.wf(),
            self@.read_ok(addr),
        ensures
            r == self@.read(addr),
    {
        if (0x8000 <= addr && addr <= 0x9FFF) || (0xFE00 <= addr && addr <= 0xFE9F) || (0xFF40
            <= addr && addr <= 0xFF4B) {
            self.ppu.read(addr)
        } else if 0xFF04 <= addr && addr <= 0xFF07 {
            self.timer.read(addr)
        } else if addr == 0xFF00 {
            self.joypad.read()
        } else if addr == 0xFF0F {
            self.interrupts.interrupt_flag
        } else if addr == 0xFFFF {
            self.interrupts.interrupt_enable
        } else {
            self.memory.read_byte(addr)
        }
    }

    pub fn write_byte(&mut self, addr: u16, value: u8)
        requires
            old(self).wf(),
            old(self)@.write_ok(addr, value),
        ensures
            final(self).wf(),
            final(self)@ == old(self)@.written(addr, value),
    {
        if addr == 0xFF46 {
            self.dma_transfer(value);
        } else if (0x8000 <= addr && addr <= 0x9FFF) || (0xFE00 <= addr && addr <= 0xFE9F) || (
        0xFF40 <= addr && addr <= 0xFF4B) {
            self.ppu.write(addr, value);
        } else if 0xFF04 <= addr && addr <= 0xFF07 {
            proof {
                crate::timer::lemma_write_keeps_wf(self.timer, addr, value);
            }
            self.timer.write(addr, value);
        } else if addr == 0xFF00 {
            self.joypad.write(value);
        } else if addr == 0xFF0F {
            self.interrupts.interrupt_flag = value;
        } else if addr == 0xFFFF {
            self.interrupts.interrupt_enable = value;
        } else {
            self.memory.write_byte(addr, value);
        }
    }

    /// Copies the 160 bytes from `value * 0x100` on into OAM.
    fn dma_transfer(&mut self, value: u8)
        requires
            old(self).wf(),
            old(self)@.write_ok(0xFF46, value),
        ensures
            final(self).wf(),
            final(self)@ == old(self)@.dma(value),
    {
        let ghost v = self@;
        proof {
            assert((value as u16) << 8u16 == (value as u16) * 256) by (bit_vector);
        }
        let source = (value as u16) << 8;
        let mut i: u16 = 0;
        while i < 0xA0
            invariant
                0 <= i <= 0xA0,
                source == dma_source(value),
                self.wf(),
                v.wf(),
                v.write_ok(0xFF46, value),
                self@ == (BusView { ppu: PpuView { oam: self@.ppu.oam, ..v.ppu }, ..v }),
                self@.ppu.oam == Seq::new(
                    0xA0,
                    |j: int|
                        if j < i {
                            v.read((dma_source(value) + j) as u16)
                        } else {
                            v.ppu.oam[j]
                        },
                ),
            decreases 0xA0 - i,
        {
            let addr = source + i;
            proof {
                assert(v.read_ok((dma_source(value) + i) as u16));
                assert(self@.read_ok(addr));
                if is_ppu_addr(addr) && 0xFE00 <= addr <= 0xFE9F {
                    assert(addr - 0xFE00 == i);
                }
                assert(self@.read(addr) == v.read(addr));
            }
            let byte = self.read_byte(addr);
            self.ppu.write(0xFE00 + i, byte);
            proof {
                assert(self@.ppu.oam =~= Seq::new(
                    0xA0,
                    |j: int|
                        if j < i + 1 {
                            v.read((dma_source(value) + j) as u16)
                        } else {
                            v.ppu.oam[j]
                        },
                ));
            }
            i = i + 1;
        }
        proof {
            assert(self@.ppu.oam =~= v.dma(value).ppu.oam);
        }
    }

    /// Whether a read of `addr` can be served.
    pub fn can_read(&self, addr: u16) -> (r: bool)
        requires
            self.wf(),
        ensures
            r == self@.read_ok(addr),
    {
        self.memory.can_read(addr)
    }

    /// Whether a write of `value` to `addr` can be carried out: only an OAM
    /// DMA needs every byte of its source page to be readable.
    pub fn can_write(&self, addr: u16, value: u8) -> (r: bool)
        requires
            self.wf(),
        ensures
            r == self@.write_ok(addr, value),
    {
        if addr != 0xFF46 {
            return true;
        }
        let source: u16 = (value as u16) * 256;
        let mut i: u16 = 0;
        while i < 0xA0
            invariant
                i <= 0xA0,
                addr == 0xFF46,
                source == dma_source(value),
                self.wf(),
                forall|j: int| 0 <= j < i ==> #[trigger] self@.read_ok((dma_source(value) + j) as u16),
            decreases 0xA0 - i,
        {
            if !self.memory.can_read(source + i) {
                assert(!self@.read_ok((dma_source(value) + i as int) as u16));
                return false;
            }
            i = i + 1;
        }
        true
    }

    /// Puts the cartridge that the ROM image's header asks for in place.
    pub fn load_rom(&mut self, rom: &[u8])
        requires
            old(self).wf(),
        ensures
            final(self).wf(),
            final(self)@ == (BusView {
                mem: MemView { cart: crate::mbc::cartridge_for(rom@), ..old(self)@.mem },
                ..old(self)@
            }),
    {
        self.memory.load_rom(rom);
    }
}

/// What is written to plain storage reads back.
pub proof fn lemma_read_after_write(v: BusView, addr: u16, value: u8)
    requires
        v.wf(),
        is_plain_ram(addr),
    ensures
        v.written(addr, value).read(addr) == value,
        v.written(addr, value).wf(),
{
}

/// A write to plain storage leaves every address of another cell unchanged.
pub proof fn lemma_write_leaves_other_cells(v: BusView, addr: u16, value: u8, other: u16)
    requires
        v.wf(),
        is_plain_ram(addr),
        cell(other) != cell(addr),
    ensures
        v.written(addr, value).read(other) == v.read(other),
{
}

/// The mirror region reads what was written to work RAM, and the other way
/// around.
pub proof fn lemma_echo_mirrors_work_ram(v: BusView, addr: u16, value: u8)
    requires
        v.wf(),
        0xC000 <= addr <= 0xDDFF,
    ensures
        v.written(addr, value).read((addr + 0x2000) as u16) == value,
        v.written((addr + 0x2000) as u16, value).read(addr) == value,
{
}

} // verus!
