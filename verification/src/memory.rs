use vstd::prelude::*;
use crate::mbc::{Cartridge, CartView, create_mbc, cartridge_for};

verus! {

/// The memory behind the bus: the cartridge, 8 KiB of work RAM (mirrored at
/// 0xE000-0xFDFF), 127 bytes of high RAM and the boot ROM overlay at
/// 0x0000-0x00FF.
pub struct Memory {
    mbc: Cartridge,
    wram: [u8; 0x2000],
    hram: [u8; 0x7F],
    boot_rom: [u8; 0x100],
    boot_rom_enabled: bool,
}

/// The state of the memory.
pub struct MemView {
    pub cart: CartView,
    pub wram: Seq<u8>,
    pub hram: Seq<u8>,
    pub boot_rom: Seq<u8>,
    pub boot_rom_enabled: bool,
}

impl MemView {
    pub open spec fn wf(self) -> bool {
        &&& self.cart.wf()
        &&& self.wram.len() == 0x2000
        &&& self.hram.len() == 0x7F
        &&& self.boot_rom.len() == 0x100
    }

    /// The reads that the memory can serve: all but ROM reads that the
    /// cartridge's controller cannot serve.
    pub open spec fn read_ok(self, addr: u16) -> bool {
        (addr <= 0x00FF && self.boot_rom_enabled) || addr > 0x7FFF || self.cart.rom_read_ok(addr)
    }

    /// What reading `addr` gives: the boot ROM while it is mapped, the
    /// cartridge's ROM and RAM, work RAM and its mirror, high RAM, and 0xFF
    /// elsewhere.
    pub open spec fn read(self, addr: u16) -> u8 {
        if addr <= 0x00FF && self.boot_rom_enabled {
            self.boot_rom[addr as int]
        } else if addr <= 0x7FFF {
            self.cart.read_rom(addr)
        } else if 0xA000 <= addr <= 0xBFFF {
            self.cart.read_ram(addr)
        } else if 0xC000 <= addr <= 0xDFFF {
            self.wram[addr - 0xC000]
        } else if 0xE000 <= addr <= 0xFDFF {
            self.wram[addr - 0xE000]
        } else if 0xFF80 <= addr <= 0xFFFE {
            self.hram[addr - 0xFF80]
        } else {
            0xFF
        }
    }

    /// The memory after writing `value` to `addr`: ROM writes go to the
    /// controller, RAM writes to the cartridge RAM, work RAM (or its mirror)
    /// or high RAM; a nonzero write to 0xFF50 unmaps the boot ROM; other
    /// writes are ignored.
    pub open spec fn written(self, addr: u16, value: u8) -> MemView {
        if addr <= 0x7FFF {
            MemView { cart: self.cart.written_rom(addr, value), ..self }
        } else if 0xA000 <= addr <= 0xBFFF {
            MemView { cart: self.cart.written_ram(addr, value), ..self }
        } else if 0xC000 <= addr <= 0xDFFF {
            MemView { wram: self.wram.update(addr - 0xC000, value), ..self }
        } else if 0xE000 <= addr <= 0xFDFF {
            MemView { wram: self.wram.update(addr - 0xE000, value), ..self }
        } else if addr == 0xFF50 && value != 0 {
            MemView { boot_rom_enabled: false, ..self }
        } else if 0xFF80 <= addr <= 0xFFFE {
            MemView { hram: self.hram.update(addr - 0xFF80, value), ..self }
        } else {
            self
        }
    }
}

/// The memory at power-on: a cartridge of 32 KiB of zeros without a
/// controller, cleared RAM, and the boot ROM mapped. No boot ROM image is
/// built in: the overlay reads as zeros.
pub open spec fn memory_power_on() -> MemView {
    MemView {
        cart: cartridge_for(Seq::new(0x8000, |i: int| 0u8)),
        wram: Seq::new(0x2000, |i: int| 0u8),
        hram: Seq::new(0x7F, |i: int| 0u8),
        boot_rom: Seq::new(0x100, |i: int| 0u8),
        boot_rom_enabled: true,
    }
}

impl View for Memory {
    type V = MemView;

    closed spec fn view(&self) -> MemView {
        MemView {
            cart: self.mbc@,
            wram: self.wram@,
            hram: self.hram@,
            boot_rom: self.boot_rom@,
            boot_rom_enabled: self.boot_rom_enabled,
        }
    }
}

impl Memory {
    pub open spec fn wf(&self) -> bool {
        self@.wf()
    }

    pub fn new() -> (r: Self)
        ensures
            r.wf(),
            r@ == memory_power_on(),
    {
        let rom = vec![0u8; 0x8000];
        proof {
            assert(rom@ =~= Seq::new(0x8000, |i: int| 0u8));
        }
        let r = Memory {
            mbc: create_mbc(rom),
            wram: [0u8; 0x2000],
            hram: [0u8; 0x7F],
            boot_rom: [0u8; 0x100],
            boot_rom_enabled: true,
        };
        proof {
            assert(r.wram@ =~= Seq::new(0x2000, |i: int| 0u8));
            assert(r.hram@ =~= Seq::new(0x7F, |i: int| 0u8));
            assert(r.boot_rom@ =~= Seq::new(0x100, |i: int| 0u8));
        }
        r
    }

    pub fn read_byte(&self, addr: u16) -> (r: u8)
        requires
            self.wf(),
            self@.read_ok(addr),
        ensures
            r == self@.read(addr),
    {
        if addr <= 0x00FF && self.boot_rom_enabled {
            self.boot_rom[addr as usize]
        } else if addr <= 0x7FFF {
            self.mbc.read_rom(addr)
        } else if 0xA000 <= addr && addr <= 0xBFFF {
            self.mbc.read_ram(addr)
        } else if 0xC000 <= addr && addr <= 0xDFFF {
            self.wram[(addr - 0xC000) as usize]
        } else if 0xE000 <= addr && addr <= 0xFDFF {
            self.wram[(addr - 0xE000) as usize]
        } else if 0xFF80 <= addr && addr <= 0xFFFE {
            self.hram[(addr - 0xFF80) as usize]
        } else {
            0xFF
        }
    }

    pub fn write_byte(&mut self, addr: u16, value: u8)
        requires
            old(self).wf(),
        ensures
            final(self).wf(),
            final(self)@ == old(self)@.written(addr, value),
    {
        if addr <= 0x7FFF {
            self.mbc.write_rom(addr, value);
        } else if 0xA000 <= addr && addr <= 0xBFFF {
            self.mbc.write_ram(addr, value);
        } else if 0xC000 <= addr && addr <= 0xDFFF {
            self.wram[(addr - 0xC000) as usize] = value;
        } else if 0xE000 <= addr && addr <= 0xFDFF {
            self.wram[(addr - 0xE000) as usize] = value;
        } else if addr == 0xFF50 && value != 0 {
            self.boot_rom_enabled = false;
        } else if 0xFF80 <= addr && addr <= 0xFFFE {
            self.hram[(addr - 0xFF80) as usize] = value;
        }
    }

    /// Whether a read of `addr` can be served.
    pub fn can_read(&self, addr: u16) -> (r: bool)
        requires
            self.wf(),
        ensures
            r == self@.read_ok(addr),
    {
        (addr <= 0x00FF && self.boot_rom_enabled) || addr > 0x7FFF || self.mbc.can_read_rom(addr)
    }

    /// Whether the cartridge can serve a read of every address.
    pub fn serves_all_reads(&self) -> (r: bool)
        ensures
            r == self@.cart.serves_all_reads(),
    {
        self.mbc.serves_all_reads()
    }

    /// Puts the cartridge that the ROM image's header asks for in place of
    /// the current one.
    pub fn load_rom(&mut self, rom: &[u8])
        requires
            old(self).wf(),
        ensures
            final(self).wf(),
            final(self)@ == (MemView { cart: cartridge_for(rom@), ..old(self)@ }),
    {
        self.mbc = create_mbc(vstd::slice::slice_to_vec(rom));
    }
}

/// Once the boot ROM is unmapped, no write maps it again; a nonzero write
/// to 0xFF50 unmaps it.
pub proof fn lemma_boot_rom_stays_unmapped(m: MemView, addr: u16, value: u8)
    ensures
        !m.boot_rom_enabled ==> !m.written(addr, value).boot_rom_enabled,
        value != 0 ==> !m.written(0xFF50, value).boot_rom_enabled,
{
}

} // verus!
