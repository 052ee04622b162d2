use vstd::prelude::*;

verus! {

/// The byte at `i` of `s`, or 0xFF (an open bus) past its end.
pub open spec fn byte_at(s: Seq<u8>, i: int) -> u8 {
    if 0 <= i < s.len() {
        s[i]
    } else {
        0xFF
    }
}

/// A cartridge's memory bank controller: it serves reads of ROM
/// (0x0000-0x7FFF) and of external RAM (0xA000-0xBFFF), and takes writes to
/// the ROM range as commands.
pub trait MemoryBankController: Sized {
    /// What reading ROM at `addr` gives.
    spec fn rom_byte(&self, addr: u16) -> u8;

    /// What reading external RAM at `addr` gives.
    spec fn ram_byte(&self, addr: u16) -> u8;

    /// The reads of ROM that the controller can serve.
    spec fn rom_read_ok(&self, addr: u16) -> bool;

    /// The accesses of external RAM that the controller can serve.
    spec fn ram_access_ok(&self, addr: u16) -> bool;

    /// Whether `after` is the controller `before` after a write of `value` to
    /// `addr` in the ROM range.
    spec fn rom_written(before: Self, after: Self, addr: u16, value: u8) -> bool;

    /// Whether `after` is the controller `before` after a write of `value` to
    /// `addr` in external RAM.
    spec fn ram_written(before: Self, after: Self, addr: u16, value: u8) -> bool;

    fn read_rom(&self, addr: u16) -> (r: u8)
        requires
            self.rom_read_ok(addr),
        ensures
            r == self.rom_byte(addr),
    ;

    fn write_rom(&mut self, addr: u16, value: u8)
        ensures
            Self::rom_written(*old(self), *final(self), addr, value),
    ;

    fn read_ram(&self, addr: u16) -> (r: u8)
        requires
            self.ram_access_ok(addr),
        ensures
            r == self.ram_byte(addr),
    ;

    fn write_ram(&mut self, addr: u16, value: u8)
        requires
            old(self).ram_access_ok(addr),
        ensures
            Self::ram_written(*old(self), *final(self), addr, value),
    ;
}

/// A cartridge of at most 32 KiB of ROM and no RAM.
pub struct NoMBC {
    rom: Vec<u8>,
}

/// The MBC1 controller: up to 2 MiB of ROM and 32 KiB of RAM in four banks.
pub struct MBC1 {
    rom: Vec<u8>,
    ram: Vec<u8>,
    rom_bank: usize,
    ram_bank: usize,
    ram_enabled: bool,
    banking_mode: u8,
}

/// The MBC3 controller (without its clock): up to 2 MiB of ROM and 32 KiB of
/// RAM in four banks.
pub struct MBC3 {
    rom: Vec<u8>,
    ram: Vec<u8>,
    rom_bank: usize,
    ram_bank: usize,
    ram_enabled: bool,
    rtc_enabled: bool,
}

/// The state of an MBC1 controller.
pub struct Mbc1View {
    pub rom: Seq<u8>,
    pub ram: Seq<u8>,
    pub rom_bank: usize,
    pub ram_bank: usize,
    pub ram_enabled: bool,
    pub banking_mode: u8,
}

/// The state of an MBC3 controller.
pub struct Mbc3View {
    pub rom: Seq<u8>,
    pub ram: Seq<u8>,
    pub rom_bank: usize,
    pub ram_bank: usize,
    pub ram_enabled: bool,
    pub rtc_enabled: bool,
}

/// The state of a cartridge.
pub enum CartView {
    NoMbc(Seq<u8>),
    Mbc1(Mbc1View),
    Mbc3(Mbc3View),
}

/// The bit-level forms of the bank register arithmetic.
proof fn lemma_bank_bits(rb: usize, b: usize, value: u8)
    by (bit_vector)
    ensures
        rb <= 3 ==> rb << 5 == rb * 32,
        rb <= 3 && 1 <= b <= 31 ==> (rb << 5) | b == rb * 32 + b,
        value & 0x1F <= 0x1F,
        value & 0x03 <= 0x03,
        value & 0x01 <= 0x01,
        value & 0x7F <= 0x7F,
{
}

/// The number of 16 KiB banks that a ROM holds in full.
pub open spec fn bank_count(rom: Seq<u8>) -> int {
    rom.len() as int / 0x4000
}

impl Mbc1View {
    /// The bank registers hold what the controller can latch: a ROM bank of
    /// 1 to 31, a RAM bank of 0 to 3, a mode of 0 or 1; RAM is 32 KiB.
    pub open spec fn wf(self) -> bool {
        &&& 1 <= self.rom_bank <= 31
        &&& self.ram_bank <= 3
        &&& self.banking_mode <= 1
        &&& self.ram.len() == 0x8000
    }

    /// In mode 1 the bank number is reduced modulo the number of banks,
    /// which must not be 0.
    pub open spec fn rom_read_ok(self, addr: u16) -> bool {
        !(self.banking_mode == 1 && addr <= 0x7FFF && self.rom.len() < 0x4000)
    }

    pub open spec fn ram_access_ok(self, addr: u16) -> bool {
        self.ram_enabled ==> addr >= 0xA000
    }

    /// ROM reads: 0x0000-0x3FFF shows bank 0 (in mode 1, bank 32 times the
    /// RAM bank register), 0x4000-0x7FFF the selected bank (in mode 1, the
    /// RAM bank register supplies bits 5 and 6); bank numbers in mode 1 wrap
    /// around the number of banks; past the ROM's end reads give 0xFF.
    pub open spec fn read_rom(self, addr: u16) -> u8 {
        if addr <= 0x3FFF {
            let bank: int = if self.banking_mode == 1 {
                (self.ram_bank * 32) % bank_count(self.rom)
            } else {
                0
            };
            byte_at(self.rom, bank * 0x4000 + addr)
        } else if addr <= 0x7FFF {
            let bank: int = if self.banking_mode == 1 {
                (self.ram_bank * 32 + self.rom_bank) % bank_count(self.rom)
            } else {
                self.rom_bank as int
            };
            byte_at(self.rom, bank * 0x4000 + (addr - 0x4000))
        } else {
            0xFF
        }
    }

    /// Writes to ROM set the registers: RAM enable (0x0000-0x1FFF, enabled by
    /// 0xA in the low nibble), ROM bank (0x2000-0x3FFF, five bits, 0 meaning
    /// 1), RAM bank (0x4000-0x5FFF, two bits), mode (0x6000-0x7FFF, one bit).
    pub open spec fn written_rom(self, addr: u16, value: u8) -> Mbc1View {
        if addr <= 0x1FFF {
            Mbc1View { ram_enabled: (value & 0x0F) == 0x0A, ..self }
        } else if addr <= 0x3FFF {
            let bank = (value & 0x1F) as usize;
            Mbc1View { rom_bank: if bank == 0 { 1 } else { bank }, ..self }
        } else if addr <= 0x5FFF {
            Mbc1View { ram_bank: (value & 0x03) as usize, ..self }
        } else if addr <= 0x7FFF {
            Mbc1View { banking_mode: value & 0x01, ..self }
        } else {
            self
        }
    }

    /// The offset in RAM that `addr` reaches: the RAM bank in mode 1, else
    /// bank 0.
    pub open spec fn ram_offset(self, addr: u16) -> int {
        let bank: int = if self.banking_mode == 1 {
            self.ram_bank as int
        } else {
            0
        };
        bank * 0x2000 + (addr - 0xA000)
    }

    /// RAM reads give 0xFF while RAM is disabled.
    pub open spec fn read_ram(self, addr: u16) -> u8 {
        if !self.ram_enabled {
            0xFF
        } else {
            byte_at(self.ram, self.ram_offset(addr))
        }
    }

    /// RAM writes are ignored while RAM is disabled.
    pub open spec fn written_ram(self, addr: u16, value: u8) -> Mbc1View {
        let i = self.ram_offset(addr);
        if self.ram_enabled && 0 <= i < self.ram.len() {
            Mbc1View { ram: self.ram.update(i, value), ..self }
        } else {
            self
        }
    }
}

impl Mbc3View {
    /// A ROM bank of 1 to 127, a RAM bank of 0 to 3; RAM is 32 KiB.
    pub open spec fn wf(self) -> bool {
        &&& 1 <= self.rom_bank <= 127
        &&& self.ram_bank <= 3
        &&& self.ram.len() == 0x8000
    }

    pub open spec fn ram_access_ok(self, addr: u16) -> bool {
        (self.ram_enabled && !self.rtc_enabled) ==> addr >= 0xA000
    }

    /// ROM reads: bank 0 at 0x0000-0x3FFF, the selected bank at
    /// 0x4000-0x7FFF; past the ROM's end reads give 0xFF.
    pub open spec fn read_rom(self, addr: u16) -> u8 {
        if addr <= 0x3FFF {
            byte_at(self.rom, addr as int)
        } else if addr <= 0x7FFF {
            byte_at(self.rom, self.rom_bank * 0x4000 + (addr - 0x4000))
        } else {
            0xFF
        }
    }

    /// Writes to ROM set the registers: RAM enable (0x0000-0x1FFF), ROM bank
    /// (0x2000-0x3FFF, seven bits, 0 meaning 1), RAM bank 0 to 3 or a clock
    /// register 0x08 to 0x0C (0x4000-0x5FFF); 0x6000-0x7FFF is ignored.
    pub open spec fn written_rom(self, addr: u16, value: u8) -> Mbc3View {
        if addr <= 0x1FFF {
            Mbc3View { ram_enabled: (value & 0x0F) == 0x0A, ..self }
        } else if addr <= 0x3FFF {
            let bank = (value & 0x7F) as usize;
            Mbc3View { rom_bank: if bank == 0 { 1 } else { bank }, ..self }
        } else if addr <= 0x5FFF {
            if value <= 0x03 {
                Mbc3View { ram_bank: value as usize, rtc_enabled: false, ..self }
            } else if 0x08 <= value <= 0x0C {
                Mbc3View { rtc_enabled: true, ..self }
            } else {
                self
            }
        } else {
            self
        }
    }

    pub open spec fn ram_offset(self, addr: u16) -> int {
        self.ram_bank * 0x2000 + (addr - 0xA000)
    }

    /// RAM reads give 0xFF while RAM is disabled or a clock register is
    /// selected.
    pub open spec fn read_ram(self, addr: u16) -> u8 {
        if !self.ram_enabled || self.rtc_enabled {
            0xFF
        } else {
            byte_at(self.ram, self.ram_offset(addr))
        }
    }

    pub open spec fn written_ram(self, addr: u16, value: u8) -> Mbc3View {
        let i = self.ram_offset(addr);
        if self.ram_enabled && !self.rtc_enabled && 0 <= i < self.ram.len() {
            Mbc3View { ram: self.ram.update(i, value), ..self }
        } else {
            self
        }
    }
}

impl CartView {
    /// Whether the controller can serve a read of every address: only an
    /// MBC1 in banking mode 1 whose ROM is shorter than one bank cannot.
    pub open spec fn serves_all_reads(self) -> bool {
        match self {
            CartView::Mbc1(m) => !(m.banking_mode == 1 && m.rom.len() < 0x4000),
            _ => true,
        }
    }

    pub open spec fn wf(self) -> bool {
        match self {
            CartView::NoMbc(_) => true,
            CartView::Mbc1(m) => m.wf(),
            CartView::Mbc3(m) => m.wf(),
        }
    }

    pub open spec fn rom_read_ok(self, addr: u16) -> bool {
        match self {
            CartView::Mbc1(m) => m.rom_read_ok(addr),
            _ => true,
        }
    }

    pub open spec fn ram_access_ok(self, addr: u16) -> bool {
        match self {
            CartView::NoMbc(_) => true,
            CartView::Mbc1(m) => m.ram_access_ok(addr),
            CartView::Mbc3(m) => m.ram_access_ok(addr),
        }
    }

    pub open spec fn read_rom(self, addr: u16) -> u8 {
        match self {
            CartView::NoMbc(rom) => byte_at(rom, addr as int),
            CartView::Mbc1(m) => m.read_rom(addr),
            CartView::Mbc3(m) => m.read_rom(addr),
        }
    }

    pub open spec fn written_rom(self, addr: u16, value: u8) -> CartView {
        match self {
            CartView::NoMbc(rom) => CartView::NoMbc(rom),
            CartView::Mbc1(m) => CartView::Mbc1(m.written_rom(addr, value)),
            CartView::Mbc3(m) => CartView::Mbc3(m.written_rom(addr, value)),
        }
    }

    pub open spec fn read_ram(self, addr: u16) -> u8 {
        match self {
            CartView::NoMbc(_) => 0xFF,
            CartView::Mbc1(m) => m.read_ram(addr),
            CartView::Mbc3(m) => m.read_ram(addr),
        }
    }

    pub open spec fn written_ram(self, addr: u16, value: u8) -> CartView {
        match self {
            CartView::NoMbc(rom) => CartView::NoMbc(rom),
            CartView::Mbc1(m) => CartView::Mbc1(m.written_ram(addr, value)),
            CartView::Mbc3(m) => CartView::Mbc3(m.written_ram(addr, value)),
        }
    }
}

impl View for NoMBC {
    type V = Seq<u8>;

    closed spec fn view(&self) -> Seq<u8> {
        self.rom@
    }
}

impl View for MBC1 {
    type V = Mbc1View;

    closed spec fn view(&self) -> Mbc1View {
        Mbc1View {
            rom: self.rom@,
            ram: self.ram@,
            rom_bank: self.rom_bank,
            ram_bank: self.ram_bank,
            ram_enabled: self.ram_enabled,
            banking_mode: self.banking_mode,
        }
    }
}

impl View for MBC3 {
    type V = Mbc3View;

    closed spec fn view(&self) -> Mbc3View {
        Mbc3View {
            rom: self.rom@,
            ram: self.ram@,
            rom_bank: self.rom_bank,
            ram_bank: self.ram_bank,
            ram_enabled: self.ram_enabled,
            rtc_enabled: self.rtc_enabled,
        }
    }
}

impl NoMBC {
    pub fn new(rom: Vec<u8>) -> (r: Self)
        ensures
            r@ == rom@,
    {
        NoMBC { rom }
    }
}

impl MBC1 {
    pub fn new(rom: Vec<u8>) -> (r: Self)
        ensures
            r@.rom == rom@,
            r@.ram == Seq::new(0x8000, |i: int| 0u8),
            r@.rom_bank == 1,
            r@.ram_bank == 0,
            !r@.ram_enabled,
            r@.banking_mode == 0,
            r@.wf(),
    {
        let ram_size: usize = 32 * 1024;
        let ram = vec![0u8; ram_size];
        proof {
            assert(ram@ =~= Seq::new(0x8000, |i: int| 0u8));
        }
        MBC1 { rom, ram, rom_bank: 1, ram_bank: 0, ram_enabled: false, banking_mode: 0 }
    }
}

impl MBC3 {
    pub fn new(rom: Vec<u8>) -> (r: Self)
        ensures
            r@.rom == rom@,
            r@.ram == Seq::new(0x8000, |i: int| 0u8),
            r@.rom_bank == 1,
            r@.ram_bank == 0,
            !r@.ram_enabled,
            !r@.rtc_enabled,
            r@.wf(),
    {
        let ram_size: usize = 32 * 1024;
        let ram = vec![0u8; ram_size];
        proof {
            assert(ram@ =~= Seq::new(0x8000, |i: int| 0u8));
        }
        MBC3 { rom, ram, rom_bank: 1, ram_bank: 0, ram_enabled: false, rtc_enabled: false }
    }
}

impl MemoryBankController for NoMBC {
    open spec fn rom_byte(&self, addr: u16) -> u8 {
        byte_at(self@, addr as int)
    }

    open spec fn ram_byte(&self, addr: u16) -> u8 {
        0xFF
    }

    open spec fn rom_read_ok(&self, addr: u16) -> bool {
        true
    }

    open spec fn ram_access_ok(&self, addr: u16) -> bool {
        true
    }

    open spec fn rom_written(before: Self, after: Self, addr: u16, value: u8) -> bool {
        after@ == before@
    }

    open spec fn ram_written(before: Self, after: Self, addr: u16, value: u8) -> bool {
        after@ == before@
    }

    fn read_rom(&self, addr: u16) -> (r: u8) {
        if (addr as usize) < self.rom.len() {
            self.rom[addr as usize]
        } else {
            0xFF
        }
    }

    fn write_rom(&mut self, _addr: u16, _value: u8) {
    }

    fn read_ram(&self, _addr: u16) -> (r: u8) {
        0xFF
    }

    fn write_ram(&mut self, _addr: u16, _value: u8) {
    }
}

impl MemoryBankController for MBC1 {
    open spec fn rom_byte(&self, addr: u16) -> u8 {
        self@.read_rom(addr)
    }

    open spec fn ram_byte(&self, addr: u16) -> u8 {
        self@.read_ram(addr)
    }

    open spec fn rom_read_ok(&self, addr: u16) -> bool {
        self@.wf() && self@.rom_read_ok(addr)
    }

    open spec fn ram_access_ok(&self, addr: u16) -> bool {
        self@.wf() && self@.ram_access_ok(addr)
    }

    open spec fn rom_written(before: Self, after: Self, addr: u16, value: u8) -> bool {
        after@ == before@.written_rom(addr, value) && (before@.wf() ==> after@.wf())
    }

    open spec fn ram_written(before: Self, after: Self, addr: u16, value: u8) -> bool {
        after@ == before@.written_ram(addr, value) && after@.wf()
    }

    fn read_rom(&self, addr: u16) -> (r: u8) {
        let rb = self.ram_bank;
        let b = self.rom_bank;
        proof {
            lemma_bank_bits(rb, b, 0);
        }
        if addr <= 0x3FFF {
            let bank = if self.banking_mode == 1 {
                (self.ram_bank << 5) % (self.rom.len() / 0x4000)
            } else {
                0
            };
            let rom_addr = bank * 0x4000 + (addr as usize);
            if rom_addr < self.rom.len() {
                self.rom[rom_addr]
            } else {
                0xFF
            }
        } else if addr <= 0x7FFF {
            let bank = if self.banking_mode == 1 {
                ((self.ram_bank << 5) | self.rom_bank) % (self.rom.len() / 0x4000)
            } else {
                self.rom_bank
            };
            let rom_addr = bank * 0x4000 + ((addr - 0x4000) as usize);
            if rom_addr < self.rom.len() {
                self.rom[rom_addr]
            } else {
                0xFF
            }
        } else {
            0xFF
        }
    }

    fn write_rom(&mut self, addr: u16, value: u8) {
        if addr <= 0x1FFF {
            self.ram_enabled = (value & 0x0F) == 0x0A;
        } else if addr <= 0x3FFF {
            proof {
                lemma_bank_bits(0, 1, value);
            }
            let bank = (value & 0x1F) as usize;
            self.rom_bank = if bank == 0 {
                1
            } else {
                bank
            };
        } else if addr <= 0x5FFF {
            proof {
                lemma_bank_bits(0, 1, value);
            }
            self.ram_bank = (value & 0x03) as usize;
        } else if addr <= 0x7FFF {
            proof {
                lemma_bank_bits(0, 1, value);
            }
            self.banking_mode = value & 0x01;
        }
    }

    fn read_ram(&self, addr: u16) -> (r: u8) {
        if !self.ram_enabled {
            return 0xFF;
        }
        let bank = if self.banking_mode == 1 {
            self.ram_bank
        } else {
            0
        };
        let ram_addr = bank * 0x2000 + ((addr - 0xA000) as usize);
        if ram_addr < self.ram.len() {
            self.ram[ram_addr]
        } else {
            0xFF
        }
    }

    fn write_ram(&mut self, addr: u16, value: u8) {
        if !self.ram_enabled {
            return;
        }
        let bank = if self.banking_mode == 1 {
            self.ram_bank
        } else {
            0
        };
        let ram_addr = bank * 0x2000 + ((addr - 0xA000) as usize);
        if ram_addr < self.ram.len() {
            self.ram[ram_addr] = value;
        }
    }
}

impl MemoryBankController for MBC3 {
    open spec fn rom_byte(&self, addr: u16) -> u8 {
        self@.read_rom(addr)
    }

    open spec fn ram_byte(&self, addr: u16) -> u8 {
        self@.read_ram(addr)
    }

    open spec fn rom_read_ok(&self, addr: u16) -> bool {
        self@.wf()
    }

    open spec fn ram_access_ok(&self, addr: u16) -> bool {
        self@.wf() && self@.ram_access_ok(addr)
    }

    open spec fn rom_written(before: Self, after: Self, addr: u16, value: u8) -> bool {
        after@ == before@.written_rom(addr, value) && (before@.wf() ==> after@.wf())
    }

    open spec fn ram_written(before: Self, after: Self, addr: u16, value: u8) -> bool {
        after@ == before@.written_ram(addr, value) && after@.wf()
    }

    fn read_rom(&self, addr: u16) -> (r: u8) {
        if addr <= 0x3FFF {
            if (addr as usize) < self.rom.len() {
                self.rom[addr as usize]
            } else {
                0xFF
            }
        } else if addr <= 0x7FFF {
            let rom_addr = (self.rom_bank * 0x4000) + ((addr - 0x4000) as usize);
            if rom_addr < self.rom.len() {
                self.rom[rom_addr]
            } else {
                0xFF
            }
        } else {
            0xFF
        }
    }

    fn write_rom(&mut self, addr: u16, value: u8) {
        if addr <= 0x1FFF {
            self.ram_enabled = (value & 0x0F) == 0x0A;
        } else if addr <= 0x3FFF {
            proof {
                lemma_bank_bits(0, 1, value);
            }
            let bank = (value & 0x7F) as usize;
            self.rom_bank = if bank == 0 {
                1
            } else {
                bank
            };
        } else if addr <= 0x5FFF {
            if value <= 0x03 {
                self.ram_bank = value as usize;
                self.rtc_enabled = false;
            } else if value >= 0x08 && value <= 0x0C {
                self.rtc_enabled = true;
            }
        }
    }

    fn read_ram(&self, addr: u16) -> (r: u8) {
        if !self.ram_enabled || self.rtc_enabled {
            return 0xFF;
        }
        let ram_addr = (self.ram_bank * 0x2000) + ((addr - 0xA000) as usize);
        if ram_addr < self.ram.len() {
            self.ram[ram_addr]
        } else {
            0xFF
        }
    }

    fn write_ram(&mut self, addr: u16, value: u8) {
        if !self.ram_enabled || self.rtc_enabled {
            return;
        }
        let ram_addr = (self.ram_bank * 0x2000) + ((addr - 0xA000) as usize);
        if ram_addr < self.ram.len() {
            self.ram[ram_addr] = value;
        }
    }
}

/// The controller that a cartridge's header asks for, as this emulator
/// supports them.
pub enum Cartridge {
    NoMbc(NoMBC),
    Mbc1(MBC1),
    Mbc3(MBC3),
}

impl View for Cartridge {
    type V = CartView;

    open spec fn view(&self) -> CartView {
        match self {
            Cartridge::NoMbc(m) => CartView::NoMbc(m@),
            Cartridge::Mbc1(m) => CartView::Mbc1(m@),
            Cartridge::Mbc3(m) => CartView::Mbc3(m@),
        }
    }
}

/// A freshly reset MBC1 controller over `rom`.
pub open spec fn mbc1_initial(rom: Seq<u8>) -> Mbc1View {
    Mbc1View {
        rom,
        ram: Seq::new(0x8000, |i: int| 0u8),
        rom_bank: 1,
        ram_bank: 0,
        ram_enabled: false,
        banking_mode: 0,
    }
}

/// A freshly reset MBC3 controller over `rom`.
pub open spec fn mbc3_initial(rom: Seq<u8>) -> Mbc3View {
    Mbc3View {
        rom,
        ram: Seq::new(0x8000, |i: int| 0u8),
        rom_bank: 1,
        ram_bank: 0,
        ram_enabled: false,
        rtc_enabled: false,
    }
}

/// Whether the cartridge type byte (header offset 0x147) names a controller
/// that this emulator implements: 0x00 (ROM only), 0x01-0x03 (MBC1) or
/// 0x0F-0x13 (MBC3).
pub open spec fn supported_type(cartridge_type: u8) -> bool {
    cartridge_type == 0x00 || (0x01 <= cartridge_type <= 0x03) || (0x0F <= cartridge_type
        <= 0x13)
}

/// The controller for a ROM image: chosen by the type byte at 0x147 when the
/// image reaches it; MBC1 stands in for unsupported types; images too short
/// to hold the byte get no controller.
pub open spec fn cartridge_for(rom: Seq<u8>) -> CartView {
    if rom.len() > 0x147 {
        let cartridge_type = rom[0x147];
        if cartridge_type == 0x00 {
            CartView::NoMbc(rom)
        } else if 0x01 <= cartridge_type <= 0x03 {
            CartView::Mbc1(mbc1_initial(rom))
        } else if 0x0F <= cartridge_type <= 0x13 {
            CartView::Mbc3(mbc3_initial(rom))
        } else {
            CartView::Mbc1(mbc1_initial(rom))
        }
    } else {
        CartView::NoMbc(rom)
    }
}

/// Whether the type byte names a supported controller.
pub fn is_supported_cartridge_type(cartridge_type: u8) -> (r: bool)
    ensures
        r == supported_type(cartridge_type),
{
    cartridge_type == 0x00 || (0x01 <= cartridge_type && cartridge_type <= 0x03) || (0x0F
        <= cartridge_type && cartridge_type <= 0x13)
}

/// Builds the controller that the ROM image's header asks for.
pub fn create_mbc(rom: Vec<u8>) -> (r: Cartridge)
    ensures
        r@ == cartridge_for(rom@),
        r@.wf(),
{
    if rom.len() > 0x147 {
        let cartridge_type = rom[0x147];
        if cartridge_type == 0x00 {
            Cartridge::NoMbc(NoMBC::new(rom))
        } else if 0x01 <= cartridge_type && cartridge_type <= 0x03 {
            Cartridge::Mbc1(MBC1::new(rom))
        } else if 0x0F <= cartridge_type && cartridge_type <= 0x13 {
            Cartridge::Mbc3(MBC3::new(rom))
        } else {
            Cartridge::Mbc1(MBC1::new(rom))
        }
    } else {
        Cartridge::NoMbc(NoMBC::new(rom))
    }
}

impl MBC1 {
    /// Whether the controller can serve a read of ROM at `addr`: in banking
    /// mode 1 an image shorter than one bank has no bank count to reduce by.
    pub fn can_read_rom(&self, addr: u16) -> (r: bool)
        ensures
            r == self@.rom_read_ok(addr),
    {
        !(self.banking_mode == 1 && addr <= 0x7FFF && self.rom.len() < 0x4000)
    }

    /// Whether the controller can serve a read of every address.
    pub fn serves_all_reads(&self) -> (r: bool)
        ensures
            r == !(self@.banking_mode == 1 && self@.rom.len() < 0x4000),
    {
        !(self.banking_mode == 1 && self.rom.len() < 0x4000)
    }
}

impl Cartridge {
    /// Whether the controller can serve a read of ROM at `addr`.
    pub fn can_read_rom(&self, addr: u16) -> (r: bool)
        ensures
            r == self@.rom_read_ok(addr),
    {
        match self {
            Cartridge::Mbc1(m) => m.can_read_rom(addr),
            _ => true,
        }
    }

    /// Whether the controller can serve a read of every address.
    pub fn serves_all_reads(&self) -> (r: bool)
        ensures
            r == self@.serves_all_reads(),
    {
        match self {
            Cartridge::Mbc1(m) => m.serves_all_reads(),
            _ => true,
        }
    }

    pub fn read_rom(&self, addr: u16) -> (r: u8)
        requires
            self@.wf(),
            self@.rom_read_ok(addr),
        ensures
            r == self@.read_rom(addr),
    {
        match self {
            Cartridge::NoMbc(m) => m.read_rom(addr),
            Cartridge::Mbc1(m) => m.read_rom(addr),
            Cartridge::Mbc3(m) => m.read_rom(addr),
        }
    }

    pub fn write_rom(&mut self, addr: u16, value: u8)
        requires
            old(self)@.wf(),
        ensures
            final(self)@ == old(self)@.written_rom(addr, value),
            final(self)@.wf(),
    {
        match self {
            Cartridge::NoMbc(m) => m.write_rom(addr, value),
            Cartridge::Mbc1(m) => m.write_rom(addr, value),
            Cartridge::Mbc3(m) => m.write_rom(addr, value),
        }
    }

    pub fn read_ram(&self, addr: u16) -> (r: u8)
        requires
            self@.wf(),
            self@.ram_access_ok(addr),
        ensures
            r == self@.read_ram(addr),
    {
        match self {
            Cartridge::NoMbc(m) => m.read_ram(addr),
            Cartridge::Mbc1(m) => m.read_ram(addr),
            Cartridge::Mbc3(m) => m.read_ram(addr),
        }
    }

    pub fn write_ram(&mut self, addr: u16, value: u8)
        requires
            old(self)@.wf(),
            old(self)@.ram_access_ok(addr),
        ensures
            final(self)@ == old(self)@.written_ram(addr, value),
            final(self)@.wf(),
    {
        match self {
            Cartridge::NoMbc(m) => m.write_ram(addr, value),
            Cartridge::Mbc1(m) => m.write_ram(addr, value),
            Cartridge::Mbc3(m) => m.write_ram(addr, value),
        }
    }
}

/// With RAM enabled, what is written to cartridge RAM reads back, on MBC1
/// and on MBC3 (with a RAM bank selected).
pub proof fn lemma_cart_ram_round_trip(c: CartView, addr: u16, value: u8)
    requires
        c.wf(),
        0xA000 <= addr <= 0xBFFF,
        match c {
            CartView::NoMbc(_) => false,
            CartView::Mbc1(m) => m.ram_enabled,
            CartView::Mbc3(m) => m.ram_enabled && !m.rtc_enabled,
        },
    ensures
        c.written_ram(addr, value).read_ram(addr) == value,
        c.written_ram(addr, value).wf(),
{
}

/// The bank registers stay in range: every ROM write keeps a controller
/// well formed, and a write of 0 to the ROM bank register selects bank 1.
pub proof fn lemma_rom_writes_keep_banks(c: CartView, addr: u16, value: u8)
    requires
        c.wf(),
    ensures
        c.written_rom(addr, value).wf(),
        0x2000 <= addr <= 0x3FFF && value == 0 ==> match c.written_rom(addr, value) {
            CartView::Mbc1(m) => m.rom_bank == 1,
            CartView::Mbc3(m) => m.rom_bank == 1,
            CartView::NoMbc(_) => true,
        },
{
    lemma_bank_bits(0, 1, value);
    assert((0u8 & 0x1F) == 0 && (0u8 & 0x7F) == 0) by (bit_vector);
}

/// MBC3 RAM banks: with RAM enabled, writing v (0-3) to 0x4000-0x5FFF
/// selects RAM bank v, so that a byte written at 0xA000 + o is stored at
/// v * 0x2000 + o of the cartridge RAM, reads back there, and leaves every
/// other byte as it was; reading offset o2 of bank w afterwards gives the
/// byte written when (w, o2) is (v, o) and bank w's old byte otherwise, so
/// distinct banks never alias.
pub proof fn lemma_mbc3_ram_banks(
    m: Mbc3View,
    sel: u16,
    v: u8,
    o: u16,
    x: u8,
    sel2: u16,
    w: u8,
    o2: u16,
)
    requires
        m.wf(),
        m.ram_enabled,
        0x4000 <= sel <= 0x5FFF,
        0x4000 <= sel2 <= 0x5FFF,
        v <= 3,
        w <= 3,
        o < 0x2000,
        o2 < 0x2000,
    ensures
        ({
            let m1 = m.written_rom(sel, v).written_ram((0xA000 + o) as u16, x);
            &&& m1.ram.len() == m.ram.len()
            &&& m1.ram[v * 0x2000 + o] == x
            &&& forall|i: int|
                0 <= i < 0x8000 && i != v * 0x2000 + o ==> m1.ram[i] == m.ram[i]
            &&& m1.read_ram((0xA000 + o) as u16) == x
            &&& m1.written_rom(sel2, w).read_ram((0xA000 + o2) as u16) == (if w == v && o2 == o {
                x
            } else {
                m.ram[w * 0x2000 + o2]
            })
        }),
{
    let m1 = m.written_rom(sel, v).written_ram((0xA000 + o) as u16, x);
    assert(m.written_rom(sel, v).ram_bank == v);
    assert(m1.written_rom(sel2, w).ram_bank == w);
    if !(w == v && o2 == o) {
        assert(w * 0x2000 + o2 != v * 0x2000 + o) by (nonlinear_arith)
            requires
                !(w == v && o2 == o),
                o < 0x2000,
                o2 < 0x2000,
        ;
    }
}

/// MBC1 ROM banks in mode 0: writing v to 0x2000-0x3FFF selects bank
/// v mod 32 (bank 0 standing for 1) at 0x4000-0x7FFF, while 0x0000-0x3FFF
/// keeps showing bank 0.
pub proof fn lemma_mbc1_rom_bank_select(m: Mbc1View, sel: u16, v: u8, o: u16)
    requires
        m.wf(),
        m.banking_mode == 0,
        0x2000 <= sel <= 0x3FFF,
        o < 0x4000,
    ensures
        ({
            let b: int = if v % 32 == 0 {
                1
            } else {
                (v % 32) as int
            };
            let m1 = m.written_rom(sel, v);
            &&& m1.read_rom((0x4000 + o) as u16) == byte_at(m.rom, b * 0x4000 + o)
            &&& m1.read_rom(o) == byte_at(m.rom, o as int)
        }),
{
    assert(v & 0x1F == v % 32) by (bit_vector);
}

/// MBC3 ROM banks: writing v to 0x2000-0x3FFF selects bank v mod 128 (bank
/// 0 standing for 1) at 0x4000-0x7FFF, while 0x0000-0x3FFF keeps showing
/// bank 0.
pub proof fn lemma_mbc3_rom_bank_select(m: Mbc3View, sel: u16, v: u8, o: u16)
    requires
        m.wf(),
        0x2000 <= sel <= 0x3FFF,
        o < 0x4000,
    ensures
        ({
            let b: int = if v % 128 == 0 {
                1
            } else {
                (v % 128) as int
            };
            let m1 = m.written_rom(sel, v);
            &&& m1.read_rom((0x4000 + o) as u16) == byte_at(m.rom, b * 0x4000 + o)
            &&& m1.read_rom(o) == byte_at(m.rom, o as int)
        }),
{
    assert(v & 0x7F == v % 128) by (bit_vector);
}

/// MBC1 RAM banks in mode 1: with RAM enabled, writing v (0-3) to
/// 0x4000-0x5FFF selects RAM bank v, so that a byte written at 0xA000 + o is
/// stored at v * 0x2000 + o, reads back there and leaves every other byte
/// alone; reading offset o2 of bank w afterwards gives the byte written when
/// (w, o2) is (v, o), and bank w's old byte otherwise.
pub proof fn lemma_mbc1_ram_banks(
    m: Mbc1View,
    sel: u16,
    v: u8,
    o: u16,
    x: u8,
    sel2: u16,
    w: u8,
    o2: u16,
)
    requires
        m.wf(),
        m.ram_enabled,
        m.banking_mode == 1,
        0x4000 <= sel <= 0x5FFF,
        0x4000 <= sel2 <= 0x5FFF,
        v <= 3,
        w <= 3,
        o < 0x2000,
        o2 < 0x2000,
    ensures
        ({
            let m1 = m.written_rom(sel, v).written_ram((0xA000 + o) as u16, x);
            &&& m1.ram.len() == m.ram.len()
            &&& m1.ram[v * 0x2000 + o] == x
            &&& forall|i: int|
                0 <= i < 0x8000 && i != v * 0x2000 + o ==> m1.ram[i] == m.ram[i]
            &&& m1.read_ram((0xA000 + o) as u16) == x
            &&& m1.written_rom(sel2, w).read_ram((0xA000 + o2) as u16) == (if w == v && o2 == o {
                x
            } else {
                m.ram[w * 0x2000 + o2]
            })
        }),
{
    assert(v & 0x03 == v && w & 0x03 == w) by (bit_vector)
        requires
            v <= 3,
            w <= 3,
    ;
    let m1 = m.written_rom(sel, v).written_ram((0xA000 + o) as u16, x);
    assert(m.written_rom(sel, v).ram_bank == v);
    assert(m1.written_rom(sel2, w).ram_bank == w);
    if !(w == v && o2 == o) {
        assert(w * 0x2000 + o2 != v * 0x2000 + o) by (nonlinear_arith)
            requires
                !(w == v && o2 == o),
                o < 0x2000,
                o2 < 0x2000,
        ;
    }
}

} // verus!
