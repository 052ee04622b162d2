use gameboy::bus::MemoryBus;
use gameboy::interrupts::InterruptType;
use gameboy::joypad::Button;

#[test]
fn video_addresses_reach_the_ppu() {
    let mut bus = MemoryBus::new();
    bus.write_byte(0x8000, 5);
    bus.write_byte(0xFE10, 6);
    bus.write_byte(0xFF42, 7);
    assert_eq!(bus.ppu.vram[0], 5);
    assert_eq!(bus.ppu.oam[0x10], 6);
    assert_eq!(bus.read_byte(0x8000), 5);
    assert_eq!(bus.read_byte(0xFE10), 6);
    assert_eq!(bus.read_byte(0xFF42), 7);
    assert_eq!(bus.read_byte(0xFF40), 0x91);
}

#[test]
fn timer_addresses_reach_the_timer() {
    let mut bus = MemoryBus::new();
    bus.write_byte(0xFF06, 0x12);
    bus.write_byte(0xFF07, 0xFF);
    assert_eq!(bus.read_byte(0xFF06), 0x12);
    assert_eq!(bus.read_byte(0xFF07), 0x07);
    assert_eq!(bus.timer.read(0xFF06), 0x12);
}

#[test]
fn joypad_register() {
    let mut bus = MemoryBus::new();
    assert_eq!(bus.read_byte(0xFF00), 0xFF);
    bus.joypad.press_button(Button::A);
    bus.write_byte(0xFF00, 0x10);
    assert_eq!(bus.read_byte(0xFF00), 0xDE);
}

#[test]
fn interrupt_registers() {
    let mut bus = MemoryBus::new();
    bus.write_byte(0xFFFF, 0x1F);
    bus.write_byte(0xFF0F, 0x03);
    assert_eq!(bus.interrupts.interrupt_enable, 0x1F);
    assert_eq!(bus.interrupts.interrupt_flag, 0x03);
    bus.interrupts.request_interrupt(InterruptType::Serial);
    assert_eq!(bus.read_byte(0xFF0F), 0x0B);
    assert_eq!(bus.read_byte(0xFFFF), 0x1F);
}

#[test]
fn other_addresses_reach_memory() {
    let mut bus = MemoryBus::new();
    bus.write_byte(0xC000, 0x21);
    bus.write_byte(0xFF80, 0x22);
    assert_eq!(bus.read_byte(0xC000), 0x21);
    assert_eq!(bus.read_byte(0xE000), 0x21);
    assert_eq!(bus.read_byte(0xFF80), 0x22);
    assert_eq!(bus.read_byte(0xFF01), 0xFF);
    assert_eq!(bus.read_byte(0xFEA0), 0xFF);
}

#[test]
fn dma_copies_a_page_to_oam() {
    let mut bus = MemoryBus::new();
    for i in 0..0xA0u16 {
        bus.write_byte(0xC000 + i, (i as u8) ^ 0x5A);
    }
    bus.write_byte(0xFF46, 0xC0);
    for i in 0..0xA0usize {
        assert_eq!(bus.ppu.oam[i], (i as u8) ^ 0x5A);
    }
    assert_eq!(bus.read_byte(0xFE05), 0x05 ^ 0x5A);
    assert_eq!(bus.read_byte(0xFF46), 0xFF);
}

#[test]
fn dma_from_cartridge_rom() {
    let mut bus = MemoryBus::new();
    let mut rom = vec![0u8; 0x8000];
    for i in 0..0xA0usize {
        rom[0x4000 + i] = i as u8;
    }
    bus.load_rom(&rom);
    bus.write_byte(0xFF46, 0x40);
    assert_eq!(bus.ppu.oam[0], 0);
    assert_eq!(bus.ppu.oam[0x9F], 0x9F);
}

#[test]
fn bus_read_after_write() {
    let mut bus = MemoryBus::new();
    for (addr, value) in [(0xC123u16, 1u8), (0xDFFF, 2), (0xFF81, 3), (0x9ABC, 4), (0xFE9F, 5), (0xFF45, 6), (0xFF05, 7), (0xFF06, 8), (0xFF0F, 9), (0xFFFF, 10)] {
        bus.write_byte(addr, value);
        assert_eq!(bus.read_byte(addr), value, "address {:04X}", addr);
    }
}

#[test]
fn write_leaves_other_cells() {
    let mut bus = MemoryBus::new();
    bus.write_byte(0xC000, 0x11);
    bus.write_byte(0xC001, 0x22);
    bus.write_byte(0xFF80, 0x33);
    assert_eq!(bus.read_byte(0xC000), 0x11);
    assert_eq!(bus.read_byte(0xFF80), 0x33);
    bus.write_byte(0xC000, 0x44);
    assert_eq!(bus.read_byte(0xC001), 0x22);
    assert_eq!(bus.read_byte(0xFF80), 0x33);
}

#[test]
fn echo_mirrors_work_ram() {
    let mut bus = MemoryBus::new();
    bus.write_byte(0xE456, 0x99);
    assert_eq!(bus.read_byte(0xC456), 0x99);
    bus.write_byte(0xC457, 0x98);
    assert_eq!(bus.read_byte(0xE457), 0x98);
}

#[test]
fn rom_writes_select_banks_through_the_bus() {
    let mut bus = MemoryBus::new();
    let mut rom = Vec::new();
    for bank in 0..4u8 {
        rom.extend(std::iter::repeat(bank).take(0x4000));
    }
    rom[0x147] = 0x01;
    bus.load_rom(&rom);
    assert_eq!(bus.read_byte(0x4000), 1);
    bus.write_byte(0x2000, 3);
    assert_eq!(bus.read_byte(0x4000), 3);
}
