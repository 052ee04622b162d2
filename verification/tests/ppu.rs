use gameboy::interrupts::Interrupts;
use gameboy::ppu::{PPU, SCREEN_HEIGHT, SCREEN_WIDTH};

fn mode(ppu: &PPU) -> u8 {
    ppu.read(0xFF41) & 0x03
}

fn pixel(ppu: &PPU, x: usize, y: usize) -> u8 {
    let i = (y * SCREEN_WIDTH + x) * 3;
    assert_eq!(ppu.framebuffer[i], ppu.framebuffer[i + 1]);
    assert_eq!(ppu.framebuffer[i], ppu.framebuffer[i + 2]);
    ppu.framebuffer[i]
}

/// Runs the PPU through `lines` visible scanlines, one mode at a time.
fn run_lines(ppu: &mut PPU, ints: &mut Interrupts, lines: usize) {
    for _ in 0..lines {
        ppu.tick(80, ints);
        ppu.tick(172, ints);
        ppu.tick(204, ints);
    }
}

#[test]
fn registers_at_power_on() {
    let ppu = PPU::new();
    assert_eq!(ppu.read(0xFF40), 0x91);
    assert_eq!(ppu.read(0xFF41), 0x00);
    assert_eq!(ppu.read(0xFF44), 0x00);
    assert_eq!(ppu.read(0xFF47), 0xFC);
    assert_eq!(ppu.read(0xFF48), 0xFF);
    assert_eq!(ppu.read(0xFF49), 0xFF);
    assert_eq!(ppu.read(0xFF46), 0xFF);
    assert_eq!(ppu.read(0xFF4C), 0xFF);
    assert_eq!(ppu.framebuffer.len(), SCREEN_WIDTH * SCREEN_HEIGHT * 3);
    assert!(ppu.framebuffer.iter().all(|&b| b == 0xFF));
}

#[test]
fn ppu_read_after_write() {
    let mut ppu = PPU::new();
    ppu.write(0x8000, 0x12);
    ppu.write(0x9FFF, 0x34);
    ppu.write(0xFE00, 0x56);
    ppu.write(0xFE9F, 0x78);
    assert_eq!(ppu.read(0x8000), 0x12);
    assert_eq!(ppu.read(0x9FFF), 0x34);
    assert_eq!(ppu.read(0xFE00), 0x56);
    assert_eq!(ppu.read(0xFE9F), 0x78);
    assert_eq!(ppu.vram[0x1FFF], 0x34);
    assert_eq!(ppu.oam[0x9F], 0x78);
    for (addr, value) in [(0xFF42u16, 1u8), (0xFF43, 2), (0xFF45, 3), (0xFF47, 4), (0xFF48, 5), (0xFF49, 6), (0xFF4A, 7), (0xFF4B, 8)] {
        ppu.write(addr, value);
        assert_eq!(ppu.read(addr), value);
    }
}

#[test]
fn ly_is_read_only_and_stat_keeps_low_bits() {
    let mut ppu = PPU::new();
    ppu.write(0xFF44, 0x50);
    assert_eq!(ppu.read(0xFF44), 0);
    ppu.write(0xFF41, 0xFF);
    assert_eq!(ppu.read(0xFF41), 0xF8);
    let mut ints = Interrupts::new();
    ppu.tick(80, &mut ints);
    assert_eq!(ppu.read(0xFF41), 0xFB);
    ppu.write(0xFF41, 0x00);
    assert_eq!(ppu.read(0xFF41), 0x03);
}

#[test]
fn modes_of_a_scanline() {
    let mut ppu = PPU::new();
    let mut ints = Interrupts::new();
    ppu.tick(4, &mut ints);
    assert_eq!(mode(&ppu), 2);
    ppu.tick(76, &mut ints);
    assert_eq!(mode(&ppu), 3);
    ppu.tick(172, &mut ints);
    assert_eq!(mode(&ppu), 0);
    assert_eq!(ppu.read(0xFF44), 0);
    ppu.tick(200, &mut ints);
    assert_eq!(mode(&ppu), 0);
    ppu.tick(4, &mut ints);
    assert_eq!(mode(&ppu), 2);
    assert_eq!(ppu.read(0xFF44), 1);
}

#[test]
fn one_transition_per_tick() {
    let mut ppu = PPU::new();
    let mut ints = Interrupts::new();
    ppu.tick(456, &mut ints);
    assert_eq!(mode(&ppu), 3);
    ppu.tick(0, &mut ints);
    assert_eq!(mode(&ppu), 0);
}

#[test]
fn vblank_after_visible_lines() {
    let mut ppu = PPU::new();
    let mut ints = Interrupts::new();
    run_lines(&mut ppu, &mut ints, 143);
    assert_eq!(ppu.read(0xFF44), 143);
    assert!(!ppu.is_frame_ready());
    assert_eq!(ints.interrupt_flag, 0);
    run_lines(&mut ppu, &mut ints, 1);
    assert_eq!(ppu.read(0xFF44), 144);
    assert_eq!(mode(&ppu), 1);
    assert_eq!(ints.interrupt_flag, 0x01);
    assert!(ppu.is_frame_ready());
    assert!(!ppu.is_frame_ready());
}

#[test]
fn frame_wraps_after_vblank() {
    let mut ppu = PPU::new();
    let mut ints = Interrupts::new();
    run_lines(&mut ppu, &mut ints, 144);
    for line in 145..154u32 {
        ppu.tick(456, &mut ints);
        assert_eq!(ppu.read(0xFF44) as u32, line);
        assert_eq!(mode(&ppu), 1);
    }
    ppu.tick(456, &mut ints);
    assert_eq!(ppu.read(0xFF44), 0);
    assert_eq!(mode(&ppu), 2);
}

#[test]
fn lcd_off_freezes_the_ppu() {
    let mut ppu = PPU::new();
    let mut ints = Interrupts::new();
    ppu.write(0xFF40, 0x11);
    ppu.tick(100_000, &mut ints);
    assert_eq!(ppu.read(0xFF44), 0);
    assert_eq!(ppu.read(0xFF41), 0x00);
    assert_eq!(ints.interrupt_flag, 0);
}

#[test]
fn renders_background_through_palette() {
    let mut ppu = PPU::new();
    let mut ints = Interrupts::new();
    ppu.write(0xFF47, 0xE4);
    ppu.write(0x8000, 0xA0);
    ppu.write(0x8001, 0xC0);
    ppu.tick(80, &mut ints);
    assert_eq!(pixel(&ppu, 0, 0), 0xFF);
    ppu.tick(172, &mut ints);
    assert_eq!(pixel(&ppu, 0, 0), 0x00);
    assert_eq!(pixel(&ppu, 1, 0), 0x55);
    assert_eq!(pixel(&ppu, 2, 0), 0xAA);
    assert_eq!(pixel(&ppu, 3, 0), 0xFF);
    assert_eq!(pixel(&ppu, 8, 0), 0x00);
    assert_eq!(pixel(&ppu, 159, 0), 0xFF);
    assert_eq!(pixel(&ppu, 0, 1), 0xFF);
}

#[test]
fn default_palette_colors() {
    let mut ppu = PPU::new();
    let mut ints = Interrupts::new();
    ppu.write(0x8000, 0xFF);
    ppu.write(0x8001, 0x00);
    run_lines(&mut ppu, &mut ints, 1);
    assert_eq!(pixel(&ppu, 0, 0), 0x00);
    assert_eq!(pixel(&ppu, 0, 1), 0xFF);
}

#[test]
fn scroll_moves_the_background() {
    let mut ppu = PPU::new();
    let mut ints = Interrupts::new();
    ppu.write(0xFF47, 0xE4);
    ppu.write(0x8000, 0xA0);
    ppu.write(0x8001, 0xC0);
    ppu.write(0x8002, 0xFF);
    ppu.write(0x8003, 0xFF);
    ppu.write(0xFF43, 1);
    ppu.write(0xFF42, 1);
    run_lines(&mut ppu, &mut ints, 1);
    assert_eq!(pixel(&ppu, 0, 0), 0x00);
    assert_eq!(pixel(&ppu, 7, 0), 0x00);
    ppu.write(0xFF42, 0);
    ppu.tick(80, &mut ints);
    ppu.tick(172, &mut ints);
    assert_eq!(pixel(&ppu, 0, 1), 0x00);
    ppu.write(0xFF42, 6);
    ppu.tick(204, &mut ints);
    ppu.tick(80, &mut ints);
    ppu.tick(172, &mut ints);
    assert_eq!(pixel(&ppu, 0, 2), 0x55);
    assert_eq!(pixel(&ppu, 1, 2), 0xAA);
    assert_eq!(pixel(&ppu, 2, 2), 0xFF);
    assert_eq!(pixel(&ppu, 7, 2), 0x00);
}

#[test]
fn signed_tile_data_starts_at_9000() {
    let mut ppu = PPU::new();
    let mut ints = Interrupts::new();
    ppu.write(0xFF40, 0x81);
    ppu.write(0xFF47, 0xE4);
    ppu.write(0x9000, 0xFF);
    ppu.write(0x9001, 0xFF);
    ppu.write(0x9010, 0xFF);
    ppu.write(0x9800, 0x01);
    run_lines(&mut ppu, &mut ints, 1);
    assert_eq!(pixel(&ppu, 0, 0), 0xAA);
    assert_eq!(pixel(&ppu, 8, 0), 0x00);
}

#[test]
fn high_tile_map() {
    let mut ppu = PPU::new();
    let mut ints = Interrupts::new();
    ppu.write(0xFF40, 0x99);
    ppu.write(0xFF47, 0xE4);
    ppu.write(0x9C00, 0x01);
    ppu.write(0x8010, 0xFF);
    ppu.write(0x9800, 0x02);
    ppu.write(0x8020, 0xFF);
    ppu.write(0x8021, 0xFF);
    run_lines(&mut ppu, &mut ints, 1);
    assert_eq!(pixel(&ppu, 0, 0), 0xAA);
    assert_eq!(pixel(&ppu, 8, 0), 0xFF);
}

#[test]
fn background_off_draws_nothing() {
    let mut ppu = PPU::new();
    let mut ints = Interrupts::new();
    ppu.write(0xFF40, 0x90);
    ppu.write(0x8000, 0xFF);
    ppu.write(0x8001, 0xFF);
    run_lines(&mut ppu, &mut ints, 3);
    assert_eq!(ppu.read(0xFF44), 3);
    assert!(ppu.framebuffer.iter().all(|&b| b == 0xFF));
}

#[test]
fn can_tick_reports_overflow_and_bad_tiles() {
    let mut ppu = PPU::new();
    let mut ints = Interrupts::new();
    assert!(ppu.can_tick(u32::MAX));
    ppu.tick(79, &mut ints);
    assert!(!ppu.can_tick(u32::MAX));
    assert!(ppu.can_tick(1000));
    ppu.tick(1, &mut ints);
    ppu.write(0xFF40, 0x81);
    ppu.write(0x9800, 0x80);
    assert!(ppu.can_tick(171));
    assert!(!ppu.can_tick(172));
    ppu.write(0xFF40, 0x91);
    assert!(ppu.can_tick(172));
    ppu.write(0xFF40, 0x01);
    assert!(ppu.can_tick(u32::MAX));
}

#[test]
fn ly_stays_below_154() {
    let mut ppu = PPU::new();
    let mut ints = Interrupts::new();
    for _ in 0..3 {
        run_lines(&mut ppu, &mut ints, 144);
        for _ in 0..10 {
            ppu.tick(456, &mut ints);
            assert!(ppu.read(0xFF44) < 154);
        }
    }
    assert_eq!(ppu.read(0xFF44), 0);
}
