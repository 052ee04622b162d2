use vstd::prelude::*;
use crate::interrupts::{Interrupts, InterruptType};

verus! {

pub const SCREEN_WIDTH: usize = 160;
pub const SCREEN_HEIGHT: usize = 144;

const SCANLINE_CYCLES: u32 = 456;
const VBLANK_START: u8 = 144;
const VBLANK_END: u8 = 154;

/// The PPU's modes, numbered in STAT as HBlank 0, VBlank 1, OAM search 2 and
/// pixel transfer 3.
#[derive(PartialEq, Eq, Structural, Copy, Clone)]
pub enum Mode {
    HBlank,
    VBlank,
    OamSearch,
    PixelTransfer,
}

/// The mode's number in STAT bits 0 and 1.
pub open spec fn mode_number(mode: Mode) -> u8 {
    match mode {
        Mode::HBlank => 0,
        Mode::VBlank => 1,
        Mode::OamSearch => 2,
        Mode::PixelTransfer => 3,
    }
}

/// The picture processing unit: video RAM, object attribute memory, the LCD
/// registers (0xFF40-0xFF4B), and a 160x144 RGB frame buffer of background
/// shades.
pub struct PPU {
    pub framebuffer: [u8; 69120],
    pub vram: [u8; 0x2000],
    pub oam: [u8; 0xA0],
    pub lcdc: u8,
    pub stat: u8,
    pub scy: u8,
    pub scx: u8,
    pub ly: u8,
    pub lyc: u8,
    pub bgp: u8,
    pub obp0: u8,
    pub obp1: u8,
    pub wy: u8,
    pub wx: u8,
    pub mode: Mode,
    pub cycles: u32,
    pub frame_ready: bool,
}

/// The state of the PPU.
pub struct PpuView {
    pub framebuffer: Seq<u8>,
    pub vram: Seq<u8>,
    pub oam: Seq<u8>,
    pub lcdc: u8,
    pub stat: u8,
    pub scy: u8,
    pub scx: u8,
    pub ly: u8,
    pub lyc: u8,
    pub bgp: u8,
    pub obp0: u8,
    pub obp1: u8,
    pub wy: u8,
    pub wx: u8,
    pub mode: Mode,
    pub cycles: u32,
    pub frame_ready: bool,
}

/// The grey level that palette `palette` gives colour number `color_num`.
pub open spec fn shade(palette: u8, color_num: u8) -> u8 {
    let c = (palette >> (color_num * 2)) & 0x03;
    if c == 0 {
        0xFF
    } else if c == 1 {
        0xAA
    } else if c == 2 {
        0x55
    } else {
        0x00
    }
}

impl PpuView {
    /// The line counter agrees with the mode: lines 0-143 are drawn in OAM
    /// search, pixel transfer and HBlank; lines 144-153 are VBlank.
    pub open spec fn wf(self) -> bool {
        &&& self.framebuffer.len() == 69120
        &&& self.vram.len() == 0x2000
        &&& self.oam.len() == 0xA0
        &&& (self.mode == Mode::VBlank ==> 144 <= self.ly <= 153)
        &&& (self.mode != Mode::VBlank ==> self.ly < 144)
    }

    pub open spec fn lcd_enabled(self) -> bool {
        self.lcdc & 0x80 != 0
    }

    pub open spec fn bg_enabled(self) -> bool {
        self.lcdc & 0x01 != 0
    }

    pub open spec fn bg_tile_map_high(self) -> bool {
        self.lcdc & 0x08 != 0
    }

    pub open spec fn tile_data_unsigned(self) -> bool {
        self.lcdc & 0x10 != 0
    }

    /// The background row that screen line `ly` shows, scrolled by SCY.
    pub open spec fn scroll_y(self) -> int {
        (self.scy + self.ly) % 256
    }

    /// The background column that screen column `x` shows, scrolled by SCX.
    pub open spec fn scroll_x(self, x: int) -> int {
        (self.scx + x) % 256
    }

    /// The offset in VRAM of the tile map entry under screen column `x` of
    /// the current line (map at 0x9800, or 0x9C00 when LCDC bit 3 is set).
    pub open spec fn tile_map_offset(self, x: int) -> int {
        let base: int = if self.bg_tile_map_high() {
            0x1C00
        } else {
            0x1800
        };
        base + (self.scroll_y() / 8) * 32 + self.scroll_x(x) / 8
    }

    pub open spec fn tile_index(self, x: int) -> u8 {
        self.vram[self.tile_map_offset(x)]
    }

    /// The offset in VRAM of a tile's data: 16 bytes per tile from 0x8000
    /// when LCDC bit 4 is set, else signed tile numbers around 0x9000.
    pub open spec fn tile_data_offset(self, tile: u8) -> int {
        if self.tile_data_unsigned() {
            tile * 16
        } else if tile < 128 {
            0x1000 + tile * 16
        } else {
            0x1000 + (tile - 256) * 16
        }
    }

    /// The colour number of screen column `x` of the current line: bit
    /// 7 - (column mod 8) of the two bytes of the tile's row.
    pub open spec fn color_number(self, x: int) -> u8 {
        let data = self.tile_data_offset(self.tile_index(x));
        let line = self.scroll_y() % 8;
        let byte1 = self.vram[data + line * 2];
        let byte2 = self.vram[data + line * 2 + 1];
        let pixel_x = (7 - self.scroll_x(x) % 8) as u8;
        ((byte2 >> pixel_x) & 1) << 1u8 | ((byte1 >> pixel_x) & 1)
    }

    /// The shade of screen column `x` of the current line.
    pub open spec fn pixel(self, x: int) -> u8 {
        shade(self.bgp, self.color_number(x))
    }

    /// The current line can be drawn without overflow: with signed tile
    /// numbers, the address computation overflows for tiles 128-255.
    pub open spec fn render_ok(self) -> bool {
        (self.bg_enabled() && !self.tile_data_unsigned()) ==> forall|x: int|
            0 <= x < 160 ==> #[trigger] self.tile_index(x) < 128
    }

    /// The PPU after drawing the current line: each of its 160 pixels gets
    /// its shade in all three colour bytes; nothing is drawn while the
    /// background is disabled.
    pub open spec fn rendered(self) -> PpuView {
        if !self.bg_enabled() {
            self
        } else {
            PpuView {
                framebuffer: Seq::new(
                    69120,
                    |i: int|
                        if i / 480 == self.ly {
                            self.pixel((i % 480) / 3)
                        } else {
                            self.framebuffer[i]
                        },
                ),
                ..self
            }
        }
    }

    /// STAT with its mode bits set from the mode.
    pub open spec fn with_stat(self) -> PpuView {
        PpuView { stat: (self.stat & 0xFC) | mode_number(self.mode), ..self }
    }

    /// The PPU after `cycles` more cycles, before STAT is updated: at most
    /// one mode change, at 80 cycles of OAM search, 172 of pixel transfer
    /// (which draws the line), 204 of HBlank (ending the line) or 456 per
    /// VBlank line.
    pub open spec fn advanced(self, cycles: u32) -> PpuView {
        let c = self.cycles + cycles;
        match self.mode {
            Mode::OamSearch => if c >= 80 {
                PpuView { cycles: (c - 80) as u32, mode: Mode::PixelTransfer, ..self }
            } else {
                PpuView { cycles: c as u32, ..self }
            },
            Mode::PixelTransfer => if c >= 172 {
                PpuView { cycles: (c - 172) as u32, mode: Mode::HBlank, ..self }.rendered()
            } else {
                PpuView { cycles: c as u32, ..self }
            },
            Mode::HBlank => if c >= 204 {
                let ly = (self.ly + 1) as u8;
                if ly >= 144 {
                    PpuView {
                        cycles: (c - 204) as u32,
                        ly,
                        mode: Mode::VBlank,
                        frame_ready: true,
                        ..self
                    }
                } else {
                    PpuView { cycles: (c - 204) as u32, ly, mode: Mode::OamSearch, ..self }
                }
            } else {
                PpuView { cycles: c as u32, ..self }
            },
            Mode::VBlank => if c >= 456 {
                let ly = (self.ly + 1) as u8;
                if ly >= 154 {
                    PpuView { cycles: (c - 456) as u32, ly: 0, mode: Mode::OamSearch, ..self }
                } else {
                    PpuView { cycles: (c - 456) as u32, ly, ..self }
                }
            } else {
                PpuView { cycles: c as u32, ..self }
            },
        }
    }

    /// The PPU after `cycles` cycles; nothing happens while the LCD is off.
    pub open spec fn ticked(self, cycles: u32) -> PpuView {
        if !self.lcd_enabled() {
            self
        } else {
            self.advanced(cycles).with_stat()
        }
    }

    /// Whether those cycles end line 143 and so enter VBlank, which requests
    /// the VBlank interrupt.
    pub open spec fn tick_enters_vblank(self, cycles: u32) -> bool {
        self.lcd_enabled() && self.mode == Mode::HBlank && self.cycles + cycles >= 204 && self.ly
            + 1 >= 144
    }

    /// The inputs on which `tick` neither overflows its cycle count nor draws
    /// a line whose tile address overflows.
    pub open spec fn tick_ok(self, cycles: u32) -> bool {
        self.lcd_enabled() ==> {
            &&& self.cycles + cycles <= u32::MAX
            &&& (self.mode == Mode::PixelTransfer && self.cycles + cycles >= 172
                ==> self.render_ok())
        }
    }

    /// What reading `addr` gives: VRAM, OAM, the registers, or 0xFF.
    pub open spec fn read(self, addr: u16) -> u8 {
        if 0x8000 <= addr <= 0x9FFF {
            self.vram[addr - 0x8000]
        } else if 0xFE00 <= addr <= 0xFE9F {
            self.oam[addr - 0xFE00]
        } else if addr == 0xFF40 {
            self.lcdc
        } else if addr == 0xFF41 {
            self.stat
        } else if addr == 0xFF42 {
            self.scy
        } else if addr == 0xFF43 {
            self.scx
        } else if addr == 0xFF44 {
            self.ly
        } else if addr == 0xFF45 {
            self.lyc
        } else if addr == 0xFF47 {
            self.bgp
        } else if addr == 0xFF48 {
            self.obp0
        } else if addr == 0xFF49 {
            self.obp1
        } else if addr == 0xFF4A {
            self.wy
        } else if addr == 0xFF4B {
            self.wx
        } else {
            0xFF
        }
    }

    /// The PPU after writing `value` to `addr`: STAT keeps its three low
    /// bits, LY is read-only.
    pub open spec fn written(self, addr: u16, value: u8) -> PpuView {
        if 0x8000 <= addr <= 0x9FFF {
            PpuView { vram: self.vram.update(addr - 0x8000, value), ..self }
        } else if 0xFE00 <= addr <= 0xFE9F {
            PpuView { oam: self.oam.update(addr - 0xFE00, value), ..self }
        } else if addr == 0xFF40 {
            PpuView { lcdc: value, ..self }
        } else if addr == 0xFF41 {
            PpuView { stat: (self.stat & 0x07) | (value & 0xF8), ..self }
        } else if addr == 0xFF42 {
            PpuView { scy: value, ..self }
        } else if addr == 0xFF43 {
            PpuView { scx: value, ..self }
        } else if addr == 0xFF45 {
            PpuView { lyc: value, ..self }
        } else if addr == 0xFF47 {
            PpuView { bgp: value, ..self }
        } else if addr == 0xFF48 {
            PpuView { obp0: value, ..self }
        } else if addr == 0xFF49 {
            PpuView { obp1: value, ..self }
        } else if addr == 0xFF4A {
            PpuView { wy: value, ..self }
        } else if addr == 0xFF4B {
            PpuView { wx: value, ..self }
        } else {
            self
        }
    }
}

/// The PPU at power-on: white frame buffer, cleared VRAM and OAM, LCDC
/// 0x91, BGP 0xFC, OBP0 and OBP1 0xFF, in OAM search at line 0.
pub open spec fn ppu_power_on() -> PpuView {
    PpuView {
        framebuffer: Seq::new(69120, |i: int| 0xFFu8),
        vram: Seq::new(0x2000, |i: int| 0u8),
        oam: Seq::new(0xA0, |i: int| 0u8),
        lcdc: 0x91,
        stat: 0,
        scy: 0,
        scx: 0,
        ly: 0,
        lyc: 0,
        bgp: 0xFC,
        obp0: 0xFF,
        obp1: 0xFF,
        wy: 0,
        wx: 0,
        mode: Mode::OamSearch,
        cycles: 0,
        frame_ready: false,
    }
}

impl View for PPU {
    type V = PpuView;

    open spec fn view(&self) -> PpuView {
        PpuView {
            framebuffer: self.framebuffer@,
            vram: self.vram@,
            oam: self.oam@,
            lcdc: self.lcdc,
            stat: self.stat,
            scy: self.scy,
            scx: self.scx,
            ly: self.ly,
            lyc: self.lyc,
            bgp: self.bgp,
            obp0: self.obp0,
            obp1: self.obp1,
            wy: self.wy,
            wx: self.wx,
            mode: self.mode,
            cycles: self.cycles,
            frame_ready: self.frame_ready,
        }
    }
}

/// The position of byte `k` of pixel `x` on line `y` in the frame buffer.
proof fn lemma_pixel_index(y: int, x: int, k: int)
    requires
        0 <= y < 144,
        0 <= x < 160,
        0 <= k < 3,
    ensures
        (y * 160 + x) * 3 + k == y * 480 + x * 3 + k,
        (y * 480 + x * 3 + k) / 480 == y,
        (y * 480 + x * 3 + k) % 480 == x * 3 + k,
        (x * 3 + k) / 3 == x,
        y * 480 + x * 3 + k < 69120,
{
    assert((y * 160 + x) * 3 + k == y * 480 + x * 3 + k) by (nonlinear_arith);
    assert(y * 480 + x * 3 + k < 69120) by (nonlinear_arith)
        requires
            0 <= y < 144,
            0 <= x < 160,
            0 <= k < 3,
    ;
    vstd::arithmetic::div_mod::lemma_fundamental_div_mod_converse(
        y * 480 + x * 3 + k,
        480,
        y,
        x * 3 + k,
    );
    vstd::arithmetic::div_mod::lemma_fundamental_div_mod_converse(x * 3 + k, 3, x, k);
}

impl PPU {
    pub open spec fn wf(&self) -> bool {
        self@.wf()
    }

    pub fn new() -> (r: Self)
        ensures
            r.wf(),
            r@ == ppu_power_on(),
    {
        let r = PPU {
            framebuffer: [0xFFu8; 69120],
            vram: [0u8; 0x2000],
            oam: [0u8; 0xA0],
            lcdc: 0x91,
            stat: 0x00,
            scy: 0,
            scx: 0,
            ly: 0,
            lyc: 0,
            bgp: 0xFC,
            obp0: 0xFF,
            obp1: 0xFF,
            wy: 0,
            wx: 0,
            mode: Mode::OamSearch,
            cycles: 0,
            frame_ready: false,
        };
        proof {
            assert(r.framebuffer@ =~= Seq::new(69120, |i: int| 0xFFu8));
            assert(r.vram@ =~= Seq::new(0x2000, |i: int| 0u8));
            assert(r.oam@ =~= Seq::new(0xA0, |i: int| 0u8));
        }
        r
    }

    /// Advances the PPU by `cycles` cycles, requesting the VBlank interrupt
    /// when it enters VBlank.
    pub fn tick(&mut self, cycles: u32, interrupts: &mut Interrupts)
        requires
            old(self).wf(),
            old(self)@.tick_ok(cycles),
        ensures
            final(self).wf(),
            final(self)@ == old(self)@.ticked(cycles),
            *final(interrupts) == (if old(self)@.tick_enters_vblank(cycles) {
                old(interrupts).requested(InterruptType::VBlank)
            } else {
                *old(interrupts)
            }),
    {
        if !self.is_lcd_enabled() {
            return;
        }

        self.cycles = self.cycles + cycles;

        match self.mode {
            Mode::OamSearch => {
                if self.cycles >= 80 {
                    self.cycles = self.cycles - 80;
                    self.mode = Mode::PixelTransfer;
                }
            },
            Mode::PixelTransfer => {
                if self.cycles >= 172 {
                    self.cycles = self.cycles - 172;
                    self.mode = Mode::HBlank;
                    proof {
                        assert forall|x: int| 0 <= x < 160 implies #[trigger] self@.tile_index(x)
                            == old(self)@.tile_index(x) by {}
                    }
                    self.render_scanline();
                }
            },
            Mode::HBlank => {
                if self.cycles >= 204 {
                    self.cycles = self.cycles - 204;
                    self.ly = self.ly + 1;

                    if self.ly >= VBLANK_START {
                        self.mode = Mode::VBlank;
                        interrupts.request_interrupt(InterruptType::VBlank);
                        self.frame_ready = true;
                    } else {
                        self.mode = Mode::OamSearch;
                    }
                }
            },
            Mode::VBlank => {
                if self.cycles >= SCANLINE_CYCLES {
                    self.cycles = self.cycles - SCANLINE_CYCLES;
                    self.ly = self.ly + 1;

                    if self.ly >= VBLANK_END {
                        self.ly = 0;
                        self.mode = Mode::OamSearch;
                    }
                }
            },
        }

        self.update_stat();
    }

    /// Draws the current line into the frame buffer.
    fn render_scanline(&mut self)
        requires
            old(self).wf(),
            old(self)@.render_ok(),
            old(self)@.ly < 144,
        ensures
            final(self).wf(),
            final(self)@ == old(self)@.rendered(),
    {
        if !self.is_bg_enabled() {
            return;
        }
        let ghost v = self@;

        let y = self.ly;
        let scroll_y = self.scy.wrapping_add(y);
        let tile_y = (scroll_y / 8) as u16;

        let mut x: usize = 0;
        while x < SCREEN_WIDTH
            invariant
                0 <= x <= 160,
                self.wf(),
                v.wf(),
                v.bg_enabled(),
                v.render_ok(),
                y == v.ly,
                v.ly < 144,
                scroll_y == v.scroll_y(),
                tile_y == v.scroll_y() / 8,
                self@ == (PpuView { framebuffer: self@.framebuffer, ..v }),
                self@.framebuffer == Seq::new(
                    69120,
                    |i: int|
                        if i / 480 == v.ly && (i % 480) / 3 < x {
                            v.pixel((i % 480) / 3)
                        } else {
                            v.framebuffer[i]
                        },
                ),
            decreases 160 - x,
        {
            let scroll_x = self.scx.wrapping_add(x as u8);
            let tile_x = (scroll_x / 8) as u16;

            let tile_map_addr = if self.is_bg_tile_map_high() {
                0x1C00 + tile_y * 32 + tile_x
            } else {
                0x1800 + tile_y * 32 + tile_x
            };

            let tile_index = self.vram[tile_map_addr as usize];
            assert(tile_index == v.tile_index(x as int));

            let tile_data_addr: u16 = if self.is_tile_data_unsigned() {
                tile_index as u16 * 16
            } else {
                if tile_index < 128 {
                    0x1000 + tile_index as u16 * 16
                } else {
                    0x1000 + ((tile_index as i8) as i16 * 16) as u16
                }
            };
            assert(tile_data_addr == v.tile_data_offset(tile_index));

            let line = (scroll_y % 8) as u16;
            let byte1 = self.vram[(tile_data_addr + line * 2) as usize];
            let byte2 = self.vram[(tile_data_addr + line * 2 + 1) as usize];

            let pixel_x = 7 - (scroll_x % 8);
            let color_bit = ((byte2 >> pixel_x) & 1) << 1 | ((byte1 >> pixel_x) & 1);
            proof {
                assert(((byte2 >> pixel_x) & 1) <= 1) by (bit_vector);
                assert(((byte1 >> pixel_x) & 1) <= 1) by (bit_vector);
                let p = (byte2 >> pixel_x) & 1;
                let q = (byte1 >> pixel_x) & 1;
                assert(p <= 1 && q <= 1 ==> (p << 1u8) | q <= 3) by (bit_vector);
            }
            let color = self.get_bg_color(color_bit);
            assert(color == v.pixel(x as int));

            let pixel_index = (y as usize * SCREEN_WIDTH + x) * 3;
            proof {
                lemma_pixel_index(y as int, x as int, 0);
                lemma_pixel_index(y as int, x as int, 1);
                lemma_pixel_index(y as int, x as int, 2);
            }
            self.framebuffer[pixel_index] = color;
            self.framebuffer[pixel_index + 1] = color;
            self.framebuffer[pixel_index + 2] = color;
            proof {
                assert forall|i: int| 0 <= i < 69120 implies #[trigger] self@.framebuffer[i] == (
                if i / 480 == v.ly && (i % 480) / 3 < x + 1 {
                    v.pixel((i % 480) / 3)
                } else {
                    v.framebuffer[i]
                }) by {
                    if i / 480 == v.ly && (i % 480) / 3 == x {
                        vstd::arithmetic::div_mod::lemma_fundamental_div_mod(i, 480);
                        vstd::arithmetic::div_mod::lemma_fundamental_div_mod(i % 480, 3);
                        assert(i == pixel_index || i == pixel_index + 1 || i == pixel_index + 2);
                    }
                }
            }
            x = x + 1;
        }
        proof {
            assert(self@.framebuffer =~= v.rendered().framebuffer);
        }
    }

    fn get_bg_color(&self, color_num: u8) -> (r: u8)
        requires
            color_num <= 3,
        ensures
            r == shade(self@.bgp, color_num),
    {
        let c = (self.bgp >> (color_num * 2)) & 0x03;
        if c == 0 {
            0xFF
        } else if c == 1 {
            0xAA
        } else if c == 2 {
            0x55
        } else {
            0x00
        }
    }

    fn is_lcd_enabled(&self) -> (r: bool)
        ensures
            r == self@.lcd_enabled(),
    {
        self.lcdc & 0x80 != 0
    }

    fn is_bg_enabled(&self) -> (r: bool)
        ensures
            r == self@.bg_enabled(),
    {
        self.lcdc & 0x01 != 0
    }

    fn is_bg_tile_map_high(&self) -> (r: bool)
        ensures
            r == self@.bg_tile_map_high(),
    {
        self.lcdc & 0x08 != 0
    }

    fn is_tile_data_unsigned(&self) -> (r: bool)
        ensures
            r == self@.tile_data_unsigned(),
    {
        self.lcdc & 0x10 != 0
    }

    fn update_stat(&mut self)
        ensures
            final(self)@ == old(self)@.with_stat(),
    {
        let number: u8 = match self.mode {
            Mode::HBlank => 0,
            Mode::VBlank => 1,
            Mode::OamSearch => 2,
            Mode::PixelTransfer => 3,
        };
        self.stat = (self.stat & 0xFC) | number;
    }

    /// The frame buffer as the view has it: three bytes (the same gray
    /// level) per pixel, row by row.
    pub fn frame_buffer(&self) -> (r: &[u8; 69120])
        ensures
            r@ == self@.framebuffer,
    {
        &self.framebuffer
    }

    /// VRAM as the view has it.
    pub fn video_ram(&self) -> (r: &[u8; 0x2000])
        ensures
            r@ == self@.vram,
    {
        &self.vram
    }

    /// OAM as the view has it.
    pub fn object_attributes(&self) -> (r: &[u8; 0xA0])
        ensures
            r@ == self@.oam,
    {
        &self.oam
    }

    /// Reports whether a frame has been completed since the last call, and
    /// clears the report.
    pub fn is_frame_ready(&mut self) -> (r: bool)
        ensures
            r == old(self)@.frame_ready,
            final(self)@ == (PpuView { frame_ready: false, ..old(self)@ }),
            old(self).wf() ==> final(self).wf(),
    {
        let ready = self.frame_ready;
        self.frame_ready = false;
        ready
    }

    pub fn read(&self, addr: u16) -> (r: u8)
        requires
            self.wf(),
        ensures
            r == self@.read(addr),
    {
        if 0x8000 <= addr && addr <= 0x9FFF {
            self.vram[(addr - 0x8000) as usize]
        } else if 0xFE00 <= addr && addr <= 0xFE9F {
            self.oam[(addr - 0xFE00) as usize]
        } else {
            match addr {
                0xFF40 => self.lcdc,
                0xFF41 => self.stat,
                0xFF42 => self.scy,
                0xFF43 => self.scx,
                0xFF44 => self.ly,
                0xFF45 => self.lyc,
                0xFF47 => self.bgp,
                0xFF48 => self.obp0,
                0xFF49 => self.obp1,
                0xFF4A => self.wy,
                0xFF4B => self.wx,
                _ => 0xFF,
            }
        }
    }

    pub fn write(&mut self, addr: u16, value: u8)
        requires
            old(self).wf(),
        ensures
            final(self).wf(),
            final(self)@ == old(self)@.written(addr, value),
    {
        if 0x8000 <= addr && addr <= 0x9FFF {
            self.vram[(addr - 0x8000) as usize] = value;
        } else if 0xFE00 <= addr && addr <= 0xFE9F {
            self.oam[(addr - 0xFE00) as usize] = value;
        } else {
            match addr {
                0xFF40 => self.lcdc = value,
                0xFF41 => self.stat = (self.stat & 0x07) | (value & 0xF8),
                0xFF42 => self.scy = value,
                0xFF43 => self.scx = value,
                0xFF44 => {},
                0xFF45 => self.lyc = value,
                0xFF47 => self.bgp = value,
                0xFF48 => self.obp0 = value,
                0xFF49 => self.obp1 = value,
                0xFF4A => self.wy = value,
                0xFF4B => self.wx = value,
                _ => {},
            }
        }
    }

    /// The tile number under screen column `x` of the current line.
    fn tile_index_at(&self, x: usize) -> (r: u8)
        requires
            self.wf(),
            x < 160,
        ensures
            r == self@.tile_index(x as int),
    {
        let scroll_y = self.scy.wrapping_add(self.ly);
        let tile_y = (scroll_y / 8) as u16;
        let scroll_x = self.scx.wrapping_add(x as u8);
        let tile_x = (scroll_x / 8) as u16;
        let tile_map_addr = if self.is_bg_tile_map_high() {
            0x1C00 + tile_y * 32 + tile_x
        } else {
            0x1800 + tile_y * 32 + tile_x
        };
        self.vram[tile_map_addr as usize]
    }

    /// Whether the current line can be drawn without overflow.
    fn render_ok(&self) -> (r: bool)
        requires
            self.wf(),
        ensures
            r == self@.render_ok(),
    {
        if !(self.is_bg_enabled() && !self.is_tile_data_unsigned()) {
            return true;
        }
        let mut x: usize = 0;
        while x < SCREEN_WIDTH
            invariant
                0 <= x <= 160,
                self.wf(),
                self@.bg_enabled() && !self@.tile_data_unsigned(),
                forall|i: int| 0 <= i < x ==> #[trigger] self@.tile_index(i) < 128,
            decreases 160 - x,
        {
            if self.tile_index_at(x) >= 128 {
                return false;
            }
            x = x + 1;
        }
        true
    }

    /// Whether `tick` can advance the PPU by `cycles` cycles: its cycle
    /// count does not overflow, and a line it draws has no tile address
    /// overflow.
    pub fn can_tick(&self, cycles: u32) -> (r: bool)
        requires
            self.wf(),
        ensures
            r == self@.tick_ok(cycles),
    {
        if !self.is_lcd_enabled() {
            return true;
        }
        if self.cycles > u32::MAX - cycles {
            return false;
        }
        match self.mode {
            Mode::PixelTransfer => {
                if self.cycles + cycles >= 172 {
                    self.render_ok()
                } else {
                    true
                }
            },
            _ => true,
        }
    }
}

/// Reading back a PPU register, VRAM or OAM byte gives what was written,
/// but for STAT, whose mode bits and coincidence bit are kept, and LY,
/// which writes do not change.
pub proof fn lemma_ppu_read_after_write(p: PpuView, addr: u16, value: u8)
    requires
        p.wf(),
        0x8000 <= addr <= 0x9FFF || 0xFE00 <= addr <= 0xFE9F || (0xFF40 <= addr <= 0xFF4B
            && addr != 0xFF41 && addr != 0xFF44 && addr != 0xFF46),
    ensures
        p.written(addr, value).read(addr) == value,
        p.written(0xFF41, value).read(0xFF41) == (p.stat & 0x07) | (value & 0xF8),
        p.written(0xFF44, value).read(0xFF44) == p.ly,
        p.written(addr, value).wf(),
{
}

/// Ticking keeps the line counter in step with the mode: lines 0-143
/// outside VBlank, 144-153 in it.
pub proof fn lemma_tick_keeps_ly_in_range(p: PpuView, cycles: u32)
    requires
        p.wf(),
        p.tick_ok(cycles),
    ensures
        p.ticked(cycles).wf(),
        p.ticked(cycles).ly < 154,
{
}

/// The mode that can follow `m`: the next one of the line cycle, where
/// HBlank leads to OAM search or (after line 143) VBlank, and VBlank to OAM
/// search after line 153.
pub open spec fn may_follow(m: Mode, next: Mode) -> bool {
    match m {
        Mode::OamSearch => next == Mode::PixelTransfer,
        Mode::PixelTransfer => next == Mode::HBlank,
        Mode::HBlank => next == Mode::OamSearch || next == Mode::VBlank,
        Mode::VBlank => next == Mode::OamSearch,
    }
}

/// A tick with the LCD on changes the mode at most once, and only to a mode
/// that may follow; STAT's mode bits then give the new mode and its other
/// bits are kept; the frame report is raised (and the VBlank interrupt
/// requested) exactly when line 143 ends, LY becoming 144; leaving VBlank
/// brings LY from 153 back to 0. With the LCD off nothing changes.
pub proof fn lemma_tick_steps_the_mode(p: PpuView, cycles: u32)
    requires
        p.wf(),
        p.tick_ok(cycles),
    ensures
        !p.lcd_enabled() ==> p.ticked(cycles) == p,
        p.lcd_enabled() ==> {
            let q = p.ticked(cycles);
            &&& q.wf()
            &&& q.mode == p.mode || may_follow(p.mode, q.mode)
            &&& q.stat & 0x03 == mode_number(q.mode)
            &&& q.stat & 0xFC == p.stat & 0xFC
            &&& q.frame_ready == (p.frame_ready || p.tick_enters_vblank(cycles))
            &&& p.tick_enters_vblank(cycles) ==> q.ly == 144 && q.mode == Mode::VBlank
            &&& p.mode == Mode::VBlank && q.mode == Mode::OamSearch ==> p.ly == 153 && q.ly == 0
        },
{
    let m = p.advanced(cycles);
    let st = p.stat;
    let n = mode_number(m.mode);
    assert(n < 4);
    assert(((st & 0xFC) | n) & 0x03 == n && ((st & 0xFC) | n) & 0xFC == st & 0xFC) by (bit_vector)
        requires
            n < 4,
    ;
}

} // verus!
