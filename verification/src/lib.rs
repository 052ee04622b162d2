//! A Game Boy emulator core: CPU, memory bus, cartridge controllers, timer,
//! joypad, interrupt controller and picture processing unit, each with a
//! mathematical model that its executable code is proved against.

pub mod interrupts;
pub mod joypad;
pub mod timer;
pub mod mbc;
pub mod memory;
pub mod ppu;
pub mod bus;
pub mod isa;
pub mod cpu;
pub mod gameboy;
pub mod header;
pub mod probe;
