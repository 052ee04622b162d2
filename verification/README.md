# gameboy

A Game Boy emulator core written in Verus. Every component has a
mathematical model (a view built from `Seq`, integers and plain structs), and
its executable code is proved to act on the model exactly as stated.

## Layout

- `src/interrupts.rs`: the interrupt controller (IE, IF, IME) and the
  priority order of the five sources.
- `src/joypad.rs`: the joypad register and its two button rows.
- `src/timer.rs`: DIV, TIMA, TMA and TAC, counted cycle by cycle.
- `src/mbc.rs`: the cartridge controllers (plain ROM, MBC1, MBC3) and the
  choice among them by the header's type byte.
- `src/memory.rs`: cartridge, work RAM and its echo, high RAM, boot ROM page.
- `src/ppu.rs`: the picture processing unit: modes, LY, background rendering
  into the frame buffer.
- `src/bus.rs`: the memory map that routes every address, and OAM DMA.
- `src/isa.rs`: the instruction set as spec functions over `CpuView`, with
  the laws of the CPU.
- `src/cpu.rs`: the executable CPU, proved against `isa.rs`.
- `src/probe.rs`: `CPU::next_step_ok`, which decides exactly whether the
  next step is defined, by decoding the instruction and checking every
  access it makes.
- `src/gameboy.rs`: the console step (interrupt dispatch, then timer and PPU)
  and running until a frame is complete.
- `src/header.rs`: the cartridge header: title, type name, ROM size.
- `app/`: the program around the library: command line, file reading, the
  SDL2 window, and the built-in demonstration programs.
- `tests/`: tests of every component on concrete values.

## Where execution stops

Verified functions do not panic, so inputs on which an operation would
overflow are excluded by preconditions, and the functions that loop
(`CPU::run_cycles`, `GameBoy::run_frame`) check before each step whether it
is defined (the exact condition, not an approximation) and stop where it is
not. `run_cycles` also stops on a halted CPU, whose cycle count would never
grow. `run_frame` also stops after a fixed number of
steps (with the LCD off no frame is ever completed) and returns whether it
saw a frame.
