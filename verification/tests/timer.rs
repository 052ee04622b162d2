use gameboy::interrupts::Interrupts;
use gameboy::timer::Timer;

#[test]
fn timer_registers_start_at_zero() {
    let timer = Timer::new();
    assert_eq!(timer.read(0xFF04), 0);
    assert_eq!(timer.read(0xFF05), 0);
    assert_eq!(timer.read(0xFF06), 0);
    assert_eq!(timer.read(0xFF07), 0);
    assert_eq!(timer.read(0xFF08), 0xFF);
}

#[test]
fn divider_counts_while_disabled() {
    let mut timer = Timer::new();
    let mut ints = Interrupts::new();
    timer.tick(256, &mut ints);
    assert_eq!(timer.read(0xFF04), 1);
    assert_eq!(timer.read(0xFF05), 0);
    timer.tick(0x10200, &mut ints);
    assert_eq!(timer.read(0xFF04), 3);
    assert_eq!(ints.interrupt_flag, 0);
}

#[test]
fn writing_divider_resets_it() {
    let mut timer = Timer::new();
    let mut ints = Interrupts::new();
    timer.tick(0x1234, &mut ints);
    assert_eq!(timer.read(0xFF04), 0x12);
    timer.write(0xFF04, 0x99);
    assert_eq!(timer.read(0xFF04), 0);
}

#[test]
fn control_keeps_three_bits() {
    let mut timer = Timer::new();
    timer.write(0xFF07, 0xFD);
    assert_eq!(timer.read(0xFF07), 0x05);
}

#[test]
fn timer_read_after_write() {
    let mut timer = Timer::new();
    timer.write(0xFF05, 0x42);
    timer.write(0xFF06, 0x17);
    assert_eq!(timer.read(0xFF05), 0x42);
    assert_eq!(timer.read(0xFF06), 0x17);
    timer.write(0xFF10, 0x55);
    assert_eq!(timer.read(0xFF05), 0x42);
}

#[test]
fn counter_counts_at_selected_rate() {
    let rates = [(0x04u8, 1024u32), (0x05, 16), (0x06, 64), (0x07, 256)];
    for (control, period) in rates {
        let mut timer = Timer::new();
        let mut ints = Interrupts::new();
        timer.write(0xFF07, control);
        timer.tick(period - 1, &mut ints);
        assert_eq!(timer.read(0xFF05), 0);
        timer.tick(1, &mut ints);
        assert_eq!(timer.read(0xFF05), 1);
        timer.tick(3 * period, &mut ints);
        assert_eq!(timer.read(0xFF05), 4);
    }
}

#[test]
fn leftover_cycles_carry_over() {
    let mut timer = Timer::new();
    let mut ints = Interrupts::new();
    timer.write(0xFF07, 0x05);
    timer.tick(40, &mut ints);
    assert_eq!(timer.read(0xFF05), 2);
    timer.tick(8, &mut ints);
    assert_eq!(timer.read(0xFF05), 3);
}

#[test]
fn overflow_reloads_modulo_and_requests_interrupt() {
    let mut timer = Timer::new();
    let mut ints = Interrupts::new();
    timer.write(0xFF05, 0xFF);
    timer.write(0xFF06, 0xAB);
    timer.write(0xFF07, 0x05);
    timer.tick(15, &mut ints);
    assert_eq!(ints.interrupt_flag, 0);
    timer.tick(1, &mut ints);
    assert_eq!(timer.read(0xFF05), 0xAB);
    assert_eq!(ints.interrupt_flag, 0x04);
}

#[test]
fn many_overflows_in_one_tick() {
    let mut timer = Timer::new();
    let mut ints = Interrupts::new();
    timer.write(0xFF06, 0xFE);
    timer.write(0xFF05, 0xFE);
    timer.write(0xFF07, 0x05);
    timer.tick(16 * 5, &mut ints);
    // 0xFE -> 0xFF -> 0xFE (reload) -> 0xFF -> 0xFE (reload) -> 0xFF
    assert_eq!(timer.read(0xFF05), 0xFF);
    assert_eq!(ints.interrupt_flag, 0x04);
}

#[test]
fn disabled_counter_holds() {
    let mut timer = Timer::new();
    let mut ints = Interrupts::new();
    timer.write(0xFF05, 0x10);
    timer.write(0xFF07, 0x01);
    timer.tick(4096, &mut ints);
    assert_eq!(timer.read(0xFF05), 0x10);
}

#[test]
fn split_ticks_count_like_one() {
    for (a, b) in [(40u32, 8u32), (1000, 24), (5, 5), (0, 300)] {
        let mut split = Timer::new();
        let mut whole = Timer::new();
        let mut ints_split = Interrupts::new();
        let mut ints_whole = Interrupts::new();
        for t in [&mut split, &mut whole] {
            t.write(0xFF05, 0xFC);
            t.write(0xFF06, 0x80);
            t.write(0xFF07, 0x05);
        }
        split.tick(a, &mut ints_split);
        split.tick(b, &mut ints_split);
        whole.tick(a + b, &mut ints_whole);
        for addr in 0xFF04u16..=0xFF07 {
            assert_eq!(split.read(addr), whole.read(addr));
        }
        assert_eq!(ints_split.interrupt_flag, ints_whole.interrupt_flag);
    }
}

#[test]
fn a_write_changes_only_its_register() {
    let mut timer = Timer::new();
    let mut ints = Interrupts::new();
    timer.tick(0x0300, &mut ints);
    timer.write(0xFF05, 0x11);
    timer.write(0xFF06, 0x22);
    timer.write(0xFF07, 0x03);
    assert_eq!((timer.read(0xFF04), timer.read(0xFF05), timer.read(0xFF06), timer.read(0xFF07)), (0x03, 0x11, 0x22, 0x03));
    timer.write(0xFF06, 0x33);
    assert_eq!((timer.read(0xFF04), timer.read(0xFF05), timer.read(0xFF06), timer.read(0xFF07)), (0x03, 0x11, 0x33, 0x03));
    timer.write(0xFF04, 0x99);
    assert_eq!((timer.read(0xFF04), timer.read(0xFF05), timer.read(0xFF06), timer.read(0xFF07)), (0x00, 0x11, 0x33, 0x03));
}
