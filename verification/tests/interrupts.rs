use gameboy::interrupts::{InterruptType, Interrupts};

#[test]
fn interrupts_start_cleared() {
    let ints = Interrupts::new();
    assert_eq!(ints.interrupt_enable, 0);
    assert_eq!(ints.interrupt_flag, 0);
    assert!(!ints.ime);
    assert!(!ints.has_pending_interrupt());
}

#[test]
fn request_sets_the_source_bit() {
    let mut ints = Interrupts::new();
    ints.request_interrupt(InterruptType::VBlank);
    assert_eq!(ints.interrupt_flag, 0x01);
    ints.request_interrupt(InterruptType::Timer);
    assert_eq!(ints.interrupt_flag, 0x05);
    ints.request_interrupt(InterruptType::Timer);
    assert_eq!(ints.interrupt_flag, 0x05);
    ints.request_interrupt(InterruptType::Joypad);
    assert_eq!(ints.interrupt_flag, 0x15);
}

#[test]
fn source_masks() {
    assert_eq!(InterruptType::VBlank.mask(), 0x01);
    assert_eq!(InterruptType::LcdStat.mask(), 0x02);
    assert_eq!(InterruptType::Timer.mask(), 0x04);
    assert_eq!(InterruptType::Serial.mask(), 0x08);
    assert_eq!(InterruptType::Joypad.mask(), 0x10);
}

#[test]
fn pending_needs_ime_and_enable() {
    let mut ints = Interrupts::new();
    ints.interrupt_flag = 0x05;
    ints.interrupt_enable = 0x04;
    assert!(!ints.has_pending_interrupt());
    ints.ime = true;
    assert!(ints.has_pending_interrupt());
    ints.interrupt_enable = 0x02;
    assert!(!ints.has_pending_interrupt());
}

#[test]
fn no_interrupt_without_ime() {
    let mut ints = Interrupts::new();
    ints.interrupt_enable = 0x1F;
    ints.interrupt_flag = 0x1F;
    assert_eq!(ints.get_next_interrupt(), None);
    assert_eq!(ints.interrupt_flag, 0x1F);
}

#[test]
fn vectors_of_each_source() {
    let sources = [
        (InterruptType::VBlank, 0x0040u16),
        (InterruptType::LcdStat, 0x0048),
        (InterruptType::Timer, 0x0050),
        (InterruptType::Serial, 0x0058),
        (InterruptType::Joypad, 0x0060),
    ];
    for (source, vector) in sources {
        let mut ints = Interrupts::new();
        ints.ime = true;
        ints.interrupt_enable = 0x1F;
        ints.request_interrupt(source);
        assert_eq!(ints.get_next_interrupt(), Some(vector));
        assert_eq!(ints.interrupt_flag, 0);
    }
}

#[test]
fn highest_priority_first() {
    let mut ints = Interrupts::new();
    ints.ime = true;
    ints.interrupt_enable = 0x1F;
    ints.interrupt_flag = 0x14;
    assert_eq!(ints.get_next_interrupt(), Some(0x0050));
    assert_eq!(ints.interrupt_flag, 0x10);
    assert_eq!(ints.get_next_interrupt(), Some(0x0060));
    assert_eq!(ints.interrupt_flag, 0x00);
    assert_eq!(ints.get_next_interrupt(), None);
}

#[test]
fn disabled_request_stays_requested() {
    let mut ints = Interrupts::new();
    ints.ime = true;
    ints.interrupt_enable = 0x01;
    ints.interrupt_flag = 0x03;
    assert_eq!(ints.get_next_interrupt(), Some(0x0040));
    assert_eq!(ints.interrupt_flag, 0x02);
    assert_eq!(ints.get_next_interrupt(), None);
    assert_eq!(ints.interrupt_flag, 0x02);
}

#[test]
fn upper_bits_pend_but_are_not_serviced() {
    let mut ints = Interrupts::new();
    ints.ime = true;
    ints.interrupt_enable = 0xE0;
    ints.interrupt_flag = 0x20;
    assert!(ints.has_pending_interrupt());
    assert!(!ints.will_service());
    assert_eq!(ints.get_next_interrupt(), None);
    assert_eq!(ints.interrupt_flag, 0x20);
}

#[test]
fn will_service_matches_next_interrupt() {
    let mut ints = Interrupts::new();
    ints.ime = true;
    ints.interrupt_enable = 0x08;
    assert!(!ints.will_service());
    ints.request_interrupt(InterruptType::Serial);
    assert!(ints.will_service());
    assert_eq!(ints.get_next_interrupt(), Some(0x0058));
}

#[test]
fn request_of_enabled_source_is_pending() {
    let mut ints = Interrupts::new();
    ints.ime = true;
    ints.interrupt_enable = 0x02;
    assert!(!ints.has_pending_interrupt());
    ints.request_interrupt(InterruptType::LcdStat);
    assert!(ints.has_pending_interrupt());
}

#[test]
fn servicing_clears_only_its_source() {
    let mut ints = Interrupts::new();
    ints.ime = true;
    ints.interrupt_enable = 0x03;
    ints.interrupt_flag = 0xE3;
    assert_eq!(ints.get_next_interrupt(), Some(0x0040));
    assert_eq!(ints.interrupt_flag, 0xE2);
    assert_eq!(ints.interrupt_enable, 0x03);
    assert!(ints.ime);
}
