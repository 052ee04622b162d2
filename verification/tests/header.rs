use gameboy::header::{cartridge_title, cartridge_type_name, has_header, rom_size_kb, trim_nuls};

fn rom_with_title(title: &[u8]) -> Vec<u8> {
    let mut rom = vec![0u8; 0x8000];
    rom[0x134..0x134 + title.len()].copy_from_slice(title);
    rom
}

fn text(chars: Vec<char>) -> String {
    chars.into_iter().collect()
}

#[test]
fn header_needs_more_than_0x150_bytes() {
    assert!(!has_header(&vec![0u8; 0x150]));
    assert!(has_header(&vec![0u8; 0x151]));
    assert!(!has_header(&[]));
}

#[test]
fn title_without_trailing_nuls() {
    assert_eq!(text(cartridge_title(&rom_with_title(b"TETRIS"))), "TETRIS");
}

#[test]
fn full_length_title() {
    assert_eq!(text(cartridge_title(&rom_with_title(b"ABCDEFGHIJKLMNOPQ"))), "ABCDEFGHIJKLMNOP");
}

#[test]
fn empty_title() {
    assert_eq!(cartridge_title(&rom_with_title(b"")), Vec::<char>::new());
}

#[test]
fn inner_nuls_stay() {
    assert_eq!(text(cartridge_title(&rom_with_title(b"A\0B"))), "A\0B");
}

#[test]
fn invalid_utf8_is_replaced() {
    assert_eq!(text(cartridge_title(&rom_with_title(&[0xFF, b'A', b'B']))), "\u{FFFD}AB");
    assert_eq!(text(cartridge_title(&rom_with_title(&[b'X', 0xE2, 0x82]))), "X\u{FFFD}");
}

#[test]
fn multibyte_title() {
    assert_eq!(text(cartridge_title(&rom_with_title("P\u{C9}".as_bytes()))), "P\u{C9}");
}

#[test]
fn title_of_minimal_image() {
    let mut rom = vec![0u8; 0x144];
    rom[0x134] = b'Z';
    rom[0x143] = b'Q';
    assert_eq!(text(cartridge_title(&rom)), format!("Z{}Q", "\0".repeat(14)));
}

#[test]
fn trimming_nuls() {
    assert_eq!(trim_nuls(&vec!['a', '\0', 'b', '\0', '\0']), vec!['a', '\0', 'b']);
    assert_eq!(trim_nuls(&vec!['\0', '\0']), Vec::<char>::new());
    assert_eq!(trim_nuls(&vec!['x']), vec!['x']);
    assert_eq!(trim_nuls(&vec![]), Vec::<char>::new());
}

#[test]
fn cartridge_type_names() {
    let names = [
        (0x00u8, "ROM ONLY"),
        (0x01, "MBC1"),
        (0x02, "MBC1+RAM"),
        (0x03, "MBC1+RAM+BATTERY"),
        (0x0F, "MBC3+TIMER+BATTERY"),
        (0x10, "MBC3+TIMER+RAM+BATTERY"),
        (0x11, "MBC3"),
        (0x12, "MBC3+RAM"),
        (0x13, "MBC3+RAM+BATTERY"),
        (0x04, "Unknown"),
        (0x19, "Unknown"),
        (0xFF, "Unknown"),
    ];
    for (code, name) in names {
        assert_eq!(cartridge_type_name(code), name);
    }
}

#[test]
fn rom_sizes() {
    assert_eq!(rom_size_kb(0), 32);
    assert_eq!(rom_size_kb(1), 64);
    assert_eq!(rom_size_kb(5), 1024);
    assert_eq!(rom_size_kb(8), 8192);
    assert_eq!(rom_size_kb(25), 1 << 30);
}
