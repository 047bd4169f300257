use chip8::display::Display;
use chip8::error::Chip8Error;
use chip8::keypad::Keypad;
use chip8::memory::Memory;

#[test]
fn memory_reads_and_writes_in_bounds_only() {
    let mut m = Memory::new();
    assert_eq!(m.write_byte(0xFFF, 0xAB), Ok(()));
    assert_eq!(m.read_byte(0xFFF), Ok(0xAB));
    assert_eq!(m.write_byte(0x1000, 1), Err(Chip8Error::AddressOutOfBounds));
    assert_eq!(m.read_byte(0x1000), Err(Chip8Error::AddressOutOfBounds));
    assert_eq!(m.read_word(0xFFF), Err(Chip8Error::AddressOutOfBounds));
}

#[test]
fn memory_words_are_big_endian() {
    let mut m = Memory::new();
    m.write_byte(0x300, 0x12).unwrap();
    m.write_byte(0x301, 0x34).unwrap();
    assert_eq!(m.read_word(0x300), Ok(0x1234));
    assert_eq!(m.read_word(0xFFE), Ok(0));
}

#[test]
fn memory_load_zeroes_rest_of_region() {
    let mut m = Memory::new();
    m.write_byte(0x205, 9).unwrap();
    assert_eq!(m.load_program(&[1, 2, 3]), Ok(()));
    assert_eq!(m.read_byte(0x200), Ok(1));
    assert_eq!(m.read_byte(0x202), Ok(3));
    assert_eq!(m.read_byte(0x205), Ok(0));
    assert_eq!(m.read_byte(0), Ok(0xF0));
}

#[test]
fn memory_oversized_load_changes_nothing() {
    let mut m = Memory::new();
    m.write_byte(0x200, 7).unwrap();
    assert_eq!(m.load_program(&vec![1u8; 3585]), Err(Chip8Error::ProgramTooLarge));
    assert_eq!(m.read_byte(0x200), Ok(7));
}

#[test]
fn display_draw_reports_collision_only_on_cleared_pixel() {
    let mut d = Display::new();
    assert!(!d.draw_sprite(10, 5, &[0x80]));
    assert!(d.pixel(10, 5));
    assert!(!d.draw_sprite(11, 5, &[0x80]));
    assert!(d.draw_sprite(10, 5, &[0xC0]));
    assert!(!d.pixel(10, 5));
    assert!(!d.pixel(11, 5));
}

#[test]
fn display_coordinates_wrap() {
    let mut d = Display::new();
    assert!(!d.draw_sprite(64 + 3, 32 + 2, &[0x80]));
    assert!(d.pixel(3, 2));
}

#[test]
fn display_clear_blanks_everything() {
    let mut d = Display::new();
    d.draw_sprite(0, 0, &[0xFF, 0xFF]);
    d.clear();
    assert!(d.framebuffer().iter().all(|p| !*p));
}

#[test]
fn keypad_reports_pressed_keys() {
    let mut k = Keypad::new();
    assert_eq!(k.wait_for_key(), None);
    k.set_keys(0b1010_0000_0000_0000);
    assert!(k.is_pressed(13));
    assert!(k.is_pressed(15));
    assert!(!k.is_pressed(14));
    assert!(!k.is_pressed(16));
    assert_eq!(k.wait_for_key(), Some(13));
    assert_eq!(k.mask(), 0b1010_0000_0000_0000);
}
