use chip8::error::Chip8Error;
use chip8::instruction::{decode, Instruction};
use chip8::machine::{FaultPolicy, Machine};

fn words_to_bytes(words: &[u16]) -> Vec<u8> {
    let mut bytes = Vec::new();
    for w in words {
        bytes.push((w >> 8) as u8);
        bytes.push((w & 0xFF) as u8);
    }
    bytes
}

fn machine_with(words: &[u16]) -> Machine {
    let mut m = Machine::new();
    m.load_program(&words_to_bytes(words)).unwrap();
    m
}

fn run_steps(m: &mut Machine, n: usize) {
    for _ in 0..n {
        m.step().unwrap();
    }
}

#[test]
fn add_program_sums_registers() {
    let mut m = machine_with(&[0x6005, 0x6103, 0x8014]);
    run_steps(&mut m, 3);
    assert_eq!(m.register(0), 8);
    assert_eq!(m.register(0xF), 0);
    assert_eq!(m.program_counter(), 0x206);
}

#[test]
fn delay_timer_counts_down_to_zero() {
    let mut m = machine_with(&[0x6005, 0xF015]);
    run_steps(&mut m, 2);
    assert_eq!(m.delay_timer(), 5);
    for _ in 0..5 {
        m.tick_timers();
    }
    assert_eq!(m.delay_timer(), 0);
    m.tick_timers();
    m.tick_timers();
    assert_eq!(m.delay_timer(), 0);
}

#[test]
fn sound_timer_is_set_and_ticks() {
    let mut m = machine_with(&[0x6202, 0xF218]);
    run_steps(&mut m, 2);
    assert_eq!(m.sound_timer(), 2);
    m.tick_timers();
    assert_eq!(m.sound_timer(), 1);
}

#[test]
fn load_limit_is_region_size() {
    let mut m = Machine::new();
    assert_eq!(m.load_program(&vec![0u8; 3584]), Ok(()));
    let mut m = Machine::new();
    assert_eq!(m.load_program(&vec![0u8; 3585]), Err(Chip8Error::ProgramTooLarge));
}

#[test]
fn load_places_program_at_0x200() {
    let m = machine_with(&[0x1234]);
    assert_eq!(m.read_memory(0x200), Ok(0x12));
    assert_eq!(m.read_memory(0x201), Ok(0x34));
    assert_eq!(m.read_memory(0x202), Ok(0));
    assert_eq!(m.read_memory(0x1000), Err(Chip8Error::AddressOutOfBounds));
    assert_eq!(m.program_counter(), 0x200);
}

#[test]
fn font_is_at_address_zero() {
    let m = Machine::new();
    assert_eq!(m.read_memory(0), Ok(0xF0));
    assert_eq!(m.read_memory(5), Ok(0x20));
    assert_eq!(m.read_memory(79), Ok(0x80));
    assert_eq!(m.read_memory(80), Ok(0));
}

#[test]
fn sixteen_nested_calls_then_overflow() {
    let words: Vec<u16> = (0..17u16).map(|k| 0x2000 | (0x202 + 2 * k)).collect();
    let mut m = machine_with(&words);
    for k in 0..16 {
        assert_eq!(m.step(), Ok(()));
        assert_eq!(m.stack_pointer(), k + 1);
    }
    let pc = m.program_counter();
    assert_eq!(m.step(), Err(Chip8Error::StackOverflow));
    assert_eq!(m.stack_pointer(), 16);
    assert_eq!(m.program_counter(), pc);
}

#[test]
fn ret_on_empty_stack_underflows() {
    let mut m = machine_with(&[0x00EE]);
    assert_eq!(m.step(), Err(Chip8Error::StackUnderflow));
    assert_eq!(m.stack_pointer(), 0);
}

#[test]
fn call_then_ret_returns_after_call() {
    let mut m = machine_with(&[0x2204, 0x0000, 0x00EE]);
    m.step().unwrap();
    assert_eq!(m.program_counter(), 0x204);
    assert_eq!(m.stack_pointer(), 1);
    m.step().unwrap();
    assert_eq!(m.program_counter(), 0x202);
    assert_eq!(m.stack_pointer(), 0);
}

#[test]
fn add_sets_carry() {
    let mut m = machine_with(&[0x60C8, 0x6164, 0x8014]);
    run_steps(&mut m, 3);
    assert_eq!(m.register(0), 44);
    assert_eq!(m.register(0xF), 1);
}

#[test]
fn add_exactly_255_has_no_carry() {
    let mut m = machine_with(&[0x60FF, 0x6100, 0x8014]);
    run_steps(&mut m, 3);
    assert_eq!(m.register(0), 255);
    assert_eq!(m.register(0xF), 0);
}

#[test]
fn sub_flag_is_no_borrow() {
    let mut m = machine_with(&[0x6005, 0x6103, 0x8015]);
    run_steps(&mut m, 3);
    assert_eq!(m.register(0), 2);
    assert_eq!(m.register(0xF), 1);

    let mut m = machine_with(&[0x6003, 0x6105, 0x8015]);
    run_steps(&mut m, 3);
    assert_eq!(m.register(0), 254);
    assert_eq!(m.register(0xF), 0);

    let mut m = machine_with(&[0x6007, 0x6107, 0x8015]);
    run_steps(&mut m, 3);
    assert_eq!(m.register(0), 0);
    assert_eq!(m.register(0xF), 1);
}

#[test]
fn subn_reverses_operands() {
    let mut m = machine_with(&[0x6003, 0x6105, 0x8017]);
    run_steps(&mut m, 3);
    assert_eq!(m.register(0), 2);
    assert_eq!(m.register(0xF), 1);
}

#[test]
fn shifts_report_bit_shifted_out() {
    let mut m = machine_with(&[0x6081, 0x8006]);
    run_steps(&mut m, 2);
    assert_eq!(m.register(0), 0x40);
    assert_eq!(m.register(0xF), 1);

    let mut m = machine_with(&[0x6081, 0x800E]);
    run_steps(&mut m, 2);
    assert_eq!(m.register(0), 0x02);
    assert_eq!(m.register(0xF), 1);
}

#[test]
fn bitwise_ops_leave_flag() {
    let mut m = machine_with(&[0x6F07, 0x600C, 0x610A, 0x8011]);
    run_steps(&mut m, 4);
    assert_eq!(m.register(0), 0x0E);
    assert_eq!(m.register(0xF), 7);
    let mut m = machine_with(&[0x600C, 0x610A, 0x8012]);
    run_steps(&mut m, 3);
    assert_eq!(m.register(0), 0x08);
    let mut m = machine_with(&[0x600C, 0x610A, 0x8013]);
    run_steps(&mut m, 3);
    assert_eq!(m.register(0), 0x06);
}

#[test]
fn add_byte_wraps_without_flag() {
    let mut m = machine_with(&[0x60FF, 0x7002]);
    run_steps(&mut m, 2);
    assert_eq!(m.register(0), 1);
    assert_eq!(m.register(0xF), 0);
}

#[test]
fn skips_advance_by_four() {
    let mut m = machine_with(&[0x6005, 0x3005]);
    run_steps(&mut m, 2);
    assert_eq!(m.program_counter(), 0x206);
    let mut m = machine_with(&[0x6005, 0x4005]);
    run_steps(&mut m, 2);
    assert_eq!(m.program_counter(), 0x204);
    let mut m = machine_with(&[0x6005, 0x6105, 0x5010]);
    run_steps(&mut m, 3);
    assert_eq!(m.program_counter(), 0x208);
    let mut m = machine_with(&[0x6005, 0x6105, 0x9010]);
    run_steps(&mut m, 3);
    assert_eq!(m.program_counter(), 0x206);
}

#[test]
fn jumps_set_pc() {
    let mut m = machine_with(&[0x1ABC]);
    m.step().unwrap();
    assert_eq!(m.program_counter(), 0xABC);
    let mut m = machine_with(&[0x6010, 0xB300]);
    run_steps(&mut m, 2);
    assert_eq!(m.program_counter(), 0x310);
}

#[test]
fn index_register_ops() {
    let mut m = machine_with(&[0xA123, 0x6005, 0xF01E]);
    run_steps(&mut m, 3);
    assert_eq!(m.index_register(), 0x128);
    let mut m = machine_with(&[0x601A, 0xF029]);
    run_steps(&mut m, 2);
    assert_eq!(m.index_register(), 50);
}

#[test]
fn bcd_stores_three_digits() {
    let mut m = machine_with(&[0x60EA, 0xA300, 0xF033]);
    run_steps(&mut m, 3);
    assert_eq!(m.read_memory(0x300), Ok(2));
    assert_eq!(m.read_memory(0x301), Ok(3));
    assert_eq!(m.read_memory(0x302), Ok(4));
}

#[test]
fn bcd_past_memory_end_faults() {
    let mut m = machine_with(&[0xAFFE, 0xF033]);
    m.step().unwrap();
    assert_eq!(m.step(), Err(Chip8Error::AddressOutOfBounds));
    assert_eq!(m.program_counter(), 0x202);
}

#[test]
fn store_and_load_registers() {
    let mut m = machine_with(&[0x6011, 0x6122, 0x6233, 0xA400, 0xF255, 0x6000, 0x6100, 0xF165]);
    run_steps(&mut m, 8);
    assert_eq!(m.read_memory(0x400), Ok(0x11));
    assert_eq!(m.read_memory(0x401), Ok(0x22));
    assert_eq!(m.read_memory(0x402), Ok(0x33));
    assert_eq!(m.read_memory(0x403), Ok(0));
    assert_eq!(m.register(0), 0x11);
    assert_eq!(m.register(1), 0x22);
    assert_eq!(m.index_register(), 0x400);
}

#[test]
fn timers_copy_to_register() {
    let mut m = machine_with(&[0x6009, 0xF015, 0xF307]);
    run_steps(&mut m, 3);
    assert_eq!(m.register(3), 9);
}

#[test]
fn random_respects_mask() {
    let mut m = machine_with(&[0xC000, 0xC10F]);
    run_steps(&mut m, 2);
    assert_eq!(m.register(0), 0);
    assert!(m.register(1) <= 0x0F);
}

#[test]
fn key_skips() {
    let mut m = machine_with(&[0x6003, 0xE09E]);
    m.set_keys(1 << 3);
    run_steps(&mut m, 2);
    assert_eq!(m.program_counter(), 0x206);
    let mut m = machine_with(&[0x6003, 0xE0A1]);
    m.set_keys(1 << 3);
    run_steps(&mut m, 2);
    assert_eq!(m.program_counter(), 0x204);
    let mut m = machine_with(&[0x6003, 0xE0A1]);
    m.set_keys(0);
    run_steps(&mut m, 2);
    assert_eq!(m.program_counter(), 0x206);
}

#[test]
fn wait_for_key_blocks_until_pressed() {
    let mut m = machine_with(&[0xF50A]);
    m.step().unwrap();
    assert_eq!(m.program_counter(), 0x200);
    m.set_keys((1 << 9) | (1 << 12));
    m.step().unwrap();
    assert_eq!(m.program_counter(), 0x202);
    assert_eq!(m.register(5), 9);
}

#[test]
fn cls_clears_every_pixel() {
    let mut m = machine_with(&[0xA000, 0xD005, 0x00E0]);
    run_steps(&mut m, 2);
    assert!(m.framebuffer().iter().any(|p| *p));
    m.step().unwrap();
    assert!(m.framebuffer().iter().all(|p| !*p));
    assert_eq!(m.framebuffer().len(), 64 * 32);
}

#[test]
fn drawing_twice_collides_and_erases() {
    let mut m = machine_with(&[0xA000, 0xD005, 0xD005]);
    run_steps(&mut m, 2);
    assert_eq!(m.register(0xF), 0);
    assert!(m.pixel(0, 0));
    assert!(m.pixel(3, 0));
    assert!(!m.pixel(4, 0));
    assert!(m.pixel(0, 1));
    assert!(!m.pixel(1, 1));
    m.step().unwrap();
    assert_eq!(m.register(0xF), 1);
    assert!(m.framebuffer().iter().all(|p| !*p));
}

#[test]
fn drawing_on_blank_pixels_does_not_collide() {
    let mut m = machine_with(&[0xA000, 0x6108, 0xD005, 0xD105]);
    run_steps(&mut m, 4);
    assert_eq!(m.register(0xF), 0);
    assert!(m.pixel(8, 0));
}

#[test]
fn sprites_wrap_at_edges() {
    let mut m = machine_with(&[0xA000, 0x603E, 0x611F, 0xD012]);
    run_steps(&mut m, 4);
    assert!(m.pixel(62, 31));
    assert!(m.pixel(63, 31));
    assert!(m.pixel(0, 31));
    assert!(m.pixel(1, 31));
    assert!(!m.pixel(2, 31));
    assert!(m.pixel(62, 0));
    assert!(m.pixel(1, 0));
    assert!(!m.pixel(0, 0));
}

#[test]
fn invalid_opcode_faults_or_is_skipped() {
    let mut m = machine_with(&[0x5001, 0x6007]);
    assert_eq!(m.step(), Err(Chip8Error::InvalidOpcode));
    assert_eq!(m.program_counter(), 0x200);

    let mut m = machine_with(&[0x5001, 0x6007]);
    assert_eq!(m.run_tick(2, FaultPolicy::Halt), Err(Chip8Error::InvalidOpcode));
    assert_eq!(m.register(0), 0);

    let mut m = machine_with(&[0x5001, 0x6007]);
    assert_eq!(m.run_tick(2, FaultPolicy::SkipInvalid), Ok(()));
    assert_eq!(m.register(0), 7);
    assert_eq!(m.program_counter(), 0x204);
}

#[test]
fn run_tick_steps_then_ticks() {
    let mut m = machine_with(&[0x6003, 0xF015, 0x7101]);
    assert_eq!(m.run_tick(3, FaultPolicy::Halt), Ok(()));
    assert_eq!(m.delay_timer(), 2);
    assert_eq!(m.register(1), 1);
}

#[test]
fn fetch_past_memory_end_faults() {
    let mut m = machine_with(&[0x1FFF]);
    m.step().unwrap();
    assert_eq!(m.step(), Err(Chip8Error::AddressOutOfBounds));
}

#[test]
fn init_resets_machine() {
    let mut m = machine_with(&[0x6005, 0xA123]);
    run_steps(&mut m, 2);
    m.init();
    assert_eq!(m.register(0), 0);
    assert_eq!(m.index_register(), 0);
    assert_eq!(m.program_counter(), 0x200);
    assert_eq!(m.read_memory(0x200), Ok(0));
}

#[test]
fn decode_is_determined_by_word() {
    assert_eq!(decode(0x00E0), Ok(Instruction::Cls));
    assert_eq!(decode(0x00EE), Ok(Instruction::Ret));
    assert_eq!(decode(0x8014), Ok(Instruction::AddReg { x: 0, y: 1 }));
    assert_eq!(decode(0xD125), Ok(Instruction::Drw { x: 1, y: 2, n: 5 }));
    assert_eq!(decode(0xF365), Ok(Instruction::LoadRegs { x: 3 }));
    assert_eq!(decode(0x0123), Ok(Instruction::Sys { addr: 0x123 }));
    assert_eq!(decode(0x8014), decode(0x8014));
}

#[test]
fn decode_rejects_unknown_words() {
    assert_eq!(decode(0x5001), Err(Chip8Error::InvalidOpcode));
    assert_eq!(decode(0x8008), Err(Chip8Error::InvalidOpcode));
    assert_eq!(decode(0x9001), Err(Chip8Error::InvalidOpcode));
    assert_eq!(decode(0xE000), Err(Chip8Error::InvalidOpcode));
    assert_eq!(decode(0xF0FF), Err(Chip8Error::InvalidOpcode));
}
