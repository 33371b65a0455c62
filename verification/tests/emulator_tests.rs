use ate_chip::emulator::ACEmulator;
use ate_chip::keyboard::{ACKey, ACKeyboard};

/// Runs the instructions one after another.
fn run(e: &mut ACEmulator, instrs: &[u16]) {
    let kb = ACKeyboard::new();
    for i in instrs {
        assert!(e.can_exec(*i, &kb));
        e.exec_oper(*i, &kb);
    }
}

/// The 24-bit frame of the emulator's display.
fn frame(e: &ACEmulator) -> Vec<u8> {
    let mut buf = vec![0u8; 6144];
    e.renderer().render_to_rgb24(&mut buf);
    buf
}

/// Whether the pixel at column `x` of screen line `line` (line 0 shows stored row 31) is lit.
fn lit(buf: &[u8], line: usize, x: usize) -> bool {
    buf[3 * (64 * line + x)] == 255
}

#[test]
fn new_emulator_holds_the_font() {
    let e = ACEmulator::new();
    assert_eq!(e.program_counter(), 0x200);
    assert_eq!(e.index_register(), 0);
    assert_eq!(e.stack_pointer(), 0);
    let zero = [0xF0, 0x90, 0x90, 0x90, 0xF0];
    for (k, b) in zero.iter().enumerate() {
        assert_eq!(e.memory_byte(k), *b);
    }
    assert_eq!(e.memory_byte(75), 0xF0);
    assert_eq!(e.memory_byte(79), 0x80);
    assert_eq!(e.memory_byte(80), 0);
    for r in 0..16 {
        assert_eq!(e.register(r), 0);
    }
    assert!(!e.should_bleep());
    assert!(!e.is_waiting_for_key());
}

#[test]
fn load_rom_copies_at_the_program_counter() {
    let mut e = ACEmulator::new();
    e.load_rom(vec![0x60, 0x2A, 0x12, 0x00]);
    assert_eq!(e.memory_byte(0x200), 0x60);
    assert_eq!(e.memory_byte(0x203), 0x00);
    assert_eq!(e.memory_byte(0x201), 0x2A);
    assert_eq!(e.program_counter(), 0x200);
}

#[test]
fn load_and_add_registers() {
    let mut e = ACEmulator::new();
    run(&mut e, &[0x632A, 0x7301]);
    assert_eq!(e.register(3), 0x2B);
    run(&mut e, &[0x63FF, 0x7302]);
    assert_eq!(e.register(3), 0x01);
    assert_eq!(e.register(0xF), 0);
}

#[test]
fn add_registers_sets_carry() {
    let mut e = ACEmulator::new();
    run(&mut e, &[0x63FA, 0x6409, 0x8344]);
    assert_eq!(e.register(3), 3);
    assert_eq!(e.register(0xF), 1);
    run(&mut e, &[0x6310, 0x8344]);
    assert_eq!(e.register(3), 0x19);
    assert_eq!(e.register(0xF), 0);
}

#[test]
fn add_with_vf_as_operand() {
    let mut e = ACEmulator::new();
    run(&mut e, &[0x63FA, 0x6F09, 0x83F4]);
    assert_eq!(e.register(3), 3);
    assert_eq!(e.register(0xF), 1);
}

#[test]
fn subtract_registers() {
    let mut e = ACEmulator::new();
    run(&mut e, &[0x6105, 0x6203, 0x8125]);
    assert_eq!(e.register(1), 2);
    assert_eq!(e.register(0xF), 1);
    run(&mut e, &[0x6103, 0x6205, 0x8125]);
    assert_eq!(e.register(1), 254);
    assert_eq!(e.register(0xF), 0);
    run(&mut e, &[0x6103, 0x6203, 0x8125]);
    assert_eq!(e.register(1), 0);
    assert_eq!(e.register(0xF), 0);
}

#[test]
fn reverse_subtract_registers() {
    let mut e = ACEmulator::new();
    run(&mut e, &[0x6103, 0x6205, 0x8127]);
    assert_eq!(e.register(1), 2);
    assert_eq!(e.register(0xF), 1);
    let kb = ACKeyboard::new();
    run(&mut e, &[0x6105, 0x6203]);
    assert!(!e.can_exec(0x8127, &kb));
}

#[test]
fn logic_and_shifts() {
    let mut e = ACEmulator::new();
    run(&mut e, &[0x610C, 0x620A, 0x8121]);
    assert_eq!(e.register(1), 0x0E);
    run(&mut e, &[0x610C, 0x8122]);
    assert_eq!(e.register(1), 0x08);
    run(&mut e, &[0x610C, 0x8123]);
    assert_eq!(e.register(1), 0x06);
    run(&mut e, &[0x6105, 0x8106]);
    assert_eq!(e.register(1), 2);
    assert_eq!(e.register(0xF), 1);
    run(&mut e, &[0x6181, 0x810E]);
    assert_eq!(e.register(1), 0x02);
    assert_eq!(e.register(0xF), 0x80);
    run(&mut e, &[0x6141, 0x810E]);
    assert_eq!(e.register(1), 0x82);
    assert_eq!(e.register(0xF), 0);
    run(&mut e, &[0x6177, 0x8210]);
    assert_eq!(e.register(2), 0x77);
}

#[test]
fn skips_and_jumps() {
    let mut e = ACEmulator::new();
    run(&mut e, &[0x6307, 0x3307]);
    assert_eq!(e.program_counter(), 0x202);
    run(&mut e, &[0x3308]);
    assert_eq!(e.program_counter(), 0x202);
    run(&mut e, &[0x4308]);
    assert_eq!(e.program_counter(), 0x204);
    run(&mut e, &[0x6407, 0x5340]);
    assert_eq!(e.program_counter(), 0x206);
    run(&mut e, &[0x9340]);
    assert_eq!(e.program_counter(), 0x206);
    run(&mut e, &[0x1345]);
    assert_eq!(e.program_counter(), 0x345);
    run(&mut e, &[0x6005, 0xB300]);
    assert_eq!(e.program_counter(), 0x305);
}

#[test]
fn call_then_return() {
    let mut e = ACEmulator::new();
    run(&mut e, &[0x2400]);
    assert_eq!(e.program_counter(), 0x400);
    assert_eq!(e.stack_pointer(), 1);
    run(&mut e, &[0x00EE]);
    assert_eq!(e.program_counter(), 0x200);
    assert_eq!(e.stack_pointer(), 0);
}

#[test]
fn deep_calls_are_refused() {
    let mut e = ACEmulator::new();
    let kb = ACKeyboard::new();
    for _ in 0..15 {
        run(&mut e, &[0x2300]);
    }
    assert_eq!(e.stack_pointer(), 15);
    assert!(!e.can_exec(0x2300, &kb));
}

#[test]
fn index_register_instructions() {
    let mut e = ACEmulator::new();
    run(&mut e, &[0xA123]);
    assert_eq!(e.index_register(), 0x123);
    run(&mut e, &[0x6310, 0xF31E]);
    assert_eq!(e.index_register(), 0x133);
    run(&mut e, &[0x630A, 0xF329]);
    assert_eq!(e.index_register(), 50);
}

#[test]
fn random_byte_is_masked() {
    let mut e = ACEmulator::new();
    let kb = ACKeyboard::new();
    e.exec_oper_with(0xC30F, &kb, 0xAB);
    assert_eq!(e.register(3), 0x0B);
    e.exec_oper(0xC300, &kb);
    assert_eq!(e.register(3), 0);
}

#[test]
fn bcd_store_writes_digits() {
    let mut e = ACEmulator::new();
    run(&mut e, &[0xA300, 0x637B, 0xF333]);
    assert_eq!(e.memory_byte(0x300), 1);
    assert_eq!(e.memory_byte(0x301), 2);
    assert_eq!(e.memory_byte(0x302), 3);
    run(&mut e, &[0x63FF, 0xF333]);
    assert_eq!(e.memory_byte(0x300), 2);
    assert_eq!(e.memory_byte(0x301), 5);
    assert_eq!(e.memory_byte(0x302), 5);
}

#[test]
fn store_and_load_registers() {
    let mut e = ACEmulator::new();
    run(&mut e, &[0xA300, 0x6011, 0x6122, 0x6233, 0x6344, 0xF255]);
    assert_eq!(e.memory_byte(0x300), 0x11);
    assert_eq!(e.memory_byte(0x302), 0x33);
    assert_eq!(e.memory_byte(0x303), 0);
    run(&mut e, &[0x6000, 0x6100, 0x6200, 0xF165]);
    assert_eq!(e.register(0), 0x11);
    assert_eq!(e.register(1), 0x22);
    assert_eq!(e.register(2), 0);
    assert_eq!(e.register(3), 0x44);
}

#[test]
fn memory_bounds_are_checked() {
    let mut e = ACEmulator::new();
    let kb = ACKeyboard::new();
    run(&mut e, &[0xAFFE]);
    assert!(!e.can_exec(0xF033, &kb));
    assert!(!e.can_exec(0xF255, &kb));
    assert!(e.can_exec(0xF155, &kb));
    assert!(!e.can_exec(0xD013, &kb));
    assert!(e.can_exec(0xD012, &kb));
}

#[test]
fn timers_count_down() {
    let mut e = ACEmulator::new();
    let kb = ACKeyboard::new();
    run(&mut e, &[0x6302, 0xF315, 0xF318, 0xF407]);
    assert_eq!(e.delay_timer(), 2);
    assert_eq!(e.sound_timer(), 2);
    assert_eq!(e.register(4), 2);
    assert!(!e.tick(true, false, &kb, None));
    assert_eq!(e.delay_timer(), 1);
    assert!(e.should_bleep());
    e.tick(true, false, &kb, None);
    e.tick(true, false, &kb, None);
    assert_eq!(e.delay_timer(), 0);
    assert_eq!(e.sound_timer(), 0);
    assert!(!e.should_bleep());
}

#[test]
fn tick_runs_the_next_instruction() {
    let mut e = ACEmulator::new();
    let kb = ACKeyboard::new();
    e.load_rom(vec![0x63, 0x2A, 0x12, 0x00]);
    assert!(e.can_step(&kb));
    assert!(e.tick(false, true, &kb, None));
    assert_eq!(e.register(3), 0x2A);
    assert_eq!(e.program_counter(), 0x202);
    assert!(!e.tick(false, false, &kb, None));
    assert_eq!(e.program_counter(), 0x202);
    e.tick(false, true, &kb, None);
    assert_eq!(e.program_counter(), 0x200);
}

#[test]
fn waiting_for_a_key() {
    let mut e = ACEmulator::new();
    let kb = ACKeyboard::new();
    e.load_rom(vec![0xF5, 0x0A, 0x12, 0x00]);
    e.tick(false, true, &kb, None);
    assert!(e.is_waiting_for_key());
    assert!(!e.tick(false, true, &kb, None));
    assert_eq!(e.program_counter(), 0x202);
    e.tick(false, true, &kb, Some(ACKey::KB));
    assert!(!e.is_waiting_for_key());
    assert_eq!(e.register(5), 0xB);
    assert_eq!(e.program_counter(), 0x202);
}

#[test]
fn key_skips() {
    let mut e = ACEmulator::new();
    let mut kb = ACKeyboard::new();
    run(&mut e, &[0x6307]);
    e.exec_oper(0xE39E, &kb);
    assert_eq!(e.program_counter(), 0x200);
    e.exec_oper(0xE3A1, &kb);
    assert_eq!(e.program_counter(), 0x202);
    kb.press(ACKey::K7);
    e.exec_oper(0xE39E, &kb);
    assert_eq!(e.program_counter(), 0x204);
    e.exec_oper(0xE3A1, &kb);
    assert_eq!(e.program_counter(), 0x204);
    run(&mut e, &[0x6310]);
    assert!(!e.can_exec(0xE39E, &kb));
}

#[test]
fn draw_sprite_and_erase_it() {
    let mut e = ACEmulator::new();
    // The font sprite for 0 at the top left.
    run(&mut e, &[0xA000, 0x6000, 0x6100, 0x6F05, 0xD015]);
    assert_eq!(e.register(0xF), 0);
    let buf = frame(&e);
    assert!(lit(&buf, 0, 0) && lit(&buf, 0, 3) && !lit(&buf, 0, 4));
    assert!(lit(&buf, 1, 0) && !lit(&buf, 1, 1) && lit(&buf, 1, 3));
    assert!(lit(&buf, 4, 2) && !lit(&buf, 5, 0));
    assert_eq!(buf.iter().filter(|b| **b == 255).count(), 3 * 14);
    run(&mut e, &[0xD015]);
    assert!(frame(&e).iter().all(|b| *b == 0));
}

#[test]
fn draw_clips_at_the_edges() {
    let mut e = ACEmulator::new();
    // The sprite for 8 at x = 62, y = 30: two columns and two rows show.
    run(&mut e, &[0xA028, 0x603E, 0x611E, 0xD015]);
    let buf = frame(&e);
    assert!(lit(&buf, 30, 62) && lit(&buf, 30, 63));
    assert!(lit(&buf, 31, 62) && !lit(&buf, 31, 63));
    assert!(!lit(&buf, 0, 0));
    assert_eq!(buf.iter().filter(|b| **b == 255).count(), 3 * 3);
}

#[test]
fn clear_screen_instruction() {
    let mut e = ACEmulator::new();
    run(&mut e, &[0xA000, 0xD015, 0x00E0]);
    assert!(frame(&e).iter().all(|b| *b == 0));
}

#[test]
fn can_step_stops_at_the_end_of_memory() {
    let mut e = ACEmulator::new();
    let kb = ACKeyboard::new();
    run(&mut e, &[0x1FFF]);
    assert!(!e.can_step(&kb));
    run(&mut e, &[0x1FFE]);
    assert!(e.can_step(&kb));
}

#[test]
fn update_does_not_panic_on_a_loop() {
    let mut e = ACEmulator::new();
    let kb = ACKeyboard::new();
    e.load_rom(vec![0x12, 0x00]);
    for _ in 0..3 {
        assert!(e.can_step(&kb));
        e.update(&kb, None);
        assert_eq!(e.program_counter(), 0x200);
    }
}

#[test]
fn load_then_store_keeps_memory() {
    let mut e = ACEmulator::new();
    let before: Vec<u8> = (0..8).map(|k| e.memory_byte(k)).collect();
    run(&mut e, &[0xA000, 0xF765, 0xF755]);
    assert_eq!(e.register(1), 0x90);
    let after: Vec<u8> = (0..8).map(|k| e.memory_byte(k)).collect();
    assert_eq!(before, after);
}

#[test]
fn machine_code_calls_are_ignored() {
    let mut e = ACEmulator::new();
    run(&mut e, &[0x6312, 0x0123]);
    assert_eq!(e.program_counter(), 0x200);
    assert_eq!(e.register(3), 0x12);
}

#[test]
fn step_at_follows_the_elapsed_times() {
    let mut e = ACEmulator::new();
    let kb = ACKeyboard::new();
    e.load_rom(vec![0x63, 0x2A, 0x64, 0x07]);
    run(&mut e, &[0x6502, 0xF515]);
    // Both readings start at 0 nanoseconds from the clock anchor.
    e.step_at(10_999_999, &kb, None);
    assert_eq!(e.program_counter(), 0x200);
    assert_eq!(e.delay_timer(), 2);
    e.step_at(11_000_000, &kb, None);
    assert_eq!(e.program_counter(), 0x202);
    assert_eq!(e.register(3), 0x2A);
    assert_eq!(e.delay_timer(), 2);
    e.step_at(16_666_667, &kb, None);
    assert_eq!(e.delay_timer(), 1);
    assert_eq!(e.program_counter(), 0x202);
    // The timers counted down at 16 666 667: the next period ends after 33 333 333.
    e.step_at(33_333_333, &kb, None);
    assert_eq!(e.delay_timer(), 1);
    assert_eq!(e.program_counter(), 0x204);
    e.step_at(33_333_334, &kb, None);
    assert_eq!(e.delay_timer(), 0);
    assert_eq!(e.program_counter(), 0x204);
}

#[test]
fn nested_calls_return_in_order() {
    let mut e = ACEmulator::new();
    run(&mut e, &[0x2300, 0x6101, 0x2400, 0x00EE, 0x2500, 0x00EE, 0x00EE]);
    assert_eq!(e.program_counter(), 0x200);
    assert_eq!(e.stack_pointer(), 0);
    assert_eq!(e.register(1), 1);
}

#[test]
fn renderer_access_shows_the_display() {
    let mut e = ACEmulator::new();
    run(&mut e, &[0xA000, 0xD015]);
    let text = e.render_string();
    assert_eq!(text.lines().count(), 32);
    assert_eq!(text, e.render_string());
    assert!(frame(&e).iter().any(|b| *b == 255));
    run(&mut e, &[0x00E0]);
    assert!(frame(&e).iter().all(|b| *b == 0));
    assert_ne!(text, e.render_string());
}
