use chip8::Emulator;

fn machine() -> Emulator {
    Emulator::init(Vec::new())
}

fn lit_pixels(c8: &Emulator) -> Vec<(usize, usize)> {
    let mut lit = Vec::new();
    for x in 0..64 {
        for y in 0..32 {
            if c8.display_buffer[x][y] {
                lit.push((x, y));
            }
        }
    }
    lit
}

#[test]
fn init_loads_font_and_rom() {
    let c8 = Emulator::init(vec![0xA2, 0x2A, 0x60, 0x0C]);
    assert_eq!(&c8.memory[..80], &Emulator::FONTS[..]);
    assert_eq!(&c8.memory[0x200..0x204], &[0xA2, 0x2A, 0x60, 0x0C]);
    assert!(c8.memory[80..0x200].iter().all(|b| *b == 0));
    assert!(c8.memory[0x204..].iter().all(|b| *b == 0));
    assert_eq!(c8.index_register, 512);
    assert_eq!(c8.program_counter, 0);
    assert_eq!(c8.stack_pointer, 0);
    assert_eq!(c8.registers, [0; 16]);
    assert_eq!(c8.sound_timer, 0);
    assert_eq!(c8.delay_timer, 0);
    assert!(!c8.wait_for_key);
    assert!(!c8.draw);
    assert!(lit_pixels(&c8).is_empty());
}

#[test]
fn init_accepts_a_rom_that_fills_memory() {
    let c8 = Emulator::init(vec![7u8; 4096 - 0x200]);
    assert_eq!(c8.memory[0x200], 7);
    assert_eq!(c8.memory[4095], 7);
}

#[test]
fn timer_tick_counts_down_and_stops_at_zero() {
    let mut c8 = machine();
    c8.delay_timer = 2;
    c8.sound_timer = 1;
    c8.timer_tick();
    assert_eq!((c8.delay_timer, c8.sound_timer), (1, 0));
    c8.timer_tick();
    assert_eq!((c8.delay_timer, c8.sound_timer), (0, 0));
    c8.timer_tick();
    assert_eq!((c8.delay_timer, c8.sound_timer), (0, 0));
}

#[test]
fn tick_fetches_high_byte_first_and_executes() {
    let mut c8 = Emulator::init(vec![0x60, 0x2A, 0x70, 0x05]);
    c8.program_counter = 0x200;
    assert!(c8.can_tick());
    c8.tick();
    assert_eq!(c8.registers[0], 0x2A);
    assert_eq!(c8.program_counter, 0x202);
    c8.tick();
    assert_eq!(c8.registers[0], 0x2F);
    assert_eq!(c8.program_counter, 0x204);
}

#[test]
fn can_tick_refuses_unknown_opcode_and_end_of_memory() {
    let mut c8 = machine();
    // At address 0 lies the font: 0xF090 is no instruction.
    assert!(!c8.can_tick());
    c8.program_counter = 4095;
    assert!(!c8.can_tick());
    c8.program_counter = 0x200;
    // 0x0000 is no instruction either.
    assert!(!c8.can_tick());
}

#[test]
fn can_execute_refuses_what_cannot_run() {
    let mut c8 = machine();
    assert!(!c8.can_execute(0x0123));
    assert!(!c8.can_execute(0x5121));
    assert!(!c8.can_execute(0x8008));
    assert!(!c8.can_execute(0xE0FF));
    assert!(!c8.can_execute(0xF0FF));
    // Return with an empty stack.
    assert!(!c8.can_execute(0x00EE));
    // Call with a full stack.
    c8.stack_pointer = 15;
    assert!(!c8.can_execute(0x2200));
    // A key number beyond the keypad.
    c8.registers[1] = 16;
    assert!(!c8.can_execute(0xE19E));
    // I + Vx beyond the 16-bit range of Fx29.
    c8.registers[2] = 0x4000;
    assert!(!c8.can_execute(0xF229));
    // Memory ends before I + 2.
    c8.index_register = 4094;
    assert!(!c8.can_execute(0xF033));
    assert!(!c8.can_execute(0xF255));
    assert!(!c8.can_execute(0xD013));
    assert!(c8.can_execute(0xD012));
    // Bnnn past 0xFFFF.
    c8.registers[0] = 0xFFFF;
    assert!(!c8.can_execute(0xB001));
    // A skip past 0xFFFF.
    c8.program_counter = 0xFFFE;
    c8.registers[3] = 4;
    assert!(!c8.can_execute(0x3304));
    assert!(c8.can_execute(0x4304));
    // Fx0A with no key and pc below 2.
    c8.program_counter = 1;
    assert!(!c8.can_execute(0xF00A));
    c8.key_inputs[4] = true;
    assert!(c8.can_execute(0xF00A));
}

#[test]
fn clear_screen_darkens_every_pixel() {
    let mut c8 = machine();
    c8.display_buffer[3][4] = true;
    c8.display_buffer[63][31] = true;
    c8.execute(0x00E0);
    assert!(lit_pixels(&c8).is_empty());
    assert!(c8.draw);
}

#[test]
fn call_then_return_comes_back() {
    let mut c8 = machine();
    c8.execute(0x1234);
    assert_eq!(c8.program_counter, 0x234);
    c8.execute(0x2456);
    assert_eq!(c8.program_counter, 0x456);
    assert_eq!(c8.stack_pointer, 1);
    // The stack shares its slots with the registers.
    assert_eq!(c8.registers[1], 0x234);
    c8.execute(0x00EE);
    assert_eq!(c8.program_counter, 0x234);
    assert_eq!(c8.stack_pointer, 0);
}

#[test]
fn skips_compare_registers_and_bytes() {
    let mut c8 = machine();
    c8.registers[2] = 0x11;
    c8.registers[3] = 0x11;
    c8.registers[4] = 0x12;
    c8.execute(0x3211);
    assert_eq!(c8.program_counter, 2);
    c8.execute(0x3212);
    assert_eq!(c8.program_counter, 2);
    c8.execute(0x4212);
    assert_eq!(c8.program_counter, 4);
    c8.execute(0x4211);
    assert_eq!(c8.program_counter, 4);
    c8.execute(0x5230);
    assert_eq!(c8.program_counter, 6);
    c8.execute(0x5240);
    assert_eq!(c8.program_counter, 6);
    c8.execute(0x9240);
    assert_eq!(c8.program_counter, 8);
    c8.execute(0x9230);
    assert_eq!(c8.program_counter, 8);
}

#[test]
fn skip_opposites_advance_exactly_once() {
    for v in [0x11u16, 0x12] {
        let mut a = machine();
        a.registers[2] = v;
        let mut b = machine();
        b.registers[2] = v;
        a.execute(0x3211);
        b.execute(0x4211);
        assert_eq!(a.program_counter + b.program_counter, 2);
    }
}

#[test]
fn load_and_add_bytes() {
    let mut c8 = machine();
    c8.execute(0x6A42);
    assert_eq!(c8.registers[0xA], 0x42);
    c8.execute(0x7A01);
    assert_eq!(c8.registers[0xA], 0x43);
    c8.registers[0xA] = 0xFFFF;
    c8.execute(0x7A02);
    assert_eq!(c8.registers[0xA], 1);
}

#[test]
fn register_logic() {
    let mut c8 = machine();
    c8.registers[0] = 0b1100;
    c8.registers[1] = 0b1010;
    c8.execute(0x8010);
    assert_eq!(c8.registers[0], 0b1010);
    c8.registers[0] = 0b1100;
    c8.execute(0x8011);
    assert_eq!(c8.registers[0], 0b1110);
    c8.registers[0] = 0b1100;
    c8.execute(0x8012);
    assert_eq!(c8.registers[0], 0b1000);
    c8.registers[0] = 0b1100;
    c8.execute(0x8013);
    assert_eq!(c8.registers[0], 0b0110);
}

#[test]
fn add_registers_sets_carry_and_keeps_low_byte() {
    let mut c8 = machine();
    c8.registers[0] = 200;
    c8.registers[1] = 100;
    c8.execute(0x8014);
    assert_eq!(c8.registers[0], 44);
    assert_eq!(c8.registers[0xF], 1);
    c8.registers[0] = 20;
    c8.registers[1] = 30;
    c8.execute(0x8014);
    assert_eq!(c8.registers[0], 50);
    assert_eq!(c8.registers[0xF], 0);
}

#[test]
fn subtractions_set_not_borrow() {
    let mut c8 = machine();
    c8.registers[0] = 10;
    c8.registers[1] = 3;
    c8.execute(0x8015);
    assert_eq!(c8.registers[0], 7);
    assert_eq!(c8.registers[0xF], 1);
    c8.registers[0] = 3;
    c8.registers[1] = 10;
    c8.execute(0x8015);
    assert_eq!(c8.registers[0], 0xFFF9);
    assert_eq!(c8.registers[0xF], 0);
    c8.registers[0] = 3;
    c8.registers[1] = 10;
    c8.execute(0x8017);
    assert_eq!(c8.registers[0], 7);
    assert_eq!(c8.registers[0xF], 1);
    c8.registers[0] = 10;
    c8.registers[1] = 3;
    c8.execute(0x8017);
    assert_eq!(c8.registers[0], 0xFFF9);
    assert_eq!(c8.registers[0xF], 0);
}

#[test]
fn shifts_move_the_outgoing_bit_to_vf() {
    let mut c8 = machine();
    c8.registers[0] = 5;
    c8.execute(0x8016);
    assert_eq!(c8.registers[0], 2);
    assert_eq!(c8.registers[0xF], 1);
    c8.execute(0x8016);
    assert_eq!(c8.registers[0], 1);
    assert_eq!(c8.registers[0xF], 0);
    c8.registers[0] = 0x8001;
    c8.execute(0x801E);
    assert_eq!(c8.registers[0], 2);
    assert_eq!(c8.registers[0xF], 1);
    c8.execute(0x801E);
    assert_eq!(c8.registers[0], 4);
    assert_eq!(c8.registers[0xF], 0);
}

#[test]
fn index_and_offset_jump() {
    let mut c8 = machine();
    c8.execute(0xA123);
    assert_eq!(c8.index_register, 0x123);
    c8.registers[0] = 5;
    c8.execute(0xB300);
    assert_eq!(c8.program_counter, 0x305);
}

#[test]
fn random_byte_is_masked_by_kk() {
    let mut c8 = machine();
    c8.execute_with_random(0xC30F, 0xAB);
    assert_eq!(c8.registers[3], 0x0B);
    for _ in 0..64 {
        c8.execute(0xC40F);
        assert_eq!(c8.registers[4] & !0x0F, 0);
    }
}

#[test]
fn draw_font_digit_then_erase_it() {
    let mut c8 = machine();
    // I = 0: the sprite of digit 0, five rows.
    c8.index_register = 0;
    c8.execute(0xD015);
    let expected: Vec<(usize, usize)> = vec![
        (0, 0), (0, 1), (0, 2), (0, 3), (0, 4),
        (1, 0), (1, 4),
        (2, 0), (2, 4),
        (3, 0), (3, 1), (3, 2), (3, 3), (3, 4),
    ];
    assert_eq!(lit_pixels(&c8), expected);
    assert_eq!(c8.registers[0xF], 0);
    assert!(c8.draw);
    // The same sprite again erases it and reports the collision.
    c8.execute(0xD015);
    assert!(lit_pixels(&c8).is_empty());
    assert_eq!(c8.registers[0xF], 1);
}

#[test]
fn sprites_wrap_around_the_edges() {
    let mut c8 = machine();
    c8.registers[0] = 62 + 64;
    c8.registers[1] = 31;
    // Rows 0xF0 then 0x90: the second row lands on row 0.
    c8.index_register = 0;
    c8.execute(0xD012);
    assert_eq!(lit_pixels(&c8), vec![(0, 31), (1, 0), (1, 31), (62, 0), (62, 31), (63, 31)]);
}

#[test]
fn blank_sprite_changes_nothing() {
    let mut c8 = machine();
    c8.index_register = 0x300;
    c8.execute(0xD013);
    assert!(lit_pixels(&c8).is_empty());
    assert!(!c8.draw);
    assert_eq!(c8.registers[0xF], 0);
}

#[test]
fn key_skips() {
    let mut c8 = machine();
    c8.registers[1] = 7;
    c8.execute(0xE19E);
    assert_eq!(c8.program_counter, 0);
    c8.execute(0xE1A1);
    assert_eq!(c8.program_counter, 2);
    c8.key_inputs[7] = true;
    c8.execute(0xE19E);
    assert_eq!(c8.program_counter, 4);
    c8.execute(0xE1A1);
    assert_eq!(c8.program_counter, 4);
}

#[test]
fn wait_for_key_repeats_until_a_key_is_down() {
    let mut c8 = machine();
    c8.memory[0x200] = 0xF5;
    c8.memory[0x201] = 0x0A;
    c8.program_counter = 0x200;
    c8.tick();
    assert_eq!(c8.program_counter, 0x200);
    assert!(c8.wait_for_key);
    c8.key_inputs[7] = true;
    c8.key_inputs[3] = true;
    c8.tick();
    assert_eq!(c8.registers[5], 3);
    assert_eq!(c8.program_counter, 0x202);
    assert!(!c8.wait_for_key);
}

#[test]
fn timers_and_index_from_registers() {
    let mut c8 = machine();
    c8.registers[2] = 0x1FF;
    c8.execute(0xF215);
    assert_eq!(c8.delay_timer, 0xFF);
    c8.execute(0xF218);
    assert_eq!(c8.sound_timer, 0xFF);
    c8.execute(0xF307);
    assert_eq!(c8.registers[3], 0xFF);
    c8.index_register = 0xFFFF;
    c8.registers[4] = 2;
    c8.execute(0xF41E);
    assert_eq!(c8.index_register, 1);
    c8.registers[5] = 0xA;
    c8.execute(0xF529);
    assert_eq!(c8.index_register, 50);
    assert_eq!(&c8.memory[50..55], &Emulator::FONTS[50..55]);
}

#[test]
fn bcd_stores_decimal_digits() {
    let mut c8 = machine();
    c8.index_register = 0x300;
    c8.registers[6] = 254;
    c8.execute(0xF633);
    assert_eq!(&c8.memory[0x300..0x303], &[2, 5, 4]);
    c8.registers[6] = 7;
    c8.execute(0xF633);
    assert_eq!(&c8.memory[0x300..0x303], &[0, 0, 7]);
}

#[test]
fn store_and_load_registers_include_vx() {
    let mut c8 = machine();
    c8.index_register = 0x300;
    for k in 0..16 {
        c8.registers[k] = (k as u16) * 3 + 1;
    }
    c8.execute(0xF355);
    assert_eq!(&c8.memory[0x300..0x305], &[1, 4, 7, 10, 0]);
    let saved = c8.registers;
    c8.registers = [0; 16];
    c8.execute(0xF365);
    assert_eq!(&c8.registers[..4], &saved[..4]);
    assert_eq!(&c8.registers[4..], &[0; 12]);
}

#[test]
fn store_keeps_only_the_low_byte() {
    let mut c8 = machine();
    c8.index_register = 0x300;
    c8.registers[0] = 0x1234;
    c8.execute(0xF055);
    assert_eq!(c8.memory[0x300], 0x34);
    c8.execute(0xF065);
    assert_eq!(c8.registers[0], 0x34);
}

#[test]
fn keypad_layout() {
    let layout = "x123qweasdzc4rfv";
    for (k, c) in layout.chars().enumerate() {
        assert_eq!(chip8::keypad_index(c as i32), Some(k));
    }
    assert_eq!(chip8::keypad_index('b' as i32), None);
    assert_eq!(chip8::keypad_index('X' as i32), None);
    assert_eq!(chip8::keypad_index(0), None);
}

#[test]
fn run_frame_runs_speed_cycles_then_ticks_timers() {
    let mut c8 = Emulator::init(vec![0x70, 0x01, 0x70, 0x01, 0x70, 0x01]);
    c8.program_counter = 0x200;
    c8.delay_timer = 5;
    c8.key_inputs[9] = true;
    let mut pressed = [false; 16];
    pressed[3] = true;
    assert!(c8.run_frame(pressed, 3));
    assert_eq!(c8.registers[0], 3);
    assert_eq!(c8.program_counter, 0x206);
    assert_eq!(c8.delay_timer, 4);
    assert_eq!(c8.key_inputs, pressed);
}

#[test]
fn run_frame_stops_at_a_cycle_that_cannot_run() {
    let mut c8 = Emulator::init(vec![0x70, 0x01, 0x70, 0x01, 0x70, 0x01]);
    c8.program_counter = 0x200;
    c8.delay_timer = 5;
    // The fourth opcode is 0x0000, which is no instruction.
    assert!(!c8.run_frame([false; 16], 5));
    assert_eq!(c8.registers[0], 3);
    assert_eq!(c8.program_counter, 0x206);
    assert_eq!(c8.delay_timer, 5);
}
