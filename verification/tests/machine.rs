use emu8::chip8::{Chip8, LoadRomError};
use emu8::stack::Stack;

const PIXEL_ON: u32 = 0x0000FF;
const PIXEL_OFF: u32 = 0x000000;
const PROGRAM_START: usize = 0x200;

#[test]
fn new_machine_initial_state() {
    let m = Chip8::new();
    assert_eq!(m.pc, PROGRAM_START);
    assert_eq!(m.i, 0);
    assert_eq!(m.delay, 0);
    assert_eq!(m.sound, 0);
    assert!(!m.update_window);
    assert_eq!(m.waiting_key, None);
    assert_eq!(m.ram.len(), 4096);
    assert_eq!(m.v, vec![0u8; 16]);
    assert_eq!(m.keys, [false; 16]);
    for &cell in m.get_display_buffer() {
        assert_eq!(cell, PIXEL_OFF);
    }
    // glyph 0 at the start of the font range, glyph F at its end
    assert_eq!(&m.ram[0x50..0x55], &[0xF0, 0x90, 0x90, 0x90, 0xF0]);
    assert_eq!(&m.ram[0x9B..0xA0], &[0xF0, 0x80, 0xF0, 0x80, 0x80]);
    // everything below the program area other than the font is zero
    for a in 0..0x50 {
        assert_eq!(m.ram[a], 0);
    }
    for a in 0xA0..4096 {
        assert_eq!(m.ram[a], 0);
    }
}

#[test]
fn load_rom_exactly_max_size_succeeds() {
    let mut m = Chip8::new();
    let rom = vec![0xABu8; 3584];
    assert_eq!(m.load_rom(&rom), Ok(()));
    assert_eq!(m.ram[PROGRAM_START], 0xAB);
    assert_eq!(m.ram[4095], 0xAB);
    assert_eq!(m.pc, PROGRAM_START);
}

#[test]
fn load_rom_one_byte_over_fails_and_writes_nothing() {
    let mut m = Chip8::new();
    let rom = vec![0xABu8; 3585];
    assert_eq!(m.load_rom(&rom), Err(LoadRomError::ProgramTooLarge));
    // memory is exactly what initialization set
    let fresh = Chip8::new();
    assert_eq!(m.ram, fresh.ram);
    assert_eq!(m.pc, PROGRAM_START);
}

#[test]
fn clear_display_clears_all_cells_and_marks_dirty() {
    let mut m = Chip8::new();
    // put something on the screen first
    m.i = 0x50;
    m.v[0] = 4;
    m.v[1] = 2;
    m.op_dxyn(0, 1, 5);
    assert!(m.get_display_buffer().iter().any(|&c| c == PIXEL_ON));
    let pc0 = m.pc;
    m.op_00e0();
    assert!(m.update_window);
    assert_eq!(m.pc, pc0 + 2);
    for &cell in m.get_display_buffer() {
        assert_eq!(cell, PIXEL_OFF);
    }
    // consuming a frame clears the dirty flag; the buffer stays cleared
    m.update_window = false;
    assert!(!m.update_window);
    for &cell in m.get_display_buffer() {
        assert_eq!(cell, PIXEL_OFF);
    }
}

#[test]
fn draw_twice_toggles_back_and_collides() {
    let mut m = Chip8::new();
    m.i = 0x50; // glyph 0: 0xF0, 0x90, 0x90, 0x90, 0xF0
    m.v[0] = 4;
    m.v[1] = 2;
    m.op_dxyn(0, 1, 5);
    assert_eq!(m.v[15], 0); // nothing was on yet
    // top row of glyph 0: bits at columns 4..8 of row 2
    assert_eq!(m.get_display_buffer()[2 * 64 + 4], PIXEL_ON);
    assert_eq!(m.get_display_buffer()[2 * 64 + 7], PIXEL_ON);
    assert_eq!(m.get_display_buffer()[2 * 64 + 8], PIXEL_OFF);
    m.op_dxyn(0, 1, 5);
    assert_eq!(m.v[15], 1); // every drawn cell collided
    for &cell in m.get_display_buffer() {
        assert_eq!(cell, PIXEL_OFF);
    }
}

#[test]
fn draw_clips_at_right_and_bottom_edges() {
    let mut m = Chip8::new();
    m.i = 0x50;
    m.v[0] = 62; // two columns before the right edge
    m.v[1] = 31; // last row
    m.op_dxyn(0, 1, 5);
    // only row 31, columns 62 and 63 can be touched; 0xF0 sets both
    assert_eq!(m.get_display_buffer()[31 * 64 + 62], PIXEL_ON);
    assert_eq!(m.get_display_buffer()[31 * 64 + 63], PIXEL_ON);
    let on_count = m
        .get_display_buffer()
        .iter()
        .filter(|&&c| c == PIXEL_ON)
        .count();
    assert_eq!(on_count, 2);
}

#[test]
fn draw_wraps_start_coordinates_once() {
    let mut m = Chip8::new();
    m.i = 0x50;
    m.v[0] = 64 + 4; // wraps to 4
    m.v[1] = 32 + 2; // wraps to 2
    m.op_dxyn(0, 1, 1);
    assert_eq!(m.get_display_buffer()[2 * 64 + 4], PIXEL_ON);
}

#[test]
fn glyph_lookup_for_digit_a() {
    let mut m = Chip8::new();
    m.v[2] = 0xA;
    m.op_fx29(2);
    assert_eq!(m.i, 0x50 + 50);
    assert_eq!(&m.ram[m.i..m.i + 5], &[0xF0, 0x90, 0xF0, 0x90, 0x90]);
}

#[test]
fn glyph_lookup_uses_low_nibble_only() {
    let mut m = Chip8::new();
    m.v[2] = 0xFA; // high nibble ignored
    m.op_fx29(2);
    assert_eq!(m.i, 0x50 + 50);
}

#[test]
fn wait_for_key_release_arms_then_resolves() {
    let mut m = Chip8::new();
    let mut keys = [false; 16];
    keys[3] = true;
    m.set_keys(keys);
    let pc0 = m.pc;
    m.op_fx0a(7);
    // armed on key 3, program counter unchanged
    assert_eq!(m.pc, pc0);
    assert_eq!(m.waiting_key, Some(3));
    // key still down: stays armed
    m.op_fx0a(7);
    assert_eq!(m.pc, pc0);
    assert_eq!(m.waiting_key, Some(3));
    // key released: register written, counter advances
    m.set_keys([false; 16]);
    m.op_fx0a(7);
    assert_eq!(m.v[7], 3);
    assert_eq!(m.pc, pc0 + 2);
    assert_eq!(m.waiting_key, None);
}

#[test]
fn wait_for_key_release_idle_without_keys_stalls() {
    let mut m = Chip8::new();
    let pc0 = m.pc;
    m.op_fx0a(7);
    assert_eq!(m.pc, pc0);
    assert_eq!(m.waiting_key, None);
    assert_eq!(m.v[7], 0);
}

#[test]
fn timer_ticks_saturate_at_zero() {
    let mut m = Chip8::new();
    m.delay = 1;
    m.sound = 1;
    m.decrement_timers();
    assert_eq!(m.delay, 0);
    assert_eq!(m.sound, 0);
    m.decrement_timers();
    assert_eq!(m.delay, 0);
    m.decrement_timers();
    assert_eq!(m.delay, 0);
    assert_eq!(m.sound, 0);
}

#[test]
fn add_sets_carry_flag_and_wraps() {
    let mut m = Chip8::new();
    m.v[1] = 200;
    m.v[2] = 100;
    m.op_8xy4(1, 2);
    assert_eq!(m.v[1], 44); // 300 mod 256
    assert_eq!(m.v[15], 1);
    m.v[3] = 10;
    m.v[4] = 20;
    m.op_8xy4(3, 4);
    assert_eq!(m.v[3], 30);
    assert_eq!(m.v[15], 0);
}

#[test]
fn subtract_sets_no_borrow_flag_and_wraps() {
    let mut m = Chip8::new();
    m.v[1] = 50;
    m.v[2] = 20;
    m.op_8xy5(1, 2);
    assert_eq!(m.v[1], 30);
    assert_eq!(m.v[15], 1); // 50 >= 20
    m.v[3] = 20;
    m.v[4] = 50;
    m.op_8xy5(3, 4);
    assert_eq!(m.v[3], 226); // (20 - 50) mod 256
    assert_eq!(m.v[15], 0);
    // equal operands: no borrow
    m.v[5] = 7;
    m.v[6] = 7;
    m.op_8xy5(5, 6);
    assert_eq!(m.v[5], 0);
    assert_eq!(m.v[15], 1);
}

#[test]
fn subtract_reversed_swaps_operands() {
    let mut m = Chip8::new();
    m.v[1] = 20;
    m.v[2] = 50;
    m.op_8xy7(1, 2);
    assert_eq!(m.v[1], 30); // 50 - 20
    assert_eq!(m.v[15], 1); // 50 >= 20
    m.v[3] = 50;
    m.v[4] = 20;
    m.op_8xy7(3, 4);
    assert_eq!(m.v[3], 226);
    assert_eq!(m.v[15], 0);
}

#[test]
fn shifts_move_edge_bits_to_flag() {
    let mut m = Chip8::new();
    m.v[4] = 0b1001_0101;
    m.op_8xy6(4);
    assert_eq!(m.v[4], 0b0100_1010);
    assert_eq!(m.v[15], 1);
    m.v[4] = 0b1001_0100;
    m.op_8xy6(4);
    assert_eq!(m.v[4], 0b0100_1010);
    assert_eq!(m.v[15], 0);
    m.v[4] = 0b1001_0101;
    m.op_8xye(4);
    assert_eq!(m.v[4], 0b0010_1010);
    assert_eq!(m.v[15], 1);
    m.v[4] = 0b0001_0101;
    m.op_8xye(4);
    assert_eq!(m.v[4], 0b0010_1010);
    assert_eq!(m.v[15], 0);
}

#[test]
fn add_immediate_wraps_without_flag() {
    let mut m = Chip8::new();
    m.v[1] = 250;
    m.v[15] = 0;
    m.op_7xnn(1, 10);
    assert_eq!(m.v[1], 4); // 260 mod 256
    assert_eq!(m.v[15], 0); // flag untouched
}

#[test]
fn bitwise_ops_and_copy() {
    let mut m = Chip8::new();
    m.v[1] = 0b1100;
    m.v[2] = 0b1010;
    m.op_8xy1(1, 2);
    assert_eq!(m.v[1], 0b1110);
    m.v[1] = 0b1100;
    m.op_8xy2(1, 2);
    assert_eq!(m.v[1], 0b1000);
    m.v[1] = 0b1100;
    m.op_8xy3(1, 2);
    assert_eq!(m.v[1], 0b0110);
    m.op_8xy0(1, 2);
    assert_eq!(m.v[1], 0b1010);
}

#[test]
fn cycle_decodes_and_executes_program() {
    let mut m = Chip8::new();
    // load 0x23 into V1; add 0x10 to V1; jump back to the start
    let rom = [0x61, 0x23, 0x71, 0x10, 0x12, 0x00];
    assert_eq!(m.load_rom(&rom), Ok(()));
    m.cycle();
    assert_eq!(m.v[1], 0x23);
    assert_eq!(m.pc, 0x202);
    m.cycle();
    assert_eq!(m.v[1], 0x33);
    assert_eq!(m.pc, 0x204);
    m.cycle();
    assert_eq!(m.pc, 0x200);
}

#[test]
fn cycle_call_and_return() {
    let mut m = Chip8::new();
    // call 0x206; (filler); return
    let rom = [0x22, 0x06, 0x00, 0x00, 0x00, 0x00, 0x00, 0xEE];
    assert_eq!(m.load_rom(&rom), Ok(()));
    m.cycle();
    assert_eq!(m.pc, 0x206);
    m.cycle(); // the return
    assert_eq!(m.pc, 0x202);
}

#[test]
fn cycle_skip_instructions() {
    let mut m = Chip8::new();
    // V1 == 0x05 ? skip : fall through
    let rom = [0x31, 0x05];
    assert_eq!(m.load_rom(&rom), Ok(()));
    m.v[1] = 0x05;
    m.cycle();
    assert_eq!(m.pc, 0x204); // taken

    let mut m2 = Chip8::new();
    assert_eq!(m2.load_rom(&rom), Ok(()));
    m2.v[1] = 0x06;
    m2.cycle();
    assert_eq!(m2.pc, 0x202); // not taken
}

#[test]
fn skip_register_comparisons() {
    let mut m = Chip8::new();
    let pc0 = m.pc;
    m.v[1] = 9;
    m.v[2] = 9;
    m.op_5xy0(1, 2);
    assert_eq!(m.pc, pc0 + 4);
    m.v[2] = 8;
    let pc1 = m.pc;
    m.op_5xy0(1, 2);
    assert_eq!(m.pc, pc1 + 2);
    let pc2 = m.pc;
    m.op_9xy0(1, 2);
    assert_eq!(m.pc, pc2 + 4);
    let pc3 = m.pc;
    m.op_4xnn(1, 9);
    assert_eq!(m.pc, pc3 + 2);
}

#[test]
fn unknown_opcodes_are_skipped() {
    let mut m = Chip8::new();
    // 0xFFFF matches no instruction; 0x0ABC is the ignored 0-family
    let rom = [0xFF, 0xFF, 0x0A, 0xBC];
    assert_eq!(m.load_rom(&rom), Ok(()));
    m.cycle();
    assert_eq!(m.pc, 0x202);
    m.cycle();
    assert_eq!(m.pc, 0x204);
}

#[test]
fn return_on_empty_stack_falls_back_to_zero() {
    let mut m = Chip8::new();
    m.op_00ee();
    assert_eq!(m.pc, 0);
}

#[test]
fn cycle_with_program_counter_past_memory_end_stalls() {
    let mut m = Chip8::new();
    m.pc = 4095;
    m.cycle();
    assert_eq!(m.pc, 4095);
}

#[test]
fn key_skip_instructions() {
    let mut m = Chip8::new();
    let mut keys = [false; 16];
    keys[0xC] = true;
    m.set_keys(keys);
    m.v[1] = 0xC;
    let pc0 = m.pc;
    m.op_ex9e(1);
    assert_eq!(m.pc, pc0 + 4); // key down: skip
    let pc1 = m.pc;
    m.op_exa1(1);
    assert_eq!(m.pc, pc1 + 2); // key down: no skip
    m.v[2] = 0x1C; // only the low nibble names the key
    let pc2 = m.pc;
    m.op_ex9e(2);
    assert_eq!(m.pc, pc2 + 4);
}

#[test]
fn random_masked_by_zero_is_zero() {
    let mut m = Chip8::new();
    m.v[3] = 0xEE;
    m.op_cxnn(3, 0x00);
    assert_eq!(m.v[3], 0);
    m.op_cxnn(3, 0x0F);
    assert!(m.v[3] <= 0x0F);
}

#[test]
fn timer_transfer_instructions() {
    let mut m = Chip8::new();
    m.v[1] = 42;
    m.op_fx15(1);
    assert_eq!(m.delay, 42);
    m.op_fx18(1);
    assert_eq!(m.sound, 42);
    m.v[2] = 0;
    m.op_fx07(2);
    assert_eq!(m.v[2], 42);
}

#[test]
fn address_register_instructions() {
    let mut m = Chip8::new();
    m.op_annn(0x345);
    assert_eq!(m.i, 0x345);
    m.v[2] = 7;
    m.op_fx1e(2);
    assert_eq!(m.i, 0x345 + 7);
    m.v[0] = 5;
    m.op_bnnn(0x300);
    assert_eq!(m.pc, 0x305);
}

#[test]
fn bcd_store() {
    let mut m = Chip8::new();
    m.v[0] = 234;
    m.i = 0x300;
    m.op_fx33(0);
    assert_eq!(m.ram[0x300], 2);
    assert_eq!(m.ram[0x301], 3);
    assert_eq!(m.ram[0x302], 4);
}

#[test]
fn bcd_store_past_memory_end_writes_nothing() {
    let mut m = Chip8::new();
    m.v[0] = 234;
    m.i = 4094;
    let ram_before = m.ram.clone();
    let pc0 = m.pc;
    m.op_fx33(0);
    assert_eq!(m.ram, ram_before);
    assert_eq!(m.pc, pc0 + 2);
}

#[test]
fn register_range_store_and_load_round_trip() {
    let mut m = Chip8::new();
    m.v[0] = 10;
    m.v[1] = 20;
    m.v[2] = 30;
    m.v[3] = 40;
    m.i = 0x300;
    m.op_fx55(3);
    assert_eq!(&m.ram[0x300..0x304], &[10, 20, 30, 40]);
    assert_eq!(m.i, 0x300); // the address register itself is unchanged
    for r in 0..4 {
        m.v[r] = 0;
    }
    m.op_fx65(3);
    assert_eq!(&m.v[0..4], &[10, 20, 30, 40]);
}

#[test]
fn register_range_store_stops_at_memory_end() {
    let mut m = Chip8::new();
    m.v[0] = 11;
    m.v[1] = 22;
    m.v[2] = 33;
    m.v[3] = 44;
    m.i = 4094;
    m.op_fx55(3);
    assert_eq!(m.ram[4094], 11);
    assert_eq!(m.ram[4095], 22);
}

#[test]
fn stack_push_pop_and_underflow() {
    let mut s = Stack::new();
    s.push(0x204);
    s.push(0x208);
    assert_eq!(s.pop(), 0x208);
    assert_eq!(s.pop(), 0x204);
    assert_eq!(s.pop(), 0); // empty: safe fallback, no panic
}

#[test]
fn set_keys_replaces_state_wholesale() {
    let mut m = Chip8::new();
    let mut keys = [false; 16];
    keys[1] = true;
    keys[15] = true;
    m.set_keys(keys);
    assert_eq!(m.keys, keys);
    m.set_keys([false; 16]);
    assert_eq!(m.keys, [false; 16]);
}

#[test]
fn display_buffer_has_fixed_extent() {
    let m = Chip8::new();
    assert_eq!(m.get_display_buffer().len(), 64 * 32);
}
