//! End-to-end tests of the interpreter: each loads a small program, steps
//! the machine, and checks the resulting state through the public surface.

use chip8::{load_program, Chip8, RomError};

/// A machine with `rom` loaded at 0x200 and the font table in place.
fn machine_with(rom: &[u8]) -> Chip8 {
    let mut c = Chip8::new();
    c.load_fontset();
    load_program(&mut c, rom).expect("rom fits");
    c
}

fn step_n(c: &mut Chip8, n: usize) {
    for _ in 0..n {
        c.emulate_cycle();
    }
}

#[test]
fn fresh_machine_state() {
    let c = Chip8::new();
    assert_eq!(c.pc(), 0x200);
    assert_eq!(c.index_register(), 0);
    assert_eq!(c.stack_pointer(), 0);
    assert_eq!(c.delay_timer(), 0);
    assert_eq!(c.sound_timer(), 0);
    assert!(!c.halted());
    assert!(!c.unknown_opcode());
    assert_eq!(c.draw_flag, 0);
    for j in 0..16 {
        assert_eq!(c.register(j), 0);
    }
    for row in 0..32 {
        for col in 0..64 {
            assert_eq!(c.pixel(col, row), 0);
        }
    }
}

#[test]
fn fontset_is_written() {
    let mut c = Chip8::new();
    c.load_fontset();
    // Glyph 0 starts with 0xF0; glyph A sits at 10 * 5 = 50; the last
    // byte of glyph F is 0x80.
    assert_eq!(c.memory_at(0), 0xF0);
    assert_eq!(c.memory_at(50), 0xF0);
    assert_eq!(c.memory_at(51), 0x90);
    assert_eq!(c.memory_at(79), 0x80);
    // Memory above the table is untouched.
    assert_eq!(c.memory_at(80), 0);
}

#[test]
fn rom_is_loaded_at_0x200() {
    let c = machine_with(&[0xAB, 0xCD, 0xEF]);
    assert_eq!(c.memory_at(0x200), 0xAB);
    assert_eq!(c.memory_at(0x201), 0xCD);
    assert_eq!(c.memory_at(0x202), 0xEF);
    assert_eq!(c.memory_at(0x203), 0);
}

#[test]
fn oversized_rom_is_rejected() {
    let mut c = Chip8::new();
    let big = vec![0x11u8; 3585];
    assert_eq!(load_program(&mut c, &big), Err(RomError::TooLarge));
    // The machine is untouched.
    assert_eq!(c.memory_at(0x200), 0);
    assert_eq!(c.pc(), 0x200);
}

#[test]
fn largest_rom_is_accepted() {
    let mut c = Chip8::new();
    let big = vec![0x22u8; 3584];
    assert_eq!(load_program(&mut c, &big), Ok(()));
    assert_eq!(c.memory_at(0x200), 0x22);
    assert_eq!(c.memory_at(0xFFF), 0x22);
}

#[test]
fn add_immediate_wraps_mod_256() {
    // V0 = 0xFF; V0 += 1 wraps to 0; no flag is touched.
    let mut c = machine_with(&[0x60, 0xFF, 0x70, 0x01]);
    step_n(&mut c, 2);
    assert_eq!(c.register(0), 0x00);
    assert_eq!(c.register(15), 0x00);
    assert_eq!(c.pc(), 0x204);
}

#[test]
fn add_registers_carry_flag() {
    // 0xFF + 0x01 = 0x00 carry 1.
    let mut c = machine_with(&[0x60, 0xFF, 0x61, 0x01, 0x80, 0x14]);
    step_n(&mut c, 3);
    assert_eq!(c.register(0), 0x00);
    assert_eq!(c.register(15), 1);

    // 0x01 + 0x01 = 0x02 carry 0.
    let mut c = machine_with(&[0x60, 0x01, 0x61, 0x01, 0x80, 0x14]);
    step_n(&mut c, 3);
    assert_eq!(c.register(0), 0x02);
    assert_eq!(c.register(15), 0);
}

#[test]
fn sub_registers_borrow_flag() {
    // 5 - 3 = 2, no borrow: VF = 1.
    let mut c = machine_with(&[0x60, 0x05, 0x61, 0x03, 0x80, 0x15]);
    step_n(&mut c, 3);
    assert_eq!(c.register(0), 0x02);
    assert_eq!(c.register(15), 1);

    // 3 - 5 wraps to 0xFE, borrow: VF = 0.
    let mut c = machine_with(&[0x60, 0x03, 0x61, 0x05, 0x80, 0x15]);
    step_n(&mut c, 3);
    assert_eq!(c.register(0), 0xFE);
    assert_eq!(c.register(15), 0);
}

#[test]
fn sub_reversed_borrow_flag() {
    // 8xy7: V0 = V1 - V0 = 5 - 3 = 2, no borrow: VF = 1.
    let mut c = machine_with(&[0x60, 0x03, 0x61, 0x05, 0x80, 0x17]);
    step_n(&mut c, 3);
    assert_eq!(c.register(0), 0x02);
    assert_eq!(c.register(15), 1);

    // V0 = V1 - V0 = 3 - 5 wraps to 0xFE, borrow: VF = 0.
    let mut c = machine_with(&[0x60, 0x05, 0x61, 0x03, 0x80, 0x17]);
    step_n(&mut c, 3);
    assert_eq!(c.register(0), 0xFE);
    assert_eq!(c.register(15), 0);
}

#[test]
fn logic_and_copy_ops() {
    // 8xy0 copy, 8xy1 or, 8xy2 and, 8xy3 xor.
    let mut c = machine_with(&[0x60, 0x0C, 0x61, 0x0A, 0x80, 0x11]);
    step_n(&mut c, 3);
    assert_eq!(c.register(0), 0x0E);

    let mut c = machine_with(&[0x60, 0x0C, 0x61, 0x0A, 0x80, 0x12]);
    step_n(&mut c, 3);
    assert_eq!(c.register(0), 0x08);

    let mut c = machine_with(&[0x60, 0x0C, 0x61, 0x0A, 0x80, 0x13]);
    step_n(&mut c, 3);
    assert_eq!(c.register(0), 0x06);

    let mut c = machine_with(&[0x60, 0x0C, 0x61, 0x0A, 0x80, 0x10]);
    step_n(&mut c, 3);
    assert_eq!(c.register(0), 0x0A);
}

#[test]
fn shift_right_takes_source_register() {
    // 8xy6: VF = old V[x] & 1; V[x] = V[y] >> 1.
    let mut c = machine_with(&[0x60, 0x03, 0x61, 0x08, 0x80, 0x16]);
    step_n(&mut c, 3);
    assert_eq!(c.register(0), 0x04);
    assert_eq!(c.register(15), 1);
}

#[test]
fn shift_left_takes_source_register() {
    // 8xyE: VF = high bit of old V[x]; V[x] = V[y] << 1 mod 256.
    let mut c = machine_with(&[0x60, 0x80, 0x61, 0x41, 0x80, 0x1E]);
    step_n(&mut c, 3);
    assert_eq!(c.register(0), 0x82);
    assert_eq!(c.register(15), 1);

    // Left shift wraps modulo 256.
    let mut c = machine_with(&[0x60, 0x00, 0x61, 0x81, 0x80, 0x1E]);
    step_n(&mut c, 3);
    assert_eq!(c.register(0), 0x02);
    assert_eq!(c.register(15), 0);
}

#[test]
fn skip_instructions() {
    // 3xnn skips when equal.
    let mut c = machine_with(&[0x60, 0x07, 0x30, 0x07]);
    step_n(&mut c, 2);
    assert_eq!(c.pc(), 0x206);

    // 3xnn does not skip when unequal.
    let mut c = machine_with(&[0x60, 0x07, 0x30, 0x08]);
    step_n(&mut c, 2);
    assert_eq!(c.pc(), 0x204);

    // 4xnn skips when unequal.
    let mut c = machine_with(&[0x60, 0x07, 0x40, 0x08]);
    step_n(&mut c, 2);
    assert_eq!(c.pc(), 0x206);

    // 5xy0 skips when the registers agree.
    let mut c = machine_with(&[0x60, 0x07, 0x61, 0x07, 0x50, 0x10]);
    step_n(&mut c, 3);
    assert_eq!(c.pc(), 0x208);

    // 9xy0 skips when they differ.
    let mut c = machine_with(&[0x60, 0x07, 0x61, 0x08, 0x90, 0x10]);
    step_n(&mut c, 3);
    assert_eq!(c.pc(), 0x208);
}

#[test]
fn jump_with_offset() {
    // Bnnn: pc = nnn + V0.
    let mut c = machine_with(&[0x60, 0x04, 0xB2, 0x00]);
    step_n(&mut c, 2);
    assert_eq!(c.pc(), 0x204);
}

#[test]
fn index_register_ops() {
    // Annn then Fx1E.
    let mut c = machine_with(&[0xA0, 0x10, 0x60, 0x05, 0xF0, 0x1E]);
    step_n(&mut c, 3);
    assert_eq!(c.index_register(), 0x15);
}

#[test]
fn call_and_return_round_trip() {
    // 0x200: call 0x206; 0x206: call 0x20A; 0x20A: return; 0x208: return.
    let rom = [
        0x22, 0x06, // 0x200 call 0x206
        0x00, 0x00, // 0x202
        0x00, 0x00, // 0x204
        0x22, 0x0A, // 0x206 call 0x20A
        0x00, 0xEE, // 0x208 return (to 0x202)
        0x00, 0xEE, // 0x20A return (to 0x208)
    ];
    let mut c = machine_with(&rom);
    c.emulate_cycle();
    assert_eq!(c.pc(), 0x206);
    assert_eq!(c.stack_pointer(), 1);
    assert_eq!(c.stack_at(0), 0x200);
    c.emulate_cycle();
    assert_eq!(c.pc(), 0x20A);
    assert_eq!(c.stack_pointer(), 2);
    assert_eq!(c.stack_at(1), 0x206);
    c.emulate_cycle();
    assert_eq!(c.pc(), 0x208);
    assert_eq!(c.stack_pointer(), 1);
    c.emulate_cycle();
    assert_eq!(c.pc(), 0x202);
    assert_eq!(c.stack_pointer(), 0);
}

#[test]
fn deep_nesting_to_sixteen_calls() {
    // Sixteen nested subroutines, each laid out as "call next; return":
    // subroutine k sits at 0x200 + 4k and calls 0x200 + 4(k+1); the
    // innermost target at 0x240 returns at once, and the sixteen returns
    // cascade back to the instruction after the first call.
    let mut rom: Vec<u8> = Vec::new();
    for k in 0..16u16 {
        let target = 0x204 + 4 * k;
        rom.push(0x20 | (target >> 8) as u8);
        rom.push((target & 0xFF) as u8);
        rom.push(0x00);
        rom.push(0xEE);
    }
    rom.push(0x00);
    rom.push(0xEE);
    let mut c = machine_with(&rom);
    step_n(&mut c, 16);
    assert_eq!(c.stack_pointer(), 16);
    assert_eq!(c.pc(), 0x240);
    for k in 0..16u16 {
        assert_eq!(c.stack_at(k as usize), 0x200 + 4 * k);
    }
    // The first return pops the call made at 0x23C and lands on the
    // return right after it; each later return does the same one level up.
    c.emulate_cycle();
    assert_eq!(c.stack_pointer(), 15);
    assert_eq!(c.pc(), 0x23E);
    step_n(&mut c, 15);
    assert_eq!(c.stack_pointer(), 0);
    assert_eq!(c.pc(), 0x202);
}

#[test]
fn call_beyond_sixteen_is_ignored() {
    // A call to its own address pushes the same frame every cycle; the
    // seventeenth call finds the stack full, is ignored, and execution
    // moves on.
    let mut c = machine_with(&[0x22, 0x00, 0x00, 0xEE]);
    step_n(&mut c, 16);
    assert_eq!(c.stack_pointer(), 16);
    assert_eq!(c.pc(), 0x200);
    c.emulate_cycle();
    assert_eq!(c.stack_pointer(), 16);
    assert_eq!(c.pc(), 0x202);
    // The return at 0x202 pops the saved 0x200 and resumes after it.
    c.emulate_cycle();
    assert_eq!(c.stack_pointer(), 15);
    assert_eq!(c.pc(), 0x202);
}

#[test]
fn return_with_empty_stack_is_ignored() {
    let mut c = machine_with(&[0x00, 0xEE]);
    c.emulate_cycle();
    assert_eq!(c.stack_pointer(), 0);
    assert_eq!(c.pc(), 0x202);
    assert!(!c.halted());
    // The instruction itself is recognized: no diagnostic mark.
    assert!(!c.unknown_opcode());
}

#[test]
fn self_jump_sets_halt() {
    let mut c = machine_with(&[0x12, 0x00]);
    c.emulate_cycle();
    assert!(c.halted());
    assert_eq!(c.pc(), 0x200);
}

#[test]
fn ordinary_jump_does_not_halt() {
    let mut c = machine_with(&[0x12, 0x04, 0x00, 0x00, 0x60, 0x09]);
    c.emulate_cycle();
    assert!(!c.halted());
    assert_eq!(c.pc(), 0x204);
    c.emulate_cycle();
    assert_eq!(c.register(0), 9);
}

#[test]
fn timers_count_down_to_zero_and_stay() {
    // Five no-op-ish cycles bring a delay timer of 5 to 0; further cycles
    // leave it at 0.
    let mut c = machine_with(&[0x60, 0x00, 0x60, 0x00, 0x60, 0x00, 0x60, 0x00, 0x60, 0x00,
        0x60, 0x00, 0x60, 0x00]);
    c.set_delay_timer(5);
    c.set_sound_timer(3);
    step_n(&mut c, 5);
    assert_eq!(c.delay_timer(), 0);
    assert_eq!(c.sound_timer(), 0);
    step_n(&mut c, 2);
    assert_eq!(c.delay_timer(), 0);
    assert_eq!(c.sound_timer(), 0);
}

#[test]
fn timer_write_and_read_back() {
    // Fx15 sets the delay timer from V0; the same cycle already counts it
    // down once.  Fx07 then reads it into V1 before the next tick.
    let mut c = machine_with(&[0x60, 0x05, 0xF0, 0x15, 0xF1, 0x07]);
    step_n(&mut c, 2);
    assert_eq!(c.delay_timer(), 4);
    c.emulate_cycle();
    assert_eq!(c.register(1), 4);
    assert_eq!(c.delay_timer(), 3);
}

#[test]
fn font_address_instruction() {
    // Fx29 with V0 = 0xA points I at glyph A: 10 * 5 = 50.
    let mut c = machine_with(&[0x60, 0x0A, 0xF0, 0x29]);
    step_n(&mut c, 2);
    assert_eq!(c.index_register(), 50);
}

#[test]
fn bcd_of_195() {
    // Fx33 with V0 = 195 stores 1, 9, 5 at I, I+1, I+2.
    let mut c = machine_with(&[0x60, 0xC3, 0xA3, 0x00, 0xF0, 0x33]);
    step_n(&mut c, 3);
    assert_eq!(c.memory_at(0x300), 1);
    assert_eq!(c.memory_at(0x301), 9);
    assert_eq!(c.memory_at(0x302), 5);
}

#[test]
fn store_and_load_registers() {
    // Fx55 stores V0..=V2 at I; Fx65 reads them back into fresh registers.
    let rom = [
        0x60, 0x11, // V0 = 0x11
        0x61, 0x22, // V1 = 0x22
        0x62, 0x33, // V2 = 0x33
        0xA3, 0x00, // I = 0x300
        0xF2, 0x55, // store V0..=V2
        0x60, 0x00, // clobber V0
        0x61, 0x00, // clobber V1
        0x62, 0x00, // clobber V2
        0xF2, 0x65, // load V0..=V2 back
    ];
    let mut c = machine_with(&rom);
    step_n(&mut c, 5);
    assert_eq!(c.memory_at(0x300), 0x11);
    assert_eq!(c.memory_at(0x301), 0x22);
    assert_eq!(c.memory_at(0x302), 0x33);
    step_n(&mut c, 4);
    assert_eq!(c.register(0), 0x11);
    assert_eq!(c.register(1), 0x22);
    assert_eq!(c.register(2), 0x33);
}

#[test]
fn sprite_draw_and_collision() {
    // Put the one-row sprite 0x3C at 0x300, then draw it twice at (5, 6):
    // the first draw lights pixels with no collision, the second erases
    // them and raises VF.
    let rom = [
        0x60, 0x3C, // V0 = 0x3C (the sprite row)
        0xA3, 0x00, // I = 0x300
        0xF0, 0x55, // store V0 at 0x300
        0x61, 0x05, // V1 = 5 (x)
        0x62, 0x06, // V2 = 6 (y)
        0xD1, 0x21, // draw 1 row at (V1, V2)
        0xD1, 0x21, // draw it again
    ];
    let mut c = machine_with(&rom);
    step_n(&mut c, 5);
    // No instruction so far touched the framebuffer.
    assert_eq!(c.draw_flag, 0);
    c.emulate_cycle();
    // 0x3C = 0011_1100: columns 5+2 .. 5+5 are lit on row 6.
    assert_eq!(c.pixel(5, 6), 0);
    assert_eq!(c.pixel(6, 6), 0);
    assert_eq!(c.pixel(7, 6), 1);
    assert_eq!(c.pixel(8, 6), 1);
    assert_eq!(c.pixel(9, 6), 1);
    assert_eq!(c.pixel(10, 6), 1);
    assert_eq!(c.pixel(11, 6), 0);
    assert_eq!(c.pixel(12, 6), 0);
    assert_eq!(c.register(15), 0);
    assert_eq!(c.draw_flag, 1);
    c.emulate_cycle();
    for col in 5..13 {
        assert_eq!(c.pixel(col, 6), 0);
    }
    assert_eq!(c.register(15), 1);
}

#[test]
fn sprite_draw_wraps_around_edges() {
    // Drawing an 8-wide row at column 60 wraps its tail to columns 0..4;
    // a row at y = 31 with two rows wraps the second row to y = 0.
    let rom = [
        0x60, 0xFF, // V0 = 0xFF: all eight bits set
        0xA3, 0x00, // I = 0x300
        0xF0, 0x55, // store it
        0x61, 0x3C, // V1 = 60 (x)
        0x62, 0x1F, // V2 = 31 (y)
        0xD1, 0x21, // draw one full row at (60, 31)
    ];
    let mut c = machine_with(&rom);
    step_n(&mut c, 6);
    for col in [60usize, 61, 62, 63, 0, 1, 2, 3] {
        assert_eq!(c.pixel(col, 31), 1);
    }
    assert_eq!(c.pixel(4, 31), 0);
    assert_eq!(c.register(15), 0);
}

#[test]
fn clear_screen() {
    let rom = [
        0x60, 0xFF, // V0 = 0xFF
        0xA3, 0x00, // I = 0x300
        0xF0, 0x55, // store it
        0xD0, 0x01, // draw at (V0? no: x=0,y=0) one row -> lights pixels
        0x00, 0xE0, // clear
    ];
    let mut c = machine_with(&rom);
    step_n(&mut c, 4);
    // V0 is 0xFF so the sprite was drawn at (255 % 64, 255 % 32) = (63, 31).
    assert_eq!(c.pixel(63, 31), 1);
    c.draw_flag = 0;
    c.emulate_cycle();
    for row in 0..32 {
        for col in 0..64 {
            assert_eq!(c.pixel(col, row), 0);
        }
    }
    assert_eq!(c.draw_flag, 1);
}

#[test]
fn unknown_opcode_is_a_noop() {
    // 8xy8 is no instruction: registers stay put, pc advances, and the
    // diagnostic mark is raised; the next recognized instruction clears it.
    let mut c = machine_with(&[0x80, 0x08, 0x60, 0x01]);
    c.emulate_cycle();
    assert_eq!(c.pc(), 0x202);
    assert!(c.unknown_opcode());
    for j in 0..16 {
        assert_eq!(c.register(j), 0);
    }
    c.emulate_cycle();
    assert!(!c.unknown_opcode());
    assert_eq!(c.register(0), 1);
}

#[test]
fn unknown_opcodes_in_each_family_are_marked() {
    // An unrecognized low nibble or byte in the 0, 8, E and F families
    // raises the mark and advances the program counter.
    for rom in [[0x00u8, 0x05], [0x80, 0x08], [0xE0, 0x00], [0xF0, 0xFF]] {
        let mut c = machine_with(&rom);
        c.emulate_cycle();
        assert!(c.unknown_opcode());
        assert_eq!(c.pc(), 0x202);
    }
}

#[test]
fn random_byte_is_masked() {
    // Cxnn masks the random byte with nn: with nn = 0 the result is 0,
    // with nn = 0x0F it fits in the low nibble.
    let mut c = machine_with(&[0xC0, 0x00, 0xC1, 0x0F]);
    step_n(&mut c, 2);
    assert_eq!(c.register(0), 0);
    assert!(c.register(1) <= 0x0F);
}

#[test]
fn key_skip_instructions() {
    // Ex9E skips when the key in V0 is down.
    let mut c = machine_with(&[0x60, 0x05, 0xE0, 0x9E]);
    c.set_key(5, true);
    step_n(&mut c, 2);
    assert_eq!(c.pc(), 0x206);

    let mut c = machine_with(&[0x60, 0x05, 0xE0, 0x9E]);
    step_n(&mut c, 2);
    assert_eq!(c.pc(), 0x204);

    // ExA1 skips when it is up.
    let mut c = machine_with(&[0x60, 0x05, 0xE0, 0xA1]);
    step_n(&mut c, 2);
    assert_eq!(c.pc(), 0x206);

    let mut c = machine_with(&[0x60, 0x05, 0xE0, 0xA1]);
    c.set_key(5, true);
    step_n(&mut c, 2);
    assert_eq!(c.pc(), 0x204);
}

#[test]
fn key_wait_blocks_until_a_key() {
    let mut c = machine_with(&[0xF0, 0x0A]);
    c.emulate_cycle();
    assert_eq!(c.pc(), 0x200);
    c.emulate_cycle();
    assert_eq!(c.pc(), 0x200);
    c.set_key(3, true);
    c.emulate_cycle();
    assert_eq!(c.pc(), 0x202);
    assert_eq!(c.register(0), 3);
}

#[test]
fn key_wait_takes_highest_key() {
    let mut c = machine_with(&[0xF0, 0x0A]);
    c.set_key(3, true);
    c.set_key(7, true);
    c.emulate_cycle();
    assert_eq!(c.register(0), 7);
}

#[test]
fn sound_timer_write() {
    // Fx18 sets the sound timer; the same cycle counts it down once.
    let mut c = machine_with(&[0x60, 0x09, 0xF0, 0x18]);
    step_n(&mut c, 2);
    assert_eq!(c.sound_timer(), 8);
}
