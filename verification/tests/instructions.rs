use chip8_emulator::cpu::Chip8;
use chip8_emulator::machine::{Outcome, PIXEL_OFF, PIXEL_ON};
use chip8_emulator::opcode::Instruction;

fn loaded(program: &[u8]) -> Chip8 {
    let mut chip = Chip8::new();
    chip.load_program(program);
    chip
}

fn run(chip: &mut Chip8) -> Outcome {
    assert_eq!(chip.fault(), None);
    chip.cycle_with(0)
}

#[test]
fn new_machine_holds_font_and_zeroes() {
    let chip = Chip8::new();
    assert_eq!(&chip.memory[0..5], &[0xF0, 0x90, 0x90, 0x90, 0xF0]);
    assert_eq!(&chip.memory[5..10], &[0x20, 0x60, 0x20, 0x20, 0x70]);
    assert_eq!(&chip.memory[75..80], &[0xF0, 0x80, 0xF0, 0x80, 0x80]);
    assert!(chip.memory[80..].iter().all(|b| *b == 0));
    assert!(chip.registers.iter().all(|r| *r == 0));
    assert!(chip.display.iter().all(|p| *p == 0));
    assert!(chip.stack.iter().all(|s| *s == 0));
    assert!(chip.keys.iter().all(|k| !*k));
    assert_eq!(chip.program_counter, 0);
    assert_eq!(chip.stack_pointer, 0);
    assert_eq!(chip.index, 0);
    assert_eq!(chip.delay_timer, 0);
    assert_eq!(chip.sound_timer, 0);
}

#[test]
fn load_program_copies_image_and_sets_program_counter() {
    let mut chip = Chip8::new();
    chip.memory[0x1FF] = 7;
    chip.memory[0x203] = 9;
    chip.load_program(&[0xAA, 0xBB, 0xCC]);
    assert_eq!(chip.program_counter, 0x200);
    assert_eq!(chip.memory[0x1FF], 7);
    assert_eq!(&chip.memory[0x200..0x204], &[0xAA, 0xBB, 0xCC, 9]);
    assert_eq!(chip.memory[0], 0xF0);
}

#[test]
fn load_program_takes_the_largest_image() {
    let image = vec![0x5Au8; 4096 - 0x200];
    let mut chip = Chip8::new();
    chip.load_program(&image);
    assert_eq!(chip.memory[0x200], 0x5A);
    assert_eq!(chip.memory[4095], 0x5A);
    assert_eq!(chip.memory[0x1FF], 0);
}

#[test]
fn set_key_presses_and_releases() {
    let mut chip = Chip8::new();
    chip.set_key(3, true);
    assert!(chip.keys[3]);
    assert!(!chip.keys[2]);
    chip.set_key(3, false);
    assert!(!chip.keys[3]);
}

#[test]
fn fetch_splits_a_word_into_fields() {
    let i = Instruction::fetch(0xD1, 0x25);
    assert_eq!(i.opcode, 0xD125);
    assert_eq!(i.family, 0xD);
    assert_eq!(i.x, 1);
    assert_eq!(i.y, 2);
    assert_eq!(i.n, 5);
    assert_eq!(i.nn, 0x25);
    assert_eq!(i.nnn, 0x125);
}

#[test]
fn fetch_fields_recompose_for_every_byte_pair() {
    for hi in 0..=255u8 {
        for lo in 0..=255u8 {
            let i = Instruction::fetch(hi, lo);
            assert_eq!(i.opcode, (hi as u16) * 256 + lo as u16);
            assert_eq!(i.family, hi >> 4);
            assert_eq!(i.x, (hi & 0x0F) as usize);
            assert_eq!(i.y, (lo >> 4) as usize);
            assert_eq!(i.n, lo & 0x0F);
            assert_eq!(i.nn, lo);
            assert_eq!(i.nnn, ((hi & 0x0F) as u16) << 8 | lo as u16);
        }
    }
}

#[test]
fn clear_screen_darkens_every_pixel() {
    let mut chip = loaded(&[0x00, 0xE0]);
    chip.display[0] = 1;
    chip.display[2047] = 1;
    assert_eq!(run(&mut chip), Outcome::Executed);
    assert!(chip.display.iter().all(|p| *p == 0));
    assert_eq!(chip.program_counter, 0x202);
}

#[test]
fn jump_sets_program_counter() {
    let mut chip = loaded(&[0x1A, 0xBC]);
    assert_eq!(run(&mut chip), Outcome::Executed);
    assert_eq!(chip.program_counter, 0xABC);
}

#[test]
fn call_pushes_the_address_after_the_call() {
    let mut chip = loaded(&[0x23, 0x45]);
    assert_eq!(run(&mut chip), Outcome::Executed);
    assert_eq!(chip.program_counter, 0x345);
    assert_eq!(chip.stack_pointer, 1);
    assert_eq!(chip.stack[0], 0x202);
}

#[test]
fn return_resumes_at_the_popped_address() {
    let mut chip = loaded(&[0x00, 0xEE]);
    chip.stack[0] = 0x111;
    chip.stack[1] = 0x456;
    chip.stack_pointer = 2;
    assert_eq!(run(&mut chip), Outcome::Executed);
    assert_eq!(chip.program_counter, 0x456);
    assert_eq!(chip.stack_pointer, 1);
}

#[test]
fn skip_if_equal_skips_on_match_only() {
    let mut chip = loaded(&[0x32, 0x42]);
    chip.registers[2] = 0x42;
    run(&mut chip);
    assert_eq!(chip.program_counter, 0x204);
    let mut chip = loaded(&[0x32, 0x42]);
    chip.registers[2] = 0x41;
    run(&mut chip);
    assert_eq!(chip.program_counter, 0x202);
}

#[test]
fn skip_if_not_equal_skips_on_mismatch_only() {
    let mut chip = loaded(&[0x42, 0x42]);
    chip.registers[2] = 0x41;
    run(&mut chip);
    assert_eq!(chip.program_counter, 0x204);
    let mut chip = loaded(&[0x42, 0x42]);
    chip.registers[2] = 0x42;
    run(&mut chip);
    assert_eq!(chip.program_counter, 0x202);
}

#[test]
fn skip_if_registers_equal() {
    let mut chip = loaded(&[0x51, 0x20]);
    chip.registers[1] = 9;
    chip.registers[2] = 9;
    run(&mut chip);
    assert_eq!(chip.program_counter, 0x204);
    let mut chip = loaded(&[0x51, 0x20]);
    chip.registers[1] = 9;
    chip.registers[2] = 8;
    run(&mut chip);
    assert_eq!(chip.program_counter, 0x202);
}

#[test]
fn skip_if_registers_differ() {
    let mut chip = loaded(&[0x91, 0x20]);
    chip.registers[1] = 9;
    chip.registers[2] = 8;
    run(&mut chip);
    assert_eq!(chip.program_counter, 0x204);
    let mut chip = loaded(&[0x91, 0x20]);
    chip.registers[1] = 9;
    chip.registers[2] = 9;
    run(&mut chip);
    assert_eq!(chip.program_counter, 0x202);
}

#[test]
fn load_immediate_sets_register() {
    let mut chip = loaded(&[0x6B, 0x7F]);
    assert_eq!(run(&mut chip), Outcome::Executed);
    assert_eq!(chip.registers[0xB], 0x7F);
    assert_eq!(chip.program_counter, 0x202);
}

#[test]
fn add_immediate_wraps_and_leaves_flag() {
    let mut chip = loaded(&[0x73, 0x02]);
    chip.registers[3] = 0xFF;
    chip.registers[0xF] = 0x55;
    run(&mut chip);
    assert_eq!(chip.registers[3], 0x01);
    assert_eq!(chip.registers[0xF], 0x55);
    assert_eq!(chip.program_counter, 0x202);
}

#[test]
fn alu_assign_or_and_xor() {
    let mut chip = loaded(&[0x81, 0x20, 0x81, 0x21, 0x81, 0x22, 0x81, 0x23]);
    chip.registers[1] = 0b1100;
    chip.registers[2] = 0b1010;
    run(&mut chip);
    assert_eq!(chip.registers[1], 0b1010);
    chip.registers[1] = 0b1100;
    run(&mut chip);
    assert_eq!(chip.registers[1], 0b1110);
    chip.registers[1] = 0b1100;
    run(&mut chip);
    assert_eq!(chip.registers[1], 0b1000);
    chip.registers[1] = 0b1100;
    run(&mut chip);
    assert_eq!(chip.registers[1], 0b0110);
    assert_eq!(chip.registers[2], 0b1010);
    assert_eq!(chip.program_counter, 0x208);
}

#[test]
fn add_with_carry_sets_flag_on_overflow() {
    let mut chip = loaded(&[0x81, 0x24]);
    chip.registers[1] = 0xFF;
    chip.registers[2] = 0x01;
    assert_eq!(run(&mut chip), Outcome::Executed);
    assert_eq!(chip.registers[1], 0x00);
    assert_eq!(chip.registers[0xF], 1);
}

#[test]
fn add_with_carry_clears_flag_without_overflow() {
    let mut chip = loaded(&[0x81, 0x24]);
    chip.registers[1] = 0x01;
    chip.registers[2] = 0x01;
    chip.registers[0xF] = 1;
    run(&mut chip);
    assert_eq!(chip.registers[1], 0x02);
    assert_eq!(chip.registers[0xF], 0);
}

#[test]
fn add_into_flag_register_keeps_the_flag() {
    let mut chip = loaded(&[0x8F, 0x14]);
    chip.registers[0xF] = 200;
    chip.registers[1] = 100;
    run(&mut chip);
    assert_eq!(chip.registers[0xF], 1);
}

#[test]
fn subtract_with_borrow_wraps_and_clears_flag() {
    let mut chip = loaded(&[0x81, 0x25]);
    chip.registers[1] = 5;
    chip.registers[2] = 10;
    chip.registers[0xF] = 1;
    run(&mut chip);
    assert_eq!(chip.registers[1], 251);
    assert_eq!(chip.registers[0xF], 0);
}

#[test]
fn subtract_without_borrow_sets_flag() {
    let mut chip = loaded(&[0x81, 0x25]);
    chip.registers[1] = 10;
    chip.registers[2] = 5;
    run(&mut chip);
    assert_eq!(chip.registers[1], 5);
    assert_eq!(chip.registers[0xF], 1);
}

#[test]
fn subtract_equal_values_sets_flag() {
    let mut chip = loaded(&[0x81, 0x25]);
    chip.registers[1] = 7;
    chip.registers[2] = 7;
    run(&mut chip);
    assert_eq!(chip.registers[1], 0);
    assert_eq!(chip.registers[0xF], 1);
}

#[test]
fn shift_right_moves_low_bit_into_flag() {
    let mut chip = loaded(&[0x81, 0x26]);
    chip.registers[1] = 0b0000_0011;
    run(&mut chip);
    assert_eq!(chip.registers[1], 0b0000_0001);
    assert_eq!(chip.registers[0xF], 1);
}

#[test]
fn shift_right_of_even_value_clears_flag() {
    let mut chip = loaded(&[0x81, 0x26]);
    chip.registers[1] = 0b1000_0010;
    chip.registers[0xF] = 1;
    run(&mut chip);
    assert_eq!(chip.registers[1], 0b0100_0001);
    assert_eq!(chip.registers[0xF], 0);
}

#[test]
fn shift_right_of_flag_register_leaves_the_flag() {
    let mut chip = loaded(&[0x8F, 0xF6, 0x8F, 0xF6]);
    chip.registers[0xF] = 3;
    run(&mut chip);
    assert_eq!(chip.registers[0xF], 1);
    chip.registers[0xF] = 0b0000_0110;
    run(&mut chip);
    assert_eq!(chip.registers[0xF], 0);
}

#[test]
fn shift_left_of_flag_register_leaves_the_flag() {
    let mut chip = loaded(&[0x8F, 0xFE, 0x8F, 0xFE]);
    chip.registers[0xF] = 0x80;
    run(&mut chip);
    assert_eq!(chip.registers[0xF], 1);
    chip.registers[0xF] = 0x41;
    run(&mut chip);
    assert_eq!(chip.registers[0xF], 0);
}

#[test]
fn subtract_from_flag_register_leaves_the_flag() {
    let mut chip = loaded(&[0x8F, 0x15, 0x8F, 0x17]);
    chip.registers[0xF] = 3;
    chip.registers[1] = 9;
    run(&mut chip);
    assert_eq!(chip.registers[0xF], 0);
    chip.registers[0xF] = 3;
    run(&mut chip);
    assert_eq!(chip.registers[0xF], 1);
}

#[test]
fn reverse_subtract_sets_flag_without_borrow() {
    let mut chip = loaded(&[0x81, 0x27]);
    chip.registers[1] = 5;
    chip.registers[2] = 10;
    run(&mut chip);
    assert_eq!(chip.registers[1], 5);
    assert_eq!(chip.registers[0xF], 1);
}

#[test]
fn reverse_subtract_wraps_on_borrow() {
    let mut chip = loaded(&[0x81, 0x27]);
    chip.registers[1] = 10;
    chip.registers[2] = 5;
    chip.registers[0xF] = 1;
    run(&mut chip);
    assert_eq!(chip.registers[1], 251);
    assert_eq!(chip.registers[0xF], 0);
}

#[test]
fn shift_left_moves_bit_seven_into_flag() {
    let mut chip = loaded(&[0x81, 0x2E]);
    chip.registers[1] = 0b1010_0001;
    run(&mut chip);
    assert_eq!(chip.registers[1], 0b0100_0010);
    assert_eq!(chip.registers[0xF], 1);
}

#[test]
fn shift_left_ignores_bit_five() {
    let mut chip = loaded(&[0x81, 0x2E]);
    chip.registers[1] = 0b0010_0000;
    chip.registers[0xF] = 1;
    run(&mut chip);
    assert_eq!(chip.registers[1], 0b0100_0000);
    assert_eq!(chip.registers[0xF], 0);
}

#[test]
fn unknown_alu_operation_is_reported_and_skipped() {
    let mut chip = loaded(&[0x81, 0x28]);
    chip.registers[1] = 3;
    chip.registers[2] = 4;
    chip.registers[0xF] = 9;
    assert_eq!(run(&mut chip), Outcome::UnknownAlu(0x8));
    assert_eq!(chip.registers[1], 3);
    assert_eq!(chip.registers[2], 4);
    assert_eq!(chip.registers[0xF], 9);
    assert_eq!(chip.program_counter, 0x202);
}

#[test]
fn set_index_loads_address() {
    let mut chip = loaded(&[0xA1, 0x23]);
    run(&mut chip);
    assert_eq!(chip.index, 0x123);
    assert_eq!(chip.program_counter, 0x202);
}

#[test]
fn jump_with_offset_adds_register_zero() {
    let mut chip = loaded(&[0xB3, 0x00]);
    chip.registers[0] = 0x10;
    run(&mut chip);
    assert_eq!(chip.program_counter, 0x310);
}

#[test]
fn jump_with_offset_stays_inside_memory() {
    let mut chip = loaded(&[0xBF, 0xFF]);
    chip.registers[0] = 0x02;
    run(&mut chip);
    assert_eq!(chip.program_counter, 0x001);
}

#[test]
fn random_masks_the_given_byte() {
    let mut chip = loaded(&[0xC4, 0x3C]);
    assert_eq!(chip.fault(), None);
    assert_eq!(chip.cycle_with(0xA7), Outcome::Executed);
    assert_eq!(chip.registers[4], 0xA7 & 0x3C);
    assert_eq!(chip.program_counter, 0x202);
}

#[test]
fn random_from_generator_respects_mask() {
    for _ in 0..64 {
        let mut chip = loaded(&[0xC4, 0x0F]);
        chip.registers[4] = 0xFF;
        assert_eq!(chip.fault(), None);
        assert_eq!(chip.cycle(), Outcome::Executed);
        assert_eq!(chip.registers[4] & 0xF0, 0);
        assert_eq!(chip.program_counter, 0x202);
    }
}

#[test]
fn random_from_generator_varies() {
    let mut seen = [false; 256];
    for _ in 0..4096 {
        let mut chip = loaded(&[0xC0, 0xFF]);
        assert_eq!(chip.fault(), None);
        chip.cycle();
        seen[chip.registers[0] as usize] = true;
    }
    assert!(seen.iter().filter(|s| **s).count() > 1);
}

#[test]
fn cycle_without_random_matches_cycle_with() {
    let mut a = loaded(&[0x61, 0x05, 0x81, 0x14]);
    let mut b = loaded(&[0x61, 0x05, 0x81, 0x14]);
    for _ in 0..2 {
        assert_eq!(a.fault(), None);
        assert_eq!(b.fault(), None);
        assert_eq!(a.cycle(), b.cycle_with(0x99));
    }
    assert_eq!(a.registers, b.registers);
    assert_eq!(a.program_counter, b.program_counter);
}

#[test]
fn skip_if_key_pressed() {
    let mut chip = loaded(&[0xE1, 0x9E]);
    chip.registers[1] = 0xA;
    chip.set_key(0xA, true);
    run(&mut chip);
    assert_eq!(chip.program_counter, 0x204);
    let mut chip = loaded(&[0xE1, 0x9E]);
    chip.registers[1] = 0xA;
    chip.set_key(0xB, true);
    run(&mut chip);
    assert_eq!(chip.program_counter, 0x202);
}

#[test]
fn skip_if_key_not_pressed() {
    let mut chip = loaded(&[0xE1, 0xA1]);
    chip.registers[1] = 0xA;
    run(&mut chip);
    assert_eq!(chip.program_counter, 0x204);
    let mut chip = loaded(&[0xE1, 0xA1]);
    chip.registers[1] = 0xA;
    chip.set_key(0xA, true);
    run(&mut chip);
    assert_eq!(chip.program_counter, 0x202);
}

#[test]
fn unknown_words_are_reported_and_skipped() {
    let mut chip = loaded(&[0x01, 0x23, 0xE1, 0x00]);
    assert_eq!(run(&mut chip), Outcome::UnknownOpcode(0x0123));
    assert_eq!(chip.program_counter, 0x202);
    assert_eq!(run(&mut chip), Outcome::UnknownOpcode(0xE100));
    assert_eq!(chip.program_counter, 0x204);
}

#[test]
fn delay_timer_is_read_into_register() {
    let mut chip = loaded(&[0xF2, 0x07]);
    chip.delay_timer = 0x30;
    run(&mut chip);
    assert_eq!(chip.registers[2], 0x30);
    assert_eq!(chip.delay_timer, 0x2F);
    assert_eq!(chip.program_counter, 0x202);
}

#[test]
fn timers_are_set_then_tick() {
    let mut chip = loaded(&[0xF2, 0x15, 0xF2, 0x18]);
    chip.registers[2] = 10;
    run(&mut chip);
    assert_eq!(chip.delay_timer, 9);
    assert_eq!(chip.sound_timer, 0);
    run(&mut chip);
    assert_eq!(chip.delay_timer, 8);
    assert_eq!(chip.sound_timer, 9);
}

#[test]
fn timers_stop_at_zero() {
    let mut chip = loaded(&[0x60, 0x00, 0x60, 0x00, 0x60, 0x00]);
    chip.delay_timer = 2;
    chip.sound_timer = 1;
    run(&mut chip);
    assert_eq!((chip.delay_timer, chip.sound_timer), (1, 0));
    run(&mut chip);
    assert_eq!((chip.delay_timer, chip.sound_timer), (0, 0));
    run(&mut chip);
    assert_eq!((chip.delay_timer, chip.sound_timer), (0, 0));
}

#[test]
fn add_to_index_sets_flag_beyond_memory() {
    let mut chip = loaded(&[0xF1, 0x1E]);
    chip.index = 0xFFE;
    chip.registers[1] = 1;
    chip.registers[0xF] = 1;
    run(&mut chip);
    assert_eq!(chip.index, 0xFFF);
    assert_eq!(chip.registers[0xF], 0);
    let mut chip = loaded(&[0xF1, 0x1E]);
    chip.index = 0xFFE;
    chip.registers[1] = 2;
    run(&mut chip);
    assert_eq!(chip.index, 0x1000);
    assert_eq!(chip.registers[0xF], 1);
}

#[test]
fn add_to_index_wraps_at_the_register_width() {
    let mut chip = loaded(&[0xF1, 0x1E]);
    chip.index = usize::MAX;
    chip.registers[1] = 3;
    chip.registers[0xF] = 1;
    run(&mut chip);
    assert_eq!(chip.index, 2);
    assert_eq!(chip.registers[0xF], 0);
}

#[test]
fn glyph_address_is_five_times_the_digit() {
    let mut chip = loaded(&[0xF1, 0x29]);
    chip.registers[1] = 0xA;
    run(&mut chip);
    assert_eq!(chip.index, 50);
    assert_eq!(&chip.memory[50..55], &[0xF0, 0x90, 0xF0, 0x90, 0x90]);
}

#[test]
fn decimal_digits_are_stored() {
    let mut chip = loaded(&[0xF1, 0x33]);
    chip.registers[1] = 254;
    chip.index = 0x300;
    run(&mut chip);
    assert_eq!(&chip.memory[0x300..0x304], &[2, 5, 4, 0]);
    assert_eq!(chip.index, 0x300);
}

#[test]
fn decimal_digits_of_small_value() {
    let mut chip = loaded(&[0xF1, 0x33]);
    chip.registers[1] = 7;
    chip.index = 4093;
    run(&mut chip);
    assert_eq!(&chip.memory[4093..4096], &[0, 0, 7]);
}

#[test]
fn registers_are_stored_to_memory() {
    let mut chip = loaded(&[0xF2, 0x55]);
    chip.registers[0] = 11;
    chip.registers[1] = 22;
    chip.registers[2] = 33;
    chip.registers[3] = 44;
    chip.index = 0x300;
    chip.memory[0x303] = 0xEE;
    run(&mut chip);
    assert_eq!(&chip.memory[0x2FF..0x304], &[0, 11, 22, 33, 0xEE]);
    assert_eq!(chip.index, 0x300);
}

#[test]
fn registers_are_loaded_from_memory() {
    let mut chip = loaded(&[0xF2, 0x65]);
    chip.index = 0x300;
    chip.memory[0x300] = 11;
    chip.memory[0x301] = 22;
    chip.memory[0x302] = 33;
    chip.memory[0x303] = 44;
    chip.registers[3] = 0xEE;
    run(&mut chip);
    assert_eq!(&chip.registers[0..4], &[11, 22, 33, 0xEE]);
    assert_eq!(chip.index, 0x300);
}

#[test]
fn all_registers_are_stored_at_the_end_of_memory() {
    let mut chip = loaded(&[0xFF, 0x55]);
    for r in 0..16 {
        chip.registers[r] = r as u8 + 1;
    }
    chip.index = 4080;
    run(&mut chip);
    for r in 0..16 {
        assert_eq!(chip.memory[4080 + r], r as u8 + 1);
    }
}

#[test]
fn unknown_misc_operation_is_reported_and_skipped() {
    let mut chip = loaded(&[0xF1, 0x99]);
    chip.registers[1] = 5;
    assert_eq!(run(&mut chip), Outcome::UnknownMisc(0x99));
    assert_eq!(chip.registers[1], 5);
    assert_eq!(chip.program_counter, 0x202);
}

#[test]
fn texture_colours_lit_pixels_white() {
    let mut chip = Chip8::new();
    chip.display[0] = 1;
    chip.display[65] = 1;
    let texture = chip.texture();
    assert_eq!(texture.len(), 2048);
    assert_eq!(texture[0], PIXEL_ON);
    assert_eq!(texture[0], 0xFFFFFFFF);
    assert_eq!(texture[1], PIXEL_OFF);
    assert_eq!(texture[1], 0x000000FF);
    assert_eq!(texture[65], PIXEL_ON);
    assert_eq!(texture.iter().filter(|c| **c == PIXEL_ON).count(), 2);
}
