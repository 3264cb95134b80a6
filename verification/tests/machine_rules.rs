use chip_core::globals::{FONT_ADDR, RAM_SIZE, STACK_SIZE};
use chip_core::utils::{u16_from_three, u16_from_two, u8_from_two};
use chip_core::{ChipError, Cpu};

fn machine_with(program: &[u8]) -> Cpu {
    let mut cpu = Cpu::new();
    cpu.load_rom(0x200, program).unwrap();
    cpu
}

#[test]
fn nibble_helpers_join_in_base_16() {
    assert_eq!(u8_from_two(0xC, 0x3), 0xC3);
    assert_eq!(u8_from_two(0x0, 0xF), 0x0F);
    assert_eq!(u8_from_two(0x1F, 0x3), 0xF3);
    assert_eq!(u16_from_three(0xA, 0x5, 0xF), 0x0A5F);
    assert_eq!(u16_from_three(0xF, 0xF, 0xF), 0x0FFF);
    assert_eq!(u16_from_two(0xA4, 0xC3), 0xA4C3);
    assert_eq!(u16_from_two(0xFF, 0xFF), 0xFFFF);
}

#[test]
fn new_machine_holds_the_glyphs() {
    let cpu = Cpu::new();
    let base = FONT_ADDR as usize;
    assert_eq!(&cpu.memory[base..base + 5], &[0xF0, 0x90, 0x90, 0x90, 0xF0]);
    assert_eq!(&cpu.memory[base + 75..base + 80], &[0xF0, 0x80, 0xF0, 0x80, 0x80]);
    assert_eq!(cpu.memory[base - 1], 0);
    assert_eq!(cpu.memory[base + 80], 0);
    assert_eq!(cpu.pc, 0);
    assert_eq!(cpu.i, 0);
    assert_eq!(cpu.sp, 0);
    assert_eq!(cpu.stack, [0u16; 16]);
    assert_eq!(cpu.keys, [false; 16]);
    assert_eq!(cpu.v, [0u8; 16]);
    assert_eq!(cpu.delay_timer, 0);
    assert_eq!(cpu.sound_timer, 255);
    assert_eq!(cpu.random_seed, 0x5321a409);
    assert!(!cpu.redraw);
    assert!(cpu.get_display_buffer().iter().all(|b| *b == 0));
}

#[test]
fn decoding_yields_the_four_nibbles_of_every_word() {
    let mut cpu = Cpu::new();
    for word in (0u32..=0xFFFF).step_by(257) {
        let hi = (word >> 8) as u8;
        let lo = (word & 0xFF) as u8;
        cpu.load_rom(0x300, &[hi, lo]).unwrap();
        let (a, b, c, d) = cpu.get_current_opcode().unwrap();
        assert!(a < 16 && b < 16 && c < 16 && d < 16);
        assert_eq!(
            (a as u32) << 12 | (b as u32) << 8 | (c as u32) << 4 | d as u32,
            word
        );
    }
}

#[test]
fn fetch_at_the_last_full_word_succeeds() {
    let mut cpu = Cpu::new();
    cpu.load_rom(RAM_SIZE as u16 - 2, &[0x12, 0x34]).unwrap();
    assert_eq!(cpu.get_current_opcode(), Ok((1, 2, 3, 4)));
    assert_eq!(cpu.step(), Ok(()));
    assert_eq!(cpu.pc, 0x234);
}

#[test]
fn failed_fetch_changes_nothing() {
    let mut cpu = Cpu::new();
    cpu.pc = 0xFFFF;
    cpu.v[3] = 7;
    assert_eq!(cpu.step(), Err(ChipError::IllegalAddr(0xFFFF)));
    assert_eq!(cpu.pc, 0xFFFF);
    assert_eq!(cpu.v[3], 7);
    assert_eq!(cpu.sp, 0);
}

#[test]
fn jump_target_survives_the_counter_advance() {
    let mut cpu = machine_with(&[0x10, 0x00]);
    assert_eq!(cpu.step(), Ok(()));
    assert_eq!(cpu.pc, 0x000);
    let mut cpu = machine_with(&[0x1F, 0xFF]);
    assert_eq!(cpu.step(), Ok(()));
    assert_eq!(cpu.pc, 0xFFF);
}

#[test]
fn call_then_return_comes_back_behind_the_call() {
    let mut cpu = machine_with(&[0x22, 0x04, 0x00, 0x00, 0x00, 0xEE]);
    assert_eq!(cpu.step(), Ok(()));
    assert_eq!(cpu.pc, 0x204);
    assert_eq!(cpu.sp, 1);
    assert_eq!(cpu.stack[0], 0x202);
    assert_eq!(cpu.step(), Ok(()));
    assert_eq!(cpu.pc, 0x202);
    assert_eq!(cpu.sp, 0);
}

#[test]
fn machine_code_call_is_ignored() {
    let mut cpu = machine_with(&[0x01, 0x23]);
    cpu.v[1] = 9;
    assert_eq!(cpu.step(), Ok(()));
    assert_eq!(cpu.pc, 0x202);
    assert_eq!(cpu.v[1], 9);
    assert_eq!(cpu.sp, 0);
    assert!(!cpu.redraw);
}

#[test]
fn clear_marks_a_redraw_once() {
    let mut cpu = machine_with(&[0x00, 0xE0]);
    assert!(!cpu.take_redraw());
    assert_eq!(cpu.step(), Ok(()));
    assert!(cpu.take_redraw());
    assert!(!cpu.take_redraw());
}

#[test]
fn add_immediate_wraps_and_leaves_the_flag_alone() {
    for x in 0u8..15 {
        for (start, nn) in [(0u8, 0u8), (0x12, 0xC3), (0xF0, 0x11), (0xFF, 0xFF), (1, 0xFF)] {
            let mut cpu = machine_with(&[0x70 | x, nn]);
            cpu.v[x as usize] = start;
            cpu.v[0xF] = 0xA;
            assert_eq!(cpu.step(), Ok(()));
            assert_eq!(cpu.v[x as usize], start.wrapping_add(nn));
            assert_eq!(cpu.v[0xF], 0xA);
            assert_eq!(cpu.pc, 0x202);
        }
    }
}

#[test]
fn add_registers_sets_the_flag_exactly_on_carry() {
    for vx in 0u16..256 {
        for vy in 0u16..256 {
            let mut cpu = machine_with(&[0x85, 0xA4]);
            cpu.v[5] = vx as u8;
            cpu.v[0xA] = vy as u8;
            cpu.v[0xF] = 7;
            assert_eq!(cpu.step(), Ok(()));
            assert_eq!(cpu.v[0xF], if vx + vy > 255 { 1 } else { 0 });
            assert_eq!(cpu.v[5] as u16, (vx + vy) % 256);
            assert_eq!(cpu.v[0xA] as u16, vy);
        }
    }
}

#[test]
fn subtract_sets_the_flag_exactly_on_borrow() {
    for vx in 0u16..256 {
        for vy in 0u16..256 {
            let mut cpu = machine_with(&[0x85, 0xA5]);
            cpu.v[5] = vx as u8;
            cpu.v[0xA] = vy as u8;
            assert_eq!(cpu.step(), Ok(()));
            assert_eq!(cpu.v[0xF], if vx < vy { 1 } else { 0 });
            assert_eq!(cpu.v[5], (vx as u8).wrapping_sub(vy as u8));
        }
    }
}

#[test]
fn reverse_subtract_sets_the_flag_exactly_on_borrow() {
    for (vx, vy) in [(0u8, 0u8), (1, 0), (0, 1), (0x33, 0x32), (0x20, 0x32), (255, 0)] {
        let mut cpu = machine_with(&[0x85, 0xA7]);
        cpu.v[5] = vx;
        cpu.v[0xA] = vy;
        assert_eq!(cpu.step(), Ok(()));
        assert_eq!(cpu.v[0xF], if vy < vx { 1 } else { 0 });
        assert_eq!(cpu.v[5], vy.wrapping_sub(vx));
    }
}

#[test]
fn flag_is_written_after_the_sum() {
    let mut cpu = machine_with(&[0x8F, 0x14]);
    cpu.v[0xF] = 0xF0;
    cpu.v[1] = 0x20;
    assert_eq!(cpu.step(), Ok(()));
    assert_eq!(cpu.v[0xF], 1);
}

#[test]
fn shifted_value_is_written_after_the_flag() {
    let mut cpu = machine_with(&[0x8F, 0x16]);
    cpu.v[1] = 0b0000_0111;
    assert_eq!(cpu.step(), Ok(()));
    assert_eq!(cpu.v[0xF], 0b0000_0011);
}

#[test]
fn shift_quirk_selects_the_source_register() {
    let mut cpu = machine_with(&[0x85, 0xA6, 0x85, 0xAE]);
    cpu.set_shift_quirk(false);
    cpu.v[5] = 0b0000_0110;
    cpu.v[0xA] = 0b1111_1111;
    assert_eq!(cpu.step(), Ok(()));
    assert_eq!(cpu.v[5], 0b0000_0011);
    assert_eq!(cpu.v[0xF], 0);
    cpu.v[5] = 0b1000_0001;
    assert_eq!(cpu.step(), Ok(()));
    assert_eq!(cpu.v[5], 0b0000_0010);
    assert_eq!(cpu.v[0xF], 1);
    assert_eq!(cpu.v[0xA], 0b1111_1111);

    let mut cpu = machine_with(&[0x85, 0xA6]);
    cpu.set_shift_quirk(true);
    cpu.v[5] = 0b0000_0110;
    cpu.v[0xA] = 0b1111_1111;
    assert_eq!(cpu.step(), Ok(()));
    assert_eq!(cpu.v[5], 0b0111_1111);
    assert_eq!(cpu.v[0xF], 1);
}

#[test]
fn stack_returns_addresses_in_reverse_order() {
    for n in 0..STACK_SIZE {
        let mut cpu = Cpu::new();
        for k in 0..n {
            assert_eq!(cpu.push_stack(0x300 + k as u16), Ok(()));
            assert_eq!(cpu.sp, k + 1);
        }
        for k in (0..n).rev() {
            assert_eq!(cpu.pop_stack(), Ok(0x300 + k as u16));
            assert_eq!(cpu.sp, k);
        }
        assert_eq!(cpu.sp, 0);
        assert_eq!(cpu.pop_stack(), Err(ChipError::StackUnderflow));
    }
}

#[test]
fn stack_refuses_the_push_that_would_fill_it() {
    let mut cpu = Cpu::new();
    for k in 0..STACK_SIZE - 1 {
        assert_eq!(cpu.push_stack(k as u16), Ok(()));
    }
    let before = cpu.stack;
    assert_eq!(cpu.push_stack(0x999), Err(ChipError::StackOverflow));
    assert_eq!(cpu.sp, STACK_SIZE - 1);
    assert_eq!(cpu.stack, before);
    assert_eq!(cpu.pop_stack(), Ok(STACK_SIZE as u16 - 2));
}

#[test]
fn call_on_a_full_stack_overflows_and_does_not_jump() {
    let mut cpu = machine_with(&[0x2A, 0x5F]);
    for k in 0..STACK_SIZE - 1 {
        cpu.push_stack(k as u16).unwrap();
    }
    assert_eq!(cpu.step(), Err(ChipError::StackOverflow));
    assert_eq!(cpu.pc, 0x202);
    assert_eq!(cpu.sp, STACK_SIZE - 1);
}

#[test]
fn return_on_an_empty_stack_underflows() {
    let mut cpu = machine_with(&[0x00, 0xEE]);
    assert_eq!(cpu.step(), Err(ChipError::StackUnderflow));
    assert_eq!(cpu.pc, 0x202);
    assert_eq!(cpu.sp, 0);
}

#[test]
fn unknown_words_are_illegal_instructions() {
    for word in [0x5AB1u16, 0x8128, 0x812F, 0x9AB1, 0xE000, 0xE19F, 0xF0FF, 0xF100, 0xF034] {
        let mut cpu = machine_with(&[(word >> 8) as u8, (word & 0xFF) as u8]);
        assert_eq!(cpu.step(), Err(ChipError::IllegalInst(word)));
        assert_eq!(cpu.pc, 0x202);
    }
}

#[test]
fn register_index_out_of_range_is_refused() {
    let mut cpu = Cpu::new();
    cpu.v[15] = 0x44;
    assert_eq!(cpu.get_reg(15), Ok(0x44));
    assert_eq!(cpu.get_reg(16), Err(ChipError::IllegalReg(16)));
    assert_eq!(cpu.set_reg(16, 1), Err(ChipError::IllegalReg(16)));
    assert_eq!(cpu.set_reg(255, 1), Err(ChipError::IllegalReg(255)));
    assert_eq!(cpu.set_reg(3, 0x21), Ok(()));
    assert_eq!(cpu.v[3], 0x21);
    assert_eq!(cpu.v[15], 0x44);
}

#[test]
fn key_index_out_of_range_is_refused() {
    let mut cpu = machine_with(&[0xE3, 0x9E, 0xE3, 0xA1]);
    cpu.v[3] = 16;
    assert_eq!(cpu.step(), Err(ChipError::IllegalKey(16)));
    assert_eq!(cpu.pc, 0x202);
    assert_eq!(cpu.step(), Err(ChipError::IllegalKey(16)));
    assert_eq!(cpu.pc, 0x204);
    assert_eq!(cpu.get_key(16), Err(ChipError::IllegalKey(16)));
    assert_eq!(cpu.get_key(15), Ok(false));
}

#[test]
fn key_wait_takes_the_lowest_pressed_key() {
    let mut cpu = machine_with(&[0xF5, 0x0A]);
    assert_eq!(cpu.step(), Ok(()));
    assert_eq!(cpu.pc, 0x200);
    assert_eq!(cpu.step(), Ok(()));
    assert_eq!(cpu.pc, 0x200);
    let mut keys = [false; 16];
    keys[0xC] = true;
    keys[3] = true;
    keys[9] = true;
    cpu.set_keys(keys);
    assert_eq!(cpu.first_pressed(), Some(3));
    assert_eq!(cpu.step(), Ok(()));
    assert_eq!(cpu.pc, 0x202);
    assert_eq!(cpu.v[5], 3);
}

#[test]
fn key_wait_sees_key_zero() {
    let mut cpu = machine_with(&[0xF5, 0x0A]);
    cpu.v[5] = 9;
    let mut keys = [false; 16];
    keys[0] = true;
    keys[15] = true;
    cpu.set_keys(keys);
    assert_eq!(cpu.step(), Ok(()));
    assert_eq!(cpu.v[5], 0);
    assert_eq!(cpu.pc, 0x202);
}

#[test]
fn random_byte_follows_the_xorshift_rounds() {
    let mut cpu = Cpu::new();
    assert_eq!(cpu.random(), 0xF9);
    assert_eq!(cpu.random_seed, 0x93b64cf9);
    assert_eq!(cpu.random(), 0x4D);
    assert_eq!(cpu.random_seed, 0x1f017c4d);
    cpu.set_random_seed(1);
    assert_eq!(cpu.random(), 0x21);
    assert_eq!(cpu.random_seed, 0x42021);
}

#[test]
fn random_instruction_masks_the_byte() {
    let mut cpu = machine_with(&[0xC2, 0xFF, 0xC3, 0x0F]);
    cpu.set_random_seed(0x12325a5d);
    assert_eq!(cpu.step(), Ok(()));
    assert_eq!(cpu.v[2], 0xC1);
    assert_eq!(cpu.random_seed, 0x76430ac1);
    assert_eq!(cpu.step(), Ok(()));
    assert_eq!(cpu.v[3], 0x0C);
    assert_eq!(cpu.random_seed, 0xf47f08cc);
}

#[test]
fn random_with_empty_mask_is_zero() {
    for seed in [0u32, 1, 0x5321a409, 0x12325a5d, 0xFFFF_FFFF, 0xDEAD_BEEF] {
        let mut cpu = machine_with(&[0xC7, 0x00]);
        cpu.set_random_seed(seed);
        cpu.v[7] = 0xEE;
        assert_eq!(cpu.step(), Ok(()));
        assert_eq!(cpu.v[7], 0);
    }
}

#[test]
fn decimal_digits_of_every_value() {
    for val in 0u16..256 {
        let mut cpu = machine_with(&[0xF5, 0x33]);
        cpu.i = 0x300;
        cpu.v[5] = val as u8;
        assert_eq!(cpu.step(), Ok(()));
        assert_eq!(cpu.memory[0x300] as u16, val / 100);
        assert_eq!(cpu.memory[0x301] as u16, val % 100 / 10);
        assert_eq!(cpu.memory[0x302] as u16, val % 10);
        assert_eq!(cpu.memory[0x303], 0);
    }
    let mut cpu = machine_with(&[0xF5, 0x33]);
    cpu.i = 0x300;
    cpu.v[5] = 234;
    assert_eq!(cpu.step(), Ok(()));
    assert_eq!(&cpu.memory[0x300..0x303], &[2, 3, 4]);
}

#[test]
fn memory_instructions_stop_at_the_end_of_memory() {
    let mut cpu = machine_with(&[0xF5, 0x33]);
    cpu.i = 0xFFD;
    cpu.v[5] = 123;
    assert_eq!(cpu.step(), Ok(()));
    assert_eq!(&cpu.memory[0xFFD..], &[1, 2, 3]);

    let mut cpu = machine_with(&[0xF5, 0x33]);
    cpu.i = 0xFFE;
    cpu.v[5] = 123;
    let before = cpu.memory;
    assert_eq!(cpu.step(), Err(ChipError::IllegalAddr(0x1000)));
    assert!(cpu.memory == before);
    assert_eq!(cpu.pc, 0x202);

    let mut cpu = machine_with(&[0xF3, 0x55]);
    cpu.i = 0xFFD;
    cpu.v[0] = 9;
    let before = cpu.memory;
    assert_eq!(cpu.step(), Err(ChipError::IllegalAddr(0x1000)));
    assert!(cpu.memory == before);

    let mut cpu = machine_with(&[0xF3, 0x65]);
    cpu.i = 0xFFFF;
    cpu.v[0] = 9;
    assert_eq!(cpu.step(), Err(ChipError::IllegalAddr(0x0002)));
    assert_eq!(cpu.v[0], 9);

    let mut cpu = machine_with(&[0xF3, 0x65]);
    cpu.i = 0xFFC;
    cpu.memory[0xFFC] = 1;
    cpu.memory[0xFFF] = 4;
    assert_eq!(cpu.step(), Ok(()));
    assert_eq!(&cpu.v[0..5], &[1, 0, 0, 4, 0]);
}

#[test]
fn draw_needs_room_behind_the_sprite() {
    let mut cpu = machine_with(&[0xD0, 0x11]);
    cpu.i = 0xFFF;
    assert_eq!(cpu.step(), Err(ChipError::IllegalAddr(0x1000)));
    assert!(!cpu.redraw);
    assert_eq!(cpu.v[0xF], 0);
    assert_eq!(cpu.pc, 0x202);

    let mut cpu = machine_with(&[0xD0, 0x1F]);
    cpu.i = 0xFFFF;
    assert_eq!(cpu.step(), Err(ChipError::IllegalAddr(0x000E)));

    let mut cpu = machine_with(&[0xD0, 0x11]);
    cpu.i = 0xFFE;
    cpu.memory[0xFFE] = 0x80;
    assert_eq!(cpu.step(), Ok(()));
    assert!(cpu.redraw);
    assert_eq!(cpu.get_display_buffer()[0], 0x80);
}

#[test]
fn draw_without_rows_marks_a_redraw() {
    let mut cpu = machine_with(&[0xD0, 0x10]);
    cpu.v[0xF] = 5;
    assert_eq!(cpu.step(), Ok(()));
    assert!(cpu.redraw);
    assert_eq!(cpu.v[0xF], 0);
    assert!(cpu.get_display_buffer().iter().all(|b| *b == 0));
}

#[test]
fn index_register_add_wraps() {
    let mut cpu = machine_with(&[0xF3, 0x1E]);
    cpu.i = 0xFFFF;
    cpu.v[3] = 2;
    assert_eq!(cpu.step(), Ok(()));
    assert_eq!(cpu.i, 1);
}

#[test]
fn glyph_address_is_base_plus_register() {
    let mut cpu = machine_with(&[0xF3, 0x29]);
    cpu.v[3] = 0xFF;
    assert_eq!(cpu.step(), Ok(()));
    assert_eq!(cpu.i, FONT_ADDR + 0xFF);
}

#[test]
fn jump_with_offset_adds_register_zero() {
    let mut cpu = machine_with(&[0xBF, 0xFF]);
    cpu.v[0] = 0xFF;
    assert_eq!(cpu.step(), Ok(()));
    assert_eq!(cpu.pc, 0x0FFF + 0xFF);
}

#[test]
fn timers_count_down_to_zero_and_stay() {
    let mut cpu = Cpu::new();
    cpu.delay_timer = 2;
    cpu.sound_timer = 1;
    assert!(cpu.beeps());
    cpu.decrease_timers();
    assert_eq!((cpu.delay_timer, cpu.sound_timer), (1, 0));
    assert!(!cpu.beeps());
    cpu.decrease_timers();
    assert_eq!((cpu.delay_timer, cpu.sound_timer), (0, 0));
    cpu.decrease_timers();
    assert_eq!((cpu.delay_timer, cpu.sound_timer), (0, 0));
}

#[test]
fn step_does_not_touch_the_timers() {
    let mut cpu = machine_with(&[0x60, 0x0C]);
    cpu.delay_timer = 9;
    cpu.sound_timer = 4;
    assert_eq!(cpu.step(), Ok(()));
    assert_eq!((cpu.delay_timer, cpu.sound_timer), (9, 4));
}

#[test]
fn loading_copies_bytes_and_sets_the_counter() {
    let mut cpu = Cpu::new();
    assert_eq!(cpu.load_rom(0x200, &[1, 2, 3]), Ok(()));
    assert_eq!(cpu.pc, 0x200);
    assert_eq!(&cpu.memory[0x1FF..0x204], &[0, 1, 2, 3, 0]);
    assert_eq!(cpu.load(0x201, &[9]), Ok(()));
    assert_eq!(cpu.pc, 0x200);
    assert_eq!(&cpu.memory[0x200..0x203], &[1, 9, 3]);
    assert_eq!(cpu.load_rom(0xFFE, &[7, 8]), Ok(()));
    assert_eq!(&cpu.memory[0xFFE..], &[7, 8]);
}

#[test]
fn loading_past_the_end_is_refused() {
    let mut cpu = Cpu::new();
    cpu.pc = 0x123;
    let before = cpu.memory;
    assert_eq!(cpu.load_rom(0xFFE, &[7, 8, 9]), Err(ChipError::IllegalAddr(0xFFE)));
    assert_eq!(cpu.load_rom(0x1001, &[]), Err(ChipError::IllegalAddr(0x1001)));
    assert_eq!(cpu.load(0xFFFF, &[1]), Err(ChipError::IllegalAddr(0xFFFF)));
    assert_eq!(cpu.pc, 0x123);
    assert!(cpu.memory == before);
}

#[test]
fn store_then_load_registers_round_trips() {
    let mut cpu = machine_with(&[0xFF, 0x55, 0xFF, 0x65]);
    cpu.i = 0x400;
    for r in 0..16 {
        cpu.v[r] = 0x10 + r as u8;
    }
    assert_eq!(cpu.step(), Ok(()));
    let saved = cpu.v;
    cpu.v = [0; 16];
    assert_eq!(cpu.step(), Ok(()));
    assert_eq!(cpu.v, saved);
    assert_eq!(cpu.i, 0x400);
    assert_eq!(cpu.memory[0x410], 0);
}

#[test]
fn pop_moves_the_pointer_and_writes_no_slot() {
    let mut cpu = Cpu::new();
    cpu.push_stack(0x111).unwrap();
    cpu.push_stack(0x222).unwrap();
    let slots = cpu.stack;
    assert_eq!(cpu.pop_stack(), Ok(0x222));
    assert_eq!(cpu.sp, 1);
    assert_eq!(cpu.stack, slots);
    assert_eq!(cpu.pop_stack(), Ok(0x111));
    assert_eq!(cpu.pop_stack(), Err(ChipError::StackUnderflow));
    assert_eq!(cpu.sp, 0);
    assert_eq!(cpu.stack, slots);
}

#[test]
fn push_writes_only_the_first_free_slot() {
    let mut cpu = Cpu::new();
    cpu.stack = [0xAAA; 16];
    cpu.sp = 3;
    assert_eq!(cpu.push_stack(0x123), Ok(()));
    assert_eq!(cpu.sp, 4);
    for (j, slot) in cpu.stack.iter().enumerate() {
        assert_eq!(*slot, if j == 3 { 0x123 } else { 0xAAA });
    }
}

#[test]
fn failed_instructions_leave_the_stack_alone() {
    for program in [[0x5Au8, 0xB1], [0x00, 0xEE], [0xF0, 0xFF]] {
        let mut cpu = machine_with(&program);
        cpu.stack = [0x0BB; 16];
        assert!(cpu.step().is_err());
        assert_eq!(cpu.stack, [0x0BB; 16]);
        assert_eq!(cpu.sp, 0);
    }
    let mut cpu = Cpu::new();
    cpu.stack = [0x0CC; 16];
    cpu.sp = 5;
    cpu.pc = 0xFFF;
    assert_eq!(cpu.step(), Err(ChipError::IllegalAddr(0xFFF)));
    assert_eq!(cpu.stack, [0x0CC; 16]);
    assert_eq!(cpu.sp, 5);
    assert_eq!(cpu.load_rom(0xFFF, &[1, 2]), Err(ChipError::IllegalAddr(0xFFF)));
    assert_eq!(cpu.stack, [0x0CC; 16]);
}

#[test]
fn call_writes_one_slot_and_other_instructions_none() {
    let mut cpu = machine_with(&[0x60, 0x0C, 0x22, 0x06, 0x00, 0x00, 0xF0, 0x55]);
    cpu.stack = [0x0DD; 16];
    cpu.sp = 2;
    cpu.i = 0x300;
    assert_eq!(cpu.step(), Ok(()));
    assert_eq!(cpu.stack, [0x0DD; 16]);
    assert_eq!(cpu.step(), Ok(()));
    assert_eq!(cpu.sp, 3);
    for (j, slot) in cpu.stack.iter().enumerate() {
        assert_eq!(*slot, if j == 2 { 0x204 } else { 0x0DD });
    }
    let slots = cpu.stack;
    assert_eq!(cpu.step(), Ok(()));
    cpu.decrease_timers();
    assert_eq!(cpu.stack, slots);
    assert_eq!(cpu.sp, 3);
}
