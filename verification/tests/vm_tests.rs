use chip8::chip8::Chip8;
use chip8::chip8::Fault;
use chip8::chip8::WaitState;

#[test]
fn new_machine_initial_state() {
    let c = Chip8::new();
    assert_eq!(c.pc, 0x200);
    assert_eq!(c.index, 0);
    assert_eq!(c.delay_timer, 0);
    assert_eq!(c.sp, 0);
    assert_eq!(c.speed, 10);
    assert!(c.stack.is_empty());
    assert_eq!(c.memory.len(), 4096);
    assert_eq!(c.v.len(), 16);
    // font glyphs at address 0: first byte of glyph 0, last byte of glyph F
    assert_eq!(c.memory[0], 0xF0);
    assert_eq!(c.memory[79], 0x80);
    assert_eq!(c.memory[80], 0);
    assert!(c.v.iter().all(|&r| r == 0));
    assert!(!c.paused());
}

#[test]
fn load_program_copies_at_program_start() {
    let mut c = Chip8::new();
    c.load_program(vec![0xAA, 0xBB, 0xCC]);
    assert_eq!(c.memory[0x200], 0xAA);
    assert_eq!(c.memory[0x201], 0xBB);
    assert_eq!(c.memory[0x202], 0xCC);
    assert_eq!(c.memory[0x203], 0);
    // font table untouched
    assert_eq!(c.memory[0], 0xF0);
}

#[test]
fn set_then_add_wraps_mod_256() {
    // set V2, 0xF0; add V2, 0x20 -> 0x10 (wrap)
    let mut c = Chip8::new();
    assert_eq!(c.execute(0x62F0, 0), None);
    assert_eq!(c.execute(0x7220, 0), None);
    assert_eq!(c.v[2], 0x10);
    // no carry flag from the immediate add
    assert_eq!(c.v[15], 0);
}

#[test]
fn end_to_end_set_add_program() {
    // set V0,0x05 ; add V0,0x03 ; expect V0 == 8 after two steps
    let mut c = Chip8::new();
    c.load_program(vec![0x60, 0x05, 0x70, 0x03]);
    assert_eq!(c.step(), None);
    assert_eq!(c.step(), None);
    assert_eq!(c.v[0], 8);
    assert_eq!(c.pc, 0x204);
}

#[test]
fn call_then_return_resumes_after_call() {
    let mut c = Chip8::new();
    assert_eq!(c.execute(0x2ABC, 0), None);
    assert_eq!(c.pc, 0xABC);
    assert_eq!(c.stack, vec![0x202]);
    assert_eq!(c.execute(0x00EE, 0), None);
    assert_eq!(c.pc, 0x202);
    assert!(c.stack.is_empty());
}

#[test]
fn return_on_empty_stack_keeps_pc() {
    let mut c = Chip8::new();
    assert_eq!(c.execute(0x00EE, 0), None);
    // only the fetch advance happened
    assert_eq!(c.pc, 0x202);
}

#[test]
fn skip_if_equal_advances_four_or_two() {
    let mut c = Chip8::new();
    c.execute(0x6005, 0); // V0 = 5, pc 0x202
    c.execute(0x3005, 0); // equal: skip
    assert_eq!(c.pc, 0x206);
    c.execute(0x3006, 0); // not equal: no skip
    assert_eq!(c.pc, 0x208);
}

#[test]
fn skip_if_not_equal_and_register_compares() {
    let mut c = Chip8::new();
    c.execute(0x6005, 0); // V0 = 5
    c.execute(0x6105, 0); // V1 = 5
    let pc = c.pc;
    c.execute(0x4005, 0); // skip-if-not-equal, equal: no skip
    assert_eq!(c.pc, pc + 2);
    c.execute(0x5010, 0); // skip-if Vx==Vy: equal: skip
    assert_eq!(c.pc, pc + 6);
    c.execute(0x9010, 0); // skip-if Vx!=Vy: equal: no skip
    assert_eq!(c.pc, pc + 8);
}

#[test]
fn jump_and_jump_plus_v0() {
    let mut c = Chip8::new();
    c.execute(0x1ABC, 0);
    assert_eq!(c.pc, 0xABC);
    c.execute(0x6010, 0); // V0 = 0x10
    c.execute(0xB100, 0);
    assert_eq!(c.pc, 0x110);
}

#[test]
fn register_copy_and_bitwise() {
    let mut c = Chip8::new();
    c.execute(0x60CC, 0); // V0 = 0xCC
    c.execute(0x6133, 0); // V1 = 0x33
    c.execute(0x8210, 0); // V2 = V1
    assert_eq!(c.v[2], 0x33);
    c.execute(0x8011, 0); // V0 |= V1
    assert_eq!(c.v[0], 0xFF);
    c.execute(0x8012, 0); // V0 &= V1
    assert_eq!(c.v[0], 0x33);
    c.execute(0x8013, 0); // V0 ^= V1
    assert_eq!(c.v[0], 0x00);
}

#[test]
fn add_registers_sets_carry() {
    let mut c = Chip8::new();
    c.execute(0x60C8, 0); // V0 = 200
    c.execute(0x6164, 0); // V1 = 100
    c.execute(0x8014, 0); // V0 += V1
    assert_eq!(c.v[0], 44);
    assert_eq!(c.v[15], 1);
    c.execute(0x6201, 0); // V2 = 1
    c.execute(0x8024, 0); // V0 += V2 (44 + 1)
    assert_eq!(c.v[0], 45);
    assert_eq!(c.v[15], 0);
}

#[test]
fn sub_registers_sets_borrow_flags() {
    let mut c = Chip8::new();
    c.execute(0x600A, 0); // V0 = 10
    c.execute(0x6105, 0); // V1 = 5
    c.execute(0x8015, 0); // V0 -= V1, VF = (V0 > V1)
    assert_eq!(c.v[0], 5);
    assert_eq!(c.v[15], 1);
    c.execute(0x610A, 0); // V1 = 10
    c.execute(0x8015, 0); // 5 - 10 wraps
    assert_eq!(c.v[0], 251);
    assert_eq!(c.v[15], 0);
}

#[test]
fn subn_registers() {
    let mut c = Chip8::new();
    c.execute(0x6003, 0); // V0 = 3
    c.execute(0x6108, 0); // V1 = 8
    c.execute(0x8017, 0); // V0 = V1 - V0, VF = (V1 > V0)
    assert_eq!(c.v[0], 5);
    assert_eq!(c.v[15], 1);
    c.execute(0x6100, 0); // V1 = 0
    c.execute(0x8017, 0); // V0 = 0 - 5 wraps
    assert_eq!(c.v[0], 251);
    assert_eq!(c.v[15], 0);
}

#[test]
fn shifts_report_shifted_out_bit() {
    let mut c = Chip8::new();
    c.execute(0x6005, 0); // V0 = 5
    c.execute(0x8006, 0); // shr
    assert_eq!(c.v[0], 2);
    assert_eq!(c.v[15], 1);
    c.execute(0x6081, 0); // V0 = 0x81
    c.execute(0x800E, 0); // shl
    assert_eq!(c.v[0], 0x02);
    assert_eq!(c.v[15], 1);
    c.execute(0x6040, 0); // V0 = 0x40
    c.execute(0x800E, 0);
    assert_eq!(c.v[0], 0x80);
    assert_eq!(c.v[15], 0);
}

#[test]
fn set_index_and_add_index_threshold() {
    let mut c = Chip8::new();
    c.execute(0xA123, 0);
    assert_eq!(c.index, 0x123);
    c.execute(0x6001, 0); // V0 = 1
    c.execute(0xF01E, 0); // I += V0
    assert_eq!(c.index, 0x124);
    assert_eq!(c.v[15], 0);
    c.execute(0xAF00, 0); // I = 0xF00
    c.execute(0xF01E, 0); // I = 0xF01 > 0x0F00
    assert_eq!(c.index, 0xF01);
    assert_eq!(c.v[15], 1);
}

#[test]
fn random_is_masked_by_kk() {
    let mut c = Chip8::new();
    c.execute(0xC00F, 0xAB); // V0 = 0xAB & 0x0F
    assert_eq!(c.v[0], 0x0B);
    // through the machine's own random source, mask 0 pins the value
    let mut c2 = Chip8::new();
    assert_eq!(c2.interpret_instruction(0xC100), None);
    assert_eq!(c2.v[1], 0);
}

#[test]
fn font_char_addresses_glyph() {
    // load font-char V0 with V0 = 0xA; expect I == 50
    let mut c = Chip8::new();
    c.execute(0x600A, 0);
    c.execute(0xF029, 0);
    assert_eq!(c.index, 50);
    assert_eq!(c.memory[50], 0xF0); // glyph A starts with 0xF0
}

#[test]
fn store_bcd_writes_three_digits() {
    let mut c = Chip8::new();
    c.execute(0x60EA, 0); // V0 = 234
    c.execute(0xA400, 0);
    assert_eq!(c.execute(0xF033, 0), None);
    assert_eq!(c.memory[0x400], 2);
    assert_eq!(c.memory[0x401], 3);
    assert_eq!(c.memory[0x402], 4);
}

#[test]
fn reg_dump_and_load_round_trip() {
    let mut c = Chip8::new();
    c.execute(0x6011, 0);
    c.execute(0x6122, 0);
    c.execute(0x6233, 0);
    c.execute(0xA500, 0);
    assert_eq!(c.execute(0xF255, 0), None); // dump V0..=V2
    assert_eq!(c.memory[0x500], 0x11);
    assert_eq!(c.memory[0x501], 0x22);
    assert_eq!(c.memory[0x502], 0x33);
    c.execute(0x6000, 0);
    c.execute(0x6100, 0);
    c.execute(0x6200, 0);
    assert_eq!(c.execute(0xF265, 0), None); // load V0..=V2 back
    assert_eq!(c.v[0], 0x11);
    assert_eq!(c.v[1], 0x22);
    assert_eq!(c.v[2], 0x33);
}

#[test]
fn delay_timer_set_get_and_tick_to_zero() {
    // 5 ticks starting from 3 leave the timer at 0, not negative
    let mut c = Chip8::new();
    c.execute(0x6003, 0); // V0 = 3
    c.execute(0xF015, 0); // delay = V0
    assert_eq!(c.delay_timer, 3);
    for _ in 0..5 {
        c.update_timer();
    }
    assert_eq!(c.delay_timer, 0);
    c.execute(0xF107, 0); // V1 = delay
    assert_eq!(c.v[1], 0);
}

#[test]
fn timer_frozen_while_waiting_for_key() {
    let mut c = Chip8::new();
    c.execute(0x6003, 0);
    c.execute(0xF015, 0); // delay = 3
    c.execute(0xF00A, 0); // wait for key
    assert!(c.paused());
    c.update_timer();
    assert_eq!(c.delay_timer, 3);
}

#[test]
fn set_sound_is_accepted_without_effect() {
    let mut c = Chip8::new();
    let before_v = c.v.clone();
    assert_eq!(c.execute(0xF318, 0), None);
    assert_eq!(c.v, before_v);
    assert_eq!(c.pc, 0x202);
}

#[test]
fn wait_for_key_freezes_until_delivery() {
    let mut c = Chip8::new();
    c.load_program(vec![0xF3, 0x0A, 0x60, 0x07]);
    assert_eq!(c.step(), None); // wait-for-key V3
    assert!(c.paused());
    assert_eq!(c.wait, WaitState::WaitingForKey { dest: 3 });
    let pc = c.pc;
    let regs = c.v.clone();
    for _ in 0..4 {
        assert_eq!(c.step(), None); // frozen: no advance, no mutation
    }
    assert_eq!(c.pc, pc);
    assert_eq!(c.v, regs);
    c.deliver_key(0xA);
    assert!(!c.paused());
    assert_eq!(c.v[3], 0xA);
    assert!(c.keyboard.is_key_pressed(0xA));
    assert_eq!(c.step(), None); // resumes with the next instruction
    assert_eq!(c.v[0], 7);
}

#[test]
fn on_key_down_maps_physical_to_logical() {
    let mut c = Chip8::new();
    c.execute(0xF00A, 0); // wait for key into V0
    c.on_key_down(9999); // unmapped: still waiting
    assert!(c.paused());
    c.on_key_down(49); // physical 49 -> logical 1
    assert!(!c.paused());
    assert_eq!(c.v[0], 1);
    assert!(c.keyboard.is_key_pressed(1));
}

#[test]
fn skip_if_key_and_not_key() {
    let mut c = Chip8::new();
    c.deliver_key(4);
    c.execute(0x6004, 0); // V0 = 4
    let pc = c.pc;
    c.execute(0xE09E, 0); // key 4 pressed: skip
    assert_eq!(c.pc, pc + 4);
    c.execute(0xE0A1, 0); // pressed: no extra skip
    assert_eq!(c.pc, pc + 6);
    c.keyboard.on_key_up(113); // physical 113 -> logical 4 released
    c.execute(0xE09E, 0); // no longer pressed: no skip
    assert_eq!(c.pc, pc + 8);
    c.execute(0xE0A1, 0); // not pressed: skip
    assert_eq!(c.pc, pc + 12);
}

#[test]
fn skip_if_key_with_wild_register_is_memory_fault() {
    let mut c = Chip8::new();
    c.execute(0x60FF, 0); // V0 = 255: no such key
    assert_eq!(c.execute(0xE09E, 0), Some(Fault::Memory));
}

#[test]
fn unknown_opcode_is_reported_and_execution_continues() {
    let mut c = Chip8::new();
    assert_eq!(c.execute(0x0123, 0), Some(Fault::Decode));
    assert_eq!(c.pc, 0x202);
    assert_eq!(c.execute(0x8008, 0), Some(Fault::Decode));
    assert_eq!(c.execute(0xE0FF, 0), Some(Fault::Decode));
    assert_eq!(c.execute(0xF0FF, 0), Some(Fault::Decode));
    // the machine still runs afterwards
    assert_eq!(c.execute(0x6001, 0), None);
    assert_eq!(c.v[0], 1);
}

#[test]
fn out_of_range_accesses_are_memory_faults() {
    let mut c = Chip8::new();
    c.execute(0xAFFF, 0); // I = 0xFFF
    assert_eq!(c.execute(0xD012, 0), Some(Fault::Memory)); // draw reads past memory
    assert_eq!(c.execute(0xF033, 0), Some(Fault::Memory)); // bcd writes past memory
    assert_eq!(c.execute(0xFF55, 0), Some(Fault::Memory)); // dump writes past memory
    assert_eq!(c.execute(0xFF65, 0), Some(Fault::Memory)); // load reads past memory
}

#[test]
fn step_with_pc_outside_memory_is_memory_fault() {
    let mut c = Chip8::new();
    c.pc = 4095;
    assert_eq!(c.step(), Some(Fault::Memory));
    assert_eq!(c.pc, 4095);
}

#[test]
fn draw_all_zero_sprite_changes_nothing() {
    let mut c = Chip8::new();
    c.execute(0xA300, 0); // I = 0x300: zeroed memory
    assert_eq!(c.execute(0xD015, 0), None); // draw 5 rows at (V0, V1)
    assert!(c.monitor.display.iter().all(|&p| p == 0));
    assert_eq!(c.v[15], 0);
}

#[test]
fn draw_sets_pixels_and_draw_again_clears_them() {
    let mut c = Chip8::new();
    c.memory[0x300] = 0xFF; // one solid row
    c.execute(0xA300, 0);
    assert_eq!(c.execute(0xD011, 0), None); // draw at (0,0)
    for i in 0..8 {
        assert_eq!(c.monitor.display[i], 1);
    }
    assert_eq!(c.v[15], 0); // nothing was lit before
    assert_eq!(c.execute(0xD011, 0), None); // same sprite, same place
    for i in 0..8 {
        assert_eq!(c.monitor.display[i], 0);
    }
    assert_eq!(c.v[15], 1); // every toggle collided with the first drawing
}

#[test]
fn draw_at_offset_uses_registers() {
    let mut c = Chip8::new();
    c.memory[0x300] = 0x80; // single pixel
    c.execute(0xA300, 0);
    c.execute(0x600A, 0); // V0 = 10
    c.execute(0x6105, 0); // V1 = 5
    c.execute(0xD011, 0); // draw at (10, 5)
    assert_eq!(c.monitor.display[5 * 64 + 10], 1);
}

#[test]
fn clear_screen_blanks_display() {
    let mut c = Chip8::new();
    c.memory[0x300] = 0xFF;
    c.execute(0xA300, 0);
    c.execute(0xD011, 0);
    assert_eq!(c.execute(0x00E0, 0), None);
    assert!(c.monitor.display.iter().all(|&p| p == 0));
}

#[test]
fn cycle_runs_speed_steps_and_ticks_timer() {
    let mut c = Chip8::new();
    // program: ten `set V0, k`-style no-risk instructions then padding
    c.load_program(vec![
        0x60, 0x01, 0x61, 0x02, 0x62, 0x03, 0x63, 0x04, 0x64, 0x05, 0x65, 0x06, 0x66, 0x07, 0x67,
        0x08, 0x68, 0x09, 0x69, 0x0A,
    ]);
    c.delay_timer = 2;
    c.cycle();
    // speed is 10: all ten instructions ran, one timer tick
    assert_eq!(c.pc, 0x200 + 20);
    assert_eq!(c.v[0], 1);
    assert_eq!(c.v[9], 0x0A);
    assert_eq!(c.delay_timer, 1);
}
