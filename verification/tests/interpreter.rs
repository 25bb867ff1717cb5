use chip8::cpu::{init, Cpu};
use chip8::decode::{decode, Instr};
use chip8::{CycleOutcome, Fault, KeyOutcome};

fn boot(rom: &[u8]) -> Cpu {
    let mut cpu = init();
    cpu.load_rom(rom).unwrap();
    cpu
}

fn step_ran(cpu: &mut Cpu) {
    let r = cpu.emulate_cycle();
    assert!(matches!(r, Ok(CycleOutcome::Ran { .. })));
}

#[test]
fn decode_table() {
    assert_eq!(decode(0x00E0), Some(Instr::Cls));
    assert_eq!(decode(0x00EE), Some(Instr::Ret));
    assert_eq!(decode(0x1ABC), Some(Instr::Jp { nnn: 0xABC }));
    assert_eq!(decode(0x2ABC), Some(Instr::Call { nnn: 0xABC }));
    assert_eq!(decode(0x3A42), Some(Instr::SkipEq { x: 0xA, nn: 0x42 }));
    assert_eq!(decode(0x4A42), Some(Instr::SkipNe { x: 0xA, nn: 0x42 }));
    assert_eq!(decode(0x6A42), Some(Instr::SetReg { x: 0xA, nn: 0x42 }));
    assert_eq!(decode(0x7A42), Some(Instr::AddImm { x: 0xA, nn: 0x42 }));
    assert_eq!(decode(0x8AB0), Some(Instr::Copy { x: 0xA, y: 0xB }));
    assert_eq!(decode(0x8AB2), Some(Instr::AndReg { x: 0xA, y: 0xB }));
    assert_eq!(decode(0x8AB4), Some(Instr::AddReg { x: 0xA, y: 0xB }));
    assert_eq!(decode(0xAABC), Some(Instr::SetIndex { nnn: 0xABC }));
    assert_eq!(decode(0xCA42), Some(Instr::Rand { x: 0xA, nn: 0x42 }));
    assert_eq!(decode(0xDAB7), Some(Instr::Draw { x: 0xA, y: 0xB, n: 7 }));
    assert_eq!(decode(0xFA07), Some(Instr::GetDelay { x: 0xA }));
    assert_eq!(decode(0xFA0A), Some(Instr::WaitKey { x: 0xA }));
    assert_eq!(decode(0xFA15), Some(Instr::SetDelay { x: 0xA }));
    assert_eq!(decode(0xFA1E), Some(Instr::AddIndex { x: 0xA }));
    assert_eq!(decode(0xFA29), Some(Instr::FontAddr { x: 0xA }));
    assert_eq!(decode(0xFA33), Some(Instr::StoreBcd { x: 0xA }));
    assert_eq!(decode(0xFA55), Some(Instr::StoreRegs { x: 0xA }));
    assert_eq!(decode(0xFA65), Some(Instr::LoadRegs { x: 0xA }));
    // outside the implemented subset
    assert_eq!(decode(0x5123), None);
    assert_eq!(decode(0x0123), None);
    assert_eq!(decode(0x00E1), None);
    assert_eq!(decode(0x8AB1), None);
    assert_eq!(decode(0x9AB0), None);
    assert_eq!(decode(0xBABC), None);
    assert_eq!(decode(0xEA9E), None);
    assert_eq!(decode(0xFA18), None);
    assert_eq!(decode(0xFA99), None);
}

#[test]
fn reset_state() {
    let mut cpu = init();
    assert_eq!(cpu.curr_pc(), 0x200);
    assert_eq!(cpu.curr_opcode(), 0);
    assert_eq!(cpu.curr_index(), 0);
    assert_eq!(cpu.curr_sp(), 0);
    assert_eq!(cpu.curr_dt(), 0);
    assert_eq!(cpu.curr_st(), 0);
    assert_eq!(cpu.curr_regs(), vec![0u8; 16]);
    assert_eq!(cpu.curr_stack(), vec![0usize; 16]);
    assert_eq!(cpu.curr_gfx(), vec![0u8; 64 * 32]);
}

#[test]
fn load_rom_too_long_is_malformed() {
    let mut cpu = init();
    let rom = vec![0u8; 0xE01];
    assert_eq!(cpu.load_rom(&rom), Err(Fault::MalformedInput));
    // the largest image that still fits is accepted
    let rom = vec![0u8; 0xE00];
    assert_eq!(cpu.load_rom(&rom), Ok(()));
}

#[test]
fn set_then_add_wraps() {
    // V0 = 0xFF, then V0 += 0x02: wraparound to 0x01, no flag change
    let mut cpu = boot(&[0x60, 0xFF, 0x70, 0x02]);
    step_ran(&mut cpu);
    step_ran(&mut cpu);
    let regs = cpu.curr_regs();
    assert_eq!(regs[0], 0x01);
    assert_eq!(regs[0xF], 0);
}

#[test]
fn add_reg_carry_set() {
    // V0 = 200, V1 = 100, V0 += V1: 300 % 256 = 44, carry
    let mut cpu = boot(&[0x60, 0xC8, 0x61, 0x64, 0x80, 0x14]);
    step_ran(&mut cpu);
    step_ran(&mut cpu);
    step_ran(&mut cpu);
    let regs = cpu.curr_regs();
    assert_eq!(regs[0], 44);
    assert_eq!(regs[0xF], 1);
}

#[test]
fn add_reg_carry_clear() {
    // V0 = 10, V1 = 5, V0 += V1: 15, no carry
    let mut cpu = boot(&[0x60, 0x0A, 0x61, 0x05, 0x80, 0x14]);
    step_ran(&mut cpu);
    step_ran(&mut cpu);
    step_ran(&mut cpu);
    let regs = cpu.curr_regs();
    assert_eq!(regs[0], 15);
    assert_eq!(regs[0xF], 0);
}

#[test]
fn end_to_end_add_scenario() {
    let mut cpu = boot(&[0x60, 0x0A, 0x61, 0x05, 0x80, 0x14]);
    step_ran(&mut cpu);
    step_ran(&mut cpu);
    step_ran(&mut cpu);
    let regs = cpu.curr_regs();
    assert_eq!(regs[0], 15);
    assert_eq!(regs[0xF], 0);
    assert_eq!(cpu.curr_pc(), 0x206);
}

#[test]
fn call_then_return_round_trip() {
    // call 0x208 from 0x200, return immediately
    let mut cpu = boot(&[0x22, 0x08, 0, 0, 0, 0, 0, 0, 0x00, 0xEE]);
    step_ran(&mut cpu);
    assert_eq!(cpu.curr_pc(), 0x208);
    assert_eq!(cpu.curr_sp(), 1);
    assert_eq!(cpu.curr_stack()[0], 0x200);
    step_ran(&mut cpu);
    assert_eq!(cpu.curr_pc(), 0x202);
    assert_eq!(cpu.curr_sp(), 0);
}

#[test]
fn return_on_empty_stack_faults() {
    let mut cpu = boot(&[0x00, 0xEE]);
    assert_eq!(cpu.emulate_cycle(), Err(Fault::OutOfBounds));
    assert_eq!(cpu.curr_pc(), 0x200);
}

#[test]
fn call_past_stack_depth_faults() {
    // 0x2200 calls address 0x200 forever: the 17th call overflows
    let mut cpu = boot(&[0x22, 0x00]);
    for _ in 0..16 {
        step_ran(&mut cpu);
    }
    assert_eq!(cpu.curr_sp(), 16);
    assert_eq!(cpu.emulate_cycle(), Err(Fault::OutOfBounds));
}

#[test]
fn unrecognized_opcode_faults_without_advancing() {
    let mut cpu = boot(&[0x51, 0x23]);
    assert_eq!(cpu.emulate_cycle(), Err(Fault::UnimplementedOpcode));
    assert_eq!(cpu.curr_pc(), 0x200);
    assert_eq!(cpu.curr_opcode(), 0x5123);
}

#[test]
fn jump_sets_pc() {
    let mut cpu = boot(&[0x12, 0x06]);
    step_ran(&mut cpu);
    assert_eq!(cpu.curr_pc(), 0x206);
}

#[test]
fn skip_eq_taken_and_not_taken() {
    // V0 = 7; skip (equal) jumps over V1 = 1; V2 = 2 then runs
    let mut cpu = boot(&[0x60, 0x07, 0x30, 0x07, 0x61, 0x01, 0x62, 0x02]);
    step_ran(&mut cpu);
    step_ran(&mut cpu);
    assert_eq!(cpu.curr_pc(), 0x206);
    step_ran(&mut cpu);
    let regs = cpu.curr_regs();
    assert_eq!(regs[1], 0);
    assert_eq!(regs[2], 2);

    // V0 = 7; skip-if-equal against 8 is not taken
    let mut cpu = boot(&[0x60, 0x07, 0x30, 0x08, 0x61, 0x01]);
    step_ran(&mut cpu);
    step_ran(&mut cpu);
    assert_eq!(cpu.curr_pc(), 0x204);
    step_ran(&mut cpu);
    assert_eq!(cpu.curr_regs()[1], 1);
}

#[test]
fn skip_ne_taken() {
    // V0 = 7; skip-if-not-equal against 8 is taken
    let mut cpu = boot(&[0x60, 0x07, 0x40, 0x08, 0x61, 0x01, 0x62, 0x02]);
    step_ran(&mut cpu);
    step_ran(&mut cpu);
    assert_eq!(cpu.curr_pc(), 0x206);
}

#[test]
fn copy_and_and_registers() {
    // V0 = 0xF3, V1 = 0xA5, V0 &= V1; VF forced to 0
    let mut cpu = boot(&[0x60, 0xF3, 0x61, 0xA5, 0x80, 0x12]);
    step_ran(&mut cpu);
    step_ran(&mut cpu);
    step_ran(&mut cpu);
    let regs = cpu.curr_regs();
    assert_eq!(regs[0], 0xA1);
    assert_eq!(regs[0xF], 0);

    // V1 = 0x0F, V0 = V1
    let mut cpu = boot(&[0x61, 0x0F, 0x80, 0x10]);
    step_ran(&mut cpu);
    step_ran(&mut cpu);
    assert_eq!(cpu.curr_regs()[0], 0x0F);
}

#[test]
fn set_index_and_add_index() {
    // index = 0x100; V0 = 5; index += V0
    let mut cpu = boot(&[0xA1, 0x00, 0x60, 0x05, 0xF0, 0x1E]);
    step_ran(&mut cpu);
    assert_eq!(cpu.curr_index(), 0x100);
    step_ran(&mut cpu);
    step_ran(&mut cpu);
    assert_eq!(cpu.curr_index(), 0x105);
}

#[test]
fn add_index_wraps_at_sixteen_bits() {
    // index = 0xFFF, V0 = 255, then a loop of index += V0; jump back.
    // After 241 additions: 0xFFF + 241 * 255 = 0x1000E, which wraps to 14.
    let mut cpu = boot(&[0xAF, 0xFF, 0x60, 0xFF, 0xF0, 0x1E, 0x12, 0x04]);
    step_ran(&mut cpu);
    step_ran(&mut cpu);
    for _ in 0..240 {
        step_ran(&mut cpu); // index += 255
        step_ran(&mut cpu); // jump back
    }
    step_ran(&mut cpu); // the 241st addition
    assert_eq!(cpu.curr_index(), 14);
}

#[test]
fn store_regs_with_index_out_of_range_faults() {
    // index = 0xFFE leaves no room for V0..V2
    let mut cpu = boot(&[0xAF, 0xFE, 0xF2, 0x55]);
    step_ran(&mut cpu);
    assert_eq!(cpu.emulate_cycle(), Err(Fault::OutOfBounds));
    assert_eq!(cpu.curr_pc(), 0x202);
}

#[test]
fn font_addr_points_into_fontset() {
    // V0 = 3: glyph 3 sits at 0x050 + 3 * 5
    let mut cpu = boot(&[0x60, 0x03, 0xF0, 0x29]);
    step_ran(&mut cpu);
    step_ran(&mut cpu);
    assert_eq!(cpu.curr_index(), 0x05F);
}

#[test]
fn bcd_store_and_load_regs() {
    // V0 = 137; BCD at 0x300; load V0..V2 back: digits 1, 3, 7
    let mut cpu = boot(&[0x60, 0x89, 0xA3, 0x00, 0xF0, 0x33, 0xF2, 0x65]);
    for _ in 0..4 {
        step_ran(&mut cpu);
    }
    let regs = cpu.curr_regs();
    assert_eq!(regs[0], 1);
    assert_eq!(regs[1], 3);
    assert_eq!(regs[2], 7);
}

#[test]
fn store_then_load_regs_round_trip() {
    // V0 = 1, V1 = 2; store V0..V1 at 0x300; zero them; load back
    let mut cpu = boot(&[
        0x60, 0x01, 0x61, 0x02, 0xA3, 0x00, 0xF1, 0x55, 0x60, 0x00, 0x61, 0x00, 0xF1, 0x65,
    ]);
    for _ in 0..7 {
        step_ran(&mut cpu);
    }
    let regs = cpu.curr_regs();
    assert_eq!(regs[0], 1);
    assert_eq!(regs[1], 2);
}

#[test]
fn bcd_with_index_out_of_range_faults() {
    // index = 0xFFE leaves no room for three digits
    let mut cpu = boot(&[0xAF, 0xFE, 0xF0, 0x33]);
    step_ran(&mut cpu);
    assert_eq!(cpu.emulate_cycle(), Err(Fault::OutOfBounds));
}

#[test]
fn draw_glyph_zero_pixels() {
    // index = 0x050 (glyph 0, top row 0xF0), draw 5 rows at (0, 0)
    let mut cpu = boot(&[0xA0, 0x50, 0xD0, 0x05]);
    step_ran(&mut cpu);
    step_ran(&mut cpu);
    let gfx = cpu.curr_gfx();
    // top row of glyph 0: pixels 0..4 lit, 4..8 dark
    assert_eq!(&gfx[0..8], &[1, 1, 1, 1, 0, 0, 0, 0]);
    // second row 0x90: bits 0 and 3
    assert_eq!(&gfx[64..72], &[1, 0, 0, 1, 0, 0, 0, 0]);
    assert_eq!(cpu.curr_regs()[0xF], 0);
}

#[test]
fn draw_twice_restores_and_collides() {
    // index = 0x20A (a 0xFF row), drawn twice at (1, 2)
    let mut cpu = boot(&[0xA2, 0x0A, 0xD1, 0x21, 0xD1, 0x21, 0, 0, 0, 0, 0xFF]);
    step_ran(&mut cpu);
    step_ran(&mut cpu);
    let gfx = cpu.curr_gfx();
    for col in 1..9 {
        assert_eq!(gfx[2 * 64 + col], 1);
    }
    assert_eq!(cpu.curr_regs()[0xF], 0);
    step_ran(&mut cpu);
    let gfx = cpu.curr_gfx();
    assert_eq!(gfx, vec![0u8; 64 * 32]);
    assert_eq!(cpu.curr_regs()[0xF], 1);
}

#[test]
fn draw_with_index_out_of_range_faults() {
    // index = 0xFFF leaves no room for a two-row sprite
    let mut cpu = boot(&[0xAF, 0xFF, 0xD0, 0x02]);
    step_ran(&mut cpu);
    assert_eq!(cpu.emulate_cycle(), Err(Fault::OutOfBounds));
}

#[test]
fn clear_screen_zeroes_everything() {
    // draw a glyph, then clear
    let mut cpu = boot(&[0xA0, 0x50, 0xD0, 0x05, 0x00, 0xE0]);
    step_ran(&mut cpu);
    step_ran(&mut cpu);
    assert_ne!(cpu.curr_gfx(), vec![0u8; 64 * 32]);
    step_ran(&mut cpu);
    assert_eq!(cpu.curr_gfx(), vec![0u8; 64 * 32]);
}

#[test]
fn delay_timer_decays_to_zero() {
    // V1 = 5; dt = V1; five more cycles that leave the timer alone
    let mut cpu = boot(&[
        0x61, 0x05, 0xF1, 0x15, 0x60, 0x00, 0x60, 0x00, 0x60, 0x00, 0x60, 0x00, 0x60, 0x00,
    ]);
    step_ran(&mut cpu);
    step_ran(&mut cpu);
    let mut prev = cpu.curr_dt();
    for _ in 0..5 {
        step_ran(&mut cpu);
        let now = cpu.curr_dt();
        // decrements by at most 1 per step, never wrapping below zero
        assert!(now == prev || now + 1 == prev);
        prev = now;
    }
    assert_eq!(cpu.curr_dt(), 0);
}

#[test]
fn get_delay_reads_timer() {
    // V1 = 5; dt = V1 (then ticks to 4); V0 = dt
    let mut cpu = boot(&[0x61, 0x05, 0xF1, 0x15, 0xF0, 0x07]);
    step_ran(&mut cpu);
    step_ran(&mut cpu);
    assert_eq!(cpu.curr_dt(), 4);
    step_ran(&mut cpu);
    assert_eq!(cpu.curr_regs()[0], 4);
    assert_eq!(cpu.curr_dt(), 3);
}

#[test]
fn no_beep_without_sound_timer() {
    let mut cpu = boot(&[0x60, 0x01]);
    assert_eq!(cpu.emulate_cycle(), Ok(CycleOutcome::Ran { beep: false }));
}

#[test]
fn random_masked_by_zero_is_zero() {
    let mut cpu = boot(&[0xC0, 0x00]);
    step_ran(&mut cpu);
    assert_eq!(cpu.curr_regs()[0], 0);
}

#[test]
fn random_respects_mask() {
    let mut cpu = boot(&[0xC1, 0x0F]);
    step_ran(&mut cpu);
    assert_eq!(cpu.curr_regs()[1] & 0xF0, 0);
}

#[test]
fn key_wait_suspends_and_accepts_mapped_code() {
    let mut cpu = boot(&[0xF0, 0x0A]);
    assert_eq!(cpu.emulate_cycle(), Ok(CycleOutcome::AwaitKey));
    assert_eq!(cpu.curr_pc(), 0x200);
    // a code outside the keymap is rejected and nothing moves
    assert_eq!(cpu.provide_key(0xFF), KeyOutcome::Rejected);
    assert_eq!(cpu.curr_pc(), 0x200);
    // 0x31 is keymap entry 1
    assert_eq!(cpu.provide_key(0x31), KeyOutcome::Accepted { beep: false });
    assert_eq!(cpu.curr_regs()[0], 1);
    assert_eq!(cpu.curr_pc(), 0x202);
}

#[test]
fn fetch_beyond_memory_faults() {
    // jump to the last byte of memory: no room for a two-byte fetch
    let mut cpu = boot(&[0x1F, 0xFF]);
    step_ran(&mut cpu);
    assert_eq!(cpu.curr_pc(), 0xFFF);
    assert_eq!(cpu.emulate_cycle(), Err(Fault::OutOfBounds));
}
