use chip8::machine::{HaltReason, Machine, Step};
use chip8::op_codes::OpCode;

#[test]
fn add_flag_law_all_pairs() {
    let mut m = Machine::new();
    for a in 0..=255u32 {
        for b in 0..=255u32 {
            m.registers[0] = a as u8;
            m.registers[1] = b as u8;
            let r = m.execute(OpCode::Add { vx: 0, vy: 1 }, 0);
            assert_eq!(r, Step::Next);
            assert_eq!(m.registers[0] as u32, (a + b) % 256);
            assert_eq!(m.registers[15], if a + b > 255 { 1 } else { 0 });
        }
    }
}

#[test]
fn subtract_flag_law_all_pairs() {
    let mut m = Machine::new();
    for a in 0..=255u32 {
        for b in 0..=255u32 {
            m.registers[0] = a as u8;
            m.registers[1] = b as u8;
            let r = m.execute(OpCode::Subtract { vx: 0, vy: 1 }, 0);
            assert_eq!(r, Step::Next);
            assert_eq!(m.registers[0] as u32, (256 + a - b) % 256);
            assert_eq!(m.registers[15], if a >= b { 1 } else { 0 });
        }
    }
}

#[test]
fn reverse_subtract_flag_law_all_pairs() {
    let mut m = Machine::new();
    for a in 0..=255u32 {
        for b in 0..=255u32 {
            m.registers[0] = a as u8;
            m.registers[1] = b as u8;
            let r = m.execute(OpCode::AssignDifference { vx: 0, vy: 1 }, 0);
            assert_eq!(r, Step::Next);
            assert_eq!(m.registers[0] as u32, (256 + b - a) % 256);
            assert_eq!(m.registers[15], if b >= a { 1 } else { 0 });
        }
    }
}

#[test]
fn shift_right_law_all_values() {
    let mut m = Machine::new();
    for v in 0..=255u32 {
        m.registers[3] = v as u8;
        let r = m.execute(OpCode::BitShiftRight { vx: 3, vy: 0 }, 0);
        assert_eq!(r, Step::Next);
        assert_eq!(m.registers[3] as u32, v >> 1);
        assert_eq!(m.registers[15] as u32, v & 1);
    }
}

#[test]
fn shift_left_law_all_values() {
    let mut m = Machine::new();
    for v in 0..=255u32 {
        m.registers[3] = v as u8;
        let r = m.execute(OpCode::BitShiftLeft { vx: 3, vy: 0 }, 0);
        assert_eq!(r, Step::Next);
        assert_eq!(m.registers[3] as u32, (v << 1) % 256);
        assert_eq!(m.registers[15] as u32, (v >> 7) & 1);
    }
}

#[test]
fn sprite_drawn_twice_cancels_and_reports_collision() {
    let mut m = Machine::new();
    m.index = 0x300;
    m.memory[0x300] = 0xFF;
    m.memory[0x301] = 0x81;
    m.registers[0] = 5;
    m.registers[1] = 3;
    let r1 = m.execute(OpCode::Display { vx: 0, vy: 1, n: 2 }, 0);
    assert_eq!(r1, Step::Next);
    assert_eq!(m.registers[15], 0);
    assert!(m.display[3 * 64 + 5]);
    assert!(m.display[3 * 64 + 12]);
    assert!(m.display[4 * 64 + 5]);
    assert!(!m.display[4 * 64 + 6]);
    let r2 = m.execute(OpCode::Display { vx: 0, vy: 1, n: 2 }, 0);
    assert_eq!(r2, Step::Next);
    assert_eq!(m.registers[15], 1);
    assert!(m.display.iter().all(|p| !p));
}

#[test]
fn sprite_clips_at_right_edge_and_wraps_origin() {
    let mut m = Machine::new();
    m.index = 0x300;
    m.memory[0x300] = 0xFF;
    m.registers[0] = 60;
    m.registers[1] = 0;
    let r = m.execute(OpCode::Display { vx: 0, vy: 1, n: 1 }, 0);
    assert_eq!(r, Step::Next);
    let lit: usize = m.display.iter().filter(|p| **p).count();
    assert_eq!(lit, 4);
    assert!(m.display[60] && m.display[63]);
    assert!(!m.display[64]);

    let mut m2 = Machine::new();
    m2.index = 0x300;
    m2.memory[0x300] = 0x80;
    m2.registers[0] = 68;
    m2.registers[1] = 33;
    let r2 = m2.execute(OpCode::Display { vx: 0, vy: 1, n: 1 }, 0);
    assert_eq!(r2, Step::Next);
    assert!(m2.display[1 * 64 + 4]);
    let lit2: usize = m2.display.iter().filter(|p| **p).count();
    assert_eq!(lit2, 1);
}

#[test]
fn sprite_clips_at_bottom_edge() {
    let mut m = Machine::new();
    m.index = 0x300;
    for i in 0..15usize {
        m.memory[0x300 + i] = 0x80;
    }
    m.registers[0] = 0;
    m.registers[1] = 30;
    let r = m.execute(OpCode::Display { vx: 0, vy: 1, n: 15 }, 0);
    assert_eq!(r, Step::Next);
    let lit: usize = m.display.iter().filter(|p| **p).count();
    assert_eq!(lit, 2);
    assert!(m.display[30 * 64] && m.display[31 * 64]);
}

#[test]
fn sprite_read_beyond_memory_is_fatal() {
    let mut m = Machine::new();
    m.index = 4095;
    m.registers[0] = 0;
    m.registers[1] = 0;
    let r = m.execute(OpCode::Display { vx: 0, vy: 1, n: 2 }, 0);
    assert_eq!(
        r,
        Step::Halt {
            reason: HaltReason::OutOfBounds
        }
    );
}

#[test]
fn nested_calls_and_returns_restore_pc() {
    let mut m = Machine::new();
    let pc0 = m.pc;
    assert_eq!(m.execute(OpCode::Subroutine { address: 0x300 }, 0), Step::Next);
    assert_eq!(m.pc, 0x300);
    assert_eq!(m.execute(OpCode::Subroutine { address: 0x400 }, 0), Step::Next);
    assert_eq!(m.execute(OpCode::Subroutine { address: 0x500 }, 0), Step::Next);
    assert_eq!(m.stack.len(), 3);
    assert_eq!(m.execute(OpCode::Return, 0), Step::Next);
    assert_eq!(m.pc, 0x400);
    assert_eq!(m.execute(OpCode::Return, 0), Step::Next);
    assert_eq!(m.pc, 0x300);
    assert_eq!(m.execute(OpCode::Return, 0), Step::Next);
    assert_eq!(m.pc, pc0);
    assert_eq!(m.stack.len(), 0);
    assert_eq!(
        m.execute(OpCode::Return, 0),
        Step::Halt {
            reason: HaltReason::StackUnderflow
        }
    );
}

#[test]
fn end_to_end_set_then_add_leaves_eight() {
    let mut m = Machine::new();
    let program: Vec<u8> = vec![0x60, 0x05, 0x70, 0x03];
    assert!(m.load(&program, 0x200));
    let start = m.pc;
    assert_eq!(m.cycle(0), Step::Next);
    assert_eq!(m.cycle(0), Step::Next);
    assert_eq!(m.registers[0], 8);
    assert_eq!(m.pc, start + 4);
}

#[test]
fn loading_too_large_an_image_fails_and_changes_nothing() {
    let mut m = Machine::new();
    let too_big: Vec<u8> = vec![0xAA; 4096 - 0x200 + 1];
    assert!(!m.load(&too_big, 0x200));
    assert!(m.memory.iter().all(|b| *b == 0));
    let just_fits: Vec<u8> = vec![0xBB; 4096 - 0x200];
    assert!(m.load(&just_fits, 0x200));
    assert_eq!(m.memory[0x200], 0xBB);
    assert_eq!(m.memory[4095], 0xBB);
    assert_eq!(m.memory[0x1FF], 0);
}

#[test]
fn fetch_beyond_memory_is_fatal() {
    let mut m = Machine::new();
    m.pc = 4095;
    assert_eq!(
        m.cycle(0),
        Step::Halt {
            reason: HaltReason::OutOfBounds
        }
    );
}

#[test]
fn unrecognized_word_halts_the_run() {
    let mut m = Machine::new();
    assert_eq!(
        m.cycle(0),
        Step::Halt {
            reason: HaltReason::Unrecognized
        }
    );
    assert_eq!(m.pc, 0x202);
}

#[test]
fn unimplemented_variants_halt_the_run() {
    let mut m = Machine::new();
    assert_eq!(
        m.execute(OpCode::JumpPlusV0 { address: 0x300 }, 0),
        Step::Halt {
            reason: HaltReason::Unimplemented
        }
    );
    assert_eq!(
        m.execute(OpCode::AssignRandom { vx: 0, value: 7 }, 0),
        Step::Halt {
            reason: HaltReason::Unimplemented
        }
    );
    assert_eq!(
        m.execute(OpCode::WaitForPressAndAssign { vx: 0 }, 0),
        Step::Halt {
            reason: HaltReason::Unimplemented
        }
    );
}

#[test]
fn conditional_skips_stack_on_the_pre_advance() {
    let mut m = Machine::new();
    m.registers[2] = 9;
    let pc0 = m.pc;
    assert_eq!(m.execute(OpCode::SkipIfVariableEqualsValue { vx: 2, value: 9 }, 0), Step::Next);
    assert_eq!(m.pc, pc0 + 2);
    assert_eq!(m.execute(OpCode::SkipIfVariableEqualsValue { vx: 2, value: 8 }, 0), Step::Next);
    assert_eq!(m.pc, pc0 + 2);
    assert_eq!(
        m.execute(OpCode::SkipIfVariableNotEqualsValue { vx: 2, value: 8 }, 0),
        Step::Next
    );
    assert_eq!(m.pc, pc0 + 4);
    m.registers[3] = 9;
    assert_eq!(m.execute(OpCode::SkipIfVariableEqualsVariable { vx: 2, vy: 3 }, 0), Step::Next);
    assert_eq!(m.pc, pc0 + 6);
    assert_eq!(
        m.execute(OpCode::SkipIfVariableNotEqualsVariable { vx: 2, vy: 3 }, 0),
        Step::Next
    );
    assert_eq!(m.pc, pc0 + 6);
}

#[test]
fn store_and_load_round_trip_through_memory() {
    let mut m = Machine::new();
    m.index = 0x320;
    for i in 0..4usize {
        m.registers[i] = (10 + i) as u8;
    }
    assert_eq!(m.execute(OpCode::StoreToMemory { vx: 3 }, 0), Step::Next);
    assert_eq!(m.index, 0x320);
    assert_eq!(m.memory[0x320], 10);
    assert_eq!(m.memory[0x323], 13);
    assert_eq!(m.memory[0x324], 0);
    for i in 0..4usize {
        m.registers[i] = 0;
    }
    assert_eq!(m.execute(OpCode::LoadFromMemory { vx: 3 }, 0), Step::Next);
    assert_eq!(m.index, 0x320);
    assert_eq!(m.registers[0], 10);
    assert_eq!(m.registers[3], 13);
    assert_eq!(m.registers[4], 0);
}

#[test]
fn store_beyond_memory_is_fatal() {
    let mut m = Machine::new();
    m.index = 4090;
    assert_eq!(
        m.execute(OpCode::StoreToMemory { vx: 6 }, 0),
        Step::Halt {
            reason: HaltReason::OutOfBounds
        }
    );
    assert_eq!(
        m.execute(OpCode::LoadFromMemory { vx: 6 }, 0),
        Step::Halt {
            reason: HaltReason::OutOfBounds
        }
    );
    assert_eq!(m.execute(OpCode::StoreToMemory { vx: 5 }, 0), Step::Next);
}

#[test]
fn binary_coded_decimal_writes_three_digits() {
    let mut m = Machine::new();
    m.index = 0x400;
    m.registers[7] = 234;
    assert_eq!(m.execute(OpCode::StoreBinaryCodedDecimal { vx: 7 }, 0), Step::Next);
    assert_eq!(m.memory[0x400], 2);
    assert_eq!(m.memory[0x401], 3);
    assert_eq!(m.memory[0x402], 4);
    m.registers[7] = 7;
    assert_eq!(m.execute(OpCode::StoreBinaryCodedDecimal { vx: 7 }, 0), Step::Next);
    assert_eq!(m.memory[0x400], 0);
    assert_eq!(m.memory[0x401], 0);
    assert_eq!(m.memory[0x402], 7);
    m.index = 4094;
    assert_eq!(
        m.execute(OpCode::StoreBinaryCodedDecimal { vx: 7 }, 0),
        Step::Halt {
            reason: HaltReason::OutOfBounds
        }
    );
}

#[test]
fn index_instructions() {
    let mut m = Machine::new();
    assert_eq!(m.execute(OpCode::SetIndex { address: 0x123 }, 0), Step::Next);
    assert_eq!(m.index, 0x123);
    m.registers[4] = 0x10;
    assert_eq!(m.execute(OpCode::AddToIndex { vx: 4 }, 0), Step::Next);
    assert_eq!(m.index, 0x133);
    m.index = 0xFFFF;
    m.registers[4] = 2;
    assert_eq!(m.execute(OpCode::AddToIndex { vx: 4 }, 0), Step::Next);
    assert_eq!(m.index, 1);
    m.registers[5] = 0xA;
    assert_eq!(m.execute(OpCode::SetIndexToSpriteLocation { vx: 5 }, 0), Step::Next);
    assert_eq!(m.index, 0x50 + 5 * 0xA);
}

#[test]
fn register_transfer_and_bitwise_instructions() {
    let mut m = Machine::new();
    m.registers[1] = 0b1100;
    m.registers[2] = 0b1010;
    assert_eq!(m.execute(OpCode::AssignVariable { vx: 0, vy: 1 }, 0), Step::Next);
    assert_eq!(m.registers[0], 0b1100);
    assert_eq!(m.execute(OpCode::BitwiseOr { vx: 0, vy: 2 }, 0), Step::Next);
    assert_eq!(m.registers[0], 0b1110);
    assert_eq!(m.execute(OpCode::BitwiseAnd { vx: 0, vy: 1 }, 0), Step::Next);
    assert_eq!(m.registers[0], 0b1100);
    assert_eq!(m.execute(OpCode::BitwiseXor { vx: 0, vy: 2 }, 0), Step::Next);
    assert_eq!(m.registers[0], 0b0110);
    assert_eq!(m.execute(OpCode::AddValue { vx: 0, value: 250 }, 0), Step::Next);
    assert_eq!(m.registers[0], 0b0110_u8.wrapping_add(250));
    assert_eq!(m.registers[15], 0);
}

#[test]
fn clear_screen_blanks_every_pixel() {
    let mut m = Machine::new();
    m.index = 0x300;
    m.memory[0x300] = 0xFF;
    assert_eq!(m.execute(OpCode::Display { vx: 0, vy: 1, n: 1 }, 0), Step::Next);
    assert!(m.display.iter().any(|p| *p));
    assert_eq!(m.execute(OpCode::ClearScreen, 0), Step::Next);
    assert!(m.display.iter().all(|p| !p));
}

#[test]
fn key_skip_stubs_do_nothing() {
    let mut m = Machine::new();
    let pc0 = m.pc;
    assert_eq!(m.execute(OpCode::SkipIfPressed { vx: 0 }, 0), Step::Next);
    assert_eq!(m.execute(OpCode::SkipIfNotPressed { vx: 0 }, 0), Step::Next);
    assert_eq!(m.pc, pc0);
}

#[test]
fn timer_instructions_exchange_values_with_the_loop() {
    let mut m = Machine::new();
    m.registers[6] = 42;
    assert_eq!(m.execute(OpCode::SetDelayTimer { vx: 6 }, 0), Step::SetDelay { value: 42 });
    assert_eq!(m.execute(OpCode::SetSoundTimer { vx: 6 }, 0), Step::SetSound { value: 42 });
    assert_eq!(m.execute(OpCode::AssignDelayTimerToVariable { vx: 3 }, 99), Step::Next);
    assert_eq!(m.registers[3], 99);
}
