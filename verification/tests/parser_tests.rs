use chip8::op_codes::OpCode;
use chip8::parser::parse_op_code;

#[test]
fn can_parse_clear_screen() {
    assert_eq!(parse_op_code(0x00E0), OpCode::ClearScreen);
}

#[test]
fn can_parse_jump() {
    assert_eq!(parse_op_code(0x1567), OpCode::Jump { address: 0x567 });
}

#[test]
fn can_parse_skip_if_variable_x_equals_value() {
    assert_eq!(
        parse_op_code(0x3155),
        OpCode::SkipIfVariableEqualsValue {
            vx: 0x1,
            value: 0x55
        }
    )
}

#[test]
fn can_parse_add_value() {
    assert_eq!(
        parse_op_code(0x7A11),
        OpCode::AddValue {
            vx: 0xA,
            value: 0x11
        }
    )
}

#[test]
fn can_parse_subtract_variables() {
    assert_eq!(parse_op_code(0x8015), OpCode::Subtract { vx: 0x0, vy: 0x1 })
}

#[test]
fn can_parse_invalid() {
    assert_eq!(parse_op_code(0xFFFF), OpCode::Invalid)
}

#[test]
fn decoder_is_total_and_deterministic_on_all_words() {
    for w in 0..=0xFFFFu32 {
        let first = parse_op_code(w as u16);
        let second = parse_op_code(w as u16);
        assert_eq!(first, second);
    }
}

#[test]
fn every_family_decodes_with_exact_fields() {
    assert_eq!(parse_op_code(0x1234), OpCode::Jump { address: 0x234 });
    assert_eq!(parse_op_code(0x2ABC), OpCode::Subroutine { address: 0xABC });
    assert_eq!(parse_op_code(0x00EE), OpCode::Return);
    assert_eq!(
        parse_op_code(0x3A55),
        OpCode::SkipIfVariableEqualsValue {
            vx: 0xA,
            value: 0x55
        }
    );
    assert_eq!(
        parse_op_code(0x41FE),
        OpCode::SkipIfVariableNotEqualsValue {
            vx: 0x1,
            value: 0xFE
        }
    );
    assert_eq!(
        parse_op_code(0x5230),
        OpCode::SkipIfVariableEqualsVariable { vx: 0x2, vy: 0x3 }
    );
    assert_eq!(
        parse_op_code(0x9450),
        OpCode::SkipIfVariableNotEqualsVariable { vx: 0x4, vy: 0x5 }
    );
    assert_eq!(
        parse_op_code(0x6005),
        OpCode::SetValue {
            vx: 0x0,
            value: 0x05
        }
    );
    assert_eq!(parse_op_code(0xA123), OpCode::SetIndex { address: 0x123 });
    assert_eq!(parse_op_code(0xB321), OpCode::JumpPlusV0 { address: 0x321 });
    assert_eq!(
        parse_op_code(0xC277),
        OpCode::AssignRandom {
            vx: 0x2,
            value: 0x77
        }
    );
    assert_eq!(
        parse_op_code(0xD125),
        OpCode::Display {
            vx: 0x1,
            vy: 0x2,
            n: 0x5
        }
    );
    assert_eq!(parse_op_code(0x8120), OpCode::AssignVariable { vx: 0x1, vy: 0x2 });
    assert_eq!(parse_op_code(0x8341), OpCode::BitwiseOr { vx: 0x3, vy: 0x4 });
    assert_eq!(parse_op_code(0x8562), OpCode::BitwiseAnd { vx: 0x5, vy: 0x6 });
    assert_eq!(parse_op_code(0x8783), OpCode::BitwiseXor { vx: 0x7, vy: 0x8 });
    assert_eq!(parse_op_code(0x89A4), OpCode::Add { vx: 0x9, vy: 0xA });
    assert_eq!(parse_op_code(0x8BC6), OpCode::BitShiftRight { vx: 0xB, vy: 0xC });
    assert_eq!(parse_op_code(0x8DE7), OpCode::AssignDifference { vx: 0xD, vy: 0xE });
    assert_eq!(parse_op_code(0x801E), OpCode::BitShiftLeft { vx: 0x0, vy: 0x1 });
    assert_eq!(parse_op_code(0x8008), OpCode::Invalid);
    assert_eq!(parse_op_code(0xE29E), OpCode::SkipIfPressed { vx: 0x2 });
    assert_eq!(parse_op_code(0xE3A1), OpCode::SkipIfNotPressed { vx: 0x3 });
    assert_eq!(parse_op_code(0xE300), OpCode::Invalid);
    assert_eq!(parse_op_code(0xF107), OpCode::AssignDelayTimerToVariable { vx: 0x1 });
    assert_eq!(parse_op_code(0xF20A), OpCode::WaitForPressAndAssign { vx: 0x2 });
    assert_eq!(parse_op_code(0xF315), OpCode::SetDelayTimer { vx: 0x3 });
    assert_eq!(parse_op_code(0xF418), OpCode::SetSoundTimer { vx: 0x4 });
    assert_eq!(parse_op_code(0xF51E), OpCode::AddToIndex { vx: 0x5 });
    assert_eq!(parse_op_code(0xF629), OpCode::SetIndexToSpriteLocation { vx: 0x6 });
    assert_eq!(parse_op_code(0xF733), OpCode::StoreBinaryCodedDecimal { vx: 0x7 });
    assert_eq!(parse_op_code(0xF855), OpCode::StoreToMemory { vx: 0x8 });
    assert_eq!(parse_op_code(0xF965), OpCode::LoadFromMemory { vx: 0x9 });
    assert_eq!(parse_op_code(0xF000), OpCode::Invalid);
    assert_eq!(parse_op_code(0x0123), OpCode::Invalid);
}
