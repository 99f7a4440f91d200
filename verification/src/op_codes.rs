use vstd::prelude::*;

verus! {

/// One decoded instruction of the virtual machine: a closed tagged union over
/// every instruction family, with `Invalid` as the sentinel for words that
/// match no known encoding.
///
/// `vx` and `vy` address one of the sixteen 8-bit registers, `address` is a
/// 12-bit literal, `value` an 8-bit literal and `n` a 4-bit literal.
#[derive(Debug, Clone, Copy, PartialEq, Eq, Structural)]
pub enum OpCode {
    ClearScreen,
    Display { vx: u8, vy: u8, n: u8 },

    Jump { address: u16 },
    Subroutine { address: u16 },
    Return,
    SetIndex { address: u16 },
    JumpPlusV0 { address: u16 },
    AssignRandom { vx: u8, value: u8 },
    AddToIndex { vx: u8 },
    SetIndexToSpriteLocation { vx: u8 },
    StoreBinaryCodedDecimal { vx: u8 },
    StoreToMemory { vx: u8 },
    LoadFromMemory { vx: u8 },

    SkipIfPressed { vx: u8 },
    SkipIfNotPressed { vx: u8 },
    AssignDelayTimerToVariable { vx: u8 },
    WaitForPressAndAssign { vx: u8 },
    SetDelayTimer { vx: u8 },
    SetSoundTimer { vx: u8 },

    SkipIfVariableEqualsValue { vx: u8, value: u8 },
    SkipIfVariableNotEqualsValue { vx: u8, value: u8 },
    SkipIfVariableEqualsVariable { vx: u8, vy: u8 },
    SkipIfVariableNotEqualsVariable { vx: u8, vy: u8 },

    SetValue { vx: u8, value: u8 },
    AddValue { vx: u8, value: u8 },

    AssignVariable { vx: u8, vy: u8 },
    BitwiseOr { vx: u8, vy: u8 },
    BitwiseAnd { vx: u8, vy: u8 },
    BitwiseXor { vx: u8, vy: u8 },
    Add { vx: u8, vy: u8 },
    Subtract { vx: u8, vy: u8 },
    BitShiftRight { vx: u8, vy: u8 },
    AssignDifference { vx: u8, vy: u8 },
    BitShiftLeft { vx: u8, vy: u8 },

    Invalid,
}

/// Every field of a decoded instruction lies in the range its bit-field
/// allows: register selectors fit in a nibble, addresses in 12 bits, and
/// sprite heights in a nibble. The decoder only ever produces such values,
/// and the executor relies on them to index the sixteen registers safely.
pub open spec fn op_wf(op: OpCode) -> bool {
    match op {
        OpCode::ClearScreen => true,
        OpCode::Display { vx, vy, n } => vx < 16 && vy < 16 && n < 16,

        OpCode::Jump { address } => address < 0x1000,
        OpCode::Subroutine { address } => address < 0x1000,
        OpCode::Return => true,
        OpCode::SetIndex { address } => address < 0x1000,
        OpCode::JumpPlusV0 { address } => address < 0x1000,
        OpCode::AssignRandom { vx, value: _ } => vx < 16,
        OpCode::AddToIndex { vx } => vx < 16,
        OpCode::SetIndexToSpriteLocation { vx } => vx < 16,
        OpCode::StoreBinaryCodedDecimal { vx } => vx < 16,
        OpCode::StoreToMemory { vx } => vx < 16,
        OpCode::LoadFromMemory { vx } => vx < 16,

        OpCode::SkipIfPressed { vx } => vx < 16,
        OpCode::SkipIfNotPressed { vx } => vx < 16,
        OpCode::AssignDelayTimerToVariable { vx } => vx < 16,
        OpCode::WaitForPressAndAssign { vx } => vx < 16,
        OpCode::SetDelayTimer { vx } => vx < 16,
        OpCode::SetSoundTimer { vx } => vx < 16,

        OpCode::SkipIfVariableEqualsValue { vx, value: _ } => vx < 16,
        OpCode::SkipIfVariableNotEqualsValue { vx, value: _ } => vx < 16,
        OpCode::SkipIfVariableEqualsVariable { vx, vy } => vx < 16 && vy < 16,
        OpCode::SkipIfVariableNotEqualsVariable { vx, vy } => vx < 16 && vy < 16,

        OpCode::SetValue { vx, value: _ } => vx < 16,
        OpCode::AddValue { vx, value: _ } => vx < 16,

        OpCode::AssignVariable { vx, vy } => vx < 16 && vy < 16,
        OpCode::BitwiseOr { vx, vy } => vx < 16 && vy < 16,
        OpCode::BitwiseAnd { vx, vy } => vx < 16 && vy < 16,
        OpCode::BitwiseXor { vx, vy } => vx < 16 && vy < 16,
        OpCode::Add { vx, vy } => vx < 16 && vy < 16,
        OpCode::Subtract { vx, vy } => vx < 16 && vy < 16,
        OpCode::BitShiftRight { vx, vy } => vx < 16 && vy < 16,
        OpCode::AssignDifference { vx, vy } => vx < 16 && vy < 16,
        OpCode::BitShiftLeft { vx, vy } => vx < 16 && vy < 16,

        OpCode::Invalid => true,
    }
}

} // verus!
