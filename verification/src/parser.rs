use vstd::prelude::*;

use crate::op_codes::OpCode;
use crate::op_codes::op_wf;

verus! {

/// The low 12 bits of an instruction word: a 12-bit address or literal.
pub open spec fn nnn_of(w: u16) -> u16 {
    w & 0x0FFF
}

/// The low 8 bits of an instruction word: an 8-bit literal.
pub open spec fn nn_of(w: u16) -> u8 {
    (w & 0x00FF) as u8
}

/// The lowest nibble of an instruction word: a 4-bit literal or count.
pub open spec fn n_of(w: u16) -> u8 {
    (w & 0x000F) as u8
}

/// Bits 8..11 of an instruction word: the first register selector.
pub open spec fn x_of(w: u16) -> u8 {
    ((w >> 8) & 0x0F) as u8
}

/// Bits 4..7 of an instruction word: the second register selector.
pub open spec fn y_of(w: u16) -> u8 {
    ((w >> 4) & 0x0F) as u8
}

/// The meaning of every 16-bit instruction word. The high nibble selects the
/// primary family; families 0xE and 0xF dispatch further on the low byte,
/// family 0x8 on the lowest nibble; anything unmatched is `Invalid`. The
/// mapping is total: every word means exactly one instruction.
pub open spec fn spec_parse(w: u16) -> OpCode {
    let f = w >> 12;
    if w == 0x00E0 {
        OpCode::ClearScreen
    } else if w == 0x00EE {
        OpCode::Return
    } else if f == 0x1 {
        OpCode::Jump { address: nnn_of(w) }
    } else if f == 0x2 {
        OpCode::Subroutine { address: nnn_of(w) }
    } else if f == 0x3 {
        OpCode::SkipIfVariableEqualsValue { vx: x_of(w), value: nn_of(w) }
    } else if f == 0x4 {
        OpCode::SkipIfVariableNotEqualsValue { vx: x_of(w), value: nn_of(w) }
    } else if f == 0x5 {
        OpCode::SkipIfVariableEqualsVariable { vx: x_of(w), vy: y_of(w) }
    } else if f == 0x6 {
        OpCode::SetValue { vx: x_of(w), value: nn_of(w) }
    } else if f == 0x7 {
        OpCode::AddValue { vx: x_of(w), value: nn_of(w) }
    } else if f == 0x8 {
        if n_of(w) == 0x0 {
            OpCode::AssignVariable { vx: x_of(w), vy: y_of(w) }
        } else if n_of(w) == 0x1 {
            OpCode::BitwiseOr { vx: x_of(w), vy: y_of(w) }
        } else if n_of(w) == 0x2 {
            OpCode::BitwiseAnd { vx: x_of(w), vy: y_of(w) }
        } else if n_of(w) == 0x3 {
            OpCode::BitwiseXor { vx: x_of(w), vy: y_of(w) }
        } else if n_of(w) == 0x4 {
            OpCode::Add { vx: x_of(w), vy: y_of(w) }
        } else if n_of(w) == 0x5 {
            OpCode::Subtract { vx: x_of(w), vy: y_of(w) }
        } else if n_of(w) == 0x6 {
            OpCode::BitShiftRight { vx: x_of(w), vy: y_of(w) }
        } else if n_of(w) == 0x7 {
            OpCode::AssignDifference { vx: x_of(w), vy: y_of(w) }
        } else if n_of(w) == 0xE {
            OpCode::BitShiftLeft { vx: x_of(w), vy: y_of(w) }
        } else {
            OpCode::Invalid
        }
    } else if f == 0x9 {
        OpCode::SkipIfVariableNotEqualsVariable { vx: x_of(w), vy: y_of(w) }
    } else if f == 0xA {
        OpCode::SetIndex { address: nnn_of(w) }
    } else if f == 0xB {
        OpCode::JumpPlusV0 { address: nnn_of(w) }
    } else if f == 0xC {
        OpCode::AssignRandom { vx: x_of(w), value: nn_of(w) }
    } else if f == 0xD {
        OpCode::Display { vx: x_of(w), vy: y_of(w), n: n_of(w) }
    } else if f == 0xE {
        if nn_of(w) == 0x9E {
            OpCode::SkipIfPressed { vx: x_of(w) }
        } else if nn_of(w) == 0xA1 {
            OpCode::SkipIfNotPressed { vx: x_of(w) }
        } else {
            OpCode::Invalid
        }
    } else if f == 0xF {
        if nn_of(w) == 0x07 {
            OpCode::AssignDelayTimerToVariable { vx: x_of(w) }
        } else if nn_of(w) == 0x0A {
            OpCode::WaitForPressAndAssign { vx: x_of(w) }
        } else if nn_of(w) == 0x15 {
            OpCode::SetDelayTimer { vx: x_of(w) }
        } else if nn_of(w) == 0x18 {
            OpCode::SetSoundTimer { vx: x_of(w) }
        } else if nn_of(w) == 0x1E {
            OpCode::AddToIndex { vx: x_of(w) }
        } else if nn_of(w) == 0x29 {
            OpCode::SetIndexToSpriteLocation { vx: x_of(w) }
        } else if nn_of(w) == 0x33 {
            OpCode::StoreBinaryCodedDecimal { vx: x_of(w) }
        } else if nn_of(w) == 0x55 {
            OpCode::StoreToMemory { vx: x_of(w) }
        } else if nn_of(w) == 0x65 {
            OpCode::LoadFromMemory { vx: x_of(w) }
        } else {
            OpCode::Invalid
        }
    } else {
        OpCode::Invalid
    }
}

/// Decode one 16-bit instruction word. Total: every word yields exactly the
/// instruction that `spec_parse` assigns to it, with every bit-field in range.
pub fn parse_op_code(op_code: u16) -> (r: OpCode)
    ensures
        r == spec_parse(op_code),
        op_wf(r),
{
    let nnn: u16 = op_code & 0x0FFF;
    let nn: u8 = (op_code & 0x00FF) as u8;
    let n: u8 = (op_code & 0x000F) as u8;
    let x: u8 = ((op_code >> 8) & 0x0F) as u8;
    let y: u8 = ((op_code >> 4) & 0x0F) as u8;
    let f: u16 = op_code >> 12;

    proof {
        assert(op_code & 0x0FFF < 0x1000) by (bit_vector);
        assert((op_code >> 8) & 0x0F < 16) by (bit_vector);
        assert((op_code >> 4) & 0x0F < 16) by (bit_vector);
        assert(op_code & 0x000F < 16) by (bit_vector);
    }

    if op_code == 0x00E0 {
        OpCode::ClearScreen
    } else if op_code == 0x00EE {
        OpCode::Return
    } else if f == 0x1 {
        OpCode::Jump { address: nnn }
    } else if f == 0x2 {
        OpCode::Subroutine { address: nnn }
    } else if f == 0x3 {
        OpCode::SkipIfVariableEqualsValue { vx: x, value: nn }
    } else if f == 0x4 {
        OpCode::SkipIfVariableNotEqualsValue { vx: x, value: nn }
    } else if f == 0x5 {
        OpCode::SkipIfVariableEqualsVariable { vx: x, vy: y }
    } else if f == 0x6 {
        OpCode::SetValue { vx: x, value: nn }
    } else if f == 0x7 {
        OpCode::AddValue { vx: x, value: nn }
    } else if f == 0x8 {
        match n {
            0x0 => OpCode::AssignVariable { vx: x, vy: y },
            0x1 => OpCode::BitwiseOr { vx: x, vy: y },
            0x2 => OpCode::BitwiseAnd { vx: x, vy: y },
            0x3 => OpCode::BitwiseXor { vx: x, vy: y },
            0x4 => OpCode::Add { vx: x, vy: y },
            0x5 => OpCode::Subtract { vx: x, vy: y },
            0x6 => OpCode::BitShiftRight { vx: x, vy: y },
            0x7 => OpCode::AssignDifference { vx: x, vy: y },
            0xE => OpCode::BitShiftLeft { vx: x, vy: y },
            _ => OpCode::Invalid,
        }
    } else if f == 0x9 {
        OpCode::SkipIfVariableNotEqualsVariable { vx: x, vy: y }
    } else if f == 0xA {
        OpCode::SetIndex { address: nnn }
    } else if f == 0xB {
        OpCode::JumpPlusV0 { address: nnn }
    } else if f == 0xC {
        OpCode::AssignRandom { vx: x, value: nn }
    } else if f == 0xD {
        OpCode::Display { vx: x, vy: y, n }
    } else if f == 0xE {
        match nn {
            0x9E => OpCode::SkipIfPressed { vx: x },
            0xA1 => OpCode::SkipIfNotPressed { vx: x },
            _ => OpCode::Invalid,
        }
    } else if f == 0xF {
        match nn {
            0x07 => OpCode::AssignDelayTimerToVariable { vx: x },
            0x0A => OpCode::WaitForPressAndAssign { vx: x },
            0x15 => OpCode::SetDelayTimer { vx: x },
            0x18 => OpCode::SetSoundTimer { vx: x },
            0x1E => OpCode::AddToIndex { vx: x },
            0x29 => OpCode::SetIndexToSpriteLocation { vx: x },
            0x33 => OpCode::StoreBinaryCodedDecimal { vx: x },
            0x55 => OpCode::StoreToMemory { vx: x },
            0x65 => OpCode::LoadFromMemory { vx: x },
            _ => OpCode::Invalid,
        }
    } else {
        OpCode::Invalid
    }
}

/// Bit-level facts about a word assembled from a family nibble, a register
/// nibble and a byte literal.
proof fn lemma_word_fields_xnn(f: u16, x: u16, nn: u16)
    by (bit_vector)
    requires
        f < 16,
        x < 16,
        nn < 256,
    ensures
        ((f << 12) | (x << 8) | nn) >> 12 == f,
        (((f << 12) | (x << 8) | nn) >> 8) & 0x0F == x,
        ((f << 12) | (x << 8) | nn) & 0x00FF == nn,
        ((f << 12) | (x << 8) | nn) & 0x0FFF == (x << 8) | nn,
        f > 0 ==> ((f << 12) | (x << 8) | nn) != 0x00E0,
        f > 0 ==> ((f << 12) | (x << 8) | nn) != 0x00EE,
{
}

/// Bit-level facts about a word assembled from a family nibble and a 12-bit
/// address.
proof fn lemma_word_fields_nnn(f: u16, nnn: u16)
    by (bit_vector)
    requires
        f < 16,
        nnn < 0x1000,
    ensures
        ((f << 12) | nnn) >> 12 == f,
        ((f << 12) | nnn) & 0x0FFF == nnn,
        f > 0 ==> ((f << 12) | nnn) != 0x00E0,
        f > 0 ==> ((f << 12) | nnn) != 0x00EE,
{
}

/// Bit-level facts about a word assembled from four nibbles.
proof fn lemma_word_fields_xyn(f: u16, x: u16, y: u16, n: u16)
    by (bit_vector)
    requires
        f < 16,
        x < 16,
        y < 16,
        n < 16,
    ensures
        ((f << 12) | (x << 8) | (y << 4) | n) >> 12 == f,
        (((f << 12) | (x << 8) | (y << 4) | n) >> 8) & 0x0F == x,
        (((f << 12) | (x << 8) | (y << 4) | n) >> 4) & 0x0F == y,
        ((f << 12) | (x << 8) | (y << 4) | n) & 0x000F == n,
        ((f << 12) | (x << 8) | (y << 4) | n) & 0x00FF == (y << 4) | n,
        f > 0 ==> ((f << 12) | (x << 8) | (y << 4) | n) != 0x00E0,
        f > 0 ==> ((f << 12) | (x << 8) | (y << 4) | n) != 0x00EE,
{
}

/// Round trip per family: a word assembled from a family selector and its
/// bit-fields decodes to the variant of that family carrying exactly the
/// encoded field values, for every in-range field value. The two fixed
/// words of family zero decode to their variants, and a word whose
/// secondary selector matches nothing decodes to `Invalid`.
pub proof fn lemma_encodings_round_trip(x: u8, y: u8, n: u8, nn: u8, nnn: u16)
    requires
        x < 16,
        y < 16,
        n < 16,
        nnn < 0x1000,
    ensures
        spec_parse(0x00E0) == OpCode::ClearScreen,
        spec_parse(0x00EE) == OpCode::Return,
        spec_parse((1u16 << 12) | nnn) == (OpCode::Jump { address: nnn }),
        spec_parse((2u16 << 12) | nnn) == (OpCode::Subroutine { address: nnn }),
        spec_parse((0xAu16 << 12) | nnn) == (OpCode::SetIndex { address: nnn }),
        spec_parse((0xBu16 << 12) | nnn) == (OpCode::JumpPlusV0 { address: nnn }),
        spec_parse((3u16 << 12) | ((x as u16) << 8) | (nn as u16)) == (
        OpCode::SkipIfVariableEqualsValue { vx: x, value: nn }),
        spec_parse((4u16 << 12) | ((x as u16) << 8) | (nn as u16)) == (
        OpCode::SkipIfVariableNotEqualsValue { vx: x, value: nn }),
        spec_parse((5u16 << 12) | ((x as u16) << 8) | ((y as u16) << 4) | 0) == (
        OpCode::SkipIfVariableEqualsVariable { vx: x, vy: y }),
        spec_parse((9u16 << 12) | ((x as u16) << 8) | ((y as u16) << 4) | 0) == (
        OpCode::SkipIfVariableNotEqualsVariable { vx: x, vy: y }),
        spec_parse((6u16 << 12) | ((x as u16) << 8) | (nn as u16)) == (OpCode::SetValue {
            vx: x,
            value: nn,
        }),
        spec_parse((7u16 << 12) | ((x as u16) << 8) | (nn as u16)) == (OpCode::AddValue {
            vx: x,
            value: nn,
        }),
        spec_parse((0xCu16 << 12) | ((x as u16) << 8) | (nn as u16)) == (OpCode::AssignRandom {
            vx: x,
            value: nn,
        }),
        spec_parse((0xDu16 << 12) | ((x as u16) << 8) | ((y as u16) << 4) | (n as u16)) == (
        OpCode::Display { vx: x, vy: y, n }),
        spec_parse((8u16 << 12) | ((x as u16) << 8) | ((y as u16) << 4) | 0) == (
        OpCode::AssignVariable { vx: x, vy: y }),
        spec_parse((8u16 << 12) | ((x as u16) << 8) | ((y as u16) << 4) | 1) == (
        OpCode::BitwiseOr { vx: x, vy: y }),
        spec_parse((8u16 << 12) | ((x as u16) << 8) | ((y as u16) << 4) | 2) == (
        OpCode::BitwiseAnd { vx: x, vy: y }),
        spec_parse((8u16 << 12) | ((x as u16) << 8) | ((y as u16) << 4) | 3) == (
        OpCode::BitwiseXor { vx: x, vy: y }),
        spec_parse((8u16 << 12) | ((x as u16) << 8) | ((y as u16) << 4) | 4) == (OpCode::Add {
            vx: x,
            vy: y,
        }),
        spec_parse((8u16 << 12) | ((x as u16) << 8) | ((y as u16) << 4) | 5) == (OpCode::Subtract {
            vx: x,
            vy: y,
        }),
        spec_parse((8u16 << 12) | ((x as u16) << 8) | ((y as u16) << 4) | 6) == (
        OpCode::BitShiftRight { vx: x, vy: y }),
        spec_parse((8u16 << 12) | ((x as u16) << 8) | ((y as u16) << 4) | 7) == (
        OpCode::AssignDifference { vx: x, vy: y }),
        spec_parse((8u16 << 12) | ((x as u16) << 8) | ((y as u16) << 4) | 0xE) == (
        OpCode::BitShiftLeft { vx: x, vy: y }),
        spec_parse((0xEu16 << 12) | ((x as u16) << 8) | 0x9E) == (OpCode::SkipIfPressed { vx: x }),
        spec_parse((0xEu16 << 12) | ((x as u16) << 8) | 0xA1) == (OpCode::SkipIfNotPressed {
            vx: x,
        }),
        spec_parse((0xFu16 << 12) | ((x as u16) << 8) | 0x07) == (
        OpCode::AssignDelayTimerToVariable { vx: x }),
        spec_parse((0xFu16 << 12) | ((x as u16) << 8) | 0x0A) == (OpCode::WaitForPressAndAssign {
            vx: x,
        }),
        spec_parse((0xFu16 << 12) | ((x as u16) << 8) | 0x15) == (OpCode::SetDelayTimer { vx: x }),
        spec_parse((0xFu16 << 12) | ((x as u16) << 8) | 0x18) == (OpCode::SetSoundTimer { vx: x }),
        spec_parse((0xFu16 << 12) | ((x as u16) << 8) | 0x1E) == (OpCode::AddToIndex { vx: x }),
        spec_parse((0xFu16 << 12) | ((x as u16) << 8) | 0x29) == (
        OpCode::SetIndexToSpriteLocation { vx: x }),
        spec_parse((0xFu16 << 12) | ((x as u16) << 8) | 0x33) == (
        OpCode::StoreBinaryCodedDecimal { vx: x }),
        spec_parse((0xFu16 << 12) | ((x as u16) << 8) | 0x55) == (OpCode::StoreToMemory { vx: x }),
        spec_parse((0xFu16 << 12) | ((x as u16) << 8) | 0x65) == (OpCode::LoadFromMemory {
            vx: x,
        }),
        spec_parse(0xFFFF) == OpCode::Invalid,
{
    assert(0x00E0u16 != 0x00EE) by (bit_vector);
    lemma_word_fields_nnn(1, nnn);
    lemma_word_fields_nnn(2, nnn);
    lemma_word_fields_nnn(0xA, nnn);
    lemma_word_fields_nnn(0xB, nnn);
    lemma_word_fields_xnn(3, x as u16, nn as u16);
    lemma_word_fields_xnn(4, x as u16, nn as u16);
    lemma_word_fields_xnn(6, x as u16, nn as u16);
    lemma_word_fields_xnn(7, x as u16, nn as u16);
    lemma_word_fields_xnn(0xC, x as u16, nn as u16);
    lemma_word_fields_xyn(5, x as u16, y as u16, 0);
    lemma_word_fields_xyn(9, x as u16, y as u16, 0);
    lemma_word_fields_xyn(0xD, x as u16, y as u16, n as u16);
    lemma_word_fields_xyn(8, x as u16, y as u16, 0);
    lemma_word_fields_xyn(8, x as u16, y as u16, 1);
    lemma_word_fields_xyn(8, x as u16, y as u16, 2);
    lemma_word_fields_xyn(8, x as u16, y as u16, 3);
    lemma_word_fields_xyn(8, x as u16, y as u16, 4);
    lemma_word_fields_xyn(8, x as u16, y as u16, 5);
    lemma_word_fields_xyn(8, x as u16, y as u16, 6);
    lemma_word_fields_xyn(8, x as u16, y as u16, 7);
    lemma_word_fields_xyn(8, x as u16, y as u16, 0xE);
    lemma_word_fields_xnn(0xE, x as u16, 0x9E);
    lemma_word_fields_xnn(0xE, x as u16, 0xA1);
    lemma_word_fields_xnn(0xF, x as u16, 0x07);
    lemma_word_fields_xnn(0xF, x as u16, 0x0A);
    lemma_word_fields_xnn(0xF, x as u16, 0x15);
    lemma_word_fields_xnn(0xF, x as u16, 0x18);
    lemma_word_fields_xnn(0xF, x as u16, 0x1E);
    lemma_word_fields_xnn(0xF, x as u16, 0x29);
    lemma_word_fields_xnn(0xF, x as u16, 0x33);
    lemma_word_fields_xnn(0xF, x as u16, 0x55);
    lemma_word_fields_xnn(0xF, x as u16, 0x65);
    assert(0xFFFFu16 >> 12 == 0xF && 0xFFFFu16 & 0x00FF == 0xFF && 0xFFFFu16 != 0x00E0 && 0xFFFFu16
        != 0x00EE) by (bit_vector);
}

} // verus!
