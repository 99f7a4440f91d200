use vstd::prelude::*;

use crate::op_codes::OpCode;
use crate::parser::spec_parse;

verus! {

/// Why a run stopped: an instruction word that decodes to no known variant,
/// a decoded variant this machine does not implement, a return from an empty
/// call stack, or a fetch or data access beyond the 4096-byte memory.
#[derive(Debug, Clone, Copy, PartialEq, Eq, Structural)]
pub enum HaltReason {
    Unrecognized,
    Unimplemented,
    StackUnderflow,
    OutOfBounds,
}

/// What one executed instruction asks of the surrounding loop: go on, hand a
/// value to one of the timers, or stop the run.
#[derive(Debug, Clone, Copy, PartialEq, Eq, Structural)]
pub enum Step {
    Next,
    SetDelay { value: u8 },
    SetSound { value: u8 },
    Halt { reason: HaltReason },
}

/// The machine state the executor owns: 4096 bytes of memory, the 64 by 32
/// monochrome framebuffer stored row-major, the program counter, the index
/// register, the call stack of return addresses, and the sixteen 8-bit
/// general-purpose registers. The two timers live outside this state; see
/// `crate::timers`.
pub struct Machine {
    pub memory: Vec<u8>,
    pub display: Vec<bool>,
    pub pc: u16,
    pub index: u16,
    pub stack: Vec<u16>,
    pub registers: Vec<u8>,
}

/// Addition of two register values, wrapped to eight bits.
pub open spec fn wrap_add_u8(a: int, b: int) -> int {
    if a + b < 256 {
        a + b
    } else {
        a + b - 256
    }
}

/// Subtraction of two register values, wrapped to eight bits.
pub open spec fn wrap_sub_u8(a: int, b: int) -> int {
    if a >= b {
        a - b
    } else {
        a - b + 256
    }
}

/// Addition of a register value to the index register, wrapped to 16 bits.
pub open spec fn wrap_add_u16(a: int, b: int) -> int {
    if a + b < 0x10000 {
        a + b
    } else {
        a + b - 0x10000
    }
}

/// The framebuffer pixel at `row`, `col` of the row-major display.
pub open spec fn pix(disp: Seq<bool>, row: int, col: int) -> bool {
    disp[row * 64 + col]
}

/// The machine states are equal field by field.
pub open spec fn unchanged_state(pre: Machine, post: Machine) -> bool {
    &&& post.pc == pre.pc
    &&& post.index == pre.index
    &&& post.memory@ == pre.memory@
    &&& post.display@ == pre.display@
    &&& post.stack@ == pre.stack@
    &&& post.registers@ == pre.registers@
}

/// Everything but the program counter is unchanged.
pub open spec fn only_pc_changed(pre: Machine, post: Machine) -> bool {
    &&& post.index == pre.index
    &&& post.memory@ == pre.memory@
    &&& post.display@ == pre.display@
    &&& post.stack@ == pre.stack@
    &&& post.registers@ == pre.registers@
}

/// Everything but the registers is unchanged.
pub open spec fn only_regs_changed(pre: Machine, post: Machine) -> bool {
    &&& post.pc == pre.pc
    &&& post.index == pre.index
    &&& post.memory@ == pre.memory@
    &&& post.display@ == pre.display@
    &&& post.stack@ == pre.stack@
}

/// Everything but the index register is unchanged.
pub open spec fn only_index_changed(pre: Machine, post: Machine) -> bool {
    &&& post.pc == pre.pc
    &&& post.memory@ == pre.memory@
    &&& post.display@ == pre.display@
    &&& post.stack@ == pre.stack@
    &&& post.registers@ == pre.registers@
}

/// Everything but the program counter and the call stack is unchanged.
pub open spec fn only_pc_and_stack_changed(pre: Machine, post: Machine) -> bool {
    &&& post.index == pre.index
    &&& post.memory@ == pre.memory@
    &&& post.display@ == pre.display@
    &&& post.registers@ == pre.registers@
}

/// Everything but memory is unchanged.
pub open spec fn only_memory_changed(pre: Machine, post: Machine) -> bool {
    &&& post.pc == pre.pc
    &&& post.index == pre.index
    &&& post.display@ == pre.display@
    &&& post.stack@ == pre.stack@
    &&& post.registers@ == pre.registers@
}

/// How many sprite rows are actually drawn: a sprite of height `n` drawn at
/// vertical origin `y` is clipped at the bottom edge of the 32-row screen.
pub open spec fn rows_drawn(y: int, n: int) -> int {
    if n <= 32 - y {
        n
    } else {
        32 - y
    }
}

/// Whether the pixel at `row`, `col` lies under the sprite of height `n`
/// drawn at origin `x`, `y`: inside the 8-pixel-wide, `n`-row-tall box, and
/// not clipped away at the right or bottom screen edge.
pub open spec fn covers(x: int, y: int, n: int, row: int, col: int) -> bool {
    &&& y <= row < y + n
    &&& row < 32
    &&& x <= col < x + 8
    &&& col < 64
}

/// Whether the sprite bit for the pixel at `row`, `col` is set: bit
/// `7 - (col - x)` of the sprite byte for row `row - y`, read from memory at
/// the index register.
pub open spec fn sprite_bit(mem: Seq<u8>, idx: int, x: int, y: int, row: int, col: int) -> bool {
    (mem[idx + (row - y)] >> ((7 - (col - x)) as u8)) & 1 == 1
}

/// A drawn sprite bit lands on an already-set pixel at `row`, `col`: the
/// pixel flips from set to unset, which is a collision.
pub open spec fn collides_at(
    disp: Seq<bool>,
    mem: Seq<u8>,
    idx: int,
    x: int,
    y: int,
    n: int,
    row: int,
    col: int,
) -> bool {
    covers(x, y, n, row, col) && sprite_bit(mem, idx, x, y, row, col) && pix(disp, row, col)
}

/// Some pixel of the drawn sprite collides.
pub open spec fn has_collision(
    disp: Seq<bool>,
    mem: Seq<u8>,
    idx: int,
    x: int,
    y: int,
    n: int,
) -> bool {
    exists|row: int, col: int| #[trigger] collides_at(disp, mem, idx, x, y, n, row, col)
}

/// The effect of a sprite-draw instruction. The origin is the pair of
/// register values wrapped into the screen; rows and columns running past the
/// screen edge are clipped. Each covered pixel whose sprite bit is set is
/// flipped; register 0xF is overwritten with 1 exactly when some pixel
/// flipped from set to unset. Reading a sprite row beyond the 4096-byte
/// memory halts the run with the machine otherwise unchanged.
pub open spec fn post_display(pre: Machine, post: Machine, vx: u8, vy: u8, n: u8, r: Step) -> bool {
    let x = (pre.registers@[vx as int] % 64) as int;
    let y = (pre.registers@[vy as int] % 32) as int;
    let idx = pre.index as int;
    let rows = rows_drawn(y, n as int);
    if rows > 0 && idx + rows > 4096 {
        r == (Step::Halt { reason: HaltReason::OutOfBounds }) && unchanged_state(pre, post)
    } else {
        &&& r == Step::Next
        &&& post.pc == pre.pc
        &&& post.index == pre.index
        &&& post.memory@ == pre.memory@
        &&& post.stack@ == pre.stack@
        &&& post.display@.len() == 2048
        &&& forall|row: int, col: int|
            0 <= row < 32 && 0 <= col < 64 ==> #[trigger] pix(post.display@, row, col) == (if covers(
                x,
                y,
                n as int,
                row,
                col,
            ) && sprite_bit(pre.memory@, idx, x, y, row, col) {
                !pix(pre.display@, row, col)
            } else {
                pix(pre.display@, row, col)
            })
        &&& post.registers@ == pre.registers@.update(
            15,
            if has_collision(pre.display@, pre.memory@, idx, x, y, n as int) {
                1u8
            } else {
                0u8
            },
        )
    }
}

/// The effect of the store-to-memory instruction: registers 0 through `vx`
/// inclusive are written to memory starting at the index register, which is
/// itself untouched. A write beyond the 4096-byte memory halts the run with
/// the machine unchanged.
pub open spec fn post_store(pre: Machine, post: Machine, vx: u8, r: Step) -> bool {
    let idx = pre.index as int;
    if idx + vx >= 4096 {
        r == (Step::Halt { reason: HaltReason::OutOfBounds }) && unchanged_state(pre, post)
    } else {
        &&& r == Step::Next
        &&& only_memory_changed(pre, post)
        &&& post.memory@.len() == 4096
        &&& forall|j: int|
            0 <= j < 4096 ==> post.memory@[j] == (if idx <= j <= idx + vx {
                pre.registers@[j - idx]
            } else {
                pre.memory@[j]
            })
    }
}

/// The effect of the load-from-memory instruction: registers 0 through `vx`
/// inclusive are filled from memory starting at the index register, which is
/// itself untouched. A read beyond the 4096-byte memory halts the run with
/// the machine unchanged.
pub open spec fn post_load(pre: Machine, post: Machine, vx: u8, r: Step) -> bool {
    let idx = pre.index as int;
    if idx + vx >= 4096 {
        r == (Step::Halt { reason: HaltReason::OutOfBounds }) && unchanged_state(pre, post)
    } else {
        &&& r == Step::Next
        &&& only_regs_changed(pre, post)
        &&& post.registers@.len() == 16
        &&& forall|j: int|
            0 <= j < 16 ==> post.registers@[j] == (if j <= vx {
                pre.memory@[idx + j]
            } else {
                pre.registers@[j]
            })
    }
}

/// The effect of the binary-coded-decimal instruction: the hundreds, tens
/// and ones digits of register `vx` are written to memory at the index
/// register and the two following bytes. A write beyond the 4096-byte memory
/// halts the run with the machine unchanged.
pub open spec fn post_bcd(pre: Machine, post: Machine, vx: u8, r: Step) -> bool {
    let idx = pre.index as int;
    let v = pre.registers@[vx as int] as int;
    if idx + 2 >= 4096 {
        r == (Step::Halt { reason: HaltReason::OutOfBounds }) && unchanged_state(pre, post)
    } else {
        &&& r == Step::Next
        &&& only_memory_changed(pre, post)
        &&& post.memory@.len() == 4096
        &&& forall|j: int|
            0 <= j < 4096 ==> post.memory@[j] == (if j == idx {
                (v / 100) as u8
            } else if j == idx + 1 {
                ((v / 10) % 10) as u8
            } else if j == idx + 2 {
                (v % 10) as u8
            } else {
                pre.memory@[j]
            })
    }
}

/// The transition relation of the executor: how applying one decoded
/// instruction takes the machine from `pre` to `post` and what it asks of
/// the surrounding loop. `delay` is the value of the delay timer read for
/// this cycle. The program counter was already advanced past the
/// instruction, so a conditional skip adds a further 2 and a subroutine call
/// pushes `pre.pc`, the address of the next instruction.
pub open spec fn execute_rel(pre: Machine, post: Machine, op: OpCode, delay: u8, r: Step) -> bool {
    match op {
        OpCode::ClearScreen => {
            &&& r == Step::Next
            &&& only_display_changed(pre, post)
            &&& post.display@ == Seq::new(2048, |i: int| false)
        },
        OpCode::Display { vx, vy, n } => post_display(pre, post, vx, vy, n, r),

        OpCode::Jump { address } => {
            &&& r == Step::Next
            &&& only_pc_changed(pre, post)
            &&& post.pc == address
        },
        OpCode::Subroutine { address } => {
            &&& r == Step::Next
            &&& only_pc_and_stack_changed(pre, post)
            &&& post.pc == address
            &&& post.stack@ == pre.stack@.push(pre.pc)
        },
        OpCode::Return => {
            if pre.stack@.len() == 0 {
                r == (Step::Halt { reason: HaltReason::StackUnderflow }) && unchanged_state(
                    pre,
                    post,
                )
            } else {
                &&& r == Step::Next
                &&& only_pc_and_stack_changed(pre, post)
                &&& post.pc == pre.stack@.last()
                &&& post.stack@ == pre.stack@.drop_last()
            }
        },
        OpCode::SetIndex { address } => {
            &&& r == Step::Next
            &&& only_index_changed(pre, post)
            &&& post.index == address
        },
        OpCode::JumpPlusV0 { address: _ } => {
            r == (Step::Halt { reason: HaltReason::Unimplemented }) && unchanged_state(pre, post)
        },
        OpCode::AssignRandom { vx: _, value: _ } => {
            r == (Step::Halt { reason: HaltReason::Unimplemented }) && unchanged_state(pre, post)
        },
        OpCode::AddToIndex { vx } => {
            &&& r == Step::Next
            &&& only_index_changed(pre, post)
            &&& post.index == wrap_add_u16(pre.index as int, pre.registers@[vx as int] as int)
        },
        OpCode::SetIndexToSpriteLocation { vx } => {
            &&& r == Step::Next
            &&& only_index_changed(pre, post)
            &&& post.index == 0x50 + 5 * (pre.registers@[vx as int] as int)
        },
        OpCode::StoreBinaryCodedDecimal { vx } => post_bcd(pre, post, vx, r),
        OpCode::StoreToMemory { vx } => post_store(pre, post, vx, r),
        OpCode::LoadFromMemory { vx } => post_load(pre, post, vx, r),

        OpCode::SkipIfPressed { vx: _ } => r == Step::Next && unchanged_state(pre, post),
        OpCode::SkipIfNotPressed { vx: _ } => r == Step::Next && unchanged_state(pre, post),
        OpCode::AssignDelayTimerToVariable { vx } => {
            &&& r == Step::Next
            &&& only_regs_changed(pre, post)
            &&& post.registers@ == pre.registers@.update(vx as int, delay)
        },
        OpCode::WaitForPressAndAssign { vx: _ } => {
            r == (Step::Halt { reason: HaltReason::Unimplemented }) && unchanged_state(pre, post)
        },
        OpCode::SetDelayTimer { vx } => {
            &&& r == (Step::SetDelay { value: pre.registers@[vx as int] })
            &&& unchanged_state(pre, post)
        },
        OpCode::SetSoundTimer { vx } => {
            &&& r == (Step::SetSound { value: pre.registers@[vx as int] })
            &&& unchanged_state(pre, post)
        },

        OpCode::SkipIfVariableEqualsValue { vx, value } => {
            &&& r == Step::Next
            &&& only_pc_changed(pre, post)
            &&& post.pc == (if pre.registers@[vx as int] == value {
                pre.pc + 2
            } else {
                pre.pc as int
            })
        },
        OpCode::SkipIfVariableNotEqualsValue { vx, value } => {
            &&& r == Step::Next
            &&& only_pc_changed(pre, post)
            &&& post.pc == (if pre.registers@[vx as int] != value {
                pre.pc + 2
            } else {
                pre.pc as int
            })
        },
        OpCode::SkipIfVariableEqualsVariable { vx, vy } => {
            &&& r == Step::Next
            &&& only_pc_changed(pre, post)
            &&& post.pc == (if pre.registers@[vx as int] == pre.registers@[vy as int] {
                pre.pc + 2
            } else {
                pre.pc as int
            })
        },
        OpCode::SkipIfVariableNotEqualsVariable { vx, vy } => {
            &&& r == Step::Next
            &&& only_pc_changed(pre, post)
            &&& post.pc == (if pre.registers@[vx as int] != pre.registers@[vy as int] {
                pre.pc + 2
            } else {
                pre.pc as int
            })
        },

        OpCode::SetValue { vx, value } => {
            &&& r == Step::Next
            &&& only_regs_changed(pre, post)
            &&& post.registers@ == pre.registers@.update(vx as int, value)
        },
        OpCode::AddValue { vx, value } => {
            &&& r == Step::Next
            &&& only_regs_changed(pre, post)
            &&& post.registers@ == pre.registers@.update(
                vx as int,
                wrap_add_u8(pre.registers@[vx as int] as int, value as int) as u8,
            )
        },

        OpCode::AssignVariable { vx, vy } => {
            &&& r == Step::Next
            &&& only_regs_changed(pre, post)
            &&& post.registers@ == pre.registers@.update(vx as int, pre.registers@[vy as int])
        },
        OpCode::BitwiseOr { vx, vy } => {
            &&& r == Step::Next
            &&& only_regs_changed(pre, post)
            &&& post.registers@ == pre.registers@.update(
                vx as int,
                pre.registers@[vx as int] | pre.registers@[vy as int],
            )
        },
        OpCode::BitwiseAnd { vx, vy } => {
            &&& r == Step::Next
            &&& only_regs_changed(pre, post)
            &&& post.registers@ == pre.registers@.update(
                vx as int,
                pre.registers@[vx as int] & pre.registers@[vy as int],
            )
        },
        OpCode::BitwiseXor { vx, vy } => {
            &&& r == Step::Next
            &&& only_regs_changed(pre, post)
            &&& post.registers@ == pre.registers@.update(
                vx as int,
                pre.registers@[vx as int] ^ pre.registers@[vy as int],
            )
        },
        OpCode::Add { vx, vy } => {
            let a = pre.registers@[vx as int] as int;
            let b = pre.registers@[vy as int] as int;
            &&& r == Step::Next
            &&& only_regs_changed(pre, post)
            &&& post.registers@ == pre.registers@.update(vx as int, wrap_add_u8(a, b) as u8).update(
                15,
                if a + b > 255 {
                    1u8
                } else {
                    0u8
                },
            )
        },
        OpCode::Subtract { vx, vy } => {
            let a = pre.registers@[vx as int] as int;
            let b = pre.registers@[vy as int] as int;
            &&& r == Step::Next
            &&& only_regs_changed(pre, post)
            &&& post.registers@ == pre.registers@.update(vx as int, wrap_sub_u8(a, b) as u8).update(
                15,
                if a >= b {
                    1u8
                } else {
                    0u8
                },
            )
        },
        OpCode::BitShiftRight { vx, vy: _ } => {
            let a = pre.registers@[vx as int] as int;
            let rg1 = pre.registers@.update(15, (a % 2) as u8);
            &&& r == Step::Next
            &&& only_regs_changed(pre, post)
            &&& post.registers@ == rg1.update(vx as int, ((rg1[vx as int] as int) / 2) as u8)
        },
        OpCode::AssignDifference { vx, vy } => {
            let a = pre.registers@[vx as int] as int;
            let b = pre.registers@[vy as int] as int;
            &&& r == Step::Next
            &&& only_regs_changed(pre, post)
            &&& post.registers@ == pre.registers@.update(vx as int, wrap_sub_u8(b, a) as u8).update(
                15,
                if b >= a {
                    1u8
                } else {
                    0u8
                },
            )
        },
        OpCode::BitShiftLeft { vx, vy: _ } => {
            let a = pre.registers@[vx as int] as int;
            let rg1 = pre.registers@.update(15, (a / 128) as u8);
            &&& r == Step::Next
            &&& only_regs_changed(pre, post)
            &&& post.registers@ == rg1.update(
                vx as int,
                wrap_add_u8(rg1[vx as int] as int, rg1[vx as int] as int) as u8,
            )
        },

        OpCode::Invalid => {
            r == (Step::Halt { reason: HaltReason::Unrecognized }) && unchanged_state(pre, post)
        },
    }
}

/// The big-endian 16-bit word formed by the two memory bytes at offset `p`.
pub open spec fn word_at(mem: Seq<u8>, p: int) -> u16 {
    ((mem[p] as int) * 256 + (mem[p + 1] as int)) as u16
}

/// `m` with its program counter replaced by `pc`.
pub open spec fn with_pc(m: Machine, pc: u16) -> Machine {
    Machine { pc, ..m }
}

/// One full fetch-decode-execute cycle: fetch the big-endian word at the
/// program counter, advance the counter by 2, decode, and apply the
/// instruction per `execute_rel`. A fetch that would read past the
/// 4096-byte memory halts the run with the machine unchanged.
pub open spec fn cycle_rel(pre: Machine, post: Machine, delay: u8, r: Step) -> bool {
    if pre.pc as int + 1 >= 4096 {
        r == (Step::Halt { reason: HaltReason::OutOfBounds }) && unchanged_state(pre, post)
    } else {
        execute_rel(
            with_pc(pre, (pre.pc + 2) as u16),
            post,
            spec_parse(word_at(pre.memory@, pre.pc as int)),
            delay,
            r,
        )
    }
}

/// The pixel at `row`, `col` has already been processed by the sprite-draw
/// loops once `i` full rows are done and `ii` columns of row `y + i` are
/// done.
spec fn drawn_upto(x: int, y: int, n: int, i: int, ii: int, row: int, col: int) -> bool {
    covers(x, y, n, row, col) && (row - y < i || (row - y == i && col - x < ii))
}

/// Everything but the display is unchanged.
pub open spec fn only_display_changed(pre: Machine, post: Machine) -> bool {
    &&& post.pc == pre.pc
    &&& post.index == pre.index
    &&& post.memory@ == pre.memory@
    &&& post.stack@ == pre.stack@
    &&& post.registers@ == pre.registers@
}

impl Machine {
    /// The fixed sizes of the state: 4096 bytes of memory, 2048 pixels,
    /// sixteen registers.
    pub open spec fn wf(self) -> bool {
        &&& self.memory@.len() == 4096
        &&& self.display@.len() == 2048
        &&& self.registers@.len() == 16
    }

    /// A fresh machine: zeroed memory, registers and index, a blank screen,
    /// an empty call stack, and the program counter at the entry point 0x200.
    pub fn new() -> (m: Machine)
        ensures
            m.wf(),
            m.pc == 0x200,
            m.index == 0,
            m.stack@.len() == 0,
            forall|i: int| 0 <= i < 4096 ==> m.memory@[i] == 0,
            forall|i: int| 0 <= i < 2048 ==> !m.display@[i],
            forall|i: int| 0 <= i < 16 ==> m.registers@[i] == 0,
    {
        let mut memory: Vec<u8> = Vec::new();
        let mut display: Vec<bool> = Vec::new();
        let mut registers: Vec<u8> = Vec::new();
        let mut i: usize = 0;
        while i < 4096
            invariant
                i <= 4096,
                memory@.len() == i,
                forall|j: int| 0 <= j < i ==> memory@[j] == 0,
            decreases 4096 - i,
        {
            memory.push(0);
            i = i + 1;
        }
        let mut i: usize = 0;
        while i < 2048
            invariant
                i <= 2048,
                display@.len() == i,
                forall|j: int| 0 <= j < i ==> !display@[j],
            decreases 2048 - i,
        {
            display.push(false);
            i = i + 1;
        }
        let mut i: usize = 0;
        while i < 16
            invariant
                i <= 16,
                registers@.len() == i,
                forall|j: int| 0 <= j < i ==> registers@[j] == 0,
            decreases 16 - i,
        {
            registers.push(0);
            i = i + 1;
        }
        Machine { memory, display, pc: 0x200, index: 0, stack: Vec::new(), registers }
    }

    /// Copy `data` into memory starting at `start`. Succeeds exactly when the
    /// data fits below address 4096; on failure the machine is unchanged.
    /// Loading a program image means loading it at the entry point 0x200.
    pub fn load(&mut self, data: &Vec<u8>, start: usize) -> (ok: bool)
        requires
            old(self).wf(),
        ensures
            final(self).wf(),
            ok == (start + data@.len() <= 4096),
            final(self).pc == old(self).pc,
            final(self).index == old(self).index,
            final(self).stack@ == old(self).stack@,
            final(self).registers@ == old(self).registers@,
            final(self).display@ == old(self).display@,
            !ok ==> final(self).memory@ == old(self).memory@,
            ok ==> final(self).memory@.len() == 4096 && forall|j: int|
                0 <= j < 4096 ==> final(self).memory@[j] == (if start <= j
                    < start + data@.len() {
                    data@[j - start]
                } else {
                    old(self).memory@[j]
                }),
    {
        if data.len() > 4096 || start > 4096 - data.len() {
            return false;
        }
        let mut i: usize = 0;
        while i < data.len()
            invariant
                old(self).wf(),
                self.wf(),
                start + data@.len() <= 4096,
                i <= data@.len(),
                self.pc == old(self).pc,
                self.index == old(self).index,
                self.stack@ == old(self).stack@,
                self.registers@ == old(self).registers@,
                self.display@ == old(self).display@,
                forall|j: int| 0 <= j < 4096 ==> self.memory@[j] == (if start <= j < start
                    + i {
                    data@[j - start]
                } else {
                    old(self).memory@[j]
                }),
            decreases data@.len() - i,
        {
            self.memory.set(start + i, data[i]);
            i = i + 1;
        }
        true
    }

    /// Write registers 0 through `vx` to memory at the index register.
    fn store_regs(&mut self, vx: u8) -> (r: Step)
        requires
            old(self).wf(),
            vx < 16,
        ensures
            final(self).wf(),
            post_store(*old(self), *final(self), vx, r),
    {
        if self.index as usize + vx as usize >= 4096 {
            return Step::Halt { reason: HaltReason::OutOfBounds };
        }
        let idx: usize = self.index as usize;
        let mut i: usize = 0;
        while i <= vx as usize
            invariant
                old(self).wf(),
                self.wf(),
                vx < 16,
                idx == old(self).index,
                idx + vx < 4096,
                i <= vx + 1,
                only_memory_changed(*old(self), *self),
                forall|j: int|
                    0 <= j < 4096 ==> self.memory@[j] == (if idx <= j < idx + i {
                        old(self).registers@[j - idx]
                    } else {
                        old(self).memory@[j]
                    }),
            decreases vx + 1 - i,
        {
            self.memory.set(idx + i, self.registers[i]);
            i = i + 1;
        }
        Step::Next
    }

    /// Fill registers 0 through `vx` from memory at the index register.
    fn load_regs(&mut self, vx: u8) -> (r: Step)
        requires
            old(self).wf(),
            vx < 16,
        ensures
            final(self).wf(),
            post_load(*old(self), *final(self), vx, r),
    {
        if self.index as usize + vx as usize >= 4096 {
            return Step::Halt { reason: HaltReason::OutOfBounds };
        }
        let idx: usize = self.index as usize;
        let mut i: usize = 0;
        while i <= vx as usize
            invariant
                old(self).wf(),
                self.wf(),
                vx < 16,
                idx == old(self).index,
                idx + vx < 4096,
                i <= vx + 1,
                only_regs_changed(*old(self), *self),
                forall|j: int|
                    0 <= j < 16 ==> self.registers@[j] == (if 0 <= j < i {
                        old(self).memory@[idx + j]
                    } else {
                        old(self).registers@[j]
                    }),
            decreases vx + 1 - i,
        {
            let b = self.memory[idx + i];
            self.registers.set(i, b);
            i = i + 1;
        }
        Step::Next
    }

    /// Write the three decimal digits of register `vx` to memory at the
    /// index register.
    fn store_bcd(&mut self, vx: u8) -> (r: Step)
        requires
            old(self).wf(),
            vx < 16,
        ensures
            final(self).wf(),
            post_bcd(*old(self), *final(self), vx, r),
    {
        if self.index as usize + 2 >= 4096 {
            return Step::Halt { reason: HaltReason::OutOfBounds };
        }
        let idx: usize = self.index as usize;
        let v = self.registers[vx as usize];
        self.memory.set(idx, v / 100);
        self.memory.set(idx + 1, (v / 10) % 10);
        self.memory.set(idx + 2, v % 10);
        Step::Next
    }

    /// Draw the sprite of `n` rows addressed by the index register at the
    /// screen position held in registers `vx` and `vy`, XOR-compositing it
    /// into the framebuffer and recording a collision in register 0xF.
    #[verifier::loop_isolation(false)]
    fn draw_sprite(&mut self, vx: u8, vy: u8, n: u8) -> (r: Step)
        requires
            old(self).wf(),
            vx < 16,
            vy < 16,
            n < 16,
        ensures
            final(self).wf(),
            post_display(*old(self), *final(self), vx, vy, n, r),
    {
        let x: u8 = self.registers[vx as usize] % 64;
        let y: u8 = self.registers[vy as usize] % 32;
        let rows: u8 = if n <= 32 - y {
            n
        } else {
            32 - y
        };
        if rows > 0 && self.index as usize + rows as usize > 4096 {
            return Step::Halt { reason: HaltReason::OutOfBounds };
        }
        let cols: u8 = if 64 - x >= 8 {
            8
        } else {
            64 - x
        };
        let ghost pre = *old(self);
        let ghost xi = x as int;
        let ghost yi = y as int;
        let ghost ni = n as int;
        let ghost idx = pre.index as int;
        let ghost mut crow: int = 0;
        let ghost mut ccol: int = 0;
        self.registers.set(15, 0);
        let mut i: u8 = 0;
        while i < rows
            invariant
                i <= rows,
                self.wf(),
                self.pc == pre.pc,
                self.index == pre.index,
                self.memory@ == pre.memory@,
                self.stack@ == pre.stack@,
                forall|j: int| 0 <= j < 16 && j != 15 ==> self.registers@[j] == pre.registers@[j],
                self.registers@[15] == 0 || self.registers@[15] == 1,
                self.registers@[15] == 1 ==> collides_at(
                    pre.display@,
                    pre.memory@,
                    idx,
                    xi,
                    yi,
                    ni,
                    crow,
                    ccol,
                ) && drawn_upto(xi, yi, ni, i as int, 0, crow, ccol),
                self.registers@[15] == 0 ==> forall|row: int, col: int| #[trigger] collides_at(
                    pre.display@,
                    pre.memory@,
                    idx,
                    xi,
                    yi,
                    ni,
                    row,
                    col,
                ) ==> !drawn_upto(xi, yi, ni, i as int, 0, row, col),
                forall|row: int, col: int|
                    0 <= row < 32 && 0 <= col < 64 ==> #[trigger] pix(self.display@, row, col) == (
                    if drawn_upto(xi, yi, ni, i as int, 0, row, col) && sprite_bit(
                        pre.memory@,
                        idx,
                        xi,
                        yi,
                        row,
                        col,
                    ) {
                        !pix(pre.display@, row, col)
                    } else {
                        pix(pre.display@, row, col)
                    }),
            decreases rows - i,
        {
            let rowbyte = self.memory[self.index as usize + i as usize];
            let mut ii: u8 = 0;
            while ii < cols
                invariant
                    ii <= cols,
                    self.wf(),
                    self.pc == pre.pc,
                    self.index == pre.index,
                    self.memory@ == pre.memory@,
                    self.stack@ == pre.stack@,
                    forall|j: int|
                        0 <= j < 16 && j != 15 ==> self.registers@[j] == pre.registers@[j],
                    self.registers@[15] == 0 || self.registers@[15] == 1,
                    self.registers@[15] == 1 ==> collides_at(
                        pre.display@,
                        pre.memory@,
                        idx,
                        xi,
                        yi,
                        ni,
                        crow,
                        ccol,
                    ) && drawn_upto(xi, yi, ni, i as int, ii as int, crow, ccol),
                    self.registers@[15] == 0 ==> forall|row: int, col: int| #[trigger] collides_at(
                        pre.display@,
                        pre.memory@,
                        idx,
                        xi,
                        yi,
                        ni,
                        row,
                        col,
                    ) ==> !drawn_upto(xi, yi, ni, i as int, ii as int, row, col),
                    forall|row: int, col: int|
                        0 <= row < 32 && 0 <= col < 64 ==> #[trigger] pix(self.display@, row, col)
                            == (if drawn_upto(xi, yi, ni, i as int, ii as int, row, col)
                            && sprite_bit(pre.memory@, idx, xi, yi, row, col) {
                            !pix(pre.display@, row, col)
                        } else {
                            pix(pre.display@, row, col)
                        }),
                decreases cols - ii,
            {
                let shift: u8 = 7 - ii;
                let bit: u8 = (rowbyte >> shift) & 1;
                let ghost row0 = yi + i;
                let ghost col0 = xi + ii;
                let ghost disp_before = self.display@;
                let ghost flag_before = self.registers@[15];
                proof {
                    assert(rowbyte == pre.memory@[idx + (row0 - yi)]);
                    assert((7 - (col0 - xi)) as u8 == shift);
                    assert(sprite_bit(pre.memory@, idx, xi, yi, row0, col0) == (bit == 1));
                    assert(!drawn_upto(xi, yi, ni, i as int, ii as int, row0, col0));
                    assert(pix(disp_before, row0, col0) == pix(pre.display@, row0, col0));
                }
                let mut hit = false;
                if bit == 1 {
                    let di: usize = (x + ii) as usize + (y + i) as usize * 64;
                    proof {
                        assert(di == row0 * 64 + col0);
                    }
                    if self.display[di] {
                        self.display.set(di, false);
                        self.registers.set(15, 1);
                        hit = true;
                        proof {
                            crow = row0;
                            ccol = col0;
                        }
                    } else {
                        self.display.set(di, true);
                    }
                }
                proof {
                    // The pixel just processed, and no other, moves from the
                    // unprocessed to the processed region.
                    assert forall|row: int, col: int| 0 <= row < 32 && 0 <= col < 64 implies
                        #[trigger] pix(self.display@, row, col) == (if drawn_upto(
                        xi,
                        yi,
                        ni,
                        i as int,
                        ii as int + 1,
                        row,
                        col,
                    ) && sprite_bit(pre.memory@, idx, xi, yi, row, col) {
                        !pix(pre.display@, row, col)
                    } else {
                        pix(pre.display@, row, col)
                    }) by {
                        if row == row0 && col == col0 {
                            assert(covers(xi, yi, ni, row0, col0));
                            assert(drawn_upto(xi, yi, ni, i as int, ii as int + 1, row0, col0));
                        } else {
                            assert(row * 64 + col != row0 * 64 + col0);
                            assert(pix(self.display@, row, col) == pix(disp_before, row, col));
                            assert(drawn_upto(xi, yi, ni, i as int, ii as int + 1, row, col)
                                == drawn_upto(xi, yi, ni, i as int, ii as int, row, col));
                        }
                    }
                    if hit {
                        assert(collides_at(pre.display@, pre.memory@, idx, xi, yi, ni, crow, ccol));
                        assert(drawn_upto(xi, yi, ni, i as int, ii as int + 1, crow, ccol));
                    } else if flag_before == 1 {
                        assert(drawn_upto(xi, yi, ni, i as int, ii as int + 1, crow, ccol));
                    } else {
                        assert(!collides_at(pre.display@, pre.memory@, idx, xi, yi, ni, row0, col0));
                        assert forall|row: int, col: int| #[trigger] collides_at(
                            pre.display@,
                            pre.memory@,
                            idx,
                            xi,
                            yi,
                            ni,
                            row,
                            col,
                        ) implies !drawn_upto(xi, yi, ni, i as int, ii as int + 1, row, col) by {
                            if row == row0 && col == col0 {
                            } else {
                                assert(drawn_upto(xi, yi, ni, i as int, ii as int + 1, row, col)
                                    == drawn_upto(xi, yi, ni, i as int, ii as int, row, col));
                            }
                        }
                    }
                }
                ii = ii + 1;
            }
            proof {
                // A fully processed row is one more processed full row.
                assert forall|row: int, col: int| #[trigger] drawn_upto(
                    xi,
                    yi,
                    ni,
                    i as int,
                    cols as int,
                    row,
                    col,
                ) == drawn_upto(xi, yi, ni, i as int + 1, 0, row, col) by {
                    if covers(xi, yi, ni, row, col) {
                        assert(col - xi < cols);
                    }
                }
            }
            i = i + 1;
        }
        proof {
            // Every covered pixel has been processed.
            assert forall|row: int, col: int| #[trigger] drawn_upto(
                xi,
                yi,
                ni,
                rows as int,
                0,
                row,
                col,
            ) == covers(xi, yi, ni, row, col) by {
                if covers(xi, yi, ni, row, col) {
                    assert(row - yi < rows);
                }
            }
            if self.registers@[15] == 1 {
                assert(has_collision(pre.display@, pre.memory@, idx, xi, yi, ni));
            } else {
                assert(!has_collision(pre.display@, pre.memory@, idx, xi, yi, ni)) by {
                    assert forall|row: int, col: int| !(#[trigger] collides_at(
                        pre.display@,
                        pre.memory@,
                        idx,
                        xi,
                        yi,
                        ni,
                        row,
                        col,
                    )) by {
                        if collides_at(pre.display@, pre.memory@, idx, xi, yi, ni, row, col) {
                            assert(drawn_upto(xi, yi, ni, rows as int, 0, row, col));
                        }
                    }
                }
            }
            assert(self.registers@ =~= pre.registers@.update(
                15,
                if has_collision(pre.display@, pre.memory@, idx, xi, yi, ni) {
                    1u8
                } else {
                    0u8
                },
            ));
        }
        Step::Next
    }

    /// Apply one decoded instruction to the machine. The program counter
    /// must already have been advanced past the instruction word, as the
    /// fetch-decode-execute cycle does; `delay` is the delay-timer value
    /// read for this cycle. The full effect, for every variant, is stated by
    /// `execute_rel`.
    pub fn execute(&mut self, op: OpCode, delay: u8) -> (r: Step)
        requires
            old(self).wf(),
            crate::op_codes::op_wf(op),
            old(self).pc <= 0xFFFD,
        ensures
            final(self).wf(),
            execute_rel(*old(self), *final(self), op, delay, r),
    {
        match op {
            OpCode::ClearScreen => {
                let mut i: usize = 0;
                while i < 2048
                    invariant
                        old(self).wf(),
                        self.wf(),
                        i <= 2048,
                        only_display_changed(*old(self), *self),
                        forall|j: int| 0 <= j < i ==> !self.display@[j],
                        forall|j: int| i <= j < 2048 ==> self.display@[j] == old(self).display@[j],
                    decreases 2048 - i,
                {
                    self.display.set(i, false);
                    i = i + 1;
                }
                proof {
                    assert(self.display@ =~= Seq::new(2048, |i: int| false));
                }
                Step::Next
            },
            OpCode::Display { vx, vy, n } => self.draw_sprite(vx, vy, n),

            OpCode::Jump { address } => {
                self.pc = address;
                Step::Next
            },
            OpCode::Subroutine { address } => {
                self.stack.push(self.pc);
                self.pc = address;
                Step::Next
            },
            OpCode::Return => {
                match self.stack.pop() {
                    Some(address) => {
                        proof {
                            assert(self.stack@ =~= old(self).stack@.drop_last());
                        }
                        self.pc = address;
                        Step::Next
                    },
                    None => Step::Halt { reason: HaltReason::StackUnderflow },
                }
            },
            OpCode::SetIndex { address } => {
                self.index = address;
                Step::Next
            },
            OpCode::JumpPlusV0 { address: _ } => Step::Halt { reason: HaltReason::Unimplemented },
            OpCode::AssignRandom { vx: _, value: _ } => {
                Step::Halt { reason: HaltReason::Unimplemented }
            },
            OpCode::AddToIndex { vx } => {
                let a = self.registers[vx as usize];
                let s: u32 = self.index as u32 + a as u32;
                if s < 0x10000 {
                    self.index = s as u16;
                } else {
                    self.index = (s - 0x10000) as u16;
                }
                Step::Next
            },
            OpCode::SetIndexToSpriteLocation { vx } => {
                let a = self.registers[vx as usize];
                self.index = 0x50 + 5 * (a as u16);
                Step::Next
            },
            OpCode::StoreBinaryCodedDecimal { vx } => self.store_bcd(vx),
            OpCode::StoreToMemory { vx } => self.store_regs(vx),
            OpCode::LoadFromMemory { vx } => self.load_regs(vx),

            OpCode::SkipIfPressed { vx: _ } => Step::Next,
            OpCode::SkipIfNotPressed { vx: _ } => Step::Next,
            OpCode::AssignDelayTimerToVariable { vx } => {
                self.registers.set(vx as usize, delay);
                Step::Next
            },
            OpCode::WaitForPressAndAssign { vx: _ } => {
                Step::Halt { reason: HaltReason::Unimplemented }
            },
            OpCode::SetDelayTimer { vx } => {
                let a = self.registers[vx as usize];
                Step::SetDelay { value: a }
            },
            OpCode::SetSoundTimer { vx } => {
                let a = self.registers[vx as usize];
                Step::SetSound { value: a }
            },

            OpCode::SkipIfVariableEqualsValue { vx, value } => {
                if self.registers[vx as usize] == value {
                    self.pc = self.pc + 2;
                }
                Step::Next
            },
            OpCode::SkipIfVariableNotEqualsValue { vx, value } => {
                if self.registers[vx as usize] != value {
                    self.pc = self.pc + 2;
                }
                Step::Next
            },
            OpCode::SkipIfVariableEqualsVariable { vx, vy } => {
                if self.registers[vx as usize] == self.registers[vy as usize] {
                    self.pc = self.pc + 2;
                }
                Step::Next
            },
            OpCode::SkipIfVariableNotEqualsVariable { vx, vy } => {
                if self.registers[vx as usize] != self.registers[vy as usize] {
                    self.pc = self.pc + 2;
                }
                Step::Next
            },

            OpCode::SetValue { vx, value } => {
                self.registers.set(vx as usize, value);
                Step::Next
            },
            OpCode::AddValue { vx, value } => {
                let a = self.registers[vx as usize];
                let sum: u16 = a as u16 + value as u16;
                let res: u8 = if sum < 256 {
                    sum as u8
                } else {
                    (sum - 256) as u8
                };
                self.registers.set(vx as usize, res);
                Step::Next
            },

            OpCode::AssignVariable { vx, vy } => {
                let b = self.registers[vy as usize];
                self.registers.set(vx as usize, b);
                Step::Next
            },
            OpCode::BitwiseOr { vx, vy } => {
                let a = self.registers[vx as usize];
                let b = self.registers[vy as usize];
                self.registers.set(vx as usize, a | b);
                Step::Next
            },
            OpCode::BitwiseAnd { vx, vy } => {
                let a = self.registers[vx as usize];
                let b = self.registers[vy as usize];
                self.registers.set(vx as usize, a & b);
                Step::Next
            },
            OpCode::BitwiseXor { vx, vy } => {
                let a = self.registers[vx as usize];
                let b = self.registers[vy as usize];
                self.registers.set(vx as usize, a ^ b);
                Step::Next
            },
            OpCode::Add { vx, vy } => {
                let a = self.registers[vx as usize];
                let b = self.registers[vy as usize];
                let sum: u16 = a as u16 + b as u16;
                let res: u8 = if sum < 256 {
                    sum as u8
                } else {
                    (sum - 256) as u8
                };
                let flag: u8 = if sum > 255 {
                    1
                } else {
                    0
                };
                self.registers.set(vx as usize, res);
                self.registers.set(15, flag);
                Step::Next
            },
            OpCode::Subtract { vx, vy } => {
                let a = self.registers[vx as usize];
                let b = self.registers[vy as usize];
                let res: u8 = if a >= b {
                    a - b
                } else {
                    ((a as u16 + 256) - b as u16) as u8
                };
                let flag: u8 = if a >= b {
                    1
                } else {
                    0
                };
                self.registers.set(vx as usize, res);
                self.registers.set(15, flag);
                Step::Next
            },
            OpCode::BitShiftRight { vx, vy: _ } => {
                let a = self.registers[vx as usize];
                self.registers.set(15, a % 2);
                let v1 = self.registers[vx as usize];
                self.registers.set(vx as usize, v1 / 2);
                Step::Next
            },
            OpCode::AssignDifference { vx, vy } => {
                let a = self.registers[vx as usize];
                let b = self.registers[vy as usize];
                let res: u8 = if b >= a {
                    b - a
                } else {
                    ((b as u16 + 256) - a as u16) as u8
                };
                let flag: u8 = if b >= a {
                    1
                } else {
                    0
                };
                self.registers.set(vx as usize, res);
                self.registers.set(15, flag);
                Step::Next
            },
            OpCode::BitShiftLeft { vx, vy: _ } => {
                let a = self.registers[vx as usize];
                self.registers.set(15, a / 128);
                let v1 = self.registers[vx as usize];
                let d: u16 = v1 as u16 + v1 as u16;
                let nv: u8 = if d < 256 {
                    d as u8
                } else {
                    (d - 256) as u8
                };
                self.registers.set(vx as usize, nv);
                Step::Next
            },

            OpCode::Invalid => Step::Halt { reason: HaltReason::Unrecognized },
        }
    }

    /// Run one fetch-decode-execute cycle against the delay-timer value
    /// `delay` read for this cycle. The full effect is stated by
    /// `cycle_rel`: the word at the program counter is fetched big-endian,
    /// the counter is advanced by 2 before the instruction's own
    /// control-flow effect, and the decoded instruction is applied.
    pub fn cycle(&mut self, delay: u8) -> (r: Step)
        requires
            old(self).wf(),
        ensures
            final(self).wf(),
            cycle_rel(*old(self), *final(self), delay, r),
    {
        if self.pc as usize + 1 >= 4096 {
            return Step::Halt { reason: HaltReason::OutOfBounds };
        }
        let hi = self.memory[self.pc as usize];
        let lo = self.memory[self.pc as usize + 1];
        let w: u16 = (hi as u16) * 256 + (lo as u16);
        self.pc = self.pc + 2;
        let ghost mid = *self;
        let op = crate::parser::parse_op_code(w);
        let r = self.execute(op, delay);
        proof {
            assert(mid == with_pc(*old(self), (old(self).pc + 2) as u16));
            assert(w == word_at(old(self).memory@, old(self).pc as int));
        }
        r
    }
}

/// The program counter and call stack after the nested subroutine calls to
/// the addresses in `addrs`, made in order: each call pushes the return
/// address — the already-advanced program counter — and jumps, exactly as
/// `execute_rel` states for the subroutine-call instruction.
pub open spec fn stack_after_calls(pc: u16, stack: Seq<u16>, addrs: Seq<u16>) -> (u16, Seq<u16>)
    decreases addrs.len(),
{
    if addrs.len() == 0 {
        (pc, stack)
    } else {
        stack_after_calls(addrs.first(), stack.push(pc), addrs.drop_first())
    }
}

/// The program counter and call stack after `k` returns: each pops the top
/// return address into the program counter, exactly as `execute_rel` states
/// for the return instruction. A return finding the stack empty changes
/// nothing here; `execute_rel` makes it fatal.
pub open spec fn stack_after_returns(pc: u16, stack: Seq<u16>, k: nat) -> (u16, Seq<u16>)
    decreases k,
{
    if k == 0 || stack.len() == 0 {
        (pc, stack)
    } else {
        stack_after_returns(stack.last(), stack.drop_last(), (k - 1) as nat)
    }
}

/// Returns compose: doing `j + k` returns is doing `j`, then `k` more.
proof fn lemma_returns_compose(pc: u16, stack: Seq<u16>, j: nat, k: nat)
    ensures
        stack_after_returns(pc, stack, j + k) == stack_after_returns(
            stack_after_returns(pc, stack, j).0,
            stack_after_returns(pc, stack, j).1,
            k,
        ),
    decreases j,
{
    if j > 0 && stack.len() > 0 {
        lemma_returns_compose(stack.last(), stack.drop_last(), (j - 1) as nat, k);
    }
}

/// Stack discipline: `N` nested subroutine calls followed by `N` returns
/// restore both the program counter and the call stack to their pre-call
/// values, for any machine and any sequence of call addresses. In
/// particular, starting from an empty stack the stack is empty again after
/// the `N` returns, so an `(N+1)`-th return instruction is fatal by the
/// return case of `execute_rel`.
pub proof fn lemma_stack_discipline(pc: u16, stack: Seq<u16>, addrs: Seq<u16>)
    ensures
        stack_after_returns(
            stack_after_calls(pc, stack, addrs).0,
            stack_after_calls(pc, stack, addrs).1,
            addrs.len(),
        ).0 == pc,
        stack_after_returns(
            stack_after_calls(pc, stack, addrs).0,
            stack_after_calls(pc, stack, addrs).1,
            addrs.len(),
        ).1 == stack,
    decreases addrs.len(),
{
    if addrs.len() > 0 {
        lemma_stack_discipline(addrs.first(), stack.push(pc), addrs.drop_first());
        let (p1, s1) = stack_after_calls(addrs.first(), stack.push(pc), addrs.drop_first());
        let n1 = addrs.drop_first().len();
        lemma_returns_compose(p1, s1, n1, 1);
        assert(addrs.len() == n1 + 1);
        assert(stack_after_calls(pc, stack, addrs) == stack_after_calls(
            addrs.first(),
            stack.push(pc),
            addrs.drop_first(),
        ));
        assert(stack_after_returns(p1, s1, n1).0 == addrs.first());
        assert(stack_after_returns(p1, s1, n1).1 == stack.push(pc));
        assert(stack_after_returns(p1, s1, n1 + 1) == stack_after_returns(
            stack_after_returns(p1, s1, n1).0,
            stack_after_returns(p1, s1, n1).1,
            1,
        ));
        assert(stack.push(pc).len() > 0);
        assert(stack.push(pc).last() == pc);
        assert(stack.push(pc).drop_last() =~= stack);
        assert(stack_after_returns(addrs.first(), stack.push(pc), 1) == stack_after_returns(
            stack.push(pc).last(),
            stack.push(pc).drop_last(),
            0,
        ));
        assert(stack_after_returns(addrs.first(), stack.push(pc), 1).0 == pc);
        assert(stack_after_returns(addrs.first(), stack.push(pc), 1).1 == stack);
    }
}

/// The sprite drawn at origin `x`, `y` is visible: some bit of it is set on
/// a pixel that is not clipped away.
pub open spec fn sprite_visible(mem: Seq<u8>, idx: int, x: int, y: int, n: int) -> bool {
    exists|row: int, col: int|
        covers(x, y, n, row, col) && #[trigger] sprite_bit(mem, idx, x, y, row, col)
}

/// Sprite collision: drawing a sprite twice at the same position onto a
/// blank screen returns the screen to blank, because XOR-compositing the
/// same bits twice cancels; and the second draw reports a collision in
/// register 0xF exactly when the sprite is visibly nonzero. The position
/// registers must not be the flag register, which the first draw
/// overwrites.
pub proof fn lemma_sprite_draw_twice(
    m0: Machine,
    m1: Machine,
    m2: Machine,
    vx: u8,
    vy: u8,
    n: u8,
    r1: Step,
    r2: Step,
)
    requires
        vx < 16,
        vy < 16,
        n < 16,
        vx != 15,
        vy != 15,
        m0.display@.len() == 2048,
        m0.registers@.len() == 16,
        forall|row: int, col: int|
            0 <= row < 32 && 0 <= col < 64 ==> !(#[trigger] pix(m0.display@, row, col)),
        post_display(m0, m1, vx, vy, n, r1),
        post_display(m1, m2, vx, vy, n, r2),
        r1 == Step::Next,
    ensures
        r2 == Step::Next,
        forall|row: int, col: int|
            0 <= row < 32 && 0 <= col < 64 ==> !(#[trigger] pix(m2.display@, row, col)),
        ({
            let x = (m0.registers@[vx as int] % 64) as int;
            let y = (m0.registers@[vy as int] % 32) as int;
            m2.registers@[15] == (if sprite_visible(m0.memory@, m0.index as int, x, y, n as int) {
                1u8
            } else {
                0u8
            })
        }),
{
    let x = (m0.registers@[vx as int] % 64) as int;
    let y = (m0.registers@[vy as int] % 32) as int;
    let idx = m0.index as int;
    let rows = rows_drawn(y, n as int);
    assert(!(rows > 0 && idx + rows > 4096));
    assert(m1.registers@[vx as int] == m0.registers@[vx as int]);
    assert(m1.registers@[vy as int] == m0.registers@[vy as int]);
    assert forall|row: int, col: int| 0 <= row < 32 && 0 <= col < 64 implies !(#[trigger] pix(
        m2.display@,
        row,
        col,
    )) by {
        assert(pix(m1.display@, row, col) == (if covers(x, y, n as int, row, col) && sprite_bit(
            m0.memory@,
            idx,
            x,
            y,
            row,
            col,
        ) {
            true
        } else {
            false
        }));
    }
    if sprite_visible(m0.memory@, idx, x, y, n as int) {
        let (row, col) = choose|row: int, col: int|
            covers(x, y, n as int, row, col) && #[trigger] sprite_bit(
                m0.memory@,
                idx,
                x,
                y,
                row,
                col,
            );
        assert(pix(m1.display@, row, col));
        assert(collides_at(m1.display@, m0.memory@, idx, x, y, n as int, row, col));
        assert(has_collision(m1.display@, m1.memory@, idx, x, y, n as int));
    } else {
        assert forall|row: int, col: int| !(#[trigger] collides_at(
            m1.display@,
            m1.memory@,
            idx,
            x,
            y,
            n as int,
            row,
            col,
        )) by {
            if collides_at(m1.display@, m1.memory@, idx, x, y, n as int, row, col) {
                assert(sprite_bit(m0.memory@, idx, x, y, row, col));
            }
        }
        assert(!has_collision(m1.display@, m1.memory@, idx, x, y, n as int));
    }
}

} // verus!
