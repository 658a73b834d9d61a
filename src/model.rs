//! The abstract machine: what a [`crate::Cpu`] holds, and what one cycle and
//! each instruction do to it.
use crate::font::font_table;
use crate::instruction::{decode_spec, ArithOp, Instruction};
use vstd::arithmetic::div_mod::{lemma_fundamental_div_mod, lemma_fundamental_div_mod_converse, lemma_mod_bound, lemma_mod_multiples_vanish, lemma_mod_pos_bound, lemma_small_mod};
use vstd::prelude::*;

verus! {

/// Number of memory cells.
pub const MEMORY_SIZE: usize = 4096;

/// Address at which a program image is loaded, and where execution starts.
pub const PROGRAM_START: usize = 0x200;

/// Largest program image that fits between `PROGRAM_START` and the end of memory.
pub const MAX_PROGRAM_SIZE: usize = 3584;

/// Display width in pixels.
pub const DISPLAY_WIDTH: usize = 64;

/// Display height in pixels.
pub const DISPLAY_HEIGHT: usize = 32;

/// Number of display cells, row-major.
pub const DISPLAY_SIZE: usize = 2048;

/// Depth of the call stack.
pub const STACK_DEPTH: usize = 16;

/// Number of general-purpose registers, and of keys.
pub const NUM_REGISTERS: usize = 16;

/// The register that carries carry, borrow, shift-out and collision flags.
pub const FLAG: u8 = 0xF;

/// A failure reported by the machine.
#[derive(PartialEq, Eq, Structural, Clone, Copy, Debug)]
pub enum CpuError {
    /// A program image does not fit in memory; nothing was loaded.
    CapacityExceeded,
    /// An access outside memory, an overflowing or empty call stack, or a
    /// key number above 15; the machine was left as it was.
    OutOfBounds,
    /// The fetched word is no instruction; it was skipped.
    UnimplementedOpcode(u16),
}

/// How a cycle that did not fail ended.
#[derive(PartialEq, Eq, Structural, Clone, Copy, Debug)]
pub enum Step {
    /// The instruction ran to completion.
    Executed,
    /// A key wait found no key held; the same instruction runs again next cycle.
    WaitingForKey,
}

/// The state of the machine. `stack` holds the live return addresses only,
/// the most recent last.
pub struct CpuModel {
    pub memory: Seq<u8>,
    pub v: Seq<u8>,
    pub i: u16,
    pub pc: usize,
    pub stack: Seq<u16>,
    pub gfx: Seq<u8>,
    pub redraw: bool,
    pub delay_timer: u8,
    pub sound_timer: u8,
    pub keypad: Seq<u8>,
}

impl CpuModel {
    /// Sizes are those of the machine, the stack is at most 16 deep, and every
    /// display cell and key flag is 0 or 1.
    pub open spec fn wf(self) -> bool {
        &&& self.memory.len() == MEMORY_SIZE
        &&& self.v.len() == NUM_REGISTERS
        &&& self.stack.len() <= STACK_DEPTH
        &&& self.gfx.len() == DISPLAY_SIZE
        &&& self.keypad.len() == NUM_REGISTERS
        &&& forall|k: int| 0 <= k < DISPLAY_SIZE ==> #[trigger] self.gfx[k] <= 1
        &&& forall|k: int| 0 <= k < NUM_REGISTERS ==> #[trigger] self.keypad[k] <= 1
    }

    pub open spec fn reg(self, x: u8) -> u8 {
        self.v[x as int]
    }

    pub open spec fn set_reg(self, x: u8, val: u8) -> CpuModel {
        CpuModel { v: self.v.update(x as int, val), ..self }
    }

    /// Skips the next instruction when `cond` holds.
    pub open spec fn skip_if(self, cond: bool) -> CpuModel {
        if cond {
            CpuModel { pc: (self.pc + 2) as usize, ..self }
        } else {
            self
        }
    }

    /// Key `k` is held.
    pub open spec fn held(self, k: int) -> bool {
        self.keypad[k] == 1
    }

    /// Some key is held.
    pub open spec fn any_held(self) -> bool {
        exists|k: int| 0 <= k < NUM_REGISTERS && self.held(k)
    }

    /// The lowest-numbered held key, where `any_held()`.
    pub open spec fn first_held(self) -> int {
        choose|k: int|
            0 <= k < NUM_REGISTERS && self.held(k) && forall|j: int| 0 <= j < k ==> !self.held(j)
    }
}

/// The memory of a new machine: the glyph table at 0x050, zeros elsewhere.
pub open spec fn initial_memory() -> Seq<u8> {
    Seq::new(
        MEMORY_SIZE as nat,
        |a: int| if 0x50 <= a < 0xA0 { font_table()[a - 0x50] } else { 0u8 },
    )
}

/// A new machine: all zero but the glyph table, with `pc` at `PROGRAM_START`.
pub open spec fn initial_model() -> CpuModel {
    CpuModel {
        memory: initial_memory(),
        v: Seq::new(NUM_REGISTERS as nat, |r: int| 0u8),
        i: 0,
        pc: PROGRAM_START,
        stack: Seq::empty(),
        gfx: Seq::new(DISPLAY_SIZE as nat, |k: int| 0u8),
        redraw: false,
        delay_timer: 0,
        sound_timer: 0,
        keypad: Seq::new(NUM_REGISTERS as nat, |k: int| 0u8),
    }
}

/// `memory` with `image` copied to it from `PROGRAM_START` on.
pub open spec fn with_image(memory: Seq<u8>, image: Seq<u8>) -> Seq<u8> {
    Seq::new(
        memory.len(),
        |a: int|
            if PROGRAM_START <= a < PROGRAM_START + image.len() {
                image[a - PROGRAM_START]
            } else {
                memory[a]
            },
    )
}

/// The instruction word at `pc`: the byte there high, the next one low.
pub open spec fn fetch_spec(s: CpuModel) -> u16 {
    (s.memory[s.pc as int] * 256 + s.memory[s.pc + 1]) as u16
}

/// The timer step of a cycle: the sound timer counts down when nonzero,
/// else the delay timer does.
pub open spec fn tick(s: CpuModel) -> CpuModel {
    if s.sound_timer > 0 {
        CpuModel { sound_timer: (s.sound_timer - 1) as u8, ..s }
    } else if s.delay_timer > 0 {
        CpuModel { delay_timer: (s.delay_timer - 1) as u8, ..s }
    } else {
        s
    }
}

/// The frame step of both timers: each counts down when nonzero.
pub open spec fn tick_both(s: CpuModel) -> CpuModel {
    CpuModel {
        sound_timer: if s.sound_timer > 0 { (s.sound_timer - 1) as u8 } else { 0 },
        delay_timer: if s.delay_timer > 0 { (s.delay_timer - 1) as u8 } else { 0 },
        ..s
    }
}

/// The value 0 or 1 of a condition.
pub open spec fn bit_of(b: bool) -> u8 {
    if b { 1 } else { 0 }
}

/// An `8xyn` operation: Vx gets the result, then VF the flag where there is one.
pub open spec fn arith_spec(s: CpuModel, op: ArithOp, x: u8, y: u8) -> CpuModel {
    let a = s.reg(x);
    let b = s.reg(y);
    match op {
        ArithOp::Copy => s.set_reg(x, b),
        ArithOp::Or => s.set_reg(x, a | b),
        ArithOp::And => s.set_reg(x, a & b),
        ArithOp::Xor => s.set_reg(x, a ^ b),
        ArithOp::Add => s.set_reg(x, ((a + b) % 256) as u8).set_reg(FLAG, bit_of(a + b > 255)),
        ArithOp::Sub => s.set_reg(x, ((a - b) % 256) as u8).set_reg(FLAG, bit_of(a >= b)),
        ArithOp::ShiftRight => s.set_reg(x, a / 2).set_reg(FLAG, a % 2),
        ArithOp::SubReversed => s.set_reg(x, ((b - a) % 256) as u8).set_reg(FLAG, bit_of(b >= a)),
        ArithOp::ShiftLeft => s.set_reg(x, ((a * 2) % 256) as u8).set_reg(FLAG, a / 128),
    }
}

/// Pixel `col` (0 leftmost) of a sprite row.
pub open spec fn sprite_bit(byte: u8, col: int) -> u8 {
    (byte >> ((7 - col) as u8)) & 1u8
}

/// Row `row` of the sprite at I.
pub open spec fn sprite_row(s: CpuModel, row: int) -> u8 {
    s.memory[s.i + row]
}

/// The display cell of sprite pixel (`row`, `col`) drawn at (`vx`, `vy`):
/// coordinates wrap around the display.
pub open spec fn cell_index(vx: u8, vy: u8, row: int, col: int) -> int {
    ((vy + row) % 32) * 64 + (vx + col) % 64
}

/// The sprite row that lands on cell `idx`, if it is below the sprite's height.
pub open spec fn row_at(vy: u8, idx: int) -> int {
    (idx / 64 - vy) % 32
}

/// The sprite column that lands on cell `idx`, if it is below 8.
pub open spec fn col_at(vx: u8, idx: int) -> int {
    (idx % 64 - vx) % 64
}

/// A sprite of height `n` drawn at (`vx`, `vy`) covers cell `idx`.
pub open spec fn covers(vx: u8, vy: u8, n: int, idx: int) -> bool {
    row_at(vy, idx) < n && col_at(vx, idx) < 8
}

/// Cell `idx` after the draw: the sprite's pixel XORed in where it covers.
pub open spec fn drawn_cell(s: CpuModel, vx: u8, vy: u8, n: int, idx: int) -> u8 {
    if covers(vx, vy, n, idx) {
        s.gfx[idx] ^ sprite_bit(sprite_row(s, row_at(vy, idx)), col_at(vx, idx))
    } else {
        s.gfx[idx]
    }
}

/// Some set pixel of the sprite lands on a set cell.
pub open spec fn collides(s: CpuModel, vx: u8, vy: u8, n: int) -> bool {
    exists|row: int, col: int|
        0 <= row < n && 0 <= col < 8 && s.gfx[#[trigger] cell_index(vx, vy, row, col)] == 1
            && sprite_bit(sprite_row(s, row), col) == 1
}

/// `Dxyn`, where the sprite lies within memory.
pub open spec fn draw_spec(s: CpuModel, x: u8, y: u8, n: u8) -> CpuModel {
    let vx = s.reg(x);
    let vy = s.reg(y);
    CpuModel {
        gfx: Seq::new(DISPLAY_SIZE as nat, |idx: int| drawn_cell(s, vx, vy, n as int, idx)),
        redraw: true,
        ..s
    }.set_reg(FLAG, bit_of(collides(s, vx, vy, n as int)))
}

/// The decimal digits of `val` written at I, I+1, I+2.
pub open spec fn bcd_spec(s: CpuModel, val: u8) -> CpuModel {
    CpuModel {
        memory: s.memory.update(s.i as int, val / 100).update(s.i + 1, (val / 10) % 10).update(
            s.i + 2,
            val % 10,
        ),
        ..s
    }
}

/// V0..=Vx written to memory from I on.
pub open spec fn store_regs_spec(s: CpuModel, x: u8) -> CpuModel {
    CpuModel {
        memory: Seq::new(
            s.memory.len(),
            |a: int| if s.i <= a <= s.i + x { s.v[a - s.i] } else { s.memory[a] },
        ),
        ..s
    }
}

/// V0..=Vx read from memory from I on.
pub open spec fn load_regs_spec(s: CpuModel, x: u8) -> CpuModel {
    CpuModel {
        v: Seq::new(s.v.len(), |r: int| if r <= x { s.memory[s.i + r] } else { s.v[r] }),
        ..s
    }
}

/// Shifting by `a` and back modulo `m` gives `b` back.
proof fn lemma_mod_shift_back(a: int, b: int, m: int)
    requires
        0 <= b < m,
    ensures
        ((a + b) % m - a) % m == b,
{
    let q = (a + b) / m;
    lemma_fundamental_div_mod(a + b, m);
    assert((a + b) % m - a == m * (-q) + b) by (nonlinear_arith)
        requires
            a + b == m * q + (a + b) % m,
    ;
    lemma_mod_multiples_vanish(-q, b, m);
    lemma_small_mod(b as nat, m as nat);
}

/// Shifting back by `a` modulo `m` and forth gives `c` back.
proof fn lemma_mod_shift_forth(a: int, c: int, m: int)
    requires
        0 <= c < m,
    ensures
        (a + (c - a) % m) % m == c,
{
    let q = (c - a) / m;
    lemma_fundamental_div_mod(c - a, m);
    assert(a + (c - a) % m == m * (-q) + c) by (nonlinear_arith)
        requires
            c - a == m * q + (c - a) % m,
    ;
    lemma_mod_multiples_vanish(-q, c, m);
    lemma_small_mod(c as nat, m as nat);
}

/// The pixel (`row`, `col`) of a sprite lands on a display cell, from which
/// `row_at` and `col_at` give it back.
pub proof fn lemma_cell_inverse(vx: u8, vy: u8, row: int, col: int)
    requires
        0 <= row < 32,
        0 <= col < 64,
    ensures
        0 <= cell_index(vx, vy, row, col) < DISPLAY_SIZE,
        row_at(vy, cell_index(vx, vy, row, col)) == row,
        col_at(vx, cell_index(vx, vy, row, col)) == col,
{
    let cy = (vy + row) % 32;
    let cx = (vx + col) % 64;
    lemma_mod_pos_bound(vy + row, 32);
    lemma_mod_pos_bound(vx + col, 64);
    lemma_fundamental_div_mod_converse(cy * 64 + cx, 64, cy, cx);
    lemma_mod_shift_back(vy as int, row, 32);
    lemma_mod_shift_back(vx as int, col, 64);
}

/// Every display cell is the cell of the sprite pixel that `row_at` and
/// `col_at` give.
pub proof fn lemma_cell_of_index(vx: u8, vy: u8, idx: int)
    requires
        0 <= idx < DISPLAY_SIZE,
    ensures
        0 <= row_at(vy, idx) < 32,
        0 <= col_at(vx, idx) < 64,
        cell_index(vx, vy, row_at(vy, idx), col_at(vx, idx)) == idx,
{
    let cy = idx / 64;
    let cx = idx % 64;
    lemma_fundamental_div_mod(idx, 64);
    lemma_mod_pos_bound(idx, 64);
    assert(0 <= cy < 32) by (nonlinear_arith)
        requires
            idx == 64 * cy + cx,
            0 <= cx < 64,
            0 <= idx < 2048,
    ;
    lemma_mod_bound(cy - vy, 32);
    lemma_mod_bound(cx - vx, 64);
    lemma_mod_shift_forth(vy as int, cy, 32);
    lemma_mod_shift_forth(vx as int, cx, 64);
}

pub open spec fn done(s: CpuModel) -> (Result<Step, CpuError>, CpuModel) {
    (Ok(Step::Executed), s)
}

/// What `ins` does to `s`, whose `pc` already points past the instruction;
/// `rnd` is the random byte that `Cxkk` uses. A failure leaves `s` as it is.
pub open spec fn execute_spec(s: CpuModel, ins: Instruction, rnd: u8) -> (
    Result<Step, CpuError>,
    CpuModel,
) {
    match ins {
        Instruction::ClearScreen => done(
            CpuModel { gfx: Seq::new(DISPLAY_SIZE as nat, |k: int| 0u8), redraw: true, ..s },
        ),
        Instruction::Return => if s.stack.len() == 0 {
            (Err(CpuError::OutOfBounds), s)
        } else {
            done(CpuModel { pc: s.stack.last() as usize, stack: s.stack.drop_last(), ..s })
        },
        Instruction::Jump { addr } => done(CpuModel { pc: addr as usize, ..s }),
        Instruction::Call { addr } => if s.stack.len() >= STACK_DEPTH {
            (Err(CpuError::OutOfBounds), s)
        } else {
            done(CpuModel { pc: addr as usize, stack: s.stack.push(s.pc as u16), ..s })
        },
        Instruction::SkipIfEqualImm { x, kk } => done(s.skip_if(s.reg(x) == kk)),
        Instruction::SkipIfNotEqualImm { x, kk } => done(s.skip_if(s.reg(x) != kk)),
        Instruction::SkipIfEqualReg { x, y } => done(s.skip_if(s.reg(x) == s.reg(y))),
        Instruction::LoadImm { x, kk } => done(s.set_reg(x, kk)),
        Instruction::AddImm { x, kk } => done(s.set_reg(x, ((s.reg(x) + kk) % 256) as u8)),
        Instruction::Arith { op, x, y } => done(arith_spec(s, op, x, y)),
        Instruction::SkipIfNotEqualReg { x, y } => done(s.skip_if(s.reg(x) != s.reg(y))),
        Instruction::SetIndex { addr } => done(CpuModel { i: addr, ..s }),
        Instruction::JumpOffset { addr } => done(CpuModel { pc: (addr + s.reg(0)) as usize, ..s }),
        Instruction::Random { x, kk } => done(s.set_reg(x, rnd & kk)),
        Instruction::Draw { x, y, n } => if n > 0 && s.i + n > MEMORY_SIZE {
            (Err(CpuError::OutOfBounds), s)
        } else {
            done(draw_spec(s, x, y, n))
        },
        Instruction::SkipIfKeyDown { x } => if s.reg(x) >= NUM_REGISTERS {
            (Err(CpuError::OutOfBounds), s)
        } else {
            done(s.skip_if(s.held(s.reg(x) as int)))
        },
        Instruction::SkipIfKeyUp { x } => if s.reg(x) >= NUM_REGISTERS {
            (Err(CpuError::OutOfBounds), s)
        } else {
            done(s.skip_if(!s.held(s.reg(x) as int)))
        },
        Instruction::LoadDelay { x } => done(s.set_reg(x, s.delay_timer)),
        Instruction::WaitKey { x } => if s.any_held() {
            done(s.set_reg(x, s.first_held() as u8))
        } else {
            (Ok(Step::WaitingForKey), CpuModel { pc: (s.pc - 2) as usize, ..s })
        },
        Instruction::SetDelay { x } => done(CpuModel { delay_timer: s.reg(x), ..s }),
        Instruction::SetSound { x } => done(CpuModel { sound_timer: s.reg(x), ..s }),
        Instruction::AddIndex { x } => done(CpuModel { i: ((s.i + s.reg(x)) % 0x10000) as u16, ..s }),
        Instruction::LoadGlyph { x } => done(CpuModel { i: (0x50 + (s.reg(x) % 16) * 5) as u16, ..s }),
        Instruction::StoreBcd { x } => if s.i + 2 >= MEMORY_SIZE {
            (Err(CpuError::OutOfBounds), s)
        } else {
            done(bcd_spec(s, s.reg(x)))
        },
        Instruction::StoreRegs { x } => if s.i + x >= MEMORY_SIZE {
            (Err(CpuError::OutOfBounds), s)
        } else {
            done(store_regs_spec(s, x))
        },
        Instruction::LoadRegs { x } => if s.i + x >= MEMORY_SIZE {
            (Err(CpuError::OutOfBounds), s)
        } else {
            done(load_regs_spec(s, x))
        },
    }
}

/// One cycle: fetch the word at `pc` (failing past 4094), advance `pc` by 2,
/// run the instruction, then the timer step. An undefined word is reported
/// after `pc` and the timers moved on; any other failure leaves `s` as it is.
pub open spec fn cycle_spec(s: CpuModel, rnd: u8) -> (Result<Step, CpuError>, CpuModel) {
    if s.pc > MEMORY_SIZE - 2 {
        (Err(CpuError::OutOfBounds), s)
    } else {
        let op = fetch_spec(s);
        let next = CpuModel { pc: (s.pc + 2) as usize, ..s };
        match decode_spec(op) {
            None => (Err(CpuError::UnimplementedOpcode(op)), tick(next)),
            Some(ins) => {
                let (r, t) = execute_spec(next, ins, rnd);
                if r is Err {
                    (r, s)
                } else {
                    (r, tick(t))
                }
            },
        }
    }
}

} // verus!
