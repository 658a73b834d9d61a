//! The executable machine.
use crate::font::{font_bytes, font_table, FONT_BASE, FONT_LEN, GLYPH_HEIGHT};
use crate::instruction::{decode, ArithOp, Instruction};
use crate::model::{
    arith_spec, bit_of, cell_index, col_at, collides, cycle_spec, draw_spec, drawn_cell,
    execute_spec, initial_memory, initial_model, lemma_cell_inverse, lemma_cell_of_index,
    load_regs_spec, row_at, sprite_bit, sprite_row, store_regs_spec, tick, tick_both, with_image,
    CpuError, CpuModel, Step, DISPLAY_SIZE, FLAG, MAX_PROGRAM_SIZE, MEMORY_SIZE, NUM_REGISTERS,
    PROGRAM_START, STACK_DEPTH,
};
use vstd::prelude::*;

verus! {

/// A CHIP-8 machine. Its abstract state is its view, a [`CpuModel`].
pub struct Cpu {
    memory: [u8; 4096],
    v: [u8; 16],
    i: u16,
    pc: usize,
    stack: [u16; 16],
    sp: usize,
    gfx: [u8; 2048],
    draw_flag: bool,
    sound_timer: u8,
    delay_timer: u8,
    keypad: [u8; 16],
}

impl View for Cpu {
    type V = CpuModel;

    closed spec fn view(&self) -> CpuModel {
        CpuModel {
            memory: self.memory@,
            v: self.v@,
            i: self.i,
            pc: self.pc,
            stack: self.stack@.subrange(0, self.sp as int),
            gfx: self.gfx@,
            redraw: self.draw_flag,
            delay_timer: self.delay_timer,
            sound_timer: self.sound_timer,
            keypad: self.keypad@,
        }
    }
}

impl Cpu {
    /// The machine's invariant: the stack pointer is within the stack, and the
    /// view is well formed.
    pub closed spec fn wf(&self) -> bool {
        self.sp <= STACK_DEPTH && self@.wf()
    }

    /// A new machine: memory zeroed but for the glyph table at 0x050,
    /// registers, stack, timers, display and keypad zeroed, `pc` at 0x200.
    pub fn new() -> (r: Cpu)
        ensures
            r.wf(),
            r@ == initial_model(),
    {
        let mut cpu = Cpu {
            memory: [0u8; 4096],
            v: [0u8; 16],
            i: 0,
            pc: PROGRAM_START,
            stack: [0u16; 16],
            sp: 0,
            gfx: [0u8; 2048],
            draw_flag: false,
            sound_timer: 0,
            delay_timer: 0,
            keypad: [0u8; 16],
        };
        let font = font_bytes();
        let mut k: usize = 0;
        while k < FONT_LEN
            invariant
                k <= FONT_LEN,
                font@ == font_table(),
                cpu.memory@.len() == MEMORY_SIZE,
                forall|a: int|
                    0 <= a < MEMORY_SIZE ==> #[trigger] cpu.memory@[a] == (if FONT_BASE <= a
                        < FONT_BASE + k { font_table()[a - FONT_BASE] } else { 0u8 }),
                cpu.v@ == Seq::new(NUM_REGISTERS as nat, |r: int| 0u8),
                cpu.gfx@ == Seq::new(DISPLAY_SIZE as nat, |r: int| 0u8),
                cpu.keypad@ == Seq::new(NUM_REGISTERS as nat, |r: int| 0u8),
                cpu.sp == 0,
                cpu.pc == PROGRAM_START,
                cpu.i == 0,
                cpu.draw_flag == false,
                cpu.sound_timer == 0,
                cpu.delay_timer == 0,
            decreases FONT_LEN - k,
        {
            cpu.memory[FONT_BASE + k] = font[k];
            k = k + 1;
        }
        assert(cpu@.memory =~= initial_memory());
        assert(cpu@.stack =~= Seq::<u16>::empty());
        cpu
    }
}

/// Sprite pixel (`row`, `col`) comes before pixel (`r`, `b`) in drawing order.
spec fn before(row: int, col: int, r: int, b: int) -> bool {
    0 <= col < 8 && (row < r || (row == r && col < b))
}

/// Cell `idx` once the pixels before (`r`, `b`) are drawn.
spec fn partly_drawn(s: CpuModel, vx: u8, vy: u8, r: int, b: int, idx: int) -> u8 {
    if before(row_at(vy, idx), col_at(vx, idx), r, b) {
        s.gfx[idx] ^ sprite_bit(sprite_row(s, row_at(vy, idx)), col_at(vx, idx))
    } else {
        s.gfx[idx]
    }
}

/// Some set pixel before (`r`, `b`) landed on a set cell.
spec fn partly_collided(s: CpuModel, vx: u8, vy: u8, r: int, b: int) -> bool {
    exists|row: int, col: int|
        0 <= row && before(row, col, r, b) && s.gfx[#[trigger] cell_index(vx, vy, row, col)] == 1
            && sprite_bit(sprite_row(s, row), col) == 1
}

impl Cpu {
    /// `Dxyn`: XOR the `n`-byte sprite at I onto the display at (Vx, Vy),
    /// wrapping around its edges; VF = 1 exactly when a set cell was cleared.
    fn op_draw(&mut self, x: u8, y: u8, n: u8) -> (r: Result<Step, CpuError>)
        requires
            old(self).wf(),
            x < 16,
            y < 16,
            n < 16,
        ensures
            final(self).wf(),
            (r, final(self)@) == execute_spec(old(self)@, Instruction::Draw { x, y, n }, 0),
    {
        if n > 0 && self.i as usize + n as usize > MEMORY_SIZE {
            return Err(CpuError::OutOfBounds);
        }
        let ghost s = self@;
        let vx = self.v[x as usize];
        let vy = self.v[y as usize];
        let mut collision = false;
        let mut row: usize = 0;
        while row < n as usize
            invariant
                self.wf(),
                s.wf(),
                0 <= row <= n,
                n == 0 || s.i + n <= MEMORY_SIZE,
                self@ == (CpuModel { gfx: self@.gfx, ..s }),
                vx == s.reg(x),
                vy == s.reg(y),
                n < 16,
                forall|idx: int|
                    0 <= idx < DISPLAY_SIZE ==> #[trigger] self@.gfx[idx] == partly_drawn(
                        s,
                        vx,
                        vy,
                        row as int,
                        0,
                        idx,
                    ),
                collision == partly_collided(s, vx, vy, row as int, 0),
            decreases n - row,
        {
            let sprite_byte = self.memory[self.i as usize + row];
            let mut bit: usize = 0;
            while bit < 8
                invariant
                    self.wf(),
                    s.wf(),
                    0 <= row < n,
                    0 <= bit <= 8,
                    n < 16,
                    sprite_byte == sprite_row(s, row as int),
                    self@ == (CpuModel { gfx: self@.gfx, ..s }),
                    vx == s.reg(x),
                    vy == s.reg(y),
                    forall|idx: int|
                        0 <= idx < DISPLAY_SIZE ==> #[trigger] self@.gfx[idx] == partly_drawn(
                            s,
                            vx,
                            vy,
                            row as int,
                            bit as int,
                            idx,
                        ),
                    collision == partly_collided(s, vx, vy, row as int, bit as int),
                decreases 8 - bit,
            {
                let pixel = (sprite_byte >> ((7 - bit) as u8)) & 1;
                let x_pos = (vx as usize + bit) % 64;
                let y_pos = (vy as usize + row) % 32;
                let index = y_pos * 64 + x_pos;
                let ghost c = cell_index(vx, vy, row as int, bit as int);
                proof {
                    lemma_cell_inverse(vx, vy, row as int, bit as int);
                    assert(index == c);
                }
                let old_cell = self.gfx[index];
                assert(old_cell == s.gfx[c]);
                if old_cell == 1 && pixel == 1 {
                    collision = true;
                }
                assert(old_cell <= 1 && pixel == (sprite_byte >> ((7 - bit) as u8)) & 1 ==> old_cell
                    ^ pixel <= 1) by (bit_vector);
                self.gfx[index] = old_cell ^ pixel;
                proof {
                    assert forall|idx: int| 0 <= idx < DISPLAY_SIZE implies #[trigger] self@.gfx[idx]
                        == partly_drawn(s, vx, vy, row as int, bit + 1, idx) by {
                        lemma_cell_of_index(vx, vy, idx);
                    }
                    if collision {
                        if !partly_collided(s, vx, vy, row as int, bit as int) {
                            assert(s.gfx[cell_index(vx, vy, row as int, bit as int)] == 1);
                        }
                    }
                    if partly_collided(s, vx, vy, row as int, bit + 1) {
                        let (wr, wc) = choose|wr: int, wc: int|
                            0 <= wr && before(wr, wc, row as int, bit + 1) && s.gfx[
                            #[trigger] cell_index(vx, vy, wr, wc)] == 1 && sprite_bit(
                                sprite_row(s, wr),
                                wc,
                            ) == 1;
                        if !(wr == row && wc == bit) {
                            assert(partly_collided(s, vx, vy, row as int, bit as int));
                        }
                    }
                }
                bit = bit + 1;
            }
            proof {
                assert forall|idx: int| 0 <= idx < DISPLAY_SIZE implies #[trigger] self@.gfx[idx]
                    == partly_drawn(s, vx, vy, row + 1, 0, idx) by {
                    lemma_cell_of_index(vx, vy, idx);
                }
                if partly_collided(s, vx, vy, row + 1, 0) {
                    let (wr, wc) = choose|wr: int, wc: int|
                        0 <= wr && before(wr, wc, row + 1, 0) && s.gfx[#[trigger] cell_index(
                            vx,
                            vy,
                            wr,
                            wc,
                        )] == 1 && sprite_bit(sprite_row(s, wr), wc) == 1;
                    assert(before(wr, wc, row as int, 8));
                }
                if partly_collided(s, vx, vy, row as int, 8) {
                    let (wr, wc) = choose|wr: int, wc: int|
                        0 <= wr && before(wr, wc, row as int, 8) && s.gfx[#[trigger] cell_index(
                            vx,
                            vy,
                            wr,
                            wc,
                        )] == 1 && sprite_bit(sprite_row(s, wr), wc) == 1;
                    assert(before(wr, wc, row + 1, 0));
                }
            }
            row = row + 1;
        }
        proof {
            assert forall|idx: int| 0 <= idx < DISPLAY_SIZE implies #[trigger] self@.gfx[idx]
                == drawn_cell(s, vx, vy, n as int, idx) by {
                lemma_cell_of_index(vx, vy, idx);
            }
            assert(collision == collides(s, vx, vy, n as int)) by {
                if collides(s, vx, vy, n as int) {
                    let (wr, wc) = choose|wr: int, wc: int|
                        0 <= wr < n && 0 <= wc < 8 && s.gfx[#[trigger] cell_index(vx, vy, wr, wc)]
                            == 1 && sprite_bit(sprite_row(s, wr), wc) == 1;
                    assert(before(wr, wc, n as int, 0));
                }
            }
        }
        self.v[FLAG as usize] = if collision { 1 } else { 0 };
        self.draw_flag = true;
        proof {
            assert(self@.gfx =~= draw_spec(s, x, y, n).gfx);
            assert(self@.v =~= draw_spec(s, x, y, n).v);
        }
        Ok(Step::Executed)
    }
}

impl Cpu {
    fn set_reg(&mut self, x: u8, val: u8)
        requires
            old(self).wf(),
            x < 16,
        ensures
            final(self).wf(),
            final(self)@ == old(self)@.set_reg(x, val),
    {
        self.v[x as usize] = val;
        assert(self@.v =~= old(self)@.set_reg(x, val).v);
    }

    /// `8xyn`: Vx gets the result of `op` on Vx and Vy, then VF the carry,
    /// not-borrow or shifted-out bit where `op` has one.
    fn op_arith(&mut self, op: ArithOp, x: u8, y: u8)
        requires
            old(self).wf(),
            x < 16,
            y < 16,
        ensures
            final(self).wf(),
            final(self)@ == arith_spec(old(self)@, op, x, y),
    {
        let a = self.v[x as usize];
        let b = self.v[y as usize];
        match op {
            ArithOp::Copy => self.set_reg(x, b),
            ArithOp::Or => self.set_reg(x, a | b),
            ArithOp::And => self.set_reg(x, a & b),
            ArithOp::Xor => self.set_reg(x, a ^ b),
            ArithOp::Add => {
                let sum: u16 = a as u16 + b as u16;
                self.set_reg(x, (sum % 256) as u8);
                self.set_reg(FLAG, if sum > 255 { 1 } else { 0 });
            },
            ArithOp::Sub => {
                self.set_reg(x, a.wrapping_sub(b));
                self.set_reg(FLAG, if a >= b { 1 } else { 0 });
            },
            ArithOp::ShiftRight => {
                self.set_reg(x, a >> 1);
                self.set_reg(FLAG, a & 1);
                assert(a >> 1 == a / 2 && a & 1 == a % 2) by (bit_vector);
            },
            ArithOp::SubReversed => {
                self.set_reg(x, b.wrapping_sub(a));
                self.set_reg(FLAG, if b >= a { 1 } else { 0 });
            },
            ArithOp::ShiftLeft => {
                self.set_reg(x, a << 1);
                self.set_reg(FLAG, a >> 7);
                assert(a << 1 == ((a * 2) % 256) as u8 && a >> 7 == a / 128) by (bit_vector);
            },
        }
    }

    /// `Ex9E` and `ExA1`: skip the next instruction when key Vx is held
    /// (`down`) or not held (`!down`). A key number above 15 is refused.
    fn op_key_skip(&mut self, x: u8, down: bool) -> (r: Result<Step, CpuError>)
        requires
            old(self).wf(),
            old(self)@.pc <= MEMORY_SIZE,
            x < 16,
        ensures
            final(self).wf(),
            (r, final(self)@) == execute_spec(
                old(self)@,
                if down {
                    Instruction::SkipIfKeyDown { x }
                } else {
                    Instruction::SkipIfKeyUp { x }
                },
                0,
            ),
    {
        let key = self.v[x as usize] as usize;
        if key >= NUM_REGISTERS {
            return Err(CpuError::OutOfBounds);
        }
        let held = self.keypad[key] == 1;
        if held == down {
            self.pc = self.pc + 2;
        }
        Ok(Step::Executed)
    }

    /// `Fx0A`: Vx = the lowest-numbered held key; with none held, `pc` steps
    /// back so that the instruction runs again.
    fn op_wait_key(&mut self, x: u8) -> (r: Result<Step, CpuError>)
        requires
            old(self).wf(),
            old(self)@.pc >= 2,
            x < 16,
        ensures
            final(self).wf(),
            (r, final(self)@) == execute_spec(old(self)@, Instruction::WaitKey { x }, 0),
    {
        let mut k: usize = 0;
        while k < NUM_REGISTERS
            invariant
                k <= NUM_REGISTERS,
                self.wf(),
                self@ == old(self)@,
                2 <= self@.pc,
                x < 16,
                forall|j: int| 0 <= j < k ==> !self@.held(j),
            decreases NUM_REGISTERS - k,
        {
            if self.keypad[k] == 1 {
                let ghost s = self@;
                proof {
                    assert(0 <= k < 16 && s.held(k as int) && forall|j: int|
                        0 <= j < k ==> !s.held(j));
                    let f = s.first_held();
                    assert(s.any_held());
                    assert(0 <= f < 16 && s.held(f) && forall|j: int| 0 <= j < f ==> !s.held(j));
                    assert(f == k);
                }
                self.set_reg(x, k as u8);
                return Ok(Step::Executed);
            }
            k = k + 1;
        }
        self.pc = self.pc - 2;
        assert(!old(self)@.any_held());
        Ok(Step::WaitingForKey)
    }

    /// `Fx33`: the hundreds, tens and units of Vx at I, I+1 and I+2.
    fn op_bcd(&mut self, x: u8) -> (r: Result<Step, CpuError>)
        requires
            old(self).wf(),
            x < 16,
        ensures
            final(self).wf(),
            (r, final(self)@) == execute_spec(old(self)@, Instruction::StoreBcd { x }, 0),
    {
        let i = self.i as usize;
        if i + 2 >= MEMORY_SIZE {
            return Err(CpuError::OutOfBounds);
        }
        let val = self.v[x as usize];
        self.memory[i] = val / 100;
        self.memory[i + 1] = (val / 10) % 10;
        self.memory[i + 2] = val % 10;
        Ok(Step::Executed)
    }

    /// `Fx55`: V0..=Vx stored from I on; refused if that passes the end of memory.
    fn op_store_regs(&mut self, x: u8) -> (r: Result<Step, CpuError>)
        requires
            old(self).wf(),
            x < 16,
        ensures
            final(self).wf(),
            (r, final(self)@) == execute_spec(old(self)@, Instruction::StoreRegs { x }, 0),
    {
        let i = self.i as usize;
        if i + x as usize >= MEMORY_SIZE {
            return Err(CpuError::OutOfBounds);
        }
        let ghost s = self@;
        let mut r: usize = 0;
        while r <= x as usize
            invariant
                r <= x + 1,
                x < 16,
                i == s.i,
                i + x < MEMORY_SIZE,
                self.wf(),
                s.wf(),
                self@ == (CpuModel { memory: self@.memory, ..s }),
                self@.memory.len() == MEMORY_SIZE,
                forall|a: int|
                    0 <= a < MEMORY_SIZE ==> #[trigger] self@.memory[a] == if i <= a < i + r {
                        s.v[a - i]
                    } else {
                        s.memory[a]
                    },
            decreases x + 1 - r,
        {
            self.memory[i + r] = self.v[r];
            r = r + 1;
        }
        assert(self@.memory =~= store_regs_spec(s, x).memory);
        Ok(Step::Executed)
    }

    /// `Fx65`: V0..=Vx loaded from I on; refused if that passes the end of memory.
    fn op_load_regs(&mut self, x: u8) -> (r: Result<Step, CpuError>)
        requires
            old(self).wf(),
            x < 16,
        ensures
            final(self).wf(),
            (r, final(self)@) == execute_spec(old(self)@, Instruction::LoadRegs { x }, 0),
    {
        let i = self.i as usize;
        if i + x as usize >= MEMORY_SIZE {
            return Err(CpuError::OutOfBounds);
        }
        let ghost s = self@;
        let mut r: usize = 0;
        while r <= x as usize
            invariant
                r <= x + 1,
                x < 16,
                i == s.i,
                i + x < MEMORY_SIZE,
                self.wf(),
                s.wf(),
                self@ == (CpuModel { v: self@.v, ..s }),
                self@.v.len() == NUM_REGISTERS,
                forall|k: int|
                    0 <= k < NUM_REGISTERS ==> #[trigger] self@.v[k] == if k < r {
                        s.memory[i + k]
                    } else {
                        s.v[k]
                    },
            decreases x + 1 - r,
        {
            self.v[r] = self.memory[i + r];
            r = r + 1;
        }
        assert(self@.v =~= load_regs_spec(s, x).v);
        Ok(Step::Executed)
    }
}

/// Relies on fastrand::u8 over the whole range `..`, which never panics: the
/// result is any byte, so nothing is promised of it.
#[verifier::external_body]
fn random_byte() -> (r: u8) {
    fastrand::u8(..)
}

impl Cpu {
    /// `00E0`: every display cell 0, and a redraw due.
    fn op_clear(&mut self)
        requires
            old(self).wf(),
        ensures
            final(self).wf(),
            final(self)@ == (CpuModel {
                gfx: Seq::new(DISPLAY_SIZE as nat, |k: int| 0u8),
                redraw: true,
                ..old(self)@
            }),
    {
        let mut k: usize = 0;
        while k < DISPLAY_SIZE
            invariant
                k <= DISPLAY_SIZE,
                self.wf(),
                self@ == (CpuModel { gfx: self@.gfx, ..old(self)@ }),
                forall|j: int| 0 <= j < k ==> #[trigger] self@.gfx[j] == 0,
            decreases DISPLAY_SIZE - k,
        {
            self.gfx[k] = 0;
            k = k + 1;
        }
        self.draw_flag = true;
        assert(self@.gfx =~= Seq::new(DISPLAY_SIZE as nat, |k: int| 0u8));
    }

    /// `00EE`: `pc` = the address on top of the stack, which is popped.
    fn op_return(&mut self) -> (r: Result<Step, CpuError>)
        requires
            old(self).wf(),
        ensures
            final(self).wf(),
            (r, final(self)@) == execute_spec(old(self)@, Instruction::Return, 0),
    {
        if self.sp == 0 {
            return Err(CpuError::OutOfBounds);
        }
        self.sp = self.sp - 1;
        self.pc = self.stack[self.sp] as usize;
        assert(self@.stack =~= old(self)@.stack.drop_last());
        Ok(Step::Executed)
    }

    /// `2nnn`: push `pc`, then jump to `addr`; a seventeenth frame is refused.
    fn op_call(&mut self, addr: u16) -> (r: Result<Step, CpuError>)
        requires
            old(self).wf(),
        ensures
            final(self).wf(),
            (r, final(self)@) == execute_spec(old(self)@, Instruction::Call { addr }, 0),
    {
        if self.sp >= STACK_DEPTH {
            return Err(CpuError::OutOfBounds);
        }
        self.stack[self.sp] = self.pc as u16;
        self.sp = self.sp + 1;
        self.pc = addr as usize;
        assert(self@.stack =~= old(self)@.stack.push(old(self)@.pc as u16));
        Ok(Step::Executed)
    }

    /// Skips the next instruction when `cond` holds.
    fn skip_if(&mut self, cond: bool)
        requires
            old(self).wf(),
            old(self)@.pc <= MEMORY_SIZE,
        ensures
            final(self).wf(),
            final(self)@ == old(self)@.skip_if(cond),
    {
        if cond {
            self.pc = self.pc + 2;
        }
    }

    /// Runs `ins` on a machine whose `pc` already points past it; `rnd` is
    /// the byte that `Cxkk` masks. A failure leaves the machine as it was.
    fn execute(&mut self, ins: Instruction, rnd: u8) -> (r: Result<Step, CpuError>)
        requires
            old(self).wf(),
            ins.wf(),
            2 <= old(self)@.pc <= MEMORY_SIZE,
        ensures
            final(self).wf(),
            (r, final(self)@) == execute_spec(old(self)@, ins, rnd),
    {
        match ins {
            Instruction::ClearScreen => {
                self.op_clear();
                Ok(Step::Executed)
            },
            Instruction::Return => self.op_return(),
            Instruction::Jump { addr } => {
                self.pc = addr as usize;
                Ok(Step::Executed)
            },
            Instruction::Call { addr } => self.op_call(addr),
            Instruction::SkipIfEqualImm { x, kk } => {
                let cond = self.v[x as usize] == kk;
                self.skip_if(cond);
                Ok(Step::Executed)
            },
            Instruction::SkipIfNotEqualImm { x, kk } => {
                let cond = self.v[x as usize] != kk;
                self.skip_if(cond);
                Ok(Step::Executed)
            },
            Instruction::SkipIfEqualReg { x, y } => {
                let cond = self.v[x as usize] == self.v[y as usize];
                self.skip_if(cond);
                Ok(Step::Executed)
            },
            Instruction::LoadImm { x, kk } => {
                self.set_reg(x, kk);
                Ok(Step::Executed)
            },
            Instruction::AddImm { x, kk } => {
                let sum = self.v[x as usize].wrapping_add(kk);
                self.set_reg(x, sum);
                Ok(Step::Executed)
            },
            Instruction::Arith { op, x, y } => {
                self.op_arith(op, x, y);
                Ok(Step::Executed)
            },
            Instruction::SkipIfNotEqualReg { x, y } => {
                let cond = self.v[x as usize] != self.v[y as usize];
                self.skip_if(cond);
                Ok(Step::Executed)
            },
            Instruction::SetIndex { addr } => {
                self.i = addr;
                Ok(Step::Executed)
            },
            Instruction::JumpOffset { addr } => {
                self.pc = (addr + self.v[0] as u16) as usize;
                Ok(Step::Executed)
            },
            Instruction::Random { x, kk } => {
                self.set_reg(x, rnd & kk);
                Ok(Step::Executed)
            },
            Instruction::Draw { x, y, n } => self.op_draw(x, y, n),
            Instruction::SkipIfKeyDown { x } => self.op_key_skip(x, true),
            Instruction::SkipIfKeyUp { x } => self.op_key_skip(x, false),
            Instruction::LoadDelay { x } => {
                let d = self.delay_timer;
                self.set_reg(x, d);
                Ok(Step::Executed)
            },
            Instruction::WaitKey { x } => self.op_wait_key(x),
            Instruction::SetDelay { x } => {
                self.delay_timer = self.v[x as usize];
                Ok(Step::Executed)
            },
            Instruction::SetSound { x } => {
                self.sound_timer = self.v[x as usize];
                Ok(Step::Executed)
            },
            Instruction::AddIndex { x } => {
                self.i = self.i.wrapping_add(self.v[x as usize] as u16);
                Ok(Step::Executed)
            },
            Instruction::LoadGlyph { x } => {
                self.i = FONT_BASE as u16 + (self.v[x as usize] % 16) as u16 * GLYPH_HEIGHT;
                Ok(Step::Executed)
            },
            Instruction::StoreBcd { x } => self.op_bcd(x),
            Instruction::StoreRegs { x } => self.op_store_regs(x),
            Instruction::LoadRegs { x } => self.op_load_regs(x),
        }
    }

    /// The timer step of a cycle: the sound timer counts down when nonzero,
    /// else the delay timer does.
    fn step_timers(&mut self)
        requires
            old(self).wf(),
        ensures
            final(self).wf(),
            final(self)@ == tick(old(self)@),
    {
        if self.sound_timer > 0 {
            self.sound_timer = self.sound_timer - 1;
        } else if self.delay_timer > 0 {
            self.delay_timer = self.delay_timer - 1;
        }
    }

    /// One fetch-decode-execute-timer step, with `rnd` as the random byte
    /// that a `Cxkk` instruction masks.
    ///
    /// Fails with `OutOfBounds`, leaving the machine as it was, when `pc` is
    /// past 4094 or the instruction faults; reports an undefined word as
    /// `UnimplementedOpcode` after moving `pc` past it and stepping the timers.
    pub fn cycle_with_random(&mut self, rnd: u8) -> (r: Result<Step, CpuError>)
        requires
            old(self).wf(),
        ensures
            final(self).wf(),
            (r, final(self)@) == cycle_spec(old(self)@, rnd),
    {
        if self.pc > MEMORY_SIZE - 2 {
            return Err(CpuError::OutOfBounds);
        }
        let op: u16 = self.memory[self.pc] as u16 * 256 + self.memory[self.pc + 1] as u16;
        let saved_pc = self.pc;
        self.pc = self.pc + 2;
        let r = match decode(op) {
            None => Err(CpuError::UnimplementedOpcode(op)),
            Some(ins) => {
                let r = self.execute(ins, rnd);
                if r.is_err() {
                    self.pc = saved_pc;
                    return r;
                }
                r
            },
        };
        self.step_timers();
        r
    }

    /// One fetch-decode-execute-timer step, as `cycle_with_random` with a
    /// random byte drawn for it.
    pub fn cycle(&mut self) -> (r: Result<Step, CpuError>)
        requires
            old(self).wf(),
        ensures
            final(self).wf(),
            exists|rnd: u8| (r, final(self)@) == cycle_spec(old(self)@, rnd),
    {
        let rnd = random_byte();
        self.cycle_with_random(rnd)
    }
}

impl Cpu {
    /// Copies a program image into memory from 0x200 on. An image longer than
    /// 3584 bytes is refused with `CapacityExceeded`, and nothing is loaded.
    pub fn load_rom(&mut self, data: &[u8]) -> (r: Result<(), CpuError>)
        requires
            old(self).wf(),
        ensures
            final(self).wf(),
            data@.len() > MAX_PROGRAM_SIZE ==> r == Err::<(), CpuError>(CpuError::CapacityExceeded)
                && final(self)@ == old(self)@,
            data@.len() <= MAX_PROGRAM_SIZE ==> r == Ok::<(), CpuError>(()) && final(self)@ == (
            CpuModel { memory: with_image(old(self)@.memory, data@), ..old(self)@ }),
    {
        if data.len() > MAX_PROGRAM_SIZE {
            return Err(CpuError::CapacityExceeded);
        }
        let mut k: usize = 0;
        while k < data.len()
            invariant
                k <= data@.len() <= MAX_PROGRAM_SIZE,
                self.wf(),
                self@ == (CpuModel { memory: self@.memory, ..old(self)@ }),
                self@.memory.len() == MEMORY_SIZE,
                forall|a: int|
                    0 <= a < MEMORY_SIZE ==> #[trigger] self@.memory[a] == if PROGRAM_START <= a
                        < PROGRAM_START + k {
                        data@[a - PROGRAM_START]
                    } else {
                        old(self)@.memory[a]
                    },
            decreases data@.len() - k,
        {
            self.memory[PROGRAM_START + k] = data[k];
            k = k + 1;
        }
        assert(self@.memory =~= with_image(old(self)@.memory, data@));
        Ok(())
    }

    /// The byte at `addr`; `OutOfBounds` past the end of memory.
    pub fn read(&self, addr: usize) -> (r: Result<u8, CpuError>)
        requires
            self.wf(),
        ensures
            addr < MEMORY_SIZE ==> r == Ok::<u8, CpuError>(self@.memory[addr as int]),
            addr >= MEMORY_SIZE ==> r == Err::<u8, CpuError>(CpuError::OutOfBounds),
    {
        if addr >= MEMORY_SIZE {
            return Err(CpuError::OutOfBounds);
        }
        Ok(self.memory[addr])
    }

    /// Writes `value` at `addr`; `OutOfBounds`, with nothing written, past
    /// the end of memory.
    pub fn write(&mut self, addr: usize, value: u8) -> (r: Result<(), CpuError>)
        requires
            old(self).wf(),
        ensures
            final(self).wf(),
            addr < MEMORY_SIZE ==> r == Ok::<(), CpuError>(()) && final(self)@ == (CpuModel {
                memory: old(self)@.memory.update(addr as int, value),
                ..old(self)@
            }),
            addr >= MEMORY_SIZE ==> r == Err::<(), CpuError>(CpuError::OutOfBounds)
                && final(self)@ == old(self)@,
    {
        if addr >= MEMORY_SIZE {
            return Err(CpuError::OutOfBounds);
        }
        self.memory[addr] = value;
        assert(self@.memory =~= old(self)@.memory.update(addr as int, value));
        Ok(())
    }

    /// The display, 64 cells per row and 32 rows, each 0 or 1.
    pub fn display(&self) -> (r: &[u8; 2048])
        ensures
            r@ == self@.gfx,
    {
        &self.gfx
    }

    /// The display changed since the host last cleared this flag.
    pub fn needs_redraw(&self) -> (r: bool)
        ensures
            r == self@.redraw,
    {
        self.draw_flag
    }

    /// The host has presented the display.
    pub fn clear_redraw(&mut self)
        requires
            old(self).wf(),
        ensures
            final(self).wf(),
            final(self)@ == (CpuModel { redraw: false, ..old(self)@ }),
    {
        self.draw_flag = false;
    }

    /// Marks key `key` held or released.
    pub fn set_key(&mut self, key: usize, held: bool)
        requires
            old(self).wf(),
            key < NUM_REGISTERS,
        ensures
            final(self).wf(),
            final(self)@ == (CpuModel {
                keypad: old(self)@.keypad.update(key as int, bit_of(held)),
                ..old(self)@
            }),
    {
        self.keypad[key] = if held { 1 } else { 0 };
        assert(self@.keypad =~= old(self)@.keypad.update(key as int, bit_of(held)));
    }

    /// The sound timer; sound plays while it is nonzero.
    pub fn sound_timer(&self) -> (r: u8)
        ensures
            r == self@.sound_timer,
    {
        self.sound_timer
    }

    /// The delay timer.
    pub fn delay_timer(&self) -> (r: u8)
        ensures
            r == self@.delay_timer,
    {
        self.delay_timer
    }

    /// The frame step of the timers, at 60 Hz: each counts down when nonzero.
    pub fn tick_timers(&mut self)
        requires
            old(self).wf(),
        ensures
            final(self).wf(),
            final(self)@ == tick_both(old(self)@),
    {
        if self.sound_timer > 0 {
            self.sound_timer = self.sound_timer - 1;
        }
        if self.delay_timer > 0 {
            self.delay_timer = self.delay_timer - 1;
        }
    }

    /// Register Vx.
    pub fn register(&self, x: usize) -> (r: u8)
        requires
            self.wf(),
            x < NUM_REGISTERS,
        ensures
            r == self@.v[x as int],
    {
        self.v[x]
    }

    /// The index register I.
    pub fn index(&self) -> (r: u16)
        ensures
            r == self@.i,
    {
        self.i
    }

    /// The program counter.
    pub fn pc(&self) -> (r: usize)
        ensures
            r == self@.pc,
    {
        self.pc
    }

    /// The number of live return addresses on the call stack.
    pub fn stack_depth(&self) -> (r: usize)
        requires
            self.wf(),
        ensures
            r == self@.stack.len(),
    {
        self.sp
    }
}

} // verus!
