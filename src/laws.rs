//! Properties of the instruction semantics, proved over the model.
use crate::instruction::{decode_spec, ArithOp, Instruction};
use crate::model::{
    bit_of, cell_index, collides, cycle_spec, execute_spec, fetch_spec, lemma_cell_inverse,
    sprite_bit, sprite_row, CpuError, CpuModel, Step, DISPLAY_SIZE, FLAG, MEMORY_SIZE,
    STACK_DEPTH,
};
use vstd::prelude::*;

verus! {

/// `7xkk` adds modulo 256 and changes no other register: the flag register
/// keeps its value unless it is Vx itself.
pub proof fn law_add_immediate_wraps(s: CpuModel, x: u8, kk: u8, rnd: u8)
    requires
        s.wf(),
        x < 16,
    ensures
        ({
            let (r, t) = execute_spec(s, Instruction::AddImm { x, kk }, rnd);
            &&& r == Ok::<Step, CpuError>(Step::Executed)
            &&& t.reg(x) == (s.reg(x) + kk) % 256
            &&& forall|j: u8| j < 16 && j != x ==> t.reg(j) == s.reg(j)
        }),
{
}

/// `8xy4` sets the flag register to 1 exactly when the unsigned sum of Vx and
/// Vy exceeds 255, and to 0 otherwise; Vx, unless it is the flag register,
/// holds the sum modulo 256.
pub proof fn law_add_sets_carry(s: CpuModel, x: u8, y: u8, rnd: u8)
    requires
        s.wf(),
        x < 16,
        y < 16,
    ensures
        ({
            let (r, t) = execute_spec(s, Instruction::Arith { op: ArithOp::Add, x, y }, rnd);
            &&& r == Ok::<Step, CpuError>(Step::Executed)
            &&& t.reg(FLAG) == bit_of(s.reg(x) + s.reg(y) > 255)
            &&& x != FLAG ==> t.reg(x) == (s.reg(x) + s.reg(y)) % 256
        }),
{
}

/// `8xy5` and `8xy7` set the flag register to 1 exactly when the minuend is
/// at least the subtrahend (no borrow), and to 0 otherwise; Vx, unless it is
/// the flag register, holds the difference modulo 256.
pub proof fn law_sub_sets_not_borrow(s: CpuModel, x: u8, y: u8, rnd: u8)
    requires
        s.wf(),
        x < 16,
        y < 16,
    ensures
        ({
            let (r, t) = execute_spec(s, Instruction::Arith { op: ArithOp::Sub, x, y }, rnd);
            &&& r == Ok::<Step, CpuError>(Step::Executed)
            &&& t.reg(FLAG) == bit_of(s.reg(x) >= s.reg(y))
            &&& x != FLAG ==> t.reg(x) == (s.reg(x) - s.reg(y)) % 256
        }),
        ({
            let (r, t) = execute_spec(
                s,
                Instruction::Arith { op: ArithOp::SubReversed, x, y },
                rnd,
            );
            &&& r == Ok::<Step, CpuError>(Step::Executed)
            &&& t.reg(FLAG) == bit_of(s.reg(y) >= s.reg(x))
            &&& x != FLAG ==> t.reg(x) == (s.reg(y) - s.reg(x)) % 256
        }),
{
}

/// Some set pixel of the sprite lands on a clear cell.
pub open spec fn lands_on_clear(s: CpuModel, vx: u8, vy: u8, n: int) -> bool {
    exists|row: int, col: int|
        0 <= row < n && 0 <= col < 8 && s.gfx[#[trigger] cell_index(vx, vy, row, col)] == 0
            && sprite_bit(sprite_row(s, row), col) == 1
}

/// Drawing the same sprite twice at the same place gives every cell its
/// value from before the first draw. The second draw reports a collision
/// exactly when a set pixel of the sprite landed on a clear cell the first
/// time; on a clear display the first draw reports none. The coordinates are
/// read from registers other than the flag register, which the first draw
/// overwrites.
pub proof fn law_draw_twice_restores(s: CpuModel, x: u8, y: u8, n: u8, rnd: u8)
    requires
        s.wf(),
        x < FLAG,
        y < FLAG,
        n < 16,
        n == 0 || s.i + n <= MEMORY_SIZE,
    ensures
        ({
            let ins = Instruction::Draw { x, y, n };
            let (r1, s1) = execute_spec(s, ins, rnd);
            let (r2, s2) = execute_spec(s1, ins, rnd);
            &&& r1 == Ok::<Step, CpuError>(Step::Executed)
            &&& r2 == Ok::<Step, CpuError>(Step::Executed)
            &&& s2.gfx == s.gfx
            &&& s2.reg(FLAG) == bit_of(lands_on_clear(s, s.reg(x), s.reg(y), n as int))
            &&& (forall|k: int| 0 <= k < DISPLAY_SIZE ==> s.gfx[k] == 0) ==> s1.reg(FLAG) == 0
        }),
{
    let ins = Instruction::Draw { x, y, n };
    let s1 = execute_spec(s, ins, rnd).1;
    let s2 = execute_spec(s1, ins, rnd).1;
    let vx = s.reg(x);
    let vy = s.reg(y);
    assert(s1.reg(x) == vx && s1.reg(y) == vy);
    assert forall|k: int| 0 <= k < DISPLAY_SIZE implies s2.gfx[k] == s.gfx[k] by {
        assert(forall|p: u8, q: u8| #[trigger] ((p ^ q) ^ q) == p) by (bit_vector);
    }
    assert(s2.gfx =~= s.gfx);
    assert(collides(s1, vx, vy, n as int) == lands_on_clear(s, vx, vy, n as int)) by {
        assert(forall|g: u8| g <= 1 ==> (#[trigger] (g ^ 1u8) == 1 <==> g == 0)) by (bit_vector);
        if collides(s1, vx, vy, n as int) {
            let (row, col) = choose|row: int, col: int|
                0 <= row < n && 0 <= col < 8 && s1.gfx[#[trigger] cell_index(vx, vy, row, col)]
                    == 1 && sprite_bit(sprite_row(s1, row), col) == 1;
            lemma_cell_inverse(vx, vy, row, col);
            assert(s.gfx[cell_index(vx, vy, row, col)] <= 1);
        }
        if lands_on_clear(s, vx, vy, n as int) {
            let (row, col) = choose|row: int, col: int|
                0 <= row < n && 0 <= col < 8 && s.gfx[#[trigger] cell_index(vx, vy, row, col)]
                    == 0 && sprite_bit(sprite_row(s, row), col) == 1;
            lemma_cell_inverse(vx, vy, row, col);
            assert(s1.gfx[cell_index(vx, vy, row, col)] == 1);
        }
    }
    if forall|k: int| 0 <= k < DISPLAY_SIZE ==> s.gfx[k] == 0 {
        if collides(s, vx, vy, n as int) {
            let (row, col) = choose|row: int, col: int|
                0 <= row < n && 0 <= col < 8 && s.gfx[#[trigger] cell_index(vx, vy, row, col)]
                    == 1 && sprite_bit(sprite_row(s, row), col) == 1;
            lemma_cell_inverse(vx, vy, row, col);
        }
    }
}

/// A call, at any stack depth below 16, jumps to its target; a return run
/// later with the stack as the call left it resumes at the instruction after
/// the call, with the stack as it was before the call.
pub proof fn law_call_then_return(s: CpuModel, t: CpuModel, rnd: u8)
    requires
        s.wf(),
        s.pc <= MEMORY_SIZE - 2,
        fetch_spec(s) / 0x1000 == 2,
        s.stack.len() < STACK_DEPTH,
        t.wf(),
        t.pc <= MEMORY_SIZE - 2,
        fetch_spec(t) == 0x00EE,
        t.stack == cycle_spec(s, rnd).1.stack,
    ensures
        cycle_spec(s, rnd).0 == Ok::<Step, CpuError>(Step::Executed),
        cycle_spec(s, rnd).1.pc == fetch_spec(s) % 0x1000,
        cycle_spec(t, rnd).0 == Ok::<Step, CpuError>(Step::Executed),
        cycle_spec(t, rnd).1.pc == s.pc + 2,
        cycle_spec(t, rnd).1.stack == s.stack,
{
    assert(decode_spec(fetch_spec(s)) == Some(
        Instruction::Call { addr: (fetch_spec(s) % 0x1000) as u16 },
    ));
    assert(decode_spec(fetch_spec(t)) == Some(Instruction::Return));
    assert(t.stack.drop_last() =~= s.stack);
}

/// A call with all 16 stack frames live fails with `OutOfBounds` and leaves
/// the machine as it was.
pub proof fn law_call_overflow(s: CpuModel, rnd: u8)
    requires
        s.wf(),
        s.pc <= MEMORY_SIZE - 2,
        fetch_spec(s) / 0x1000 == 2,
        s.stack.len() == STACK_DEPTH,
    ensures
        cycle_spec(s, rnd) == (Err::<Step, CpuError>(CpuError::OutOfBounds), s),
{
    assert(decode_spec(fetch_spec(s)) == Some(
        Instruction::Call { addr: (fetch_spec(s) % 0x1000) as u16 },
    ));
}

/// A fault stops the machine: a cycle that fails with `OutOfBounds` leaves
/// the state as it was, so the next cycle, whatever its random byte, fails
/// the same way.
pub proof fn law_fault_is_final(s: CpuModel, rnd: u8, rnd2: u8)
    requires
        s.wf(),
        cycle_spec(s, rnd).0 == Err::<Step, CpuError>(CpuError::OutOfBounds),
    ensures
        cycle_spec(s, rnd).1 == s,
        cycle_spec(s, rnd2) == (Err::<Step, CpuError>(CpuError::OutOfBounds), s),
{
}

} // verus!
