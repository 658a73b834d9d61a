//! The instruction set, and the decoder from 16-bit instruction words.
use vstd::prelude::*;

verus! {

/// The register-to-register operations of the `8xyn` family.
#[derive(PartialEq, Eq, Structural, Clone, Copy, Debug)]
pub enum ArithOp {
    /// `8xy0`: Vx = Vy.
    Copy,
    /// `8xy1`: Vx = Vx | Vy.
    Or,
    /// `8xy2`: Vx = Vx & Vy.
    And,
    /// `8xy3`: Vx = Vx ^ Vy.
    Xor,
    /// `8xy4`: Vx = Vx + Vy, VF = carry.
    Add,
    /// `8xy5`: Vx = Vx - Vy, VF = not borrow.
    Sub,
    /// `8xy6`: Vx = Vx >> 1, VF = the bit shifted out.
    ShiftRight,
    /// `8xy7`: Vx = Vy - Vx, VF = not borrow.
    SubReversed,
    /// `8xyE`: Vx = Vx << 1, VF = the bit shifted out.
    ShiftLeft,
}

/// A decoded instruction. Register operands are register numbers, `addr` a
/// 12-bit address, `kk` an immediate byte and `n` a sprite height.
#[derive(PartialEq, Eq, Structural, Clone, Copy, Debug)]
pub enum Instruction {
    /// `00E0`: clear the display.
    ClearScreen,
    /// `00EE`: return from a subroutine.
    Return,
    /// `1nnn`: jump to `addr`.
    Jump { addr: u16 },
    /// `2nnn`: call the subroutine at `addr`.
    Call { addr: u16 },
    /// `3xkk`: skip the next instruction if Vx == kk.
    SkipIfEqualImm { x: u8, kk: u8 },
    /// `4xkk`: skip the next instruction if Vx != kk.
    SkipIfNotEqualImm { x: u8, kk: u8 },
    /// `5xy0`: skip the next instruction if Vx == Vy.
    SkipIfEqualReg { x: u8, y: u8 },
    /// `6xkk`: Vx = kk.
    LoadImm { x: u8, kk: u8 },
    /// `7xkk`: Vx = Vx + kk, wrapping, VF untouched.
    AddImm { x: u8, kk: u8 },
    /// `8xyn`: a register-to-register operation.
    Arith { op: ArithOp, x: u8, y: u8 },
    /// `9xy0`: skip the next instruction if Vx != Vy.
    SkipIfNotEqualReg { x: u8, y: u8 },
    /// `Annn`: I = addr.
    SetIndex { addr: u16 },
    /// `Bnnn`: jump to addr + V0.
    JumpOffset { addr: u16 },
    /// `Cxkk`: Vx = a random byte & kk.
    Random { x: u8, kk: u8 },
    /// `Dxyn`: draw the `n`-byte sprite at I at (Vx, Vy).
    Draw { x: u8, y: u8, n: u8 },
    /// `Ex9E`: skip the next instruction if the key Vx is held.
    SkipIfKeyDown { x: u8 },
    /// `ExA1`: skip the next instruction if the key Vx is not held.
    SkipIfKeyUp { x: u8 },
    /// `Fx07`: Vx = delay timer.
    LoadDelay { x: u8 },
    /// `Fx0A`: wait for a key and store it in Vx.
    WaitKey { x: u8 },
    /// `Fx15`: delay timer = Vx.
    SetDelay { x: u8 },
    /// `Fx18`: sound timer = Vx.
    SetSound { x: u8 },
    /// `Fx1E`: I = I + Vx.
    AddIndex { x: u8 },
    /// `Fx29`: I = address of the glyph of the low nibble of Vx.
    LoadGlyph { x: u8 },
    /// `Fx33`: store the decimal digits of Vx at I, I+1, I+2.
    StoreBcd { x: u8 },
    /// `Fx55`: store V0..=Vx at I.
    StoreRegs { x: u8 },
    /// `Fx65`: load V0..=Vx from I.
    LoadRegs { x: u8 },
}

impl Instruction {
    /// Operands are in range: registers and heights below 16, addresses below 4096.
    pub open spec fn wf(self) -> bool {
        match self {
            Instruction::ClearScreen | Instruction::Return => true,
            Instruction::Jump { addr } | Instruction::Call { addr } | Instruction::SetIndex { addr }
            | Instruction::JumpOffset { addr } => addr < 4096,
            Instruction::SkipIfEqualImm { x, kk } | Instruction::SkipIfNotEqualImm { x, kk }
            | Instruction::LoadImm { x, kk } | Instruction::AddImm { x, kk }
            | Instruction::Random { x, kk } => x < 16,
            Instruction::SkipIfEqualReg { x, y } | Instruction::SkipIfNotEqualReg { x, y }
            | Instruction::Arith { x, y, .. } => x < 16 && y < 16,
            Instruction::Draw { x, y, n } => x < 16 && y < 16 && n < 16,
            Instruction::SkipIfKeyDown { x } | Instruction::SkipIfKeyUp { x }
            | Instruction::LoadDelay { x } | Instruction::WaitKey { x }
            | Instruction::SetDelay { x } | Instruction::SetSound { x }
            | Instruction::AddIndex { x } | Instruction::LoadGlyph { x }
            | Instruction::StoreBcd { x } | Instruction::StoreRegs { x }
            | Instruction::LoadRegs { x } => x < 16,
        }
    }
}

/// The arithmetic operation selected by the low nibble of an `8xyn` word.
pub open spec fn arith_op_of(n: u16) -> Option<ArithOp> {
    if n == 0x0 {
        Some(ArithOp::Copy)
    } else if n == 0x1 {
        Some(ArithOp::Or)
    } else if n == 0x2 {
        Some(ArithOp::And)
    } else if n == 0x3 {
        Some(ArithOp::Xor)
    } else if n == 0x4 {
        Some(ArithOp::Add)
    } else if n == 0x5 {
        Some(ArithOp::Sub)
    } else if n == 0x6 {
        Some(ArithOp::ShiftRight)
    } else if n == 0x7 {
        Some(ArithOp::SubReversed)
    } else if n == 0xE {
        Some(ArithOp::ShiftLeft)
    } else {
        None
    }
}

/// The instruction that a word encodes, or `None` for an undefined word.
///
/// The top nibble selects the family. Within family `0`, `8`, `E` and `F`
/// the low nibble selects the operation; within `Fx_5` the third nibble does.
/// Families `5` and `9` ignore their low nibble.
pub open spec fn decode_spec(op: u16) -> Option<Instruction> {
    let family = op / 0x1000;
    let x = ((op / 0x100) % 0x10) as u8;
    let y = ((op / 0x10) % 0x10) as u8;
    let n = op % 0x10;
    let kk = (op % 0x100) as u8;
    let addr = (op % 0x1000) as u16;
    if family == 0x0 {
        if n == 0x0 {
            Some(Instruction::ClearScreen)
        } else if n == 0xE {
            Some(Instruction::Return)
        } else {
            None
        }
    } else if family == 0x1 {
        Some(Instruction::Jump { addr })
    } else if family == 0x2 {
        Some(Instruction::Call { addr })
    } else if family == 0x3 {
        Some(Instruction::SkipIfEqualImm { x, kk })
    } else if family == 0x4 {
        Some(Instruction::SkipIfNotEqualImm { x, kk })
    } else if family == 0x5 {
        Some(Instruction::SkipIfEqualReg { x, y })
    } else if family == 0x6 {
        Some(Instruction::LoadImm { x, kk })
    } else if family == 0x7 {
        Some(Instruction::AddImm { x, kk })
    } else if family == 0x8 {
        match arith_op_of(n) {
            Some(op) => Some(Instruction::Arith { op, x, y }),
            None => None,
        }
    } else if family == 0x9 {
        Some(Instruction::SkipIfNotEqualReg { x, y })
    } else if family == 0xA {
        Some(Instruction::SetIndex { addr })
    } else if family == 0xB {
        Some(Instruction::JumpOffset { addr })
    } else if family == 0xC {
        Some(Instruction::Random { x, kk })
    } else if family == 0xD {
        Some(Instruction::Draw { x, y, n: n as u8 })
    } else if family == 0xE {
        if n == 0xE {
            Some(Instruction::SkipIfKeyDown { x })
        } else if n == 0x1 {
            Some(Instruction::SkipIfKeyUp { x })
        } else {
            None
        }
    } else {
        if n == 0x7 {
            Some(Instruction::LoadDelay { x })
        } else if n == 0xA {
            Some(Instruction::WaitKey { x })
        } else if n == 0x5 {
            if y == 0x1 {
                Some(Instruction::SetDelay { x })
            } else if y == 0x5 {
                Some(Instruction::StoreRegs { x })
            } else if y == 0x6 {
                Some(Instruction::LoadRegs { x })
            } else {
                None
            }
        } else if n == 0x8 {
            Some(Instruction::SetSound { x })
        } else if n == 0xE {
            Some(Instruction::AddIndex { x })
        } else if n == 0x9 {
            Some(Instruction::LoadGlyph { x })
        } else if n == 0x3 {
            Some(Instruction::StoreBcd { x })
        } else {
            None
        }
    }
}

fn arith_op(n: u16) -> (r: Option<ArithOp>)
    ensures
        r == arith_op_of(n),
{
    match n {
        0x0 => Some(ArithOp::Copy),
        0x1 => Some(ArithOp::Or),
        0x2 => Some(ArithOp::And),
        0x3 => Some(ArithOp::Xor),
        0x4 => Some(ArithOp::Add),
        0x5 => Some(ArithOp::Sub),
        0x6 => Some(ArithOp::ShiftRight),
        0x7 => Some(ArithOp::SubReversed),
        0xE => Some(ArithOp::ShiftLeft),
        _ => None,
    }
}

/// Decodes an instruction word.
pub fn decode(op: u16) -> (r: Option<Instruction>)
    ensures
        r == decode_spec(op),
        r matches Some(ins) ==> ins.wf(),
{
    let x = ((op / 0x100) % 0x10) as u8;
    let y = ((op / 0x10) % 0x10) as u8;
    let n = op % 0x10;
    let kk = (op % 0x100) as u8;
    let addr = op % 0x1000;
    match op / 0x1000 {
        0x0 => match n {
            0x0 => Some(Instruction::ClearScreen),
            0xE => Some(Instruction::Return),
            _ => None,
        },
        0x1 => Some(Instruction::Jump { addr }),
        0x2 => Some(Instruction::Call { addr }),
        0x3 => Some(Instruction::SkipIfEqualImm { x, kk }),
        0x4 => Some(Instruction::SkipIfNotEqualImm { x, kk }),
        0x5 => Some(Instruction::SkipIfEqualReg { x, y }),
        0x6 => Some(Instruction::LoadImm { x, kk }),
        0x7 => Some(Instruction::AddImm { x, kk }),
        0x8 => match arith_op(n) {
            Some(op) => Some(Instruction::Arith { op, x, y }),
            None => None,
        },
        0x9 => Some(Instruction::SkipIfNotEqualReg { x, y }),
        0xA => Some(Instruction::SetIndex { addr }),
        0xB => Some(Instruction::JumpOffset { addr }),
        0xC => Some(Instruction::Random { x, kk }),
        0xD => Some(Instruction::Draw { x, y, n: n as u8 }),
        0xE => match n {
            0xE => Some(Instruction::SkipIfKeyDown { x }),
            0x1 => Some(Instruction::SkipIfKeyUp { x }),
            _ => None,
        },
        _ => match n {
            0x7 => Some(Instruction::LoadDelay { x }),
            0xA => Some(Instruction::WaitKey { x }),
            0x5 => match y {
                0x1 => Some(Instruction::SetDelay { x }),
                0x5 => Some(Instruction::StoreRegs { x }),
                0x6 => Some(Instruction::LoadRegs { x }),
                _ => None,
            },
            0x8 => Some(Instruction::SetSound { x }),
            0xE => Some(Instruction::AddIndex { x }),
            0x9 => Some(Instruction::LoadGlyph { x }),
            0x3 => Some(Instruction::StoreBcd { x }),
            _ => None,
        },
    }
}

} // verus!
