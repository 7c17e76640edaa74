//! Instruction words and their decoding.
//!
//! A CHIP-8 instruction is a 16-bit word. The top 4 bits select a primary
//! family; several families further decode the low nibble or low byte to
//! select a specific operation. Decoding is total: any bit pattern that
//! matches no documented operation decodes to `Instr::Unknown`.

use vstd::prelude::*;

verus! {

/// Register-to-register ALU operation, selected by the low nibble of an
/// `0x8XYN` instruction word.
#[derive(Clone, Copy, PartialEq, Eq, Structural, Debug)]
pub enum AluOp {
    /// `8XY0`: assign `VY` to `VX`.
    Assign,
    /// `8XY1`: bitwise OR.
    Or,
    /// `8XY2`: bitwise AND.
    And,
    /// `8XY3`: bitwise XOR.
    Xor,
    /// `8XY4`: add with carry-out written to the flags register.
    AddCarry,
    /// `8XY5`: `VX - VY`, flags register receives 1 when no borrow occurs.
    SubBorrow,
    /// `8XY6`: logical shift right, flags register receives the bit shifted out.
    ShiftRight,
    /// `8XY7`: `VY - VX`, flags register receives 1 when no borrow occurs.
    SubReverse,
    /// `8XYE`: logical shift left, flags register receives the bit shifted out.
    ShiftLeft,
}

/// A decoded instruction. Register indices are always below 16, jump and call
/// targets below 4096, as `lemma_decode_bounds` shows.
#[derive(Clone, Copy, PartialEq, Eq, Structural, Debug)]
pub enum Instr {
    /// `00E0`: zero the entire framebuffer.
    ClearScreen,
    /// `00EE`: return from subroutine.
    Return,
    /// `1NNN`: jump to the low 12 bits of the word.
    Jump(u16),
    /// `2NNN`: push the program counter, then jump.
    Call(u16),
    /// `3XNN`: skip the next instruction when `VX == NN`.
    SkipEqImm(u8, u8),
    /// `4XNN`: skip the next instruction when `VX != NN`.
    SkipNeImm(u8, u8),
    /// `5XYN`: skip the next instruction when `VX == VY`.
    SkipEqReg(u8, u8),
    /// `6XNN`: load the immediate byte into `VX`.
    LoadImm(u8, u8),
    /// `7XNN`: add the immediate byte to `VX`, wrapping, no flag effect.
    AddImm(u8, u8),
    /// `8XYN`: register-to-register ALU operation.
    Alu(u8, u8, AluOp),
    /// `ANNN`: set the index register to a 12-bit immediate.
    SetIndex(u16),
    /// `CXNN`: set `VX` to a random byte AND the immediate mask.
    Random(u8, u8),
    /// `DXYN`: draw an N-row sprite at (`VX`, `VY`).
    Draw(u8, u8, u8),
    /// `EX9E`: skip the next instruction when the key named by `VX` is down.
    SkipKeyDown(u8),
    /// `EXA1`: skip the next instruction when the key named by `VX` is up.
    SkipKeyUp(u8),
    /// `FX07`: read the delay timer into `VX`.
    ReadDelay(u8),
    /// `FX0A`: wait for a key press, writing the key index into `VX`.
    WaitKey(u8),
    /// `FX15`: write `VX` into the delay timer.
    SetDelay(u8),
    /// `FX18`: write `VX` into the sound timer.
    SetSound(u8),
    /// `FX1E`: add `VX` to the index register, wrapping, no flag effect.
    AddIndex(u8),
    /// `FX29`: set the index register to the font-glyph address for the low
    /// nibble of `VX`.
    FontAddr(u8),
    /// `FX33`: write the three decimal digits of `VX` to memory at the index.
    StoreBcd(u8),
    /// `FX55`: bulk-store registers `V0..=VX` to memory at the index.
    StoreRegs(u8),
    /// `FX65`: bulk-load registers `V0..=VX` from memory at the index.
    LoadRegs(u8),
    /// Any bit pattern that matches no documented operation.
    Unknown(u16),
}

/// The register index in bits 8..12 of an instruction word.
pub open spec fn op_x(op: u16) -> u8 {
    ((op >> 8) & 0xF) as u8
}

/// The register index in bits 4..8 of an instruction word.
pub open spec fn op_y(op: u16) -> u8 {
    ((op >> 4) & 0xF) as u8
}

/// The low nibble of an instruction word.
pub open spec fn op_n(op: u16) -> u8 {
    (op & 0xF) as u8
}

/// The low byte of an instruction word.
pub open spec fn op_nn(op: u16) -> u8 {
    (op & 0xFF) as u8
}

/// The low 12 bits of an instruction word: a jump or call target.
pub open spec fn op_nnn(op: u16) -> u16 {
    op & 0xFFF
}

/// What a 16-bit instruction word decodes to.
pub open spec fn spec_decode(op: u16) -> Instr {
    let fam = op >> 12;
    if fam == 0x0 {
        if op == 0x00E0 {
            Instr::ClearScreen
        } else if op == 0x00EE {
            Instr::Return
        } else {
            Instr::Unknown(op)
        }
    } else if fam == 0x1 {
        Instr::Jump(op_nnn(op))
    } else if fam == 0x2 {
        Instr::Call(op_nnn(op))
    } else if fam == 0x3 {
        Instr::SkipEqImm(op_x(op), op_nn(op))
    } else if fam == 0x4 {
        Instr::SkipNeImm(op_x(op), op_nn(op))
    } else if fam == 0x5 {
        Instr::SkipEqReg(op_x(op), op_y(op))
    } else if fam == 0x6 {
        Instr::LoadImm(op_x(op), op_nn(op))
    } else if fam == 0x7 {
        Instr::AddImm(op_x(op), op_nn(op))
    } else if fam == 0x8 {
        let sub = op & 0xF;
        if sub == 0x0 {
            Instr::Alu(op_x(op), op_y(op), AluOp::Assign)
        } else if sub == 0x1 {
            Instr::Alu(op_x(op), op_y(op), AluOp::Or)
        } else if sub == 0x2 {
            Instr::Alu(op_x(op), op_y(op), AluOp::And)
        } else if sub == 0x3 {
            Instr::Alu(op_x(op), op_y(op), AluOp::Xor)
        } else if sub == 0x4 {
            Instr::Alu(op_x(op), op_y(op), AluOp::AddCarry)
        } else if sub == 0x5 {
            Instr::Alu(op_x(op), op_y(op), AluOp::SubBorrow)
        } else if sub == 0x6 {
            Instr::Alu(op_x(op), op_y(op), AluOp::ShiftRight)
        } else if sub == 0x7 {
            Instr::Alu(op_x(op), op_y(op), AluOp::SubReverse)
        } else if sub == 0xE {
            Instr::Alu(op_x(op), op_y(op), AluOp::ShiftLeft)
        } else {
            Instr::Unknown(op)
        }
    } else if fam == 0xA {
        Instr::SetIndex(op_nnn(op))
    } else if fam == 0xC {
        Instr::Random(op_x(op), op_nn(op))
    } else if fam == 0xD {
        Instr::Draw(op_x(op), op_y(op), op_n(op))
    } else if fam == 0xE {
        let sub = op & 0xFF;
        if sub == 0x9E {
            Instr::SkipKeyDown(op_x(op))
        } else if sub == 0xA1 {
            Instr::SkipKeyUp(op_x(op))
        } else {
            Instr::Unknown(op)
        }
    } else if fam == 0xF {
        let sub = op & 0xFF;
        if sub == 0x07 {
            Instr::ReadDelay(op_x(op))
        } else if sub == 0x0A {
            Instr::WaitKey(op_x(op))
        } else if sub == 0x15 {
            Instr::SetDelay(op_x(op))
        } else if sub == 0x18 {
            Instr::SetSound(op_x(op))
        } else if sub == 0x1E {
            Instr::AddIndex(op_x(op))
        } else if sub == 0x29 {
            Instr::FontAddr(op_x(op))
        } else if sub == 0x33 {
            Instr::StoreBcd(op_x(op))
        } else if sub == 0x55 {
            Instr::StoreRegs(op_x(op))
        } else if sub == 0x65 {
            Instr::LoadRegs(op_x(op))
        } else {
            Instr::Unknown(op)
        }
    } else {
        Instr::Unknown(op)
    }
}

/// The operand fields of an instruction word lie in their documented ranges.
pub proof fn lemma_decode_bounds(op: u16)
    by (bit_vector)
    ensures
        (op >> 8) & 0xF < 16,
        (op >> 4) & 0xF < 16,
        op & 0xF < 16,
        op & 0xFF < 256,
        op & 0xFFF < 4096,
{
}

/// Decode a 16-bit instruction word.
pub fn decode(op: u16) -> (r: Instr)
    ensures
        r == spec_decode(op),
{
    let fam = op >> 12;
    let x = ((op >> 8) & 0xF) as u8;
    let y = ((op >> 4) & 0xF) as u8;
    let n = (op & 0xF) as u8;
    let nn = (op & 0xFF) as u8;
    let nnn = op & 0xFFF;
    if fam == 0x0 {
        if op == 0x00E0 {
            Instr::ClearScreen
        } else if op == 0x00EE {
            Instr::Return
        } else {
            Instr::Unknown(op)
        }
    } else if fam == 0x1 {
        Instr::Jump(nnn)
    } else if fam == 0x2 {
        Instr::Call(nnn)
    } else if fam == 0x3 {
        Instr::SkipEqImm(x, nn)
    } else if fam == 0x4 {
        Instr::SkipNeImm(x, nn)
    } else if fam == 0x5 {
        Instr::SkipEqReg(x, y)
    } else if fam == 0x6 {
        Instr::LoadImm(x, nn)
    } else if fam == 0x7 {
        Instr::AddImm(x, nn)
    } else if fam == 0x8 {
        let sub = op & 0xF;
        if sub == 0x0 {
            Instr::Alu(x, y, AluOp::Assign)
        } else if sub == 0x1 {
            Instr::Alu(x, y, AluOp::Or)
        } else if sub == 0x2 {
            Instr::Alu(x, y, AluOp::And)
        } else if sub == 0x3 {
            Instr::Alu(x, y, AluOp::Xor)
        } else if sub == 0x4 {
            Instr::Alu(x, y, AluOp::AddCarry)
        } else if sub == 0x5 {
            Instr::Alu(x, y, AluOp::SubBorrow)
        } else if sub == 0x6 {
            Instr::Alu(x, y, AluOp::ShiftRight)
        } else if sub == 0x7 {
            Instr::Alu(x, y, AluOp::SubReverse)
        } else if sub == 0xE {
            Instr::Alu(x, y, AluOp::ShiftLeft)
        } else {
            Instr::Unknown(op)
        }
    } else if fam == 0xA {
        Instr::SetIndex(nnn)
    } else if fam == 0xC {
        Instr::Random(x, nn)
    } else if fam == 0xD {
        Instr::Draw(x, y, n)
    } else if fam == 0xE {
        let sub = op & 0xFF;
        if sub == 0x9E {
            Instr::SkipKeyDown(x)
        } else if sub == 0xA1 {
            Instr::SkipKeyUp(x)
        } else {
            Instr::Unknown(op)
        }
    } else if fam == 0xF {
        let sub = op & 0xFF;
        if sub == 0x07 {
            Instr::ReadDelay(x)
        } else if sub == 0x0A {
            Instr::WaitKey(x)
        } else if sub == 0x15 {
            Instr::SetDelay(x)
        } else if sub == 0x18 {
            Instr::SetSound(x)
        } else if sub == 0x1E {
            Instr::AddIndex(x)
        } else if sub == 0x29 {
            Instr::FontAddr(x)
        } else if sub == 0x33 {
            Instr::StoreBcd(x)
        } else if sub == 0x55 {
            Instr::StoreRegs(x)
        } else if sub == 0x65 {
            Instr::LoadRegs(x)
        } else {
            Instr::Unknown(op)
        }
    } else {
        Instr::Unknown(op)
    }
}

} // verus!
