use vstd::prelude::*;
use crate::error::Error;

verus! {

/// One decoded instruction.
///
/// A variant is named after the hexadecimal pattern of the sixteen bits that
/// encode it: `x` and `y` stand for a register index, `kk` for a literal byte,
/// `nnn` for a twelve-bit address and `n` for a four-bit count. The fields of a
/// variant are those operands, in the order in which its name shows them.
#[derive(Clone, Copy, Debug, PartialEq, Eq, Structural)]
pub enum Instruction {
    /// Jump to the routine at `nnn`.
    Op0nnn(u16),
    /// Clear the display.
    Op00E0,
    /// Return from a subroutine.
    Op00EE,
    /// Jump to `nnn`.
    Op1nnn(u16),
    /// Call the subroutine at `nnn`.
    Op2nnn(u16),
    /// Skip the next instruction if register `x` equals `kk`.
    Op3xkk(u8, u8),
    /// Skip the next instruction if register `x` differs from `kk`.
    Op4xkk(u8, u8),
    /// Skip the next instruction if registers `x` and `y` are equal.
    Op5xy0(u8, u8),
    /// Load `kk` into register `x`.
    Op6xkk(u8, u8),
    /// Add `kk` to register `x`, wrapping, without touching the flag.
    Op7xkk(u8, u8),
    /// Copy register `y` into register `x`.
    Op8xy0(u8, u8),
    /// Register `x` becomes `x | y`.
    Op8xy1(u8, u8),
    /// Register `x` becomes `x & y`.
    Op8xy2(u8, u8),
    /// Register `x` becomes `x ^ y`.
    Op8xy3(u8, u8),
    /// Register `x` becomes `x + y`; the flag is the carry.
    Op8xy4(u8, u8),
    /// Register `x` becomes `x - y`; the flag tells whether `x` was greater.
    Op8xy5(u8, u8),
    /// Register `x` is shifted right by one bit; the flag is the bit that left.
    Op8xy6(u8, u8),
    /// Register `x` becomes `y - x`; the flag tells whether `y` was greater.
    Op8xy7(u8, u8),
    /// Register `x` is shifted left by one bit; the flag is the bit that left.
    Op8xyE(u8, u8),
    /// Skip the next instruction if registers `x` and `y` differ.
    Op9xy0(u8, u8),
    /// Set the index register to `nnn`.
    OpAnnn(u16),
    /// Set the index register to `nnn` plus register 0.
    OpBnnn(u16),
    /// Register `x` becomes a random byte masked with `kk`.
    OpCxkk(u8, u8),
    /// Draw the sprite of `n` rows at the index register, at the position held
    /// by registers `x` and `y`.
    OpDxyn(u8, u8, u8),
    /// Skip the next instruction if the key named by register `x` is pressed.
    OpEx9E(u8),
    /// Skip the next instruction if the key named by register `x` is not pressed.
    OpExA1(u8),
    /// Copy the delay timer into register `x`.
    OpFx07(u8),
    /// Wait until the key named by register `x` is pressed.
    OpFx0A(u8),
    /// Set the delay timer from register `x`.
    OpFx15(u8),
    /// Set the sound timer from register `x`.
    OpFx18(u8),
    /// Add register `x` to the index register.
    OpFx1E(u8),
    /// Point the index register at the glyph of the low digit of register `x`.
    OpFx29(u8),
    /// Store the three decimal digits of register `x` at the index register.
    OpFx33(u8),
    /// Store registers 0 to `x` at the index register.
    OpFx55(u8),
    /// Load registers 0 to `x` from the index register.
    OpFx65(u8),
}

/// The highest hexadecimal digit of `raw`: it selects the family.
pub open spec fn family_of(raw: u16) -> int {
    raw as int / 0x1000
}

/// The second hexadecimal digit of `raw`: the operand `x`.
pub open spec fn x_of(raw: u16) -> u8 {
    ((raw as int / 0x100) % 0x10) as u8
}

/// The third hexadecimal digit of `raw`: the operand `y`.
pub open spec fn y_of(raw: u16) -> u8 {
    ((raw as int / 0x10) % 0x10) as u8
}

/// The lowest hexadecimal digit of `raw`: the operand `n`.
pub open spec fn n_of(raw: u16) -> u8 {
    (raw as int % 0x10) as u8
}

/// The low byte of `raw`: the operand `kk`.
pub open spec fn kk_of(raw: u16) -> u8 {
    (raw as int % 0x100) as u8
}

/// The low twelve bits of `raw`: the operand `nnn`.
pub open spec fn nnn_of(raw: u16) -> u16 {
    (raw as int % 0x1000) as u16
}

/// The instruction that `raw` encodes, if it encodes one.
pub open spec fn decode(raw: u16) -> Option<Instruction> {
    let x = x_of(raw);
    let y = y_of(raw);
    let n = n_of(raw);
    let kk = kk_of(raw);
    let nnn = nnn_of(raw);
    let family = family_of(raw);
    if family == 0x0 {
        if raw == 0x00E0 {
            Some(Instruction::Op00E0)
        } else if raw == 0x00EE {
            Some(Instruction::Op00EE)
        } else {
            Some(Instruction::Op0nnn(nnn))
        }
    } else if family == 0x1 {
        Some(Instruction::Op1nnn(nnn))
    } else if family == 0x2 {
        Some(Instruction::Op2nnn(nnn))
    } else if family == 0x3 {
        Some(Instruction::Op3xkk(x, kk))
    } else if family == 0x4 {
        Some(Instruction::Op4xkk(x, kk))
    } else if family == 0x5 {
        if n == 0x0 {
            Some(Instruction::Op5xy0(x, y))
        } else {
            None
        }
    } else if family == 0x6 {
        Some(Instruction::Op6xkk(x, kk))
    } else if family == 0x7 {
        Some(Instruction::Op7xkk(x, kk))
    } else if family == 0x8 {
        if n == 0x0 {
            Some(Instruction::Op8xy0(x, y))
        } else if n == 0x1 {
            Some(Instruction::Op8xy1(x, y))
        } else if n == 0x2 {
            Some(Instruction::Op8xy2(x, y))
        } else if n == 0x3 {
            Some(Instruction::Op8xy3(x, y))
        } else if n == 0x4 {
            Some(Instruction::Op8xy4(x, y))
        } else if n == 0x5 {
            Some(Instruction::Op8xy5(x, y))
        } else if n == 0x6 {
            Some(Instruction::Op8xy6(x, y))
        } else if n == 0x7 {
            Some(Instruction::Op8xy7(x, y))
        } else if n == 0xE {
            Some(Instruction::Op8xyE(x, y))
        } else {
            None
        }
    } else if family == 0x9 {
        if n == 0x0 {
            Some(Instruction::Op9xy0(x, y))
        } else {
            None
        }
    } else if family == 0xA {
        Some(Instruction::OpAnnn(nnn))
    } else if family == 0xB {
        Some(Instruction::OpBnnn(nnn))
    } else if family == 0xC {
        Some(Instruction::OpCxkk(x, kk))
    } else if family == 0xD {
        Some(Instruction::OpDxyn(x, y, n))
    } else if family == 0xE {
        if kk == 0x9E {
            Some(Instruction::OpEx9E(x))
        } else if kk == 0xA1 {
            Some(Instruction::OpExA1(x))
        } else {
            None
        }
    } else {
        if kk == 0x07 {
            Some(Instruction::OpFx07(x))
        } else if kk == 0x0A {
            Some(Instruction::OpFx0A(x))
        } else if kk == 0x15 {
            Some(Instruction::OpFx15(x))
        } else if kk == 0x18 {
            Some(Instruction::OpFx18(x))
        } else if kk == 0x1E {
            Some(Instruction::OpFx1E(x))
        } else if kk == 0x29 {
            Some(Instruction::OpFx29(x))
        } else if kk == 0x33 {
            Some(Instruction::OpFx33(x))
        } else if kk == 0x55 {
            Some(Instruction::OpFx55(x))
        } else if kk == 0x65 {
            Some(Instruction::OpFx65(x))
        } else {
            None
        }
    }
}

/// Masking and shifting extract the hexadecimal digits of a sixteen-bit value.
proof fn lemma_fields_by_masks(raw: u16)
    by (bit_vector)
    ensures
        raw >> 12 == raw / 0x1000,
        (raw >> 8) & 0xF == (raw / 0x100) % 0x10,
        (raw >> 4) & 0xF == (raw / 0x10) % 0x10,
        raw & 0xF == raw % 0x10,
        raw & 0xFF == raw % 0x100,
        raw & 0xFFF == raw % 0x1000,
        raw >> 12 < 0x10,
        (raw >> 8) & 0xF < 0x10,
        (raw >> 4) & 0xF < 0x10,
        raw & 0xF < 0x10,
        raw & 0xFF < 0x100,
        raw & 0xFFF < 0x1000,
{
}

impl Instruction {
    /// Whether every operand lies in the range that its encoding allows: a
    /// register index and a row count below 16, an address below 4096.
    pub open spec fn wf(self) -> bool {
        match self {
            Instruction::Op00E0 | Instruction::Op00EE => true,
            Instruction::Op0nnn(nnn)
            | Instruction::Op1nnn(nnn)
            | Instruction::Op2nnn(nnn)
            | Instruction::OpAnnn(nnn)
            | Instruction::OpBnnn(nnn) => nnn < 0x1000,
            Instruction::Op3xkk(x, _)
            | Instruction::Op4xkk(x, _)
            | Instruction::Op6xkk(x, _)
            | Instruction::Op7xkk(x, _)
            | Instruction::OpCxkk(x, _) => x < 16,
            Instruction::Op5xy0(x, y)
            | Instruction::Op8xy0(x, y)
            | Instruction::Op8xy1(x, y)
            | Instruction::Op8xy2(x, y)
            | Instruction::Op8xy3(x, y)
            | Instruction::Op8xy4(x, y)
            | Instruction::Op8xy5(x, y)
            | Instruction::Op8xy6(x, y)
            | Instruction::Op8xy7(x, y)
            | Instruction::Op8xyE(x, y)
            | Instruction::Op9xy0(x, y) => x < 16 && y < 16,
            Instruction::OpDxyn(x, y, n) => x < 16 && y < 16 && n < 16,
            Instruction::OpEx9E(x)
            | Instruction::OpExA1(x)
            | Instruction::OpFx07(x)
            | Instruction::OpFx0A(x)
            | Instruction::OpFx15(x)
            | Instruction::OpFx18(x)
            | Instruction::OpFx1E(x)
            | Instruction::OpFx29(x)
            | Instruction::OpFx33(x)
            | Instruction::OpFx55(x)
            | Instruction::OpFx65(x) => x < 16,
        }
    }

    /// What `parse` returns for `raw`: the decoded instruction, or the error
    /// that carries the bits which encode none.
    pub open spec fn parsed(raw: u16) -> Result<Instruction, Error> {
        match decode(raw) {
            Some(instruction) => Ok(instruction),
            None => Err(Error::InvalidInstruction(raw)),
        }
    }

    /// Every instruction that comes out of the decoder is well formed.
    pub proof fn lemma_decoded_wf(raw: u16)
        ensures
            decode(raw) matches Some(instruction) ==> instruction.wf(),
    {
    }

    /// Decodes the sixteen bits of an instruction.
    pub fn parse(raw: u16) -> (result: Result<Instruction, Error>)
        ensures
            result == Self::parsed(raw),
            result matches Ok(instruction) ==> instruction.wf(),
    {
        proof {
            lemma_fields_by_masks(raw);
        }
        let x: u8 = ((raw >> 8) & 0xF) as u8;
        let y: u8 = ((raw >> 4) & 0xF) as u8;
        let n: u8 = (raw & 0xF) as u8;
        let kk: u8 = (raw & 0xFF) as u8;
        let nnn: u16 = raw & 0xFFF;
        let family: u16 = raw >> 12;
        let decoded: Option<Instruction> = match family {
            0x0 => match raw {
                0x00E0 => Some(Instruction::Op00E0),
                0x00EE => Some(Instruction::Op00EE),
                _ => Some(Instruction::Op0nnn(nnn)),
            },
            0x1 => Some(Instruction::Op1nnn(nnn)),
            0x2 => Some(Instruction::Op2nnn(nnn)),
            0x3 => Some(Instruction::Op3xkk(x, kk)),
            0x4 => Some(Instruction::Op4xkk(x, kk)),
            0x5 => match n {
                0x0 => Some(Instruction::Op5xy0(x, y)),
                _ => None,
            },
            0x6 => Some(Instruction::Op6xkk(x, kk)),
            0x7 => Some(Instruction::Op7xkk(x, kk)),
            0x8 => match n {
                0x0 => Some(Instruction::Op8xy0(x, y)),
                0x1 => Some(Instruction::Op8xy1(x, y)),
                0x2 => Some(Instruction::Op8xy2(x, y)),
                0x3 => Some(Instruction::Op8xy3(x, y)),
                0x4 => Some(Instruction::Op8xy4(x, y)),
                0x5 => Some(Instruction::Op8xy5(x, y)),
                0x6 => Some(Instruction::Op8xy6(x, y)),
                0x7 => Some(Instruction::Op8xy7(x, y)),
                0xE => Some(Instruction::Op8xyE(x, y)),
                _ => None,
            },
            0x9 => match n {
                0x0 => Some(Instruction::Op9xy0(x, y)),
                _ => None,
            },
            0xA => Some(Instruction::OpAnnn(nnn)),
            0xB => Some(Instruction::OpBnnn(nnn)),
            0xC => Some(Instruction::OpCxkk(x, kk)),
            0xD => Some(Instruction::OpDxyn(x, y, n)),
            0xE => match kk {
                0x9E => Some(Instruction::OpEx9E(x)),
                0xA1 => Some(Instruction::OpExA1(x)),
                _ => None,
            },
            _ => match kk {
                0x07 => Some(Instruction::OpFx07(x)),
                0x0A => Some(Instruction::OpFx0A(x)),
                0x15 => Some(Instruction::OpFx15(x)),
                0x18 => Some(Instruction::OpFx18(x)),
                0x1E => Some(Instruction::OpFx1E(x)),
                0x29 => Some(Instruction::OpFx29(x)),
                0x33 => Some(Instruction::OpFx33(x)),
                0x55 => Some(Instruction::OpFx55(x)),
                0x65 => Some(Instruction::OpFx65(x)),
                _ => None,
            },
        };
        match decoded {
            Some(instruction) => Ok(instruction),
            None => Err(Error::InvalidInstruction(raw)),
        }
    }
}

} // verus!
