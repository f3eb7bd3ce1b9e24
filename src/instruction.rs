//! Instruction words and their decoding.
use vstd::prelude::*;

verus! {

/// A decoded instruction. Register operands (`x`, `y`) are indices 0..=15 of
/// the general registers, `byte` is an 8-bit immediate, `addr` a 12-bit
/// address and `n` a 4-bit sprite height.
#[derive(Debug, Clone, Copy, PartialEq, Eq, Structural)]
pub enum Instruction {
    /// `00E0`: clear the bitmap surface.
    Cls,
    /// `00EE`: return from a subroutine.
    Ret,
    /// `1nnn`: jump to `addr`.
    Jp { addr: u16 },
    /// `2nnn`: call the subroutine at `addr`.
    Call { addr: u16 },
    /// `3xkk`: skip the next instruction if `Vx == byte`.
    SeByte { x: u8, byte: u8 },
    /// `4xkk`: skip the next instruction if `Vx != byte`.
    SneByte { x: u8, byte: u8 },
    /// `5xy_`: skip the next instruction if `Vx == Vy`.
    SeReg { x: u8, y: u8 },
    /// `6xkk`: `Vx = byte`.
    LdByte { x: u8, byte: u8 },
    /// `7xkk`: `Vx = Vx + byte`, wrapping, flags untouched.
    AddByte { x: u8, byte: u8 },
    /// `8xy0`: `Vx = Vy`.
    LdReg { x: u8, y: u8 },
    /// `8xy1`: `Vx = Vx | Vy`.
    Or { x: u8, y: u8 },
    /// `8xy2`: `Vx = Vx & Vy`.
    And { x: u8, y: u8 },
    /// `8xy3`: `Vx = Vx ^ Vy`.
    Xor { x: u8, y: u8 },
    /// `8xy4`: `Vx = Vx + Vy`, wrapping; `VF` = carry.
    AddReg { x: u8, y: u8 },
    /// `8xy5`: `Vx = Vx - Vy`, wrapping; `VF` = no borrow.
    Sub { x: u8, y: u8 },
    /// `8xy6`: `Vx = Vx >> 1`; `VF` = the bit shifted out.
    Shr { x: u8, y: u8 },
    /// `8xy7`: `Vx = Vy - Vx`, wrapping; `VF` = no borrow.
    Subn { x: u8, y: u8 },
    /// `8xyE`: `Vx = Vx << 1`; `VF` = the bit shifted out.
    Shl { x: u8, y: u8 },
    /// `9xy_`: skip the next instruction if `Vx != Vy`.
    SneReg { x: u8, y: u8 },
    /// `Annn`: `I = addr`.
    LdI { addr: u16 },
    /// `Bnnn`: jump to `addr + V0`.
    JpV0 { addr: u16 },
    /// `Cxkk`: `Vx = random & byte`.
    Rnd { x: u8, byte: u8 },
    /// `Dxyn`: draw the `n`-byte sprite at `I` at (`Vx`, `Vy`); `VF` = collision.
    Draw { x: u8, y: u8, n: u8 },
    /// `Ex9E`: skip the next instruction if the key `Vx` is down.
    SkipKey { x: u8 },
    /// `ExA1`: skip the next instruction if the key `Vx` is up.
    SkipNoKey { x: u8 },
    /// `Fx07`: `Vx = delay timer`.
    LdFromDelay { x: u8 },
    /// `Fx0A`: wait for a key press and store its index in `Vx`.
    WaitKey { x: u8 },
    /// `Fx15`: `delay timer = Vx`.
    LdDelay { x: u8 },
    /// `Fx18`: `sound timer = Vx`.
    LdSound { x: u8 },
    /// `Fx1E`: `I = I + Vx`, wrapping at 16 bits.
    AddI { x: u8 },
    /// `Fx29`: `I` = address of the digit sprite for the low nibble of `Vx`.
    SpriteChar { x: u8 },
    /// `Fx33`: the decimal digits of `Vx` to `memory[I..I+3]`.
    Bcd { x: u8 },
    /// `Fx55`: copy `V0..=Vx` to `memory[I..=I+x]`.
    StoreRegs { x: u8 },
    /// `Fx65`: copy `memory[I..=I+x]` to `V0..=Vx`.
    LoadRegs { x: u8 },
}

/// Why a word is not an instruction.
#[derive(Debug, Clone, Copy, PartialEq, Eq, Structural)]
pub enum DecodeError {
    UnknownOpcode(u16),
}

/// The high nibble of a word.
pub open spec fn op_of(w: u16) -> int {
    w as int / 4096
}

/// The second nibble: the first register index.
pub open spec fn x_of(w: u16) -> u8 {
    ((w as int / 256) % 16) as u8
}

/// The third nibble: the second register index.
pub open spec fn y_of(w: u16) -> u8 {
    ((w as int / 16) % 16) as u8
}

/// The low nibble.
pub open spec fn n_of(w: u16) -> u8 {
    (w as int % 16) as u8
}

/// The low byte.
pub open spec fn kk_of(w: u16) -> u8 {
    (w as int % 256) as u8
}

/// The low twelve bits: an address.
pub open spec fn nnn_of(w: u16) -> u16 {
    (w as int % 4096) as u16
}

impl Instruction {
    /// Operands are in range: registers and heights are nibbles, addresses
    /// have twelve bits.
    pub open spec fn wf(self) -> bool {
        match self {
            Instruction::Cls | Instruction::Ret => true,
            Instruction::Jp { addr }
            | Instruction::Call { addr }
            | Instruction::LdI { addr }
            | Instruction::JpV0 { addr } => addr < 4096,
            Instruction::SeByte { x, .. }
            | Instruction::SneByte { x, .. }
            | Instruction::LdByte { x, .. }
            | Instruction::AddByte { x, .. }
            | Instruction::Rnd { x, .. }
            | Instruction::SkipKey { x }
            | Instruction::SkipNoKey { x }
            | Instruction::LdFromDelay { x }
            | Instruction::WaitKey { x }
            | Instruction::LdDelay { x }
            | Instruction::LdSound { x }
            | Instruction::AddI { x }
            | Instruction::SpriteChar { x }
            | Instruction::Bcd { x }
            | Instruction::StoreRegs { x }
            | Instruction::LoadRegs { x } => x < 16,
            Instruction::SeReg { x, y }
            | Instruction::LdReg { x, y }
            | Instruction::Or { x, y }
            | Instruction::And { x, y }
            | Instruction::Xor { x, y }
            | Instruction::AddReg { x, y }
            | Instruction::Sub { x, y }
            | Instruction::Shr { x, y }
            | Instruction::Subn { x, y }
            | Instruction::Shl { x, y }
            | Instruction::SneReg { x, y } => x < 16 && y < 16,
            Instruction::Draw { x, y, n } => x < 16 && y < 16 && n < 16,
        }
    }

    /// The word `w` is an encoding of this instruction: its fixed bits
    /// match the instruction's pattern and its operand fields hold the
    /// instruction's operands. Each pattern is stated on its own, without
    /// reference to any other.
    pub open spec fn encoded_by(self, w: u16) -> bool {
        let (op, x, y, n, kk, nnn) = (op_of(w), x_of(w), y_of(w), n_of(w), kk_of(w), nnn_of(w));
        match self {
            Instruction::Cls => w == 0x00E0,
            Instruction::Ret => w == 0x00EE,
            Instruction::Jp { addr } => op == 0x1 && addr == nnn,
            Instruction::Call { addr } => op == 0x2 && addr == nnn,
            Instruction::SeByte { x: a, byte } => op == 0x3 && a == x && byte == kk,
            Instruction::SneByte { x: a, byte } => op == 0x4 && a == x && byte == kk,
            Instruction::SeReg { x: a, y: b } => op == 0x5 && a == x && b == y,
            Instruction::LdByte { x: a, byte } => op == 0x6 && a == x && byte == kk,
            Instruction::AddByte { x: a, byte } => op == 0x7 && a == x && byte == kk,
            Instruction::LdReg { x: a, y: b } => op == 0x8 && n == 0x0 && a == x && b == y,
            Instruction::Or { x: a, y: b } => op == 0x8 && n == 0x1 && a == x && b == y,
            Instruction::And { x: a, y: b } => op == 0x8 && n == 0x2 && a == x && b == y,
            Instruction::Xor { x: a, y: b } => op == 0x8 && n == 0x3 && a == x && b == y,
            Instruction::AddReg { x: a, y: b } => op == 0x8 && n == 0x4 && a == x && b == y,
            Instruction::Sub { x: a, y: b } => op == 0x8 && n == 0x5 && a == x && b == y,
            Instruction::Shr { x: a, y: b } => op == 0x8 && n == 0x6 && a == x && b == y,
            Instruction::Subn { x: a, y: b } => op == 0x8 && n == 0x7 && a == x && b == y,
            Instruction::Shl { x: a, y: b } => op == 0x8 && n == 0xE && a == x && b == y,
            Instruction::SneReg { x: a, y: b } => op == 0x9 && a == x && b == y,
            Instruction::LdI { addr } => op == 0xA && addr == nnn,
            Instruction::JpV0 { addr } => op == 0xB && addr == nnn,
            Instruction::Rnd { x: a, byte } => op == 0xC && a == x && byte == kk,
            Instruction::Draw { x: a, y: b, n: h } => op == 0xD && a == x && b == y && h == n,
            Instruction::SkipKey { x: a } => op == 0xE && kk == 0x9E && a == x,
            Instruction::SkipNoKey { x: a } => op == 0xE && kk == 0xA1 && a == x,
            Instruction::LdFromDelay { x: a } => op == 0xF && kk == 0x07 && a == x,
            Instruction::WaitKey { x: a } => op == 0xF && kk == 0x0A && a == x,
            Instruction::LdDelay { x: a } => op == 0xF && kk == 0x15 && a == x,
            Instruction::LdSound { x: a } => op == 0xF && kk == 0x18 && a == x,
            Instruction::AddI { x: a } => op == 0xF && kk == 0x1E && a == x,
            Instruction::SpriteChar { x: a } => op == 0xF && kk == 0x29 && a == x,
            Instruction::Bcd { x: a } => op == 0xF && kk == 0x33 && a == x,
            Instruction::StoreRegs { x: a } => op == 0xF && kk == 0x55 && a == x,
            Instruction::LoadRegs { x: a } => op == 0xF && kk == 0x65 && a == x,
        }
    }
}

/// What `decode` returns for `w`: full-word matches first, then the
/// high-nibble families, then the `8`, `E` and `F` families told apart by
/// their low nibble or low byte.
pub open spec fn spec_decode(w: u16) -> Result<Instruction, DecodeError> {
    let (op, x, y, n, kk, nnn) = (op_of(w), x_of(w), y_of(w), n_of(w), kk_of(w), nnn_of(w));
    if w == 0x00E0 {
        Ok(Instruction::Cls)
    } else if w == 0x00EE {
        Ok(Instruction::Ret)
    } else if op == 0x1 {
        Ok(Instruction::Jp { addr: nnn })
    } else if op == 0x2 {
        Ok(Instruction::Call { addr: nnn })
    } else if op == 0x3 {
        Ok(Instruction::SeByte { x, byte: kk })
    } else if op == 0x4 {
        Ok(Instruction::SneByte { x, byte: kk })
    } else if op == 0x5 {
        Ok(Instruction::SeReg { x, y })
    } else if op == 0x6 {
        Ok(Instruction::LdByte { x, byte: kk })
    } else if op == 0x7 {
        Ok(Instruction::AddByte { x, byte: kk })
    } else if op == 0x8 && n == 0x0 {
        Ok(Instruction::LdReg { x, y })
    } else if op == 0x8 && n == 0x1 {
        Ok(Instruction::Or { x, y })
    } else if op == 0x8 && n == 0x2 {
        Ok(Instruction::And { x, y })
    } else if op == 0x8 && n == 0x3 {
        Ok(Instruction::Xor { x, y })
    } else if op == 0x8 && n == 0x4 {
        Ok(Instruction::AddReg { x, y })
    } else if op == 0x8 && n == 0x5 {
        Ok(Instruction::Sub { x, y })
    } else if op == 0x8 && n == 0x6 {
        Ok(Instruction::Shr { x, y })
    } else if op == 0x8 && n == 0x7 {
        Ok(Instruction::Subn { x, y })
    } else if op == 0x8 && n == 0xE {
        Ok(Instruction::Shl { x, y })
    } else if op == 0x9 {
        Ok(Instruction::SneReg { x, y })
    } else if op == 0xA {
        Ok(Instruction::LdI { addr: nnn })
    } else if op == 0xB {
        Ok(Instruction::JpV0 { addr: nnn })
    } else if op == 0xC {
        Ok(Instruction::Rnd { x, byte: kk })
    } else if op == 0xD {
        Ok(Instruction::Draw { x, y, n })
    } else if op == 0xE && kk == 0x9E {
        Ok(Instruction::SkipKey { x })
    } else if op == 0xE && kk == 0xA1 {
        Ok(Instruction::SkipNoKey { x })
    } else if op == 0xF && kk == 0x07 {
        Ok(Instruction::LdFromDelay { x })
    } else if op == 0xF && kk == 0x0A {
        Ok(Instruction::WaitKey { x })
    } else if op == 0xF && kk == 0x15 {
        Ok(Instruction::LdDelay { x })
    } else if op == 0xF && kk == 0x18 {
        Ok(Instruction::LdSound { x })
    } else if op == 0xF && kk == 0x1E {
        Ok(Instruction::AddI { x })
    } else if op == 0xF && kk == 0x29 {
        Ok(Instruction::SpriteChar { x })
    } else if op == 0xF && kk == 0x33 {
        Ok(Instruction::Bcd { x })
    } else if op == 0xF && kk == 0x55 {
        Ok(Instruction::StoreRegs { x })
    } else if op == 0xF && kk == 0x65 {
        Ok(Instruction::LoadRegs { x })
    } else {
        Err(DecodeError::UnknownOpcode(w))
    }
}

/// Decodes one instruction word.
pub fn decode(w: u16) -> (r: Result<Instruction, DecodeError>)
    ensures
        r == spec_decode(w),
        r matches Ok(ins) ==> ins.wf(),
{
    let op: u16 = w >> 12;
    let x: u8 = ((w >> 8) & 0xF) as u8;
    let y: u8 = ((w >> 4) & 0xF) as u8;
    let n: u8 = (w & 0xF) as u8;
    let kk: u8 = (w & 0xFF) as u8;
    let nnn: u16 = w & 0x0FFF;
    assert(op == w / 4096 && op < 16) by (bit_vector)
        requires op == w >> 12;
    assert(((w >> 8) & 0xF) == (w / 256) % 16) by (bit_vector);
    assert(((w >> 4) & 0xF) == (w / 16) % 16) by (bit_vector);
    assert((w & 0xF) == w % 16) by (bit_vector);
    assert((w & 0xFF) == w % 256) by (bit_vector);
    assert((w & 0x0FFF) == w % 4096) by (bit_vector);
    if w == 0x00E0 {
        Ok(Instruction::Cls)
    } else if w == 0x00EE {
        Ok(Instruction::Ret)
    } else {
        match op {
            0x1 => Ok(Instruction::Jp { addr: nnn }),
            0x2 => Ok(Instruction::Call { addr: nnn }),
            0x3 => Ok(Instruction::SeByte { x, byte: kk }),
            0x4 => Ok(Instruction::SneByte { x, byte: kk }),
            0x5 => Ok(Instruction::SeReg { x, y }),
            0x6 => Ok(Instruction::LdByte { x, byte: kk }),
            0x7 => Ok(Instruction::AddByte { x, byte: kk }),
            0x8 => match n {
                0x0 => Ok(Instruction::LdReg { x, y }),
                0x1 => Ok(Instruction::Or { x, y }),
                0x2 => Ok(Instruction::And { x, y }),
                0x3 => Ok(Instruction::Xor { x, y }),
                0x4 => Ok(Instruction::AddReg { x, y }),
                0x5 => Ok(Instruction::Sub { x, y }),
                0x6 => Ok(Instruction::Shr { x, y }),
                0x7 => Ok(Instruction::Subn { x, y }),
                0xE => Ok(Instruction::Shl { x, y }),
                _ => Err(DecodeError::UnknownOpcode(w)),
            },
            0x9 => Ok(Instruction::SneReg { x, y }),
            0xA => Ok(Instruction::LdI { addr: nnn }),
            0xB => Ok(Instruction::JpV0 { addr: nnn }),
            0xC => Ok(Instruction::Rnd { x, byte: kk }),
            0xD => Ok(Instruction::Draw { x, y, n }),
            0xE => match kk {
                0x9E => Ok(Instruction::SkipKey { x }),
                0xA1 => Ok(Instruction::SkipNoKey { x }),
                _ => Err(DecodeError::UnknownOpcode(w)),
            },
            0xF => match kk {
                0x07 => Ok(Instruction::LdFromDelay { x }),
                0x0A => Ok(Instruction::WaitKey { x }),
                0x15 => Ok(Instruction::LdDelay { x }),
                0x18 => Ok(Instruction::LdSound { x }),
                0x1E => Ok(Instruction::AddI { x }),
                0x29 => Ok(Instruction::SpriteChar { x }),
                0x33 => Ok(Instruction::Bcd { x }),
                0x55 => Ok(Instruction::StoreRegs { x }),
                0x65 => Ok(Instruction::LoadRegs { x }),
                _ => Err(DecodeError::UnknownOpcode(w)),
            },
            _ => Err(DecodeError::UnknownOpcode(w)),
        }
    }
}

/// Decoding is unambiguous: `decode(w)` is `Ok(ins)` exactly when `w` is
/// an encoding of `ins`, so no word encodes two instructions; and it is an
/// error exactly when `w` encodes no instruction at all.
pub proof fn lemma_decode_unambiguous(w: u16, ins: Instruction)
    ensures
        spec_decode(w) == Ok::<Instruction, DecodeError>(ins) <==> ins.encoded_by(w),
        spec_decode(w) is Err <==> (forall|i: Instruction| !#[trigger] i.encoded_by(w)),
{
    if spec_decode(w) is Err {
        assert forall|i: Instruction| !#[trigger] i.encoded_by(w) by {
        }
    } else {
        assert(spec_decode(w)->Ok_0.encoded_by(w));
    }
}

} // verus!
