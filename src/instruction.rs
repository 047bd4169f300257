use vstd::prelude::*;

use crate::error::Chip8Error;

verus! {

/// One decoded instruction. `x` and `y` name registers V0 to VF, `kk` is an
/// immediate byte, `n` a nibble and `addr` a 12-bit address.
#[derive(Clone, Copy, Debug, PartialEq, Eq, Structural)]
pub enum Instruction {
    /// 0nnn: machine-code routine; ignored.
    Sys { addr: u16 },
    /// 00E0: clear the screen.
    Cls,
    /// 00EE: return from a subroutine.
    Ret,
    /// 1nnn: jump.
    Jp { addr: u16 },
    /// 2nnn: call a subroutine.
    Call { addr: u16 },
    /// 3xkk: skip if Vx == kk.
    SeByte { x: u8, kk: u8 },
    /// 4xkk: skip if Vx != kk.
    SneByte { x: u8, kk: u8 },
    /// 5xy0: skip if Vx == Vy.
    SeReg { x: u8, y: u8 },
    /// 6xkk: Vx = kk.
    LdByte { x: u8, kk: u8 },
    /// 7xkk: Vx += kk, without carry.
    AddByte { x: u8, kk: u8 },
    /// 8xy0: Vx = Vy.
    LdReg { x: u8, y: u8 },
    /// 8xy1: Vx |= Vy.
    Or { x: u8, y: u8 },
    /// 8xy2: Vx &= Vy.
    And { x: u8, y: u8 },
    /// 8xy3: Vx ^= Vy.
    Xor { x: u8, y: u8 },
    /// 8xy4: Vx += Vy, VF = carry.
    AddReg { x: u8, y: u8 },
    /// 8xy5: Vx -= Vy, VF = no borrow.
    Sub { x: u8, y: u8 },
    /// 8xy6: Vx >>= 1, VF = the bit shifted out.
    Shr { x: u8, y: u8 },
    /// 8xy7: Vx = Vy - Vx, VF = no borrow.
    Subn { x: u8, y: u8 },
    /// 8xyE: Vx <<= 1, VF = the bit shifted out.
    Shl { x: u8, y: u8 },
    /// 9xy0: skip if Vx != Vy.
    SneReg { x: u8, y: u8 },
    /// Annn: I = addr.
    LdI { addr: u16 },
    /// Bnnn: jump to addr + V0.
    JpV0 { addr: u16 },
    /// Cxkk: Vx = random byte & kk.
    Rnd { x: u8, kk: u8 },
    /// Dxyn: draw the n-byte sprite at I at (Vx, Vy); VF = collision.
    Drw { x: u8, y: u8, n: u8 },
    /// Ex9E: skip if key Vx is down.
    Skp { x: u8 },
    /// ExA1: skip if key Vx is up.
    Sknp { x: u8 },
    /// Fx07: Vx = delay timer.
    LdVxDt { x: u8 },
    /// Fx0A: wait for a key, Vx = key.
    LdVxK { x: u8 },
    /// Fx15: delay timer = Vx.
    LdDtVx { x: u8 },
    /// Fx18: sound timer = Vx.
    LdStVx { x: u8 },
    /// Fx1E: I += Vx.
    AddIVx { x: u8 },
    /// Fx29: I = address of the glyph for digit Vx.
    LdFVx { x: u8 },
    /// Fx33: BCD of Vx at I, I + 1, I + 2.
    LdBVx { x: u8 },
    /// Fx55: store V0 to Vx at I onwards.
    StoreRegs { x: u8 },
    /// Fx65: load V0 to Vx from I onwards.
    LoadRegs { x: u8 },
}

/// Every operand fits its field of the instruction word.
pub open spec fn operands_fit(ins: Instruction) -> bool {
    match ins {
        Instruction::Sys { addr } | Instruction::Jp { addr } | Instruction::Call { addr }
        | Instruction::LdI { addr } | Instruction::JpV0 { addr } => addr < 0x1000,
        Instruction::SeByte { x, .. } | Instruction::SneByte { x, .. }
        | Instruction::LdByte { x, .. } | Instruction::AddByte { x, .. }
        | Instruction::Rnd { x, .. } | Instruction::Skp { x } | Instruction::Sknp { x }
        | Instruction::LdVxDt { x } | Instruction::LdVxK { x } | Instruction::LdDtVx { x }
        | Instruction::LdStVx { x } | Instruction::AddIVx { x } | Instruction::LdFVx { x }
        | Instruction::LdBVx { x } | Instruction::StoreRegs { x }
        | Instruction::LoadRegs { x } => x < 16,
        Instruction::SeReg { x, y } | Instruction::LdReg { x, y } | Instruction::Or { x, y }
        | Instruction::And { x, y } | Instruction::Xor { x, y } | Instruction::AddReg { x, y }
        | Instruction::Sub { x, y } | Instruction::Shr { x, y } | Instruction::Subn { x, y }
        | Instruction::Shl { x, y } | Instruction::SneReg { x, y } => x < 16 && y < 16,
        Instruction::Drw { x, y, n } => x < 16 && y < 16 && n < 16,
        Instruction::Cls | Instruction::Ret => true,
    }
}

/// The instruction that word `w` encodes, if any. The high nibble selects
/// the group; groups 0, 8, E and F are told apart by the low byte or nibble.
pub open spec fn decode_word(w: u16) -> Option<Instruction> {
    let op = w / 0x1000;
    let x = ((w / 0x100) % 0x10) as u8;
    let y = ((w / 0x10) % 0x10) as u8;
    let n = (w % 0x10) as u8;
    let kk = (w % 0x100) as u8;
    let addr = (w % 0x1000) as u16;
    if op == 0x0 {
        if w == 0x00E0 {
            Some(Instruction::Cls)
        } else if w == 0x00EE {
            Some(Instruction::Ret)
        } else {
            Some(Instruction::Sys { addr })
        }
    } else if op == 0x1 {
        Some(Instruction::Jp { addr })
    } else if op == 0x2 {
        Some(Instruction::Call { addr })
    } else if op == 0x3 {
        Some(Instruction::SeByte { x, kk })
    } else if op == 0x4 {
        Some(Instruction::SneByte { x, kk })
    } else if op == 0x5 {
        if n == 0 {
            Some(Instruction::SeReg { x, y })
        } else {
            None
        }
    } else if op == 0x6 {
        Some(Instruction::LdByte { x, kk })
    } else if op == 0x7 {
        Some(Instruction::AddByte { x, kk })
    } else if op == 0x8 {
        if n == 0x0 {
            Some(Instruction::LdReg { x, y })
        } else if n == 0x1 {
            Some(Instruction::Or { x, y })
        } else if n == 0x2 {
            Some(Instruction::And { x, y })
        } else if n == 0x3 {
            Some(Instruction::Xor { x, y })
        } else if n == 0x4 {
            Some(Instruction::AddReg { x, y })
        } else if n == 0x5 {
            Some(Instruction::Sub { x, y })
        } else if n == 0x6 {
            Some(Instruction::Shr { x, y })
        } else if n == 0x7 {
            Some(Instruction::Subn { x, y })
        } else if n == 0xE {
            Some(Instruction::Shl { x, y })
        } else {
            None
        }
    } else if op == 0x9 {
        if n == 0 {
            Some(Instruction::SneReg { x, y })
        } else {
            None
        }
    } else if op == 0xA {
        Some(Instruction::LdI { addr })
    } else if op == 0xB {
        Some(Instruction::JpV0 { addr })
    } else if op == 0xC {
        Some(Instruction::Rnd { x, kk })
    } else if op == 0xD {
        Some(Instruction::Drw { x, y, n })
    } else if op == 0xE {
        if kk == 0x9E {
            Some(Instruction::Skp { x })
        } else if kk == 0xA1 {
            Some(Instruction::Sknp { x })
        } else {
            None
        }
    } else if kk == 0x07 {
        Some(Instruction::LdVxDt { x })
    } else if kk == 0x0A {
        Some(Instruction::LdVxK { x })
    } else if kk == 0x15 {
        Some(Instruction::LdDtVx { x })
    } else if kk == 0x18 {
        Some(Instruction::LdStVx { x })
    } else if kk == 0x1E {
        Some(Instruction::AddIVx { x })
    } else if kk == 0x29 {
        Some(Instruction::LdFVx { x })
    } else if kk == 0x33 {
        Some(Instruction::LdBVx { x })
    } else if kk == 0x55 {
        Some(Instruction::StoreRegs { x })
    } else if kk == 0x65 {
        Some(Instruction::LoadRegs { x })
    } else {
        None
    }
}

/// Every word that decodes gives an instruction whose operands fit.
pub proof fn lemma_decoded_operands_fit(w: u16)
    ensures
        decode_word(w) matches Some(ins) ==> operands_fit(ins),
{
}

/// Decodes one instruction word; a word that encodes no instruction fails
/// with `InvalidOpcode`.
pub fn decode(w: u16) -> (r: Result<Instruction, Chip8Error>)
    ensures
        decode_word(w) matches Some(ins) ==> r == Ok::<Instruction, Chip8Error>(ins),
        decode_word(w) is None ==> r == Err::<Instruction, Chip8Error>(
            Chip8Error::InvalidOpcode,
        ),
        r matches Ok(ins) ==> operands_fit(ins),
{
    let op = w / 0x1000;
    let x = ((w / 0x100) % 0x10) as u8;
    let y = ((w / 0x10) % 0x10) as u8;
    let n = (w % 0x10) as u8;
    let kk = (w % 0x100) as u8;
    let addr = w % 0x1000;
    let decoded = match op {
        0x0 => {
            if w == 0x00E0 {
                Some(Instruction::Cls)
            } else if w == 0x00EE {
                Some(Instruction::Ret)
            } else {
                Some(Instruction::Sys { addr })
            }
        },
        0x1 => Some(Instruction::Jp { addr }),
        0x2 => Some(Instruction::Call { addr }),
        0x3 => Some(Instruction::SeByte { x, kk }),
        0x4 => Some(Instruction::SneByte { x, kk }),
        0x5 => {
            if n == 0 {
                Some(Instruction::SeReg { x, y })
            } else {
                None
            }
        },
        0x6 => Some(Instruction::LdByte { x, kk }),
        0x7 => Some(Instruction::AddByte { x, kk }),
        0x8 => match n {
            0x0 => Some(Instruction::LdReg { x, y }),
            0x1 => Some(Instruction::Or { x, y }),
            0x2 => Some(Instruction::And { x, y }),
            0x3 => Some(Instruction::Xor { x, y }),
            0x4 => Some(Instruction::AddReg { x, y }),
            0x5 => Some(Instruction::Sub { x, y }),
            0x6 => Some(Instruction::Shr { x, y }),
            0x7 => Some(Instruction::Subn { x, y }),
            0xE => Some(Instruction::Shl { x, y }),
            _ => None,
        },
        0x9 => {
            if n == 0 {
                Some(Instruction::SneReg { x, y })
            } else {
                None
            }
        },
        0xA => Some(Instruction::LdI { addr }),
        0xB => Some(Instruction::JpV0 { addr }),
        0xC => Some(Instruction::Rnd { x, kk }),
        0xD => Some(Instruction::Drw { x, y, n }),
        0xE => match kk {
            0x9E => Some(Instruction::Skp { x }),
            0xA1 => Some(Instruction::Sknp { x }),
            _ => None,
        },
        _ => match kk {
            0x07 => Some(Instruction::LdVxDt { x }),
            0x0A => Some(Instruction::LdVxK { x }),
            0x15 => Some(Instruction::LdDtVx { x }),
            0x18 => Some(Instruction::LdStVx { x }),
            0x1E => Some(Instruction::AddIVx { x }),
            0x29 => Some(Instruction::LdFVx { x }),
            0x33 => Some(Instruction::LdBVx { x }),
            0x55 => Some(Instruction::StoreRegs { x }),
            0x65 => Some(Instruction::LoadRegs { x }),
            _ => None,
        },
    };
    match decoded {
        Some(ins) => Ok(ins),
        None => Err(Chip8Error::InvalidOpcode),
    }
}

} // verus!
