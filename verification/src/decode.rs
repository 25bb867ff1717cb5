//! Instruction decoding: classify a 16-bit instruction word by its high
//! nibble (and, for the collision-prone families, a secondary nibble or
//! byte) into a tagged instruction value carrying its decoded operand
//! fields. Anything outside the implemented subset decodes to `None`.

use vstd::prelude::*;

verus! {

/// One decoded instruction of the implemented subset.
///
/// Field conventions, as sliced out of the instruction word `w`:
/// `x` = bits 8-11 (register index), `y` = bits 4-7 (register index),
/// `n` = bits 0-3, `nn` = bits 0-7, `nnn` = bits 0-11 (address).
#[derive(Clone, Copy, Debug, PartialEq, Eq, Structural)]
pub enum Instr {
    /// 00E0: clear the framebuffer.
    Cls,
    /// 00EE: return from subroutine.
    Ret,
    /// 1nnn: unconditional jump.
    Jp { nnn: u16 },
    /// 2nnn: call subroutine.
    Call { nnn: u16 },
    /// 3xnn: skip next instruction if V[x] == nn.
    SkipEq { x: u8, nn: u8 },
    /// 4xnn: skip next instruction if V[x] != nn.
    SkipNe { x: u8, nn: u8 },
    /// 6xnn: V[x] = nn.
    SetReg { x: u8, nn: u8 },
    /// 7xnn: V[x] += nn with 8-bit wraparound, no carry flag.
    AddImm { x: u8, nn: u8 },
    /// 8xy0: V[x] = V[y].
    Copy { x: u8, y: u8 },
    /// 8xy2: V[x] = V[x] & V[y]; VF forced to 0 (legacy quirk).
    AndReg { x: u8, y: u8 },
    /// 8xy4: V[x] += V[y] with wraparound; VF = carry.
    AddReg { x: u8, y: u8 },
    /// Annn: index = nnn.
    SetIndex { nnn: u16 },
    /// Cxnn: V[x] = random byte & nn.
    Rand { x: u8, nn: u8 },
    /// Dxyn: draw the n-row sprite at memory[index..] at coordinates (x, y).
    ///
    /// The coordinates are the opcode nibbles themselves, not register
    /// contents, so with x below 16, y below 16 and at most 15 rows of 8
    /// bits every target pixel lies inside the 64x32 framebuffer: no
    /// wraparound or clipping question arises.
    Draw { x: u8, y: u8, n: u8 },
    /// Fx07: V[x] = delay timer.
    GetDelay { x: u8 },
    /// Fx0A: block until a mapped key arrives; V[x] = its logical index.
    WaitKey { x: u8 },
    /// Fx15: delay timer = V[x].
    SetDelay { x: u8 },
    /// Fx1E: index += V[x], 16-bit wraparound, no overflow flag.
    AddIndex { x: u8 },
    /// Fx29: index = address of glyph V[x]'s fontset bitmap, that is
    /// 0x050 + V[x] * 5.
    ///
    /// This is the standard semantics: the index register receives the
    /// glyph's address, not the byte stored at that address.
    FontAddr { x: u8 },
    /// Fx33: store the BCD digits of V[x] at memory[index..index+3].
    StoreBcd { x: u8 },
    /// Fx55: store V[0..=x] at memory[index..=index+x].
    StoreRegs { x: u8 },
    /// Fx65: load memory[index..=index+x] into V[0..=x].
    LoadRegs { x: u8 },
}

/// Register-index field: bits 8-11.
pub open spec fn op_x(w: u16) -> u8 {
    ((w >> 8) & 0xF) as u8
}

/// Register-index field: bits 4-7.
pub open spec fn op_y(w: u16) -> u8 {
    ((w >> 4) & 0xF) as u8
}

/// Low-nibble field: bits 0-3.
pub open spec fn op_n(w: u16) -> u8 {
    (w & 0xF) as u8
}

/// Immediate-byte field: bits 0-7.
pub open spec fn op_nn(w: u16) -> u8 {
    (w & 0xFF) as u8
}

/// Address field: bits 0-11.
pub open spec fn op_nnn(w: u16) -> u16 {
    w & 0xFFF
}

/// The decoded operand fields lie in the ranges their slices allow:
/// register indices and low nibbles below 16, addresses below 0x1000.
pub open spec fn instr_wf(i: Instr) -> bool {
    match i {
        Instr::Cls => true,
        Instr::Ret => true,
        Instr::Jp { nnn } => nnn < 0x1000,
        Instr::Call { nnn } => nnn < 0x1000,
        Instr::SkipEq { x, nn } => x < 16,
        Instr::SkipNe { x, nn } => x < 16,
        Instr::SetReg { x, nn } => x < 16,
        Instr::AddImm { x, nn } => x < 16,
        Instr::Copy { x, y } => x < 16 && y < 16,
        Instr::AndReg { x, y } => x < 16 && y < 16,
        Instr::AddReg { x, y } => x < 16 && y < 16,
        Instr::SetIndex { nnn } => nnn < 0x1000,
        Instr::Rand { x, nn } => x < 16,
        Instr::Draw { x, y, n } => x < 16 && y < 16 && n < 16,
        Instr::GetDelay { x } => x < 16,
        Instr::WaitKey { x } => x < 16,
        Instr::SetDelay { x } => x < 16,
        Instr::AddIndex { x } => x < 16,
        Instr::FontAddr { x } => x < 16,
        Instr::StoreBcd { x } => x < 16,
        Instr::StoreRegs { x } => x < 16,
        Instr::LoadRegs { x } => x < 16,
    }
}

/// What a well-formed instruction word decodes to, if anything.
pub open spec fn decode_spec(w: u16) -> Option<Instr> {
    if w == 0x00E0 {
        Some(Instr::Cls)
    } else if w == 0x00EE {
        Some(Instr::Ret)
    } else {
        let hi = w >> 12;
        if hi == 0x1 {
            Some(Instr::Jp { nnn: op_nnn(w) })
        } else if hi == 0x2 {
            Some(Instr::Call { nnn: op_nnn(w) })
        } else if hi == 0x3 {
            Some(Instr::SkipEq { x: op_x(w), nn: op_nn(w) })
        } else if hi == 0x4 {
            Some(Instr::SkipNe { x: op_x(w), nn: op_nn(w) })
        } else if hi == 0x6 {
            Some(Instr::SetReg { x: op_x(w), nn: op_nn(w) })
        } else if hi == 0x7 {
            Some(Instr::AddImm { x: op_x(w), nn: op_nn(w) })
        } else if hi == 0x8 {
            let lo = w & 0xF;
            if lo == 0x0 {
                Some(Instr::Copy { x: op_x(w), y: op_y(w) })
            } else if lo == 0x2 {
                Some(Instr::AndReg { x: op_x(w), y: op_y(w) })
            } else if lo == 0x4 {
                Some(Instr::AddReg { x: op_x(w), y: op_y(w) })
            } else {
                None
            }
        } else if hi == 0xA {
            Some(Instr::SetIndex { nnn: op_nnn(w) })
        } else if hi == 0xC {
            Some(Instr::Rand { x: op_x(w), nn: op_nn(w) })
        } else if hi == 0xD {
            Some(Instr::Draw { x: op_x(w), y: op_y(w), n: op_n(w) })
        } else if hi == 0xF {
            let lo = w & 0xFF;
            if lo == 0x07 {
                Some(Instr::GetDelay { x: op_x(w) })
            } else if lo == 0x0A {
                Some(Instr::WaitKey { x: op_x(w) })
            } else if lo == 0x15 {
                Some(Instr::SetDelay { x: op_x(w) })
            } else if lo == 0x1E {
                Some(Instr::AddIndex { x: op_x(w) })
            } else if lo == 0x29 {
                Some(Instr::FontAddr { x: op_x(w) })
            } else if lo == 0x33 {
                Some(Instr::StoreBcd { x: op_x(w) })
            } else if lo == 0x55 {
                Some(Instr::StoreRegs { x: op_x(w) })
            } else if lo == 0x65 {
                Some(Instr::LoadRegs { x: op_x(w) })
            } else {
                None
            }
        } else {
            None
        }
    }
}

/// Whatever a word decodes to is well-formed: every operand field fits
/// the range its bit slice allows.
pub proof fn lemma_decode_wf(w: u16)
    ensures
        decode_spec(w) matches Some(i) ==> instr_wf(i),
{
    assert(((w >> 8) & 0xF) < 16) by (bit_vector);
    assert(((w >> 4) & 0xF) < 16) by (bit_vector);
    assert((w & 0xF) < 16) by (bit_vector);
    assert((w & 0xFFF) < 0x1000) by (bit_vector);
}

/// Classify one instruction word. Returns `None` for any bit pattern
/// outside the implemented subset.
pub fn decode(w: u16) -> (r: Option<Instr>)
    ensures
        r == decode_spec(w),
        r matches Some(i) ==> instr_wf(i),
{
    proof {
        lemma_decode_wf(w);
    }
    if w == 0x00E0 {
        Some(Instr::Cls)
    } else if w == 0x00EE {
        Some(Instr::Ret)
    } else {
        let hi: u16 = w >> 12;
        let x: u8 = ((w >> 8) & 0xF) as u8;
        let y: u8 = ((w >> 4) & 0xF) as u8;
        let n: u8 = (w & 0xF) as u8;
        let nn: u8 = (w & 0xFF) as u8;
        let nnn: u16 = w & 0xFFF;
        if hi == 0x1 {
            Some(Instr::Jp { nnn })
        } else if hi == 0x2 {
            Some(Instr::Call { nnn })
        } else if hi == 0x3 {
            Some(Instr::SkipEq { x, nn })
        } else if hi == 0x4 {
            Some(Instr::SkipNe { x, nn })
        } else if hi == 0x6 {
            Some(Instr::SetReg { x, nn })
        } else if hi == 0x7 {
            Some(Instr::AddImm { x, nn })
        } else if hi == 0x8 {
            let lo: u16 = w & 0xF;
            if lo == 0x0 {
                Some(Instr::Copy { x, y })
            } else if lo == 0x2 {
                Some(Instr::AndReg { x, y })
            } else if lo == 0x4 {
                Some(Instr::AddReg { x, y })
            } else {
                None
            }
        } else if hi == 0xA {
            Some(Instr::SetIndex { nnn })
        } else if hi == 0xC {
            Some(Instr::Rand { x, nn })
        } else if hi == 0xD {
            Some(Instr::Draw { x, y, n })
        } else if hi == 0xF {
            let lo: u16 = w & 0xFF;
            if lo == 0x07 {
                Some(Instr::GetDelay { x })
            } else if lo == 0x0A {
                Some(Instr::WaitKey { x })
            } else if lo == 0x15 {
                Some(Instr::SetDelay { x })
            } else if lo == 0x1E {
                Some(Instr::AddIndex { x })
            } else if lo == 0x29 {
                Some(Instr::FontAddr { x })
            } else if lo == 0x33 {
                Some(Instr::StoreBcd { x })
            } else if lo == 0x55 {
                Some(Instr::StoreRegs { x })
            } else if lo == 0x65 {
                Some(Instr::LoadRegs { x })
            } else {
                None
            }
        } else {
            None
        }
    }
}

} // verus!
