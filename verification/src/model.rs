//! The mathematical model of the machine state: a ghost mirror of the
//! concrete [`crate::cpu::Cpu`], together with the specification-level
//! transition functions that the executable interpreter is proved against.

use vstd::prelude::*;

verus! {

/// Number of bytes of machine memory.
pub const MEM_LEN: usize = 4096;

/// First address of the program/data area; the reset value of the
/// program counter.
pub const DATA_START: usize = 0x200;

/// Capacity of the program/data area in bytes (0xFFF - 0x200 + 1).
pub const DATA_LEN: usize = 0xE00;

/// First address of the fontset area.
pub const FONT_START: usize = 0x050;

/// Number of general registers, stack slots, and keymap entries.
pub const REG_NUM: usize = 16;

/// Framebuffer width in pixels.
pub const GFX_WIDTH: usize = 64;

/// Framebuffer height in pixels.
pub const GFX_HEIGHT: usize = 32;

/// Framebuffer size in pixels (row-major, one byte per pixel).
pub const GFX_LEN: usize = 2048;

/// The machine state as mathematics: every field of the concrete machine
/// as a sequence or a scalar, with no executable representation.
#[verifier::ext_equal]
pub ghost struct Chip8 {
    /// 4096 bytes of memory.
    pub mem: Seq<u8>,
    /// The sixteen general registers V0..VF.
    pub reg: Seq<u8>,
    /// The 16-bit index register.
    pub index: u16,
    /// Address of the next instruction to fetch.
    pub pc: usize,
    /// The sixteen return-address slots.
    pub stack: Seq<usize>,
    /// Next free stack slot; 0 means empty.
    pub sp: usize,
    /// Delay timer.
    pub dt: u8,
    /// Sound timer.
    pub st: u8,
    /// 64x32 framebuffer, values in {0, 1}, index = y * 64 + x.
    pub gfx: Seq<u8>,
    /// Keymap: logical key index 0..=15 to external key code.
    pub key: Seq<u8>,
    /// The instruction word most recently fetched.
    pub opcode: u16,
}

impl Chip8 {
    /// Well-formedness: the fixed sizes of every component, the stack
    /// pointer within its sixteen slots, every framebuffer byte a pixel
    /// value, and every stored return address one from which the two-byte
    /// fetch that pushed it could have succeeded.
    pub open spec fn wf(self) -> bool {
        &&& self.mem.len() == MEM_LEN
        &&& self.reg.len() == REG_NUM
        &&& self.stack.len() == REG_NUM
        &&& self.gfx.len() == GFX_LEN
        &&& self.key.len() == REG_NUM
        &&& self.sp <= REG_NUM
        &&& forall|p: int| 0 <= p < GFX_LEN ==> self.gfx[p] == 0 || #[trigger] self.gfx[p] == 1
        &&& forall|i: int| 0 <= i < REG_NUM ==> #[trigger] self.stack[i] <= MEM_LEN - 2
    }
}

/// The two bytes at the program counter combined big-endian into one
/// instruction word. Meaningful only when `s.pc + 1` is in bounds.
pub open spec fn fetch_word(s: Chip8) -> u16 {
    ((s.mem[s.pc as int] as u16) << 8) | (s.mem[s.pc + 1] as u16)
}

/// The per-cycle timer decrement: each timer moves one toward zero and
/// never wraps below it.
pub open spec fn tick(s: Chip8) -> Chip8 {
    Chip8 {
        dt: if s.dt > 0 {
            (s.dt - 1) as u8
        } else {
            0u8
        },
        st: if s.st > 0 {
            (s.st - 1) as u8
        } else {
            0u8
        },
        ..s
    }
}

/// Whether the cycle that ticks the timers of `s` raises the beep event:
/// the sound timer is exactly 1 before its decrement.
pub open spec fn beeps(s: Chip8) -> bool {
    s.st == 1
}

/// An integer reduced to its low 8 bits.
pub open spec fn wrap8(v: int) -> u8 {
    (v % 256) as u8
}

/// An integer reduced to its low 16 bits.
pub open spec fn wrap16(v: int) -> u16 {
    (v % 0x10000) as u16
}

/// One of five values selected by row number.
pub open spec fn pick5(r: int, b0: u8, b1: u8, b2: u8, b3: u8, b4: u8) -> u8 {
    if r == 0 {
        b0
    } else if r == 1 {
        b1
    } else if r == 2 {
        b2
    } else if r == 3 {
        b3
    } else {
        b4
    }
}

/// Row `r` of the five-byte bitmap for hexadecimal digit `d`.
pub open spec fn glyph_row(d: int, r: int) -> u8 {
    if d == 0 {
        pick5(r, 0xF0, 0x90, 0x90, 0x90, 0xF0)
    } else if d == 1 {
        pick5(r, 0x20, 0x60, 0x20, 0x20, 0x70)
    } else if d == 2 {
        pick5(r, 0xF0, 0x10, 0xF0, 0x80, 0xF0)
    } else if d == 3 {
        pick5(r, 0xF0, 0x10, 0xF0, 0x10, 0xF0)
    } else if d == 4 {
        pick5(r, 0x90, 0x90, 0xF0, 0x10, 0x10)
    } else if d == 5 {
        pick5(r, 0xF0, 0x80, 0xF0, 0x10, 0xF0)
    } else if d == 6 {
        pick5(r, 0xF0, 0x80, 0xF0, 0x90, 0xF0)
    } else if d == 7 {
        pick5(r, 0xF0, 0x10, 0x20, 0x40, 0x40)
    } else if d == 8 {
        pick5(r, 0xF0, 0x90, 0xF0, 0x90, 0xF0)
    } else if d == 9 {
        pick5(r, 0xF0, 0x90, 0xF0, 0x10, 0xF0)
    } else if d == 10 {
        pick5(r, 0xF0, 0x90, 0xF0, 0x90, 0x90)
    } else if d == 11 {
        pick5(r, 0xE0, 0x90, 0xE0, 0x90, 0xE0)
    } else if d == 12 {
        pick5(r, 0xF0, 0x80, 0x80, 0x80, 0xF0)
    } else if d == 13 {
        pick5(r, 0xE0, 0x90, 0x90, 0x90, 0xE0)
    } else if d == 14 {
        pick5(r, 0xF0, 0x80, 0xF0, 0x80, 0xF0)
    } else {
        pick5(r, 0xF0, 0x80, 0xF0, 0x80, 0x80)
    }
}

/// Byte `k` of the 80-byte fontset image: glyph `k / 5`, row `k % 5`.
pub open spec fn fontset_at(k: int) -> u8 {
    glyph_row(k / 5, k % 5)
}

/// Entry `k` of the fixed keymap: the external key code for logical key
/// index `k`.
pub open spec fn keypad_at(k: int) -> u8 {
    if k == 0 {
        0x78
    } else if k == 1 {
        0x31
    } else if k == 2 {
        0x32
    } else if k == 3 {
        0x33
    } else if k == 4 {
        0x71
    } else if k == 5 {
        0x77
    } else if k == 6 {
        0x65
    } else if k == 7 {
        0x61
    } else if k == 8 {
        0x73
    } else if k == 9 {
        0x64
    } else if k == 10 {
        0x7A
    } else if k == 11 {
        0x63
    } else if k == 12 {
        0x34
    } else if k == 13 {
        0x72
    } else if k == 14 {
        0x66
    } else {
        0x76
    }
}

} // verus!
