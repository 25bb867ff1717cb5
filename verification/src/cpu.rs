//! The interpreter engine: the concrete machine state and the
//! fetch-decode-execute cycle, proved against the ghost model in
//! [`crate::model`] and the transition relation in [`crate::transition`].

use vstd::prelude::*;
use vstd::pervasive::VecAdditionalExecFns;
use vstd::slice::slice_index_get;
use crate::decode::{decode, instr_wf, op_x, Instr};
use crate::draw::{
    bit_of, collides_before, draw_before, lemma_draw_done, lemma_draw_row_end, lemma_draw_step,
    lemma_draw_zero,
};
use crate::model::{
    beeps, fetch_word, fontset_at, keypad_at, tick, Chip8, DATA_LEN, DATA_START, FONT_START,
    GFX_LEN, MEM_LEN, REG_NUM,
};
use crate::transition::{awaiting_key, cycle_rel, exec_fault, exec_spec, key_rel};
use crate::{CycleOutcome, Fault, KeyOutcome};

verus! {

/// The machine state: memory, registers, index register, program
/// counter, call stack, timers, framebuffer, and keymap. Exclusively
/// mutated through [`Cpu::emulate_cycle`] and [`Cpu::provide_key`] once
/// the program is loaded.
#[derive(Debug, Clone)]
pub struct Cpu {
    pc: usize,
    opcode: u16,
    memory: Vec<u8>,
    reg: Vec<u8>,
    index: u16,
    gfx: Vec<u8>,
    delay_timer: u8,
    sound_timer: u8,
    stack: Vec<usize>,
    sp: usize,
    key: Vec<u8>,
}

impl View for Cpu {
    type V = Chip8;

    closed spec fn view(&self) -> Chip8 {
        Chip8 {
            mem: self.memory@,
            reg: self.reg@,
            index: self.index,
            pc: self.pc,
            stack: self.stack@,
            sp: self.sp,
            dt: self.delay_timer,
            st: self.sound_timer,
            gfx: self.gfx@,
            key: self.key@,
            opcode: self.opcode,
        }
    }
}

/// A vector of `n` zero bytes.
fn zero_bytes(n: usize) -> (v: Vec<u8>)
    ensures
        v@.len() == n,
        forall|i: int| 0 <= i < n ==> v@[i] == 0,
{
    let mut v: Vec<u8> = Vec::new();
    let mut a: usize = 0;
    while a < n
        invariant
            a <= n,
            v@.len() == a,
            forall|i: int| 0 <= i < a ==> v@[i] == 0,
        decreases n - a,
    {
        v.push(0);
        a = a + 1;
    }
    v
}

/// One of five bytes selected by row number.
fn pick5(r: usize, b0: u8, b1: u8, b2: u8, b3: u8, b4: u8) -> (b: u8)
    ensures
        b == crate::model::pick5(r as int, b0, b1, b2, b3, b4),
{
    if r == 0 {
        b0
    } else if r == 1 {
        b1
    } else if r == 2 {
        b2
    } else if r == 3 {
        b3
    } else {
        b4
    }
}

/// Byte `k` of the 80-byte fontset image: row `k % 5` of the glyph for
/// hexadecimal digit `k / 5`.
fn font_byte(k: usize) -> (b: u8)
    requires
        k < 80,
    ensures
        b == fontset_at(k as int),
{
    let d: usize = k / 5;
    let r: usize = k % 5;
    if d == 0 {
        pick5(r, 0xF0, 0x90, 0x90, 0x90, 0xF0)
    } else if d == 1 {
        pick5(r, 0x20, 0x60, 0x20, 0x20, 0x70)
    } else if d == 2 {
        pick5(r, 0xF0, 0x10, 0xF0, 0x80, 0xF0)
    } else if d == 3 {
        pick5(r, 0xF0, 0x10, 0xF0, 0x10, 0xF0)
    } else if d == 4 {
        pick5(r, 0x90, 0x90, 0xF0, 0x10, 0x10)
    } else if d == 5 {
        pick5(r, 0xF0, 0x80, 0xF0, 0x10, 0xF0)
    } else if d == 6 {
        pick5(r, 0xF0, 0x80, 0xF0, 0x90, 0xF0)
    } else if d == 7 {
        pick5(r, 0xF0, 0x10, 0x20, 0x40, 0x40)
    } else if d == 8 {
        pick5(r, 0xF0, 0x90, 0xF0, 0x90, 0xF0)
    } else if d == 9 {
        pick5(r, 0xF0, 0x90, 0xF0, 0x10, 0xF0)
    } else if d == 10 {
        pick5(r, 0xF0, 0x90, 0xF0, 0x90, 0x90)
    } else if d == 11 {
        pick5(r, 0xE0, 0x90, 0xE0, 0x90, 0xE0)
    } else if d == 12 {
        pick5(r, 0xF0, 0x80, 0x80, 0x80, 0xF0)
    } else if d == 13 {
        pick5(r, 0xE0, 0x90, 0x90, 0x90, 0xE0)
    } else if d == 14 {
        pick5(r, 0xF0, 0x80, 0xF0, 0x80, 0xF0)
    } else {
        pick5(r, 0xF0, 0x80, 0xF0, 0x80, 0x80)
    }
}

/// Entry `k` of the fixed keymap.
fn keypad_byte(k: usize) -> (b: u8)
    requires
        k < REG_NUM,
    ensures
        b == keypad_at(k as int),
{
    if k == 0 {
        0x78
    } else if k == 1 {
        0x31
    } else if k == 2 {
        0x32
    } else if k == 3 {
        0x33
    } else if k == 4 {
        0x71
    } else if k == 5 {
        0x77
    } else if k == 6 {
        0x65
    } else if k == 7 {
        0x61
    } else if k == 8 {
        0x73
    } else if k == 9 {
        0x64
    } else if k == 10 {
        0x7A
    } else if k == 11 {
        0x63
    } else if k == 12 {
        0x34
    } else if k == 13 {
        0x72
    } else if k == 14 {
        0x66
    } else {
        0x76
    }
}

/// Construct the machine in its reset state: zeroed registers, stack,
/// timers and framebuffer; the program counter at the start of the
/// program area; the 80-byte fontset pre-loaded at its fixed address and
/// all other memory zero; the keymap pre-populated.
pub fn init() -> (r: Cpu)
    ensures
        r@.wf(),
        r@.pc == DATA_START,
        r@.opcode == 0,
        r@.index == 0,
        r@.sp == 0,
        r@.dt == 0,
        r@.st == 0,
        forall|i: int| 0 <= i < REG_NUM ==> r@.reg[i] == 0,
        forall|i: int| 0 <= i < REG_NUM ==> r@.stack[i] == 0,
        forall|p: int| 0 <= p < GFX_LEN ==> r@.gfx[p] == 0,
        forall|k: int| 0 <= k < REG_NUM ==> r@.key[k] == keypad_at(k),
        forall|a: int|
            0 <= a < MEM_LEN ==> r@.mem[a] == (if FONT_START <= a < FONT_START + 80 {
                fontset_at(a - FONT_START)
            } else {
                0u8
            }),
{
    let mut memory: Vec<u8> = zero_bytes(MEM_LEN);
    let mut f: usize = 0;
    while f < 80
        invariant
            f <= 80,
            memory@.len() == MEM_LEN,
            forall|a: int|
                0 <= a < MEM_LEN ==> memory@[a] == (if FONT_START <= a < FONT_START + f {
                    fontset_at(a - FONT_START)
                } else {
                    0u8
                }),
        decreases 80 - f,
    {
        memory.set(FONT_START + f, font_byte(f));
        f = f + 1;
    }
    let mut key: Vec<u8> = Vec::new();
    let mut k: usize = 0;
    while k < REG_NUM
        invariant
            k <= REG_NUM,
            key@.len() == k,
            forall|i: int| 0 <= i < k ==> key@[i] == keypad_at(i),
        decreases REG_NUM - k,
    {
        key.push(keypad_byte(k));
        k = k + 1;
    }
    let mut stack: Vec<usize> = Vec::new();
    let mut s: usize = 0;
    while s < REG_NUM
        invariant
            s <= REG_NUM,
            stack@.len() == s,
            forall|i: int| 0 <= i < s ==> stack@[i] == 0,
        decreases REG_NUM - s,
    {
        stack.push(0);
        s = s + 1;
    }
    Cpu {
        pc: DATA_START,
        opcode: 0,
        memory,
        reg: zero_bytes(REG_NUM),
        index: 0,
        sp: 0,
        stack,
        gfx: zero_bytes(GFX_LEN),
        delay_timer: 0,
        sound_timer: 0,
        key,
    }
}

impl Cpu {
    /// Copy a program image into memory starting at the program area.
    /// An image longer than the program area is rejected whole as
    /// malformed input, with the machine untouched.
    pub fn load_rom(&mut self, rom: &[u8]) -> (r: Result<(), Fault>)
        requires
            old(self)@.wf(),
        ensures
            final(self)@.wf(),
            rom@.len() > DATA_LEN ==> r == Err::<(), Fault>(Fault::MalformedInput)
                && final(self)@ == old(self)@,
            rom@.len() <= DATA_LEN ==> {
                &&& r == Ok::<(), Fault>(())
                &&& final(self)@ == (Chip8 {
                    mem: Seq::new(
                        old(self)@.mem.len(),
                        |a: int|
                            if DATA_START <= a < DATA_START + rom@.len() {
                                rom@[a - DATA_START]
                            } else {
                                old(self)@.mem[a]
                            },
                    ),
                    ..old(self)@
                })
            },
    {
        if rom.len() > DATA_LEN {
            return Err(Fault::MalformedInput);
        }
        let n: usize = rom.len();
        let mut i: usize = 0;
        while i < n
            invariant
                i <= n,
                n == rom@.len(),
                n <= DATA_LEN,
                self@.mem.len() == MEM_LEN,
                self@ == (Chip8 {
                    mem: Seq::new(
                        old(self)@.mem.len(),
                        |a: int|
                            if DATA_START <= a < DATA_START + i {
                                rom@[a - DATA_START]
                            } else {
                                old(self)@.mem[a]
                            },
                    ),
                    ..old(self)@
                }),
            decreases n - i,
        {
            self.memory.set(DATA_START + i, *slice_index_get(rom, i));
            i = i + 1;
            proof {
                assert(self@.mem =~= Seq::new(
                    old(self)@.mem.len(),
                    |a: int|
                        if DATA_START <= a < DATA_START + i {
                            rom@[a - DATA_START]
                        } else {
                            old(self)@.mem[a]
                        },
                ));
            }
        }
        proof {
            assert(self@ =~= (Chip8 {
                mem: Seq::new(
                    old(self)@.mem.len(),
                    |a: int|
                        if DATA_START <= a < DATA_START + rom@.len() {
                            rom@[a - DATA_START]
                        } else {
                            old(self)@.mem[a]
                        },
                ),
                ..old(self)@
            }));
        }
        Ok(())
    }

    /// The current program counter.
    pub fn curr_pc(&mut self) -> (r: usize)
        ensures
            final(self)@ == old(self)@,
            r == old(self)@.pc,
    {
        self.pc
    }

    /// The current index register, widened to an address-sized integer.
    pub fn curr_index(&mut self) -> (r: usize)
        ensures
            final(self)@ == old(self)@,
            r == old(self)@.index,
    {
        self.index as usize
    }

    /// The instruction word most recently fetched.
    pub fn curr_opcode(&mut self) -> (r: u16)
        ensures
            final(self)@ == old(self)@,
            r == old(self)@.opcode,
    {
        self.opcode
    }

    /// A snapshot of the sixteen general registers.
    pub fn curr_regs(&mut self) -> (r: Vec<u8>)
        ensures
            final(self)@ == old(self)@,
            r@ == old(self)@.reg,
    {
        let mut out: Vec<u8> = Vec::new();
        let mut i: usize = 0;
        let n: usize = self.reg.len();
        while i < n
            invariant
                i <= n,
                n == self.reg.len(),
                self@ == old(self)@,
                out@ =~= self.reg@.take(i as int),
            decreases n - i,
        {
            out.push(self.reg[i]);
            i = i + 1;
        }
        proof {
            assert(out@ =~= self@.reg);
        }
        out
    }

    /// A snapshot of the sixteen return-address slots.
    pub fn curr_stack(&mut self) -> (r: Vec<usize>)
        ensures
            final(self)@ == old(self)@,
            r@ == old(self)@.stack,
    {
        let mut out: Vec<usize> = Vec::new();
        let mut i: usize = 0;
        let n: usize = self.stack.len();
        while i < n
            invariant
                i <= n,
                n == self.stack.len(),
                self@ == old(self)@,
                out@ =~= self.stack@.take(i as int),
            decreases n - i,
        {
            out.push(self.stack[i]);
            i = i + 1;
        }
        proof {
            assert(out@ =~= self@.stack);
        }
        out
    }

    /// The current stack pointer: the next free slot, 0 when empty.
    pub fn curr_sp(&mut self) -> (r: usize)
        ensures
            final(self)@ == old(self)@,
            r == old(self)@.sp,
    {
        self.sp
    }

    /// A snapshot of the framebuffer, row-major, one byte per pixel.
    pub fn curr_gfx(&mut self) -> (r: Vec<u8>)
        ensures
            final(self)@ == old(self)@,
            r@ == old(self)@.gfx,
    {
        let mut out: Vec<u8> = Vec::new();
        let mut i: usize = 0;
        let n: usize = self.gfx.len();
        while i < n
            invariant
                i <= n,
                n == self.gfx.len(),
                self@ == old(self)@,
                out@ =~= self.gfx@.take(i as int),
            decreases n - i,
        {
            out.push(self.gfx[i]);
            i = i + 1;
        }
        proof {
            assert(out@ =~= self@.gfx);
        }
        out
    }

    /// The current delay timer.
    pub fn curr_dt(&mut self) -> (r: u8)
        ensures
            final(self)@ == old(self)@,
            r == old(self)@.dt,
    {
        self.delay_timer
    }

    /// The current sound timer.
    pub fn curr_st(&mut self) -> (r: u8)
        ensures
            final(self)@ == old(self)@,
            r == old(self)@.st,
    {
        self.sound_timer
    }

    /// The two bytes at the program counter combined big-endian.
    fn fetch_current(&self) -> (w: u16)
        requires
            self@.wf(),
            self@.pc <= MEM_LEN - 2,
        ensures
            w == fetch_word(self@),
    {
        let hi: u8 = self.memory[self.pc];
        let lo: u8 = self.memory[self.pc + 1];
        ((hi as u16) << 8) | (lo as u16)
    }

    /// The per-cycle timer decrement; reports the audible-beep event,
    /// raised exactly when the sound timer stands at 1 before it.
    fn tick_timers(&mut self) -> (b: bool)
        ensures
            final(self)@ == tick(old(self)@),
            b == beeps(old(self)@),
    {
        let b: bool = self.sound_timer == 1;
        if self.delay_timer > 0 {
            self.delay_timer = self.delay_timer - 1;
        }
        if self.sound_timer > 0 {
            self.sound_timer = self.sound_timer - 1;
        }
        proof {
            assert(self@ =~= tick(old(self)@));
        }
        b
    }

    /// Execute one decoded instruction (never the key-wait one): either
    /// fault before any state change, or produce exactly the state the
    /// model assigns to the instruction. The returned ghost byte is the
    /// one the randomness source produced this cycle.
    fn exec_instr(&mut self, instr: Instr) -> (r: Result<Ghost<u8>, Fault>)
        requires
            old(self)@.wf(),
            instr_wf(instr),
            !(instr is WaitKey),
            old(self)@.pc <= MEM_LEN - 2,
        ensures
            final(self)@.wf(),
            match r {
                Result::Err(f) => exec_fault(old(self)@, instr) == Some(f) && final(self)@ == old(
                    self,
                )@,
                Result::Ok(g) => exec_fault(old(self)@, instr) is None && final(self)@
                    == exec_spec(old(self)@, instr, g@),
            },
    {
        match instr {
            Instr::Cls => {
                self.gfx = zero_bytes(GFX_LEN);
                self.pc = self.pc + 2;
                proof {
                    assert(self@ =~= exec_spec(old(self)@, instr, 0u8));
                }
                Ok(Ghost(0u8))
            },
            Instr::Ret => {
                if self.sp == 0 {
                    return Err(Fault::OutOfBounds);
                }
                self.sp = self.sp - 1;
                let t: usize = self.stack[self.sp];
                self.pc = t + 2;
                proof {
                    assert(self@ =~= exec_spec(old(self)@, instr, 0u8));
                }
                Ok(Ghost(0u8))
            },
            Instr::Jp { nnn } => {
                self.pc = nnn as usize;
                proof {
                    assert(self@ =~= exec_spec(old(self)@, instr, 0u8));
                }
                Ok(Ghost(0u8))
            },
            Instr::Call { nnn } => {
                if self.sp >= REG_NUM {
                    return Err(Fault::OutOfBounds);
                }
                self.stack.set(self.sp, self.pc);
                self.sp = self.sp + 1;
                self.pc = nnn as usize;
                proof {
                    assert(self@ =~= exec_spec(old(self)@, instr, 0u8));
                }
                Ok(Ghost(0u8))
            },
            Instr::SkipEq { x, nn } => {
                if self.reg[x as usize] == nn {
                    self.pc = self.pc + 4;
                } else {
                    self.pc = self.pc + 2;
                }
                proof {
                    assert(self@ =~= exec_spec(old(self)@, instr, 0u8));
                }
                Ok(Ghost(0u8))
            },
            Instr::SkipNe { x, nn } => {
                if self.reg[x as usize] != nn {
                    self.pc = self.pc + 4;
                } else {
                    self.pc = self.pc + 2;
                }
                proof {
                    assert(self@ =~= exec_spec(old(self)@, instr, 0u8));
                }
                Ok(Ghost(0u8))
            },
            Instr::SetReg { x, nn } => {
                self.reg.set(x as usize, nn);
                self.pc = self.pc + 2;
                proof {
                    assert(self@ =~= exec_spec(old(self)@, instr, 0u8));
                }
                Ok(Ghost(0u8))
            },
            Instr::AddImm { x, nn } => {
                let sum: u16 = self.reg[x as usize] as u16 + nn as u16;
                self.reg.set(x as usize, (sum % 256) as u8);
                self.pc = self.pc + 2;
                proof {
                    assert(self@ =~= exec_spec(old(self)@, instr, 0u8));
                }
                Ok(Ghost(0u8))
            },
            Instr::Copy { x, y } => {
                let v: u8 = self.reg[y as usize];
                self.reg.set(x as usize, v);
                self.pc = self.pc + 2;
                proof {
                    assert(self@ =~= exec_spec(old(self)@, instr, 0u8));
                }
                Ok(Ghost(0u8))
            },
            Instr::AndReg { x, y } => {
                let v: u8 = self.reg[x as usize] & self.reg[y as usize];
                self.reg.set(x as usize, v);
                self.reg.set(15, 0);
                self.pc = self.pc + 2;
                proof {
                    assert(self@.reg =~= old(self)@.reg.update(x as int, v).update(15, 0u8));
                    assert(self@ =~= exec_spec(old(self)@, instr, 0u8));
                }
                Ok(Ghost(0u8))
            },
            Instr::AddReg { x, y } => {
                let tmp: u16 = self.reg[x as usize] as u16 + self.reg[y as usize] as u16;
                if tmp > 0xFF {
                    self.reg.set(15, 1);
                } else {
                    self.reg.set(15, 0);
                }
                self.reg.set(x as usize, (tmp % 256) as u8);
                self.pc = self.pc + 2;
                proof {
                    assert(self@ =~= exec_spec(old(self)@, instr, 0u8));
                }
                Ok(Ghost(0u8))
            },
            Instr::SetIndex { nnn } => {
                self.index = nnn;
                self.pc = self.pc + 2;
                proof {
                    assert(self@ =~= exec_spec(old(self)@, instr, 0u8));
                }
                Ok(Ghost(0u8))
            },
            Instr::Rand { x, nn } => {
                let rb: u8 = random_byte();
                self.reg.set(x as usize, rb & nn);
                self.pc = self.pc + 2;
                proof {
                    assert(self@ =~= exec_spec(old(self)@, instr, rb));
                }
                Ok(Ghost(rb))
            },
            Instr::Draw { x, y, n } => {
                let idx: usize = self.index as usize;
                if idx + (n as usize) > MEM_LEN {
                    return Err(Fault::OutOfBounds);
                }
                let ghost s0 = self@;
                let ghost sprite = self@.mem.subrange(idx as int, idx as int + n);
                self.reg.set(15, 0);
                proof {
                    lemma_draw_zero(s0.gfx, x as int, y as int, sprite);
                    assert(self@ =~= (Chip8 {
                        gfx: draw_before(s0.gfx, x as int, y as int, sprite, 0, 0),
                        reg: s0.reg.update(
                            15,
                            if collides_before(s0.gfx, x as int, y as int, sprite, 0, 0) {
                                1u8
                            } else {
                                0u8
                            },
                        ),
                        ..s0
                    }));
                }
                let mut i: usize = 0;
                while i < n as usize
                    invariant
                        i <= n as usize,
                        x < 16,
                        y < 16,
                        n < 16,
                        s0 == old(self)@,
                        s0.wf(),
                        idx == s0.index,
                        idx + n <= MEM_LEN,
                        sprite == s0.mem.subrange(idx as int, idx as int + n),
                        sprite.len() == n as int,
                        self@ == (Chip8 {
                            gfx: draw_before(s0.gfx, x as int, y as int, sprite, i as int, 0),
                            reg: s0.reg.update(
                                15,
                                if collides_before(
                                    s0.gfx,
                                    x as int,
                                    y as int,
                                    sprite,
                                    i as int,
                                    0,
                                ) {
                                    1u8
                                } else {
                                    0u8
                                },
                            ),
                            ..s0
                        }),
                    decreases n as usize - i,
                {
                    let pix: u8 = self.memory[idx + i];
                    proof {
                        assert(pix == sprite[i as int]);
                    }
                    let mut j: usize = 0;
                    while j < 8
                        invariant
                            j <= 8,
                            i < n as usize,
                            x < 16,
                            y < 16,
                            n < 16,
                            s0 == old(self)@,
                            s0.wf(),
                            idx == s0.index,
                            idx + n <= MEM_LEN,
                            sprite == s0.mem.subrange(idx as int, idx as int + n),
                            sprite.len() == n as int,
                            pix == sprite[i as int],
                            self@ == (Chip8 {
                                gfx: draw_before(
                                    s0.gfx,
                                    x as int,
                                    y as int,
                                    sprite,
                                    i as int,
                                    j as int,
                                ),
                                reg: s0.reg.update(
                                    15,
                                    if collides_before(
                                        s0.gfx,
                                        x as int,
                                        y as int,
                                        sprite,
                                        i as int,
                                        j as int,
                                    ) {
                                        1u8
                                    } else {
                                        0u8
                                    },
                                ),
                                ..s0
                            }),
                        decreases 8 - j,
                    {
                        proof {
                            lemma_draw_step(s0.gfx, x as int, y as int, sprite, i as int, j as int);
                        }
                        if (pix & (0x80u8 >> j)) != 0 {
                            let pos: usize = ((y as usize) + i) * 64 + ((x as usize) + j);
                            proof {
                                assert(bit_of(sprite[i as int], j as int));
                                assert(pos as int == (y + i) * 64 + (x + j));
                                assert(self@.gfx[pos as int] == s0.gfx[pos as int]);
                            }
                            if self.gfx[pos] == 1 {
                                self.reg.set(15, 1);
                            }
                            let cur: u8 = self.gfx[pos];
                            self.gfx.set(
                                pos,
                                if cur == 1 {
                                    0u8
                                } else {
                                    1u8
                                },
                            );
                            proof {
                                assert(cur == s0.gfx[pos as int]);
                                assert(self@.gfx =~= draw_before(
                                    s0.gfx,
                                    x as int,
                                    y as int,
                                    sprite,
                                    i as int,
                                    j as int + 1,
                                ));
                                assert(self@.reg =~= s0.reg.update(
                                    15,
                                    if collides_before(
                                        s0.gfx,
                                        x as int,
                                        y as int,
                                        sprite,
                                        i as int,
                                        j as int + 1,
                                    ) {
                                        1u8
                                    } else {
                                        0u8
                                    },
                                ));
                            }
                        } else {
                            proof {
                                assert(!bit_of(sprite[i as int], j as int));
                            }
                        }
                        j = j + 1;
                        proof {
                            assert(self@ =~= (Chip8 {
                                gfx: draw_before(
                                    s0.gfx,
                                    x as int,
                                    y as int,
                                    sprite,
                                    i as int,
                                    j as int,
                                ),
                                reg: s0.reg.update(
                                    15,
                                    if collides_before(
                                        s0.gfx,
                                        x as int,
                                        y as int,
                                        sprite,
                                        i as int,
                                        j as int,
                                    ) {
                                        1u8
                                    } else {
                                        0u8
                                    },
                                ),
                                ..s0
                            }));
                        }
                    }
                    proof {
                        lemma_draw_row_end(s0.gfx, x as int, y as int, sprite, i as int);
                    }
                    i = i + 1;
                    proof {
                        assert(self@ =~= (Chip8 {
                            gfx: draw_before(s0.gfx, x as int, y as int, sprite, i as int, 0),
                            reg: s0.reg.update(
                                15,
                                if collides_before(
                                    s0.gfx,
                                    x as int,
                                    y as int,
                                    sprite,
                                    i as int,
                                    0,
                                ) {
                                    1u8
                                } else {
                                    0u8
                                },
                            ),
                            ..s0
                        }));
                    }
                }
                self.pc = self.pc + 2;
                proof {
                    lemma_draw_done(s0.gfx, x as int, y as int, sprite);
                    assert(self@ =~= exec_spec(old(self)@, instr, 0u8));
                    assert forall|p: int| 0 <= p < GFX_LEN implies self@.gfx[p] == 0
                        || self@.gfx[p] == 1 by {}
                }
                Ok(Ghost(0u8))
            },
            Instr::GetDelay { x } => {
                let v: u8 = self.delay_timer;
                self.reg.set(x as usize, v);
                self.pc = self.pc + 2;
                proof {
                    assert(self@ =~= exec_spec(old(self)@, instr, 0u8));
                }
                Ok(Ghost(0u8))
            },
            Instr::WaitKey { .. } => vstd::pervasive::unreached(),
            Instr::SetDelay { x } => {
                self.delay_timer = self.reg[x as usize];
                self.pc = self.pc + 2;
                proof {
                    assert(self@ =~= exec_spec(old(self)@, instr, 0u8));
                }
                Ok(Ghost(0u8))
            },
            Instr::AddIndex { x } => {
                let sum: u32 = self.index as u32 + self.reg[x as usize] as u32;
                self.index = (sum % 0x10000) as u16;
                self.pc = self.pc + 2;
                proof {
                    assert(self@ =~= exec_spec(old(self)@, instr, 0u8));
                }
                Ok(Ghost(0u8))
            },
            Instr::FontAddr { x } => {
                let v: u8 = self.reg[x as usize];
                self.index = 0x50u16 + (v as u16) * 5;
                self.pc = self.pc + 2;
                proof {
                    assert(self@ =~= exec_spec(old(self)@, instr, 0u8));
                }
                Ok(Ghost(0u8))
            },
            Instr::StoreBcd { x } => {
                let idx: usize = self.index as usize;
                if idx + 2 > MEM_LEN - 1 {
                    return Err(Fault::OutOfBounds);
                }
                let v: u8 = self.reg[x as usize];
                self.memory.set(idx, v / 100);
                self.memory.set(idx + 1, (v / 10) % 10);
                self.memory.set(idx + 2, v % 10);
                self.pc = self.pc + 2;
                proof {
                    assert(self@ =~= exec_spec(old(self)@, instr, 0u8));
                }
                Ok(Ghost(0u8))
            },
            Instr::StoreRegs { x } => {
                let idx: usize = self.index as usize;
                if idx + (x as usize) > MEM_LEN - 1 {
                    return Err(Fault::OutOfBounds);
                }
                let ghost s0 = self@;
                let mut i: usize = 0;
                while i <= x as usize
                    invariant
                        i <= x as usize + 1,
                        x < 16,
                        s0 == old(self)@,
                        s0.wf(),
                        idx == s0.index,
                        idx + x <= MEM_LEN - 1,
                        self@ == (Chip8 {
                            mem: Seq::new(
                                s0.mem.len(),
                                |a: int|
                                    if idx <= a < idx + i {
                                        s0.reg[a - idx]
                                    } else {
                                        s0.mem[a]
                                    },
                            ),
                            ..s0
                        }),
                    decreases x as usize + 1 - i,
                {
                    let v: u8 = self.reg[i];
                    self.memory.set(idx + i, v);
                    i = i + 1;
                    proof {
                        assert(self@.mem =~= Seq::new(
                            s0.mem.len(),
                            |a: int|
                                if idx <= a < idx + i {
                                    s0.reg[a - idx]
                                } else {
                                    s0.mem[a]
                                },
                        ));
                    }
                }
                self.pc = self.pc + 2;
                proof {
                    assert(self@.mem =~= Seq::new(
                        s0.mem.len(),
                        |a: int|
                            if s0.index <= a <= s0.index + x {
                                s0.reg[a - s0.index]
                            } else {
                                s0.mem[a]
                            },
                    ));
                    assert(self@ =~= exec_spec(old(self)@, instr, 0u8));
                }
                Ok(Ghost(0u8))
            },
            Instr::LoadRegs { x } => {
                let idx: usize = self.index as usize;
                if idx + (x as usize) > MEM_LEN - 1 {
                    return Err(Fault::OutOfBounds);
                }
                let ghost s0 = self@;
                let mut i: usize = 0;
                while i <= x as usize
                    invariant
                        i <= x as usize + 1,
                        x < 16,
                        s0 == old(self)@,
                        s0.wf(),
                        idx == s0.index,
                        idx + x <= MEM_LEN - 1,
                        self@ == (Chip8 {
                            reg: Seq::new(
                                s0.reg.len(),
                                |k: int|
                                    if 0 <= k < i {
                                        s0.mem[idx + k]
                                    } else {
                                        s0.reg[k]
                                    },
                            ),
                            ..s0
                        }),
                    decreases x as usize + 1 - i,
                {
                    let v: u8 = self.memory[idx + i];
                    self.reg.set(i, v);
                    i = i + 1;
                    proof {
                        assert(self@.reg =~= Seq::new(
                            s0.reg.len(),
                            |k: int|
                                if 0 <= k < i {
                                    s0.mem[idx + k]
                                } else {
                                    s0.reg[k]
                                },
                        ));
                    }
                }
                self.pc = self.pc + 2;
                proof {
                    assert(self@.reg =~= Seq::new(
                        s0.reg.len(),
                        |k: int|
                            if 0 <= k <= x {
                                s0.mem[s0.index + k]
                            } else {
                                s0.reg[k]
                            },
                    ));
                    assert(self@ =~= exec_spec(old(self)@, instr, 0u8));
                }
                Ok(Ghost(0u8))
            },
        }
    }

    /// One atomic fetch-decode-execute-tick cycle, the whole meaning of
    /// which is [`cycle_rel`]: fetch faults outside the address space,
    /// an unknown word faults with nothing advanced, the key-wait
    /// instruction suspends, and every other instruction either faults
    /// before mutating or executes and then ticks the timers.
    pub fn emulate_cycle(&mut self) -> (r: Result<CycleOutcome, Fault>)
        requires
            old(self)@.wf(),
        ensures
            final(self)@.wf(),
            cycle_rel(old(self)@, final(self)@, r),
    {
        if self.pc > MEM_LEN - 2 {
            return Err(Fault::OutOfBounds);
        }
        let w: u16 = self.fetch_current();
        self.opcode = w;
        let ghost fetched = self@;
        proof {
            assert(fetched =~= (Chip8 { opcode: w, ..old(self)@ }));
        }
        match decode(w) {
            None => Err(Fault::UnimplementedOpcode),
            Some(instr) => {
                if let Instr::WaitKey { .. } = instr {
                    return Ok(CycleOutcome::AwaitKey);
                }
                match self.exec_instr(instr) {
                    Err(f) => Err(f),
                    Ok(g) => {
                        let b: bool = self.tick_timers();
                        proof {
                            assert(self@ == tick(exec_spec(fetched, instr, g@)));
                            assert(b == beeps(exec_spec(fetched, instr, g@)));
                        }
                        Ok(CycleOutcome::Ran { beep: b })
                    },
                }
            },
        }
    }

    /// Complete a pending key-wait instruction with an external key
    /// code: a code present in the keymap stores the lowest matching
    /// logical key index in V[x], advances past the instruction, and
    /// ticks the timers; a code absent from it changes nothing, and the
    /// caller keeps waiting.
    pub fn provide_key(&mut self, code: u8) -> (r: KeyOutcome)
        requires
            old(self)@.wf(),
            awaiting_key(old(self)@),
        ensures
            final(self)@.wf(),
            key_rel(old(self)@, final(self)@, code, r),
    {
        let w: u16 = self.fetch_current();
        let x: usize = ((w >> 8) & 0xF) as usize;
        proof {
            assert(((w >> 8) & 0xF) < 16) by (bit_vector);
            assert(x == op_x(w) as int);
        }
        let mut k: usize = 0;
        while k < REG_NUM
            invariant
                k <= REG_NUM,
                self@ == old(self)@,
                self@.wf(),
                awaiting_key(self@),
                w == fetch_word(self@),
                x == op_x(w) as int,
                x < 16,
                forall|j: int| 0 <= j < k ==> self@.key[j] != code,
            decreases REG_NUM - k,
        {
            if self.key[k] == code {
                self.opcode = w;
                self.reg.set(x, k as u8);
                self.pc = self.pc + 2;
                proof {
                    assert(self@ =~= (Chip8 {
                        opcode: w,
                        reg: old(self)@.reg.update(x as int, k as u8),
                        pc: (old(self)@.pc + 2) as usize,
                        ..old(self)@
                    }));
                }
                let b: bool = self.tick_timers();
                proof {
                    assert(old(self)@.key[k as int] == code);
                    assert(key_rel(old(self)@, self@, code, KeyOutcome::Accepted { beep: b }));
                }
                return KeyOutcome::Accepted { beep: b };
            }
            k = k + 1;
        }
        proof {
            assert(forall|j: int| 0 <= j < REG_NUM ==> old(self)@.key[j] != code);
        }
        KeyOutcome::Rejected
    }
}

/// Relies on `rand::random`: one byte drawn from the thread-local
/// uniform generator. Nothing can be promised of the value, so nothing
/// is; the instruction that uses it states what holds of every outcome.
#[verifier::external_body]
fn random_byte() -> u8 {
    rand::random::<u8>()
}

} // verus!
