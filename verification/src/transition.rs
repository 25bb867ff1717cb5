//! The specification of one interpreter cycle: which instructions fault
//! and why, the exact state each instruction produces, and the relation
//! tying a concrete `emulate_cycle` or `provide_key` call to the model.

use vstd::prelude::*;
use crate::decode::{decode_spec, op_x, Instr};
use crate::draw::{draw_collides, draw_spec};
use crate::model::{beeps, fetch_word, tick, wrap8, wrap16, Chip8, MEM_LEN, REG_NUM};
use crate::{CycleOutcome, Fault, KeyOutcome};

verus! {

/// The fault, if any, that executing `i` in state `s` raises before any
/// state change: stack underflow on return, stack overflow on call, and
/// index-relative memory accesses that would leave the address space.
pub open spec fn exec_fault(s: Chip8, i: Instr) -> Option<Fault> {
    match i {
        Instr::Ret => if s.sp == 0 {
            Some(Fault::OutOfBounds)
        } else {
            None
        },
        Instr::Call { nnn } => if s.sp >= REG_NUM {
            Some(Fault::OutOfBounds)
        } else {
            None
        },
        Instr::Draw { x, y, n } => if s.index + n > MEM_LEN {
            Some(Fault::OutOfBounds)
        } else {
            None
        },
        Instr::StoreBcd { x } => if s.index + 2 > MEM_LEN - 1 {
            Some(Fault::OutOfBounds)
        } else {
            None
        },
        Instr::StoreRegs { x } => if s.index + x > MEM_LEN - 1 {
            Some(Fault::OutOfBounds)
        } else {
            None
        },
        Instr::LoadRegs { x } => if s.index + x > MEM_LEN - 1 {
            Some(Fault::OutOfBounds)
        } else {
            None
        },
        _ => None,
    }
}

/// The state after executing instruction `i` in state `s`, given the
/// byte `rnd` the randomness source produced this cycle (read only by
/// the random instruction). Meaningful when `i` is well formed, raises
/// no fault, and is not the key-wait instruction.
pub open spec fn exec_spec(s: Chip8, i: Instr, rnd: u8) -> Chip8 {
    match i {
        Instr::Cls => Chip8 { gfx: Seq::new(s.gfx.len(), |p: int| 0u8), pc: (s.pc + 2) as usize, ..s },
        Instr::Ret => Chip8 {
            sp: (s.sp - 1) as usize,
            pc: (s.stack[s.sp - 1] + 2) as usize,
            ..s
        },
        Instr::Jp { nnn } => Chip8 { pc: nnn as usize, ..s },
        Instr::Call { nnn } => Chip8 {
            stack: s.stack.update(s.sp as int, s.pc),
            sp: (s.sp + 1) as usize,
            pc: nnn as usize,
            ..s
        },
        Instr::SkipEq { x, nn } => Chip8 {
            pc: if s.reg[x as int] == nn {
                (s.pc + 4) as usize
            } else {
                (s.pc + 2) as usize
            },
            ..s
        },
        Instr::SkipNe { x, nn } => Chip8 {
            pc: if s.reg[x as int] != nn {
                (s.pc + 4) as usize
            } else {
                (s.pc + 2) as usize
            },
            ..s
        },
        Instr::SetReg { x, nn } => Chip8 {
            reg: s.reg.update(x as int, nn),
            pc: (s.pc + 2) as usize,
            ..s
        },
        Instr::AddImm { x, nn } => Chip8 {
            reg: s.reg.update(x as int, wrap8(s.reg[x as int] + nn)),
            pc: (s.pc + 2) as usize,
            ..s
        },
        Instr::Copy { x, y } => Chip8 {
            reg: s.reg.update(x as int, s.reg[y as int]),
            pc: (s.pc + 2) as usize,
            ..s
        },
        Instr::AndReg { x, y } => Chip8 {
            reg: s.reg.update(x as int, s.reg[x as int] & s.reg[y as int]).update(15, 0u8),
            pc: (s.pc + 2) as usize,
            ..s
        },
        Instr::AddReg { x, y } => Chip8 {
            reg: s.reg.update(
                15,
                if s.reg[x as int] + s.reg[y as int] > 255 {
                    1u8
                } else {
                    0u8
                },
            ).update(x as int, wrap8(s.reg[x as int] + s.reg[y as int])),
            pc: (s.pc + 2) as usize,
            ..s
        },
        Instr::SetIndex { nnn } => Chip8 { index: nnn, pc: (s.pc + 2) as usize, ..s },
        Instr::Rand { x, nn } => Chip8 {
            reg: s.reg.update(x as int, rnd & nn),
            pc: (s.pc + 2) as usize,
            ..s
        },
        Instr::Draw { x, y, n } => {
            let sprite = s.mem.subrange(s.index as int, s.index + n);
            Chip8 {
                gfx: draw_spec(s.gfx, x as int, y as int, sprite),
                reg: s.reg.update(
                    15,
                    if draw_collides(s.gfx, x as int, y as int, sprite) {
                        1u8
                    } else {
                        0u8
                    },
                ),
                pc: (s.pc + 2) as usize,
                ..s
            }
        },
        Instr::GetDelay { x } => Chip8 {
            reg: s.reg.update(x as int, s.dt),
            pc: (s.pc + 2) as usize,
            ..s
        },
        Instr::WaitKey { x } => s,
        Instr::SetDelay { x } => Chip8 { dt: s.reg[x as int], pc: (s.pc + 2) as usize, ..s },
        Instr::AddIndex { x } => Chip8 {
            index: wrap16(s.index + s.reg[x as int]),
            pc: (s.pc + 2) as usize,
            ..s
        },
        Instr::FontAddr { x } => Chip8 {
            index: (0x50 + s.reg[x as int] * 5) as u16,
            pc: (s.pc + 2) as usize,
            ..s
        },
        Instr::StoreBcd { x } => Chip8 {
            mem: s.mem.update(s.index as int, (s.reg[x as int] / 100) as u8).update(
                s.index + 1,
                ((s.reg[x as int] / 10) % 10) as u8,
            ).update(s.index + 2, (s.reg[x as int] % 10) as u8),
            pc: (s.pc + 2) as usize,
            ..s
        },
        Instr::StoreRegs { x } => Chip8 {
            mem: Seq::new(
                s.mem.len(),
                |a: int|
                    if s.index <= a <= s.index + x {
                        s.reg[a - s.index]
                    } else {
                        s.mem[a]
                    },
            ),
            pc: (s.pc + 2) as usize,
            ..s
        },
        Instr::LoadRegs { x } => Chip8 {
            reg: Seq::new(
                s.reg.len(),
                |k: int|
                    if 0 <= k <= x {
                        s.mem[s.index + k]
                    } else {
                        s.reg[k]
                    },
            ),
            pc: (s.pc + 2) as usize,
            ..s
        },
    }
}

/// Whether the machine stands at the blocking key-wait instruction: the
/// next fetch succeeds and decodes to it. The caller of `provide_key`
/// learns this from `emulate_cycle` returning the await outcome.
pub open spec fn awaiting_key(s: Chip8) -> bool {
    &&& s.pc <= MEM_LEN - 2
    &&& decode_spec(fetch_word(s)) matches Some(i) && i is WaitKey
}

/// The full meaning of one `emulate_cycle` call: relate the machine
/// state before, the machine state after, and the returned value, for
/// every input state. Fetch faults when the program counter leaves the
/// address space; an unknown word faults; the key-wait instruction
/// suspends with the state unchanged beyond the latched opcode; every
/// other instruction either faults before mutating or executes and then
/// ticks the timers, beeping exactly when the sound timer stood at 1.
pub open spec fn cycle_rel(pre: Chip8, post: Chip8, r: Result<CycleOutcome, Fault>) -> bool {
    if pre.pc > MEM_LEN - 2 {
        post == pre && r == Err::<CycleOutcome, Fault>(Fault::OutOfBounds)
    } else {
        let w = fetch_word(pre);
        let fetched = Chip8 { opcode: w, ..pre };
        match decode_spec(w) {
            None => post == fetched && r == Err::<CycleOutcome, Fault>(Fault::UnimplementedOpcode),
            Some(i) => {
                if i is WaitKey {
                    post == fetched && r == Ok::<CycleOutcome, Fault>(CycleOutcome::AwaitKey)
                } else {
                    match exec_fault(fetched, i) {
                        Some(f) => post == fetched && r == Err::<CycleOutcome, Fault>(f),
                        None => exists|rnd: u8|
                            post == tick(#[trigger] exec_spec(fetched, i, rnd)) && r == Ok::<
                                CycleOutcome,
                                Fault,
                            >(CycleOutcome::Ran { beep: beeps(exec_spec(fetched, i, rnd)) }),
                    }
                }
            },
        }
    }
}

/// The full meaning of one `provide_key` call from a state awaiting a
/// key. A code present in the keymap completes the suspended key-wait
/// instruction: the lowest matching keymap index lands in V[x], the
/// program counter advances, and the timers tick. A code absent from the
/// keymap changes nothing and reports rejection, so the caller keeps
/// waiting.
pub open spec fn key_rel(pre: Chip8, post: Chip8, code: u8, r: KeyOutcome) -> bool {
    let w = fetch_word(pre);
    let x = op_x(w);
    if exists|k: int| 0 <= k < REG_NUM && #[trigger] pre.key[k] == code {
        exists|k: int|
            {
                &&& 0 <= k < REG_NUM
                &&& #[trigger] pre.key[k] == code
                &&& forall|j: int| 0 <= j < k ==> #[trigger] pre.key[j] != code
                &&& post == tick(
                    Chip8 {
                        opcode: w,
                        reg: pre.reg.update(x as int, k as u8),
                        pc: (pre.pc + 2) as usize,
                        ..pre
                    },
                )
                &&& r == KeyOutcome::Accepted { beep: beeps(pre) }
            }
    } else {
        post == pre && r == KeyOutcome::Rejected
    }
}

} // verus!
