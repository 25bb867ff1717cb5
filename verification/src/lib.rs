//! A CHIP-8 virtual machine core: a fixed memory image, sixteen general
//! registers, a call stack, a monochrome framebuffer, and two countdown
//! timers, driven by a fetch-decode-execute loop over two-byte instructions.
//!
//! The interpreter is a pure state machine: one instruction per
//! [`cpu::Cpu::emulate_cycle`] call, with the one blocking operation (the
//! key-wait instruction) split out so that the caller performs the read and
//! hands the key back through [`cpu::Cpu::provide_key`].

pub mod cpu;
pub mod laws;
pub mod decode;
pub mod draw;
pub mod model;
pub mod transition;

use vstd::prelude::*;

verus! {

/// A fatal interpreter fault. The machine defines no recovery: a caller
/// that receives one should abort the run.
#[derive(Clone, Copy, Debug, PartialEq, Eq, Structural)]
pub enum Fault {
    /// A decode path reached a bit pattern outside the implemented
    /// instruction subset.
    UnimplementedOpcode,
    /// Stack overflow or underflow, or a memory access outside the
    /// 4096-byte address space during fetch or an index-relative access.
    OutOfBounds,
    /// A program image larger than the program area.
    MalformedInput,
}

/// What one successful `emulate_cycle` call reports.
#[derive(Clone, Copy, Debug, PartialEq, Eq, Structural)]
pub enum CycleOutcome {
    /// An instruction executed and the timers ticked; `beep` is the
    /// audible-beep event of this cycle.
    Ran { beep: bool },
    /// The key-wait instruction was fetched: the machine is suspended
    /// until the caller hands a mapped key code to `provide_key`.
    AwaitKey,
}

/// What one `provide_key` call reports.
#[derive(Clone, Copy, Debug, PartialEq, Eq, Structural)]
pub enum KeyOutcome {
    /// The code was found in the keymap: the key-wait instruction
    /// completed and the timers ticked.
    Accepted { beep: bool },
    /// The code is not in the keymap; the machine is still waiting.
    Rejected,
}

} // verus!
