//! General laws of the instruction semantics, proved once over the
//! model's transition functions — the same functions the interpreter's
//! own contracts are stated with.

use vstd::prelude::*;
use crate::decode::Instr;
use crate::draw::sprite_hits;
use crate::model::{tick, Chip8, GFX_LEN, MEM_LEN};
use crate::transition::{exec_fault, exec_spec};

verus! {

/// Loading an immediate and then adding an immediate to the same
/// register leaves `(nn + k) mod 256` there, with 8-bit wraparound; no
/// flag changes unless the target register is VF itself.
pub proof fn lemma_set_then_add(s: Chip8, x: u8, nn: u8, k: u8)
    requires
        s.wf(),
        x < 16,
    ensures
        ({
            let s1 = tick(exec_spec(s, Instr::SetReg { x, nn }, 0));
            let s2 = tick(exec_spec(s1, Instr::AddImm { x, nn: k }, 0));
            &&& s2.reg[x as int] == (nn + k) % 256
            &&& x != 15 ==> s2.reg[15] == s.reg[15]
            &&& forall|j: int| 0 <= j < 16 && j != x ==> s2.reg[j] == s.reg[j]
        }),
{
}

/// The add-with-carry instruction: the target register always holds the
/// truncated 8-bit sum, and (when the target is not VF itself) VF is 1
/// exactly when the 9-bit sum exceeded 255.
pub proof fn lemma_add_carry(s: Chip8, x: u8, y: u8)
    requires
        s.wf(),
        x < 16,
        y < 16,
    ensures
        ({
            let s1 = tick(exec_spec(s, Instr::AddReg { x, y }, 0));
            &&& s1.reg[x as int] == (s.reg[x as int] + s.reg[y as int]) % 256
            &&& x != 15 ==> ((s1.reg[15] == 1) <==> (s.reg[x as int] + s.reg[y as int] > 255))
            &&& x != 15 ==> ((s1.reg[15] == 0) <==> (s.reg[x as int] + s.reg[y as int] <= 255))
        }),
{
}

/// Stack round trip: a call followed immediately by a return brings the
/// program counter to the call site plus 2 and the stack pointer back to
/// its pre-call value, and neither step faults.
pub proof fn lemma_call_ret(s: Chip8, nnn: u16)
    requires
        s.wf(),
        s.sp < 16,
        s.pc <= MEM_LEN - 2,
        nnn < 0x1000,
    ensures
        ({
            let s1 = tick(exec_spec(s, Instr::Call { nnn }, 0));
            let s2 = tick(exec_spec(s1, Instr::Ret, 0));
            &&& exec_fault(s, Instr::Call { nnn }) is None
            &&& exec_fault(s1, Instr::Ret) is None
            &&& s1.pc == nnn
            &&& s2.pc == s.pc + 2
            &&& s2.sp == s.sp
        }),
{
}

/// Drawing the identical sprite at the same coordinates twice restores
/// the framebuffer to its pre-draw contents, and the second draw's
/// collision flag is 1 exactly when some set sprite bit landed on a
/// pixel that was 0 before the first draw (the first draw lit it).
pub proof fn lemma_draw_twice(s: Chip8, x: u8, y: u8, n: u8)
    requires
        s.wf(),
        x < 16,
        y < 16,
        n < 16,
        s.index + n <= MEM_LEN,
    ensures
        ({
            let di = Instr::Draw { x, y, n };
            let sprite = s.mem.subrange(s.index as int, s.index + n);
            let s1 = tick(exec_spec(s, di, 0));
            let s2 = tick(exec_spec(s1, di, 0));
            &&& exec_fault(s, di) is None
            &&& exec_fault(s1, di) is None
            &&& s2.gfx == s.gfx
            &&& ((s2.reg[15] == 1) <==> exists|p: int|
                0 <= p < GFX_LEN && #[trigger] sprite_hits(sprite, x as int, y as int, p)
                    && s.gfx[p] == 0)
        }),
{
    let di = Instr::Draw { x, y, n };
    let sprite = s.mem.subrange(s.index as int, s.index + n);
    let s1 = tick(exec_spec(s, di, 0));
    let s2 = tick(exec_spec(s1, di, 0));
    assert(s1.mem == s.mem && s1.index == s.index && s1.gfx == crate::draw::draw_spec(
        s.gfx,
        x as int,
        y as int,
        sprite,
    ));
    assert(s2.gfx =~= s.gfx);
    if s2.reg[15] == 1 {
        let p = choose|p: int|
            0 <= p < s1.gfx.len() && #[trigger] sprite_hits(sprite, x as int, y as int, p)
                && s1.gfx[p] == 1;
        assert(s.gfx[p] == 0);
    }
    if exists|p: int|
        0 <= p < GFX_LEN && #[trigger] sprite_hits(sprite, x as int, y as int, p) && s.gfx[p]
            == 0 {
        let p = choose|p: int|
            0 <= p < GFX_LEN && #[trigger] sprite_hits(sprite, x as int, y as int, p) && s.gfx[p]
                == 0;
        assert(s1.gfx[p] == 1);
        assert(crate::draw::draw_collides(s1.gfx, x as int, y as int, sprite));
    }
}

/// The form the double-draw law takes on a clear target region: when
/// every pixel the sprite's set bits land on is 0 and at least one set
/// bit lands somewhere, the second identical draw restores the
/// framebuffer and reports a collision.
pub proof fn lemma_draw_twice_on_clear(s: Chip8, x: u8, y: u8, n: u8)
    requires
        s.wf(),
        x < 16,
        y < 16,
        n < 16,
        s.index + n <= MEM_LEN,
        forall|p: int|
            0 <= p < GFX_LEN && #[trigger] sprite_hits(
                s.mem.subrange(s.index as int, s.index + n),
                x as int,
                y as int,
                p,
            ) ==> s.gfx[p] == 0,
        exists|p: int|
            0 <= p < GFX_LEN && #[trigger] sprite_hits(
                s.mem.subrange(s.index as int, s.index + n),
                x as int,
                y as int,
                p,
            ),
    ensures
        ({
            let di = Instr::Draw { x, y, n };
            let s2 = tick(exec_spec(tick(exec_spec(s, di, 0)), di, 0));
            &&& s2.gfx == s.gfx
            &&& s2.reg[15] == 1
        }),
{
    lemma_draw_twice(s, x, y, n);
}

/// The clear-screen instruction sets every framebuffer pixel to 0,
/// whatever its prior state.
pub proof fn lemma_clear_screen(s: Chip8)
    requires
        s.wf(),
    ensures
        forall|p: int| 0 <= p < GFX_LEN ==> tick(exec_spec(s, Instr::Cls, 0)).gfx[p] == 0,
{
}

/// Timer decay: a cycle whose instruction is not the delay-timer write
/// moves the delay timer one toward zero, and never below it.
pub proof fn lemma_timer_decay(s: Chip8, i: Instr, rnd: u8)
    requires
        !(i is SetDelay),
    ensures
        ({
            let s1 = tick(exec_spec(s, i, rnd));
            &&& s.dt > 0 ==> s1.dt == s.dt - 1
            &&& s.dt == 0 ==> s1.dt == 0
        }),
{
}

/// A delay timer standing at 5 reaches exactly 0 over five cycles none
/// of which rewrites it, losing exactly 1 per cycle on the way down.
pub proof fn lemma_timer_decay_five(
    s: Chip8,
    i1: Instr,
    i2: Instr,
    i3: Instr,
    i4: Instr,
    i5: Instr,
    r1: u8,
    r2: u8,
    r3: u8,
    r4: u8,
    r5: u8,
)
    requires
        s.dt == 5,
        !(i1 is SetDelay),
        !(i2 is SetDelay),
        !(i3 is SetDelay),
        !(i4 is SetDelay),
        !(i5 is SetDelay),
    ensures
        ({
            let s1 = tick(exec_spec(s, i1, r1));
            let s2 = tick(exec_spec(s1, i2, r2));
            let s3 = tick(exec_spec(s2, i3, r3));
            let s4 = tick(exec_spec(s3, i4, r4));
            let s5 = tick(exec_spec(s4, i5, r5));
            &&& s1.dt == 4
            &&& s2.dt == 3
            &&& s3.dt == 2
            &&& s4.dt == 1
            &&& s5.dt == 0
        }),
{
    let s1 = tick(exec_spec(s, i1, r1));
    let s2 = tick(exec_spec(s1, i2, r2));
    let s3 = tick(exec_spec(s2, i3, r3));
    let s4 = tick(exec_spec(s3, i4, r4));
    lemma_timer_decay(s, i1, r1);
    lemma_timer_decay(s1, i2, r2);
    lemma_timer_decay(s2, i3, r3);
    lemma_timer_decay(s3, i4, r4);
    lemma_timer_decay(s4, i5, r5);
}

} // verus!

