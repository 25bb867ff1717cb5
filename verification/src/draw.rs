//! The sprite-drawing algorithm as mathematics. A sprite is a sequence of
//! row bytes; drawing XORs its set bits into the framebuffer, most
//! significant bit leftmost, and reports a collision when a set bit lands
//! on a pixel that is already lit. Both are stated pointwise over the
//! framebuffer, which is what makes the double-draw law a short proof.

use vstd::prelude::*;
use crate::model::GFX_LEN;

verus! {

/// Whether bit `j` of sprite row byte `b` is set, counting the most
/// significant bit as bit 0 (the leftmost drawn pixel).
pub open spec fn bit_of(b: u8, j: int) -> bool {
    b & (0x80u8 >> j) != 0
}

/// Whether the sprite drawn at `(x, y)` has a set bit landing on
/// framebuffer position `p` (row-major, row length 64).
pub open spec fn sprite_hits(sprite: Seq<u8>, x: int, y: int, p: int) -> bool {
    let row = p / 64;
    let col = p % 64;
    &&& y <= row < y + sprite.len()
    &&& x <= col < x + 8
    &&& bit_of(sprite[row - y], col - x)
}

/// A pixel after an XOR with 1, for pixel values in {0, 1}.
pub open spec fn flip(v: u8) -> u8 {
    if v == 0 {
        1u8
    } else {
        0u8
    }
}

/// The framebuffer after drawing `sprite` at `(x, y)`: every position a
/// set bit lands on is XORed, every other position is untouched.
pub open spec fn draw_spec(gfx: Seq<u8>, x: int, y: int, sprite: Seq<u8>) -> Seq<u8> {
    Seq::new(
        gfx.len(),
        |p: int|
            if sprite_hits(sprite, x, y, p) {
                flip(gfx[p])
            } else {
                gfx[p]
            },
    )
}

/// Whether drawing `sprite` at `(x, y)` collides: some set bit lands on a
/// pixel that is already 1.
pub open spec fn draw_collides(gfx: Seq<u8>, x: int, y: int, sprite: Seq<u8>) -> bool {
    exists|p: int|
        0 <= p < gfx.len() && #[trigger] sprite_hits(sprite, x, y, p) && gfx[p] == 1
}

/// The partial framebuffer while a draw is in progress: rows before `i`
/// are fully applied, and within row `i` only bits before `j`.
pub open spec fn hits_before(sprite: Seq<u8>, x: int, y: int, i: int, j: int, p: int) -> bool {
    &&& sprite_hits(sprite, x, y, p)
    &&& (p / 64 - y < i || (p / 64 - y == i && p % 64 - x < j))
}

/// The framebuffer with only the first `i` full rows and `j` bits of row
/// `i` applied.
pub open spec fn draw_before(gfx: Seq<u8>, x: int, y: int, sprite: Seq<u8>, i: int, j: int) -> Seq<
    u8,
> {
    Seq::new(
        gfx.len(),
        |p: int|
            if hits_before(sprite, x, y, i, j, p) {
                flip(gfx[p])
            } else {
                gfx[p]
            },
    )
}

/// Collision over only the applied prefix of the sprite.
pub open spec fn collides_before(
    gfx: Seq<u8>,
    x: int,
    y: int,
    sprite: Seq<u8>,
    i: int,
    j: int,
) -> bool {
    exists|p: int|
        0 <= p < gfx.len() && #[trigger] hits_before(sprite, x, y, i, j, p) && gfx[p] == 1
}

/// Row-major decomposition: position `row * 64 + col` with `col` inside a
/// row recovers `row` and `col` by division and remainder.
pub proof fn lemma_pos_decomp(row: int, col: int)
    requires
        0 <= row,
        0 <= col < 64,
    ensures
        (row * 64 + col) / 64 == row,
        (row * 64 + col) % 64 == col,
{
    assert((row * 64 + col) / 64 == row) by (nonlinear_arith)
        requires
            0 <= row,
            0 <= col < 64,
    ;
    assert((row * 64 + col) % 64 == col) by (nonlinear_arith)
        requires
            0 <= row,
            0 <= col < 64,
    ;
}

/// Nothing of the sprite is applied yet at the start of a draw.
pub proof fn lemma_draw_zero(gfx: Seq<u8>, x: int, y: int, sprite: Seq<u8>)
    ensures
        draw_before(gfx, x, y, sprite, 0, 0) =~= gfx,
        !collides_before(gfx, x, y, sprite, 0, 0),
{
}

/// One bit of one sprite row: where bit `j` of row `i` lands, what
/// flipping it does to the partial framebuffer, and how it extends the
/// partial collision.
pub proof fn lemma_draw_step(gfx: Seq<u8>, x: int, y: int, sprite: Seq<u8>, i: int, j: int)
    requires
        gfx.len() == GFX_LEN,
        0 <= x < 16,
        0 <= y < 16,
        sprite.len() < 16,
        0 <= i < sprite.len(),
        0 <= j < 8,
    ensures
        0 <= (y + i) * 64 + (x + j) < GFX_LEN,
        draw_before(gfx, x, y, sprite, i, j)[(y + i) * 64 + (x + j)] == gfx[(y + i) * 64 + (x
            + j)],
        bit_of(sprite[i], j) ==> draw_before(gfx, x, y, sprite, i, j + 1) =~= draw_before(
            gfx,
            x,
            y,
            sprite,
            i,
            j,
        ).update((y + i) * 64 + (x + j), flip(gfx[(y + i) * 64 + (x + j)])),
        !bit_of(sprite[i], j) ==> draw_before(gfx, x, y, sprite, i, j + 1) =~= draw_before(
            gfx,
            x,
            y,
            sprite,
            i,
            j,
        ),
        collides_before(gfx, x, y, sprite, i, j + 1) <==> (collides_before(gfx, x, y, sprite, i, j)
            || (bit_of(sprite[i], j) && gfx[(y + i) * 64 + (x + j)] == 1)),
{
    let pos = (y + i) * 64 + (x + j);
    lemma_pos_decomp(y + i, x + j);
    assert(!hits_before(sprite, x, y, i, j, pos));
    assert forall|p: int|
        0 <= p < GFX_LEN && hits_before(sprite, x, y, i, j + 1, p) && !hits_before(
            sprite,
            x,
            y,
            i,
            j,
            p,
        ) implies p == pos && bit_of(sprite[i], j) by {
        vstd::arithmetic::div_mod::lemma_fundamental_div_mod(p, 64);
    }
    if bit_of(sprite[i], j) {
        assert(hits_before(sprite, x, y, i, j + 1, pos));
        assert forall|p: int| 0 <= p < GFX_LEN implies draw_before(gfx, x, y, sprite, i, j + 1)[p]
            == draw_before(gfx, x, y, sprite, i, j).update(pos, flip(gfx[pos]))[p] by {
            if p == pos {
                assert(draw_before(gfx, x, y, sprite, i, j + 1)[p] == flip(gfx[pos]));
            }
        }
    } else {
        assert forall|p: int| 0 <= p < GFX_LEN implies draw_before(gfx, x, y, sprite, i, j + 1)[p]
            == draw_before(gfx, x, y, sprite, i, j)[p] by {}
    }
    if collides_before(gfx, x, y, sprite, i, j + 1) {
        let p = choose|p: int|
            0 <= p < gfx.len() && #[trigger] hits_before(sprite, x, y, i, j + 1, p) && gfx[p] == 1;
        if hits_before(sprite, x, y, i, j, p) {
            assert(collides_before(gfx, x, y, sprite, i, j));
        } else {
            assert(p == pos);
        }
    }
    if collides_before(gfx, x, y, sprite, i, j) {
        let p = choose|p: int|
            0 <= p < gfx.len() && #[trigger] hits_before(sprite, x, y, i, j, p) && gfx[p] == 1;
        assert(hits_before(sprite, x, y, i, j + 1, p));
        assert(collides_before(gfx, x, y, sprite, i, j + 1));
    }
    if bit_of(sprite[i], j) && gfx[pos] == 1 {
        assert(hits_before(sprite, x, y, i, j + 1, pos));
        assert(collides_before(gfx, x, y, sprite, i, j + 1));
    }
}

/// Finishing row `i` is the same partial draw as standing at the start
/// of row `i + 1`: a sprite bit never lands more than seven pixels right
/// of `x`.
pub proof fn lemma_draw_row_end(gfx: Seq<u8>, x: int, y: int, sprite: Seq<u8>, i: int)
    requires
        gfx.len() == GFX_LEN,
        0 <= i < sprite.len(),
    ensures
        draw_before(gfx, x, y, sprite, i, 8) =~= draw_before(gfx, x, y, sprite, i + 1, 0),
        collides_before(gfx, x, y, sprite, i, 8) == collides_before(gfx, x, y, sprite, i + 1, 0),
{
    assert forall|p: int|
        hits_before(sprite, x, y, i, 8, p) <==> hits_before(sprite, x, y, i + 1, 0, p) by {}
    assert(collides_before(gfx, x, y, sprite, i, 8) == collides_before(
        gfx,
        x,
        y,
        sprite,
        i + 1,
        0,
    )) by {
        if collides_before(gfx, x, y, sprite, i, 8) {
            let p = choose|p: int|
                0 <= p < gfx.len() && #[trigger] hits_before(sprite, x, y, i, 8, p) && gfx[p] == 1;
            assert(hits_before(sprite, x, y, i + 1, 0, p));
        }
        if collides_before(gfx, x, y, sprite, i + 1, 0) {
            let p = choose|p: int|
                0 <= p < gfx.len() && #[trigger] hits_before(sprite, x, y, i + 1, 0, p) && gfx[p]
                    == 1;
            assert(hits_before(sprite, x, y, i, 8, p));
        }
    }
}

/// Standing past the last row, the partial draw is the whole draw and
/// the partial collision is the draw's collision flag.
pub proof fn lemma_draw_done(gfx: Seq<u8>, x: int, y: int, sprite: Seq<u8>)
    requires
        gfx.len() == GFX_LEN,
    ensures
        draw_before(gfx, x, y, sprite, sprite.len() as int, 0) =~= draw_spec(gfx, x, y, sprite),
        collides_before(gfx, x, y, sprite, sprite.len() as int, 0) == draw_collides(
            gfx,
            x,
            y,
            sprite,
        ),
{
    let n = sprite.len() as int;
    assert forall|p: int| hits_before(sprite, x, y, n, 0, p) <==> sprite_hits(sprite, x, y, p) by {}
    assert(collides_before(gfx, x, y, sprite, n, 0) == draw_collides(gfx, x, y, sprite)) by {
        if collides_before(gfx, x, y, sprite, n, 0) {
            let p = choose|p: int|
                0 <= p < gfx.len() && #[trigger] hits_before(sprite, x, y, n, 0, p) && gfx[p] == 1;
            assert(sprite_hits(sprite, x, y, p));
        }
        if draw_collides(gfx, x, y, sprite) {
            let p = choose|p: int|
                0 <= p < gfx.len() && #[trigger] sprite_hits(sprite, x, y, p) && gfx[p] == 1;
            assert(hits_before(sprite, x, y, n, 0, p));
        }
    }
}

} // verus!
