use crate::display::{bit, blit, hits, pixel, row_hits, row_mask, sprite_mask, sprite_pixel, window};
use vstd::prelude::*;

verus! {

/// Whether the sprite at `(x % 64, y)` has a set bit over the lit pixel
/// `(px, py)` of the screen.
pub open spec fn collides_at(
    screen: Seq<u8>,
    sprite: Seq<u8>,
    x: int,
    y: int,
    px: int,
    py: int,
) -> bool {
    0 <= px < 64 && 0 <= py < 32 && sprite_pixel(sprite, x, y, px, py) && pixel(screen, px, py)
}

/// Whether the sprite at `(x % 64, y)` has a set bit over some lit pixel.
pub open spec fn collides(screen: Seq<u8>, sprite: Seq<u8>, x: int, y: int) -> bool {
    exists|px: int, py: int| collides_at(screen, sprite, x, y, px, py)
}

/// Whether every pixel of the screen is unlit.
pub open spec fn blank(screen: Seq<u8>) -> bool {
    forall|i: int| 0 <= i < screen.len() ==> screen[i] == 0
}

proof fn lemma_bit_xor(b: u8, m: u8, k: u8)
    by (bit_vector)
    requires
        k < 8,
    ensures
        ((b ^ m) >> k) & 1 == 1 <==> (((b >> k) & 1 == 1) != ((m >> k) & 1 == 1)),
        ((b & m) >> k) & 1 == 1 <==> (((b >> k) & 1 == 1) && ((m >> k) & 1 == 1)),
        ((b | m) >> k) & 1 == 1 <==> (((b >> k) & 1 == 1) || ((m >> k) & 1 == 1)),
        (0u8 >> k) & 1 == 0,
{
}

proof fn lemma_bit_shr(d: u8, o: u8, k: u8)
    by (bit_vector)
    requires
        k < 8,
        o < 8,
    ensures
        ((d >> o) >> k) & 1 == 1 <==> (k + o < 8 && (d >> ((k + o) as u8)) & 1 == 1),
{
}

proof fn lemma_bit_shl(d: u8, o: u8, k: u8)
    by (bit_vector)
    requires
        k < 8,
        o < 8,
    ensures
        ((d << o) >> k) & 1 == 1 <==> (k >= o && (d >> ((k - o) as u8)) & 1 == 1),
{
}

proof fn lemma_nonzero_bit(v: u8)
    by (bit_vector)
    ensures
        v != 0 <==> ((v >> 0u8) & 1 == 1 || (v >> 1u8) & 1 == 1 || (v >> 2u8) & 1 == 1 || (v
            >> 3u8) & 1 == 1 || (v >> 4u8) & 1 == 1 || (v >> 5u8) & 1 == 1 || (v >> 6u8) & 1 == 1
            || (v >> 7u8) & 1 == 1),
{
}

/// A byte is nonzero exactly when one of its eight bits is set.
pub proof fn lemma_nonzero_has_bit(v: u8)
    ensures
        v != 0 <==> exists|k: int| 0 <= k < 8 && bit(v, k),
{
    lemma_nonzero_bit(v);
    if v != 0 {
        let k: int = if (v >> 0u8) & 1 == 1 {
            0
        } else if (v >> 1u8) & 1 == 1 {
            1
        } else if (v >> 2u8) & 1 == 1 {
            2
        } else if (v >> 3u8) & 1 == 1 {
            3
        } else if (v >> 4u8) & 1 == 1 {
            4
        } else if (v >> 5u8) & 1 == 1 {
            5
        } else if (v >> 6u8) & 1 == 1 {
            6
        } else {
            7
        };
        assert(0 <= k < 8 && bit(v, k));
    }
    if exists|k: int| 0 <= k < 8 && bit(v, k) {
        let k = choose|k: int| 0 <= k < 8 && bit(v, k);
        assert(k == 0 || k == 1 || k == 2 || k == 3 || k == 4 || k == 5 || k == 6 || k == 7);
    }
}

/// The bits of a row's mask over byte `bc` of a scanline are the bits of
/// the sprite row over the pixels of that byte.
pub proof fn lemma_row_mask_bit(d: u8, x0: int, px: int)
    requires
        0 <= x0 < 64,
        0 <= px < 64,
    ensures
        bit(row_mask(d, x0, px / 8), 7 - px % 8) == (0 <= px - x0 < 8 && bit(d, 7 - (px - x0))),
{
    let k: u8 = (7 - px % 8) as u8;
    let o: u8 = (x0 % 8) as u8;
    let bc = px / 8;
    lemma_bit_xor(d, 0, k);
    if bc == x0 / 8 {
        lemma_bit_shr(d, o, k);
    } else if bc == x0 / 8 + 1 && x0 % 8 != 0 {
        lemma_bit_shl(d, (8 - o) as u8, k);
    }
}

/// Drawing a sprite flips exactly the pixels under its set bits. Nothing
/// appears on another scanline or wraps round the right edge: a pixel
/// changes only if it lies in the sprite's own row and at most seven
/// columns right of the sprite's first column.
pub proof fn lemma_blit_pixel(screen: Seq<u8>, sprite: Seq<u8>, x: int, y: int, px: int, py: int)
    requires
        screen.len() == 256,
        0 <= px < 64,
        0 <= py < 32,
    ensures
        pixel(blit(screen, sprite, x, y), px, py) == (pixel(screen, px, py) != sprite_pixel(
            sprite,
            x,
            y,
            px,
            py,
        )),
{
    let i = py * 8 + px / 8;
    let k: u8 = (7 - px % 8) as u8;
    let m = sprite_mask(sprite, x, y, i);
    lemma_bit_xor(screen[i], m, k);
    let row = py - y;
    if 0 <= row < sprite.len() {
        lemma_row_mask_bit(sprite[row], x % 64, px);
    }
}

/// Drawing the same sprite twice at the same place gives back the screen
/// as it was.
pub proof fn lemma_blit_twice(screen: Seq<u8>, sprite: Seq<u8>, x: int, y: int)
    ensures
        blit(blit(screen, sprite, x, y), sprite, x, y) == screen,
{
    let once = blit(screen, sprite, x, y);
    let twice = blit(once, sprite, x, y);
    assert forall|i: int| 0 <= i < screen.len() implies twice[i] == screen[i] by {
        let b = screen[i];
        let m = sprite_mask(sprite, x, y, i);
        assert((b ^ m) ^ m == b) by (bit_vector);
    }
    assert(twice =~= screen);
}

/// Which bits of a row's collision byte are set: those of the sprite row
/// that lie on the screen over a lit pixel.
pub proof fn lemma_row_hits_bit(screen: Seq<u8>, d: u8, x0: int, y: int, k: int)
    requires
        screen.len() == 256,
        0 <= x0 < 64,
        0 <= k < 8,
    ensures
        bit(row_hits(screen, d, x0, y), k) == (0 <= y < 32 && x0 + 7 - k < 64 && bit(d, k)
            && pixel(screen, x0 + 7 - k, y)),
{
    let k8: u8 = k as u8;
    if 0 <= y < 32 {
        let w = window(screen, x0, y);
        let i = y * 8 + x0 / 8;
        let o: u8 = (x0 % 8) as u8;
        let px = x0 + 7 - k;
        lemma_bit_xor(w, d, k8);
        if o != 0 {
            let a = screen[i];
            lemma_bit_shl(a, o, k8);
            if x0 / 8 < 7 {
                let c = screen[i + 1];
                lemma_bit_xor(a << o, c >> ((8 - o) as u8), k8);
                lemma_bit_shr(c, (8 - o) as u8, k8);
            }
        }
    } else {
        lemma_bit_xor(d, 0, k8);
    }
}

/// Whether bit `k` of row `row` of the sprite at `(x % 64, y)` is set and
/// lies over a lit pixel of the screen.
pub open spec fn bit_collides(
    screen: Seq<u8>,
    sprite: Seq<u8>,
    x: int,
    y: int,
    k: int,
    row: int,
) -> bool {
    0 <= row < sprite.len() && collides_at(screen, sprite, x, y, x % 64 + 7 - k, y + row)
}

/// Which bits of a sprite's collision byte are set: bit `k` is set
/// exactly when some row has bit `k` set over a lit pixel of the screen.
pub proof fn lemma_hits_bit(screen: Seq<u8>, sprite: Seq<u8>, x: int, y: int, k: int)
    requires
        screen.len() == 256,
        0 <= k < 8,
    ensures
        bit(hits(screen, sprite, x, y), k) == (exists|row: int|
            bit_collides(screen, sprite, x, y, k, row)),
    decreases sprite.len(),
{
    if sprite.len() == 0 {
        lemma_bit_xor(0, 0, k as u8);
    } else {
        let rest = sprite.drop_last();
        let n = sprite.len() - 1;
        lemma_hits_bit(screen, rest, x, y, k);
        lemma_row_hits_bit(screen, sprite.last(), x % 64, y + n, k);
        lemma_bit_xor(
            hits(screen, rest, x, y),
            row_hits(screen, sprite.last(), x % 64, y + n),
            k as u8,
        );
        if bit(hits(screen, sprite, x, y), k) {
            if bit(hits(screen, rest, x, y), k) {
                let row = choose|row: int| bit_collides(screen, rest, x, y, k, row);
                assert(bit_collides(screen, sprite, x, y, k, row));
            } else {
                assert(bit_collides(screen, sprite, x, y, k, n));
            }
        }
        if exists|row: int| bit_collides(screen, sprite, x, y, k, row) {
            let row = choose|row: int| bit_collides(screen, sprite, x, y, k, row);
            if row < n {
                assert(bit_collides(screen, rest, x, y, k, row));
            }
        }
    }
}

/// The collision byte is nonzero exactly when the sprite has a set bit
/// over a pixel that is lit.
pub proof fn lemma_hits_collides(screen: Seq<u8>, sprite: Seq<u8>, x: int, y: int)
    requires
        screen.len() == 256,
    ensures
        hits(screen, sprite, x, y) != 0 <==> collides(screen, sprite, x, y),
{
    let h = hits(screen, sprite, x, y);
    lemma_nonzero_has_bit(h);
    if h != 0 {
        let k = choose|k: int| 0 <= k < 8 && bit(h, k);
        lemma_hits_bit(screen, sprite, x, y, k);
        let row = choose|row: int| bit_collides(screen, sprite, x, y, k, row);
        assert(collides_at(screen, sprite, x, y, x % 64 + 7 - k, y + row));
    }
    if collides(screen, sprite, x, y) {
        let (px, py) = choose|px: int, py: int| collides_at(screen, sprite, x, y, px, py);
        let k = 7 - (px - x % 64);
        let row = py - y;
        lemma_hits_bit(screen, sprite, x, y, k);
        assert(bit_collides(screen, sprite, x, y, k, row));
        assert(bit(h, k));
    }
}

/// A sprite drawn onto a screen with no lit pixel collides with nothing.
pub proof fn lemma_blank_no_collision(screen: Seq<u8>, sprite: Seq<u8>, x: int, y: int)
    requires
        screen.len() == 256,
        blank(screen),
    ensures
        hits(screen, sprite, x, y) == 0,
{
    lemma_hits_collides(screen, sprite, x, y);
    if collides(screen, sprite, x, y) {
        let (px, py) = choose|px: int, py: int| collides_at(screen, sprite, x, y, px, py);
        lemma_bit_xor(0, 0, (7 - px % 8) as u8);
        assert(screen[py * 8 + px / 8] == 0);
    }
}

/// Drawing a sprite a second time at the same place reports a collision,
/// as soon as the first drawing lit a pixel: the sprite has a set bit over
/// some pixel of the screen that was unlit before.
pub proof fn lemma_second_blit_collides(
    screen: Seq<u8>,
    sprite: Seq<u8>,
    x: int,
    y: int,
    px: int,
    py: int,
)
    requires
        screen.len() == 256,
        0 <= px < 64,
        0 <= py < 32,
        sprite_pixel(sprite, x, y, px, py),
        !pixel(screen, px, py),
    ensures
        hits(blit(screen, sprite, x, y), sprite, x, y) != 0,
{
    let once = blit(screen, sprite, x, y);
    lemma_blit_pixel(screen, sprite, x, y, px, py);
    assert(collides_at(once, sprite, x, y, px, py));
    lemma_hits_collides(once, sprite, x, y);
}

} // verus!
