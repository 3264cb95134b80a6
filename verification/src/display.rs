use crate::globals::{SCREEN_BUFFER_SIZE, SCREEN_HEIGHT, SCREEN_WIDTH};
use vstd::prelude::*;

verus! {

/// Whether bit `k` of `b` is set, bit 0 being the least significant.
pub open spec fn bit(b: u8, k: int) -> bool {
    0 <= k < 8 && (b >> (k as u8)) & 1 == 1
}

/// Whether the pixel in column `x` of scanline `y` is lit. Scanlines are
/// stored one after another, eight pixels to a byte, leftmost pixel in the
/// top bit.
pub open spec fn pixel(screen: Seq<u8>, x: int, y: int) -> bool
    recommends
        0 <= x < SCREEN_WIDTH,
        0 <= y < SCREEN_HEIGHT,
        screen.len() == SCREEN_BUFFER_SIZE,
{
    bit(screen[y * 8 + x / 8], 7 - x % 8)
}

/// Whether a sprite whose top left corner is at column `x % 64` of
/// scanline `y` has a set bit over the pixel `(px, py)`. A sprite row is
/// one byte, leftmost pixel in the top bit.
pub open spec fn sprite_pixel(sprite: Seq<u8>, x: int, y: int, px: int, py: int) -> bool {
    let row = py - y;
    let col = px - x % 64;
    0 <= row < sprite.len() && 0 <= col < 8 && bit(sprite[row], 7 - col)
}

/// The bits of the sprite row `d`, drawn from column `x0` on, that fall
/// into byte `bc` of its scanline.
pub open spec fn row_mask(d: u8, x0: int, bc: int) -> u8 {
    if bc == x0 / 8 {
        d >> ((x0 % 8) as u8)
    } else if bc == x0 / 8 + 1 && x0 % 8 != 0 {
        d << ((8 - x0 % 8) as u8)
    } else {
        0
    }
}

/// The bits that a sprite at `(x % 64, y)` flips in byte `i` of the
/// buffer. Bytes of scanlines that the sprite has no row for get none, and
/// so do the bytes beyond the right edge: a scanline has eight bytes, and
/// byte `i` is byte `i % 8` of scanline `i / 8`.
pub open spec fn sprite_mask(sprite: Seq<u8>, x: int, y: int, i: int) -> u8 {
    let row = i / 8 - y;
    if 0 <= row < sprite.len() {
        row_mask(sprite[row], x % 64, i % 8)
    } else {
        0
    }
}

/// The buffer after a sprite was drawn at `(x % 64, y)`: every byte is
/// combined by exclusive or with the sprite's bits over it.
pub open spec fn blit(screen: Seq<u8>, sprite: Seq<u8>, x: int, y: int) -> Seq<u8> {
    Seq::new(screen.len(), |i: int| screen[i] ^ sprite_mask(sprite, x, y, i))
}

/// The eight pixels of scanline `y` from column `x0` on, leftmost in the
/// top bit. Columns beyond the right edge read as unlit.
pub open spec fn window(screen: Seq<u8>, x0: int, y: int) -> u8 {
    let i = y * 8 + x0 / 8;
    let o = x0 % 8;
    if o == 0 {
        screen[i]
    } else if x0 / 8 < 7 {
        (screen[i] << (o as u8)) | (screen[i + 1] >> ((8 - o) as u8))
    } else {
        screen[i] << (o as u8)
    }
}

/// The bits of sprite row `d` that lie over a lit pixel when the row is
/// drawn from column `x0` of scanline `y`; none where the scanline is off
/// the screen.
pub open spec fn row_hits(screen: Seq<u8>, d: u8, x0: int, y: int) -> u8 {
    if 0 <= y < SCREEN_HEIGHT {
        window(screen, x0, y) & d
    } else {
        0
    }
}

/// The collision byte of a sprite at `(x % 64, y)`: bit `k` is set when,
/// in some row, bit `k` of the sprite lies over a lit pixel.
pub open spec fn hits(screen: Seq<u8>, sprite: Seq<u8>, x: int, y: int) -> u8
    decreases sprite.len(),
{
    if sprite.len() == 0 {
        0
    } else {
        hits(screen, sprite.drop_last(), x, y) | row_hits(
            screen,
            sprite.last(),
            x % 64,
            y + sprite.len() - 1,
        )
    }
}

/// A monochrome framebuffer of 64 by 32 pixels, one bit per pixel.
pub struct Display {
    pub buffer: [u8; SCREEN_BUFFER_SIZE],
}

impl View for Display {
    type V = Seq<u8>;

    open spec fn view(&self) -> Seq<u8> {
        self.buffer@
    }
}

proof fn lemma_xor_zero()
    ensures
        forall|b: u8| #[trigger] (b ^ 0) == b,
{
    assert forall|b: u8| #[trigger] (b ^ 0) == b by {
        assert(b ^ 0 == b) by (bit_vector);
    }
}

/// What clipping a sprite row at the right edge keeps and drops: the bits
/// that stay in the first byte are untouched, those that would spill into
/// the following byte are gone, and with them their collisions.
proof fn lemma_clip(d: u8, a: u8, c: u8, o: u8)
    requires
        0 < o < 8,
    ensures
        (d & (0xFFu8 << o)) >> o == d >> o,
        (d & (0xFFu8 << o)) << ((8 - o) as u8) == 0,
        ((a << o) | (c >> ((8 - o) as u8))) & (d & (0xFFu8 << o)) == (a << o) & d,
        (a << o) & (d & (0xFFu8 << o)) == (a << o) & d,
{
    assert((d & (0xFFu8 << o)) >> o == d >> o) by (bit_vector)
        requires
            0 < o < 8,
    ;
    assert((d & (0xFFu8 << o)) << ((8 - o) as u8) == 0) by (bit_vector)
        requires
            0 < o < 8,
    ;
    assert(((a << o) | (c >> ((8 - o) as u8))) & (d & (0xFFu8 << o)) == (a << o) & d)
        by (bit_vector)
        requires
            0 < o < 8,
    ;
    assert((a << o) & (d & (0xFFu8 << o)) == (a << o) & d) by (bit_vector)
        requires
            0 < o < 8,
    ;
}

impl Display {
    /// A display with every pixel unlit.
    pub fn new() -> (r: Self)
        ensures
            r@ == Seq::new(SCREEN_BUFFER_SIZE as nat, |i: int| 0u8),
    {
        let r = Display { buffer: [0; SCREEN_BUFFER_SIZE] };
        assert(r@ =~= Seq::new(SCREEN_BUFFER_SIZE as nat, |i: int| 0u8));
        r
    }

    /// Turns every pixel off.
    pub fn clear(&mut self)
        ensures
            final(self)@ == Seq::new(SCREEN_BUFFER_SIZE as nat, |i: int| 0u8),
    {
        self.buffer = [0x0; SCREEN_BUFFER_SIZE];
        assert(self@ =~= Seq::new(SCREEN_BUFFER_SIZE as nat, |i: int| 0u8));
    }

    /// Replaces the whole buffer by `data`.
    pub fn load(&mut self, data: &[u8; SCREEN_BUFFER_SIZE])
        ensures
            final(self)@ == data@,
    {
        self.buffer = *data;
    }

    /// The packed buffer.
    pub fn get_buffer(&self) -> (r: &[u8; SCREEN_BUFFER_SIZE])
        ensures
            r@ == self@,
    {
        &self.buffer
    }

    /// Draws the first `lines` rows of `data` as a sprite with its top left
    /// corner at column `x % 64` of scanline `y`, flipping every pixel under
    /// a set bit, and returns the collision byte: nonzero when a pixel that
    /// was lit got flipped. Rows below the screen are skipped and bits past
    /// the right edge are dropped.
    pub fn blit_sprite(&mut self, x: usize, y: usize, data: &[u8], lines: usize) -> (flag: u8)
        requires
            lines <= data@.len(),
        ensures
            final(self)@ == blit(old(self)@, data@.take(lines as int), x as int, y as int),
            flag == hits(old(self)@, data@.take(lines as int), x as int, y as int),
    {
        let x0 = x % SCREEN_WIDTH;
        let mut flag: u8 = 0;
        proof {
            lemma_xor_zero();
            assert(self@ =~= blit(old(self)@, data@.take(0), x as int, y as int));
        }
        for r in 0..lines
            invariant
                lines <= data@.len(),
                x0 == x % SCREEN_WIDTH,
                self@ == blit(old(self)@, data@.take(r as int), x as int, y as int),
                flag == hits(old(self)@, data@.take(r as int), x as int, y as int),
        {
            let ghost before = self@;
            let ghost done = data@.take(r as int);
            let ghost next = data@.take(r + 1);
            proof {
                lemma_xor_zero();
                assert(next.drop_last() =~= done);
                assert(next.last() == data@[r as int]);
            }
            if y < SCREEN_HEIGHT && r < SCREEN_HEIGHT - y {
                let hit = self.blit_byte(x0, y + r, data[r]);
                proof {
                    assert(x0 as int % 64 == x as int % 64);
                    assert forall|i: int| 0 <= i < SCREEN_BUFFER_SIZE implies #[trigger] self@[i]
                        == old(self)@[i] ^ sprite_mask(next, x as int, y as int, i) by {
                        assert(self@[i] == before[i] ^ sprite_mask(
                            seq![data@[r as int]],
                            x0 as int,
                            y + r,
                            i,
                        ));
                        assert(before[i] == old(self)@[i] ^ sprite_mask(done, x as int, y as int, i));
                    }
                    assert(self@ =~= blit(old(self)@, next, x as int, y as int));
                    assert(before[y * 8 + r * 8 + x0 / 8] == old(self)@[y * 8 + r * 8 + x0 / 8]);
                    if x0 / 8 < 7 {
                        assert(before[y * 8 + r * 8 + x0 / 8 + 1] == old(self)@[y * 8 + r * 8 + x0
                            / 8 + 1]);
                    }
                    assert(hit == row_hits(old(self)@, data@[r as int], x as int % 64, y + r));
                }
                flag = flag | hit;
            } else {
                proof {
                    assert(self@ =~= blit(old(self)@, next, x as int, y as int));
                    assert(flag | 0 == flag) by (bit_vector);
                }
            }
        }
        flag
    }

    /// Draws one sprite row from column `x % 64` of scanline `y` and
    /// returns its collision byte. Bits that would pass the right edge are
    /// dropped; a scanline off the screen leaves the buffer as it is.
    pub fn blit_byte(&mut self, x: usize, y: usize, data: u8) -> (flag: u8)
        ensures
            final(self)@ == blit(old(self)@, seq![data], x as int, y as int),
            flag == row_hits(old(self)@, data, x as int % 64, y as int),
    {
        proof {
            lemma_xor_zero();
        }
        let x0 = x % SCREEN_WIDTH;
        if y >= SCREEN_HEIGHT {
            assert(self@ =~= blit(old(self)@, seq![data], x as int, y as int));
            return 0;
        }
        let px = x0 + y * SCREEN_WIDTH;
        let offset: u8 = (px % 8) as u8;
        let i = px / 8;
        let mut d = data;
        let flag;
        if (x0 + 8) / SCREEN_WIDTH != 0 {
            d = d & (0xFFu8 << offset);
        }
        let ghost a = self.buffer[i as int];
        assert(i == y * 8 + x0 / 8 && offset == x0 % 8);
        if offset == 0 {
            assert(data & (0xFFu8 << 0u8) == data && data >> 0u8 == data) by (bit_vector);
            flag = self.buffer[i] & d;
            self.buffer[i] = self.buffer[i] ^ d;
        } else {
            let ghost c = if i + 1 < SCREEN_BUFFER_SIZE {
                self.buffer[i + 1]
            } else {
                0u8
            };
            proof {
                lemma_clip(data, a, c, offset);
            }
            let mut b = self.buffer[i] << offset;
            self.buffer[i] = self.buffer[i] ^ (d >> offset);
            if i + 1 < SCREEN_BUFFER_SIZE {
                b = b | (self.buffer[i + 1] >> (8 - offset));
                self.buffer[i + 1] = self.buffer[i + 1] ^ (d << (8 - offset));
            }
            flag = b & d;
        }
        assert(self@ =~= blit(old(self)@, seq![data], x as int, y as int));
        flag
    }
}

} // verus!
