use crate::cpu::Cpu;
use crate::display::pixel;
use crate::globals::{SCREEN_BUFFER_SIZE, SCREEN_WIDTH};
use vstd::prelude::*;

verus! {

/// Side of the square of frame pixels that shows one screen pixel.
pub const SCALING: usize = 8;

/// Width of the frame in pixels: `SCALING` times the screen's.
pub const FRAME_WIDTH: usize = 512;

/// Height of the frame in pixels: `SCALING` times the screen's.
pub const FRAME_HEIGHT: usize = 256;

/// Number of pixels in the frame.
pub const FRAME_SIZE: usize = 131072;

/// Width of the strip on the left of each square that is not painted.
pub const GAP_V: usize = 2;

/// Height of the strip on top of each square that is not painted.
pub const GAP_H: usize = 2;

/// Value of a frame pixel that shows a lit screen pixel.
pub const LIT: u32 = 255;

/// Number of instruction cycles between one timer tick and the next.
pub const TIMER_FACTOR: usize = 8;

/// Whether the frame pixel `(dx, dy)` lies in the painted part of its
/// square.
pub open spec fn painted(dx: int, dy: int) -> bool {
    dx % 8 >= GAP_V && dy % 8 >= GAP_H
}

/// The frame that shows `screen` over `before`: each screen pixel is a
/// square of eight by eight frame pixels, of which the strips on the left
/// and on top keep what was there, and the rest is `LIT` or zero.
pub open spec fn frame_of(screen: Seq<u8>, before: Seq<u32>) -> Seq<u32> {
    Seq::new(
        before.len(),
        |k: int|
            if painted(k % 512, k / 512) {
                if pixel(screen, k % 512 / 8, k / 512 / 8) {
                    LIT
                } else {
                    0u32
                }
            } else {
                before[k]
            },
    )
}

/// Paints the machine's screen into a frame of 512 by 256 pixels, row
/// after row.
pub fn read_buffer(buffer: &mut [u32], cpu: &Cpu)
    requires
        old(buffer)@.len() == FRAME_SIZE,
    ensures
        final(buffer)@ == frame_of(cpu@.screen, old(buffer)@),
{
    let input = cpu.get_display_buffer();
    let ghost before = buffer@;
    for dy in 0..FRAME_HEIGHT
        invariant
            input@ == cpu@.screen,
            input@.len() == SCREEN_BUFFER_SIZE,
            buffer@.len() == FRAME_SIZE,
            before.len() == FRAME_SIZE,
            forall|k: int|
                0 <= k < dy * 512 ==> #[trigger] buffer@[k] == frame_of(input@, before)[k],
            forall|k: int| dy * 512 <= k < FRAME_SIZE ==> #[trigger] buffer@[k] == before[k],
    {
        for dx in 0..FRAME_WIDTH
            invariant
                dy < FRAME_HEIGHT,
                input@.len() == SCREEN_BUFFER_SIZE,
                buffer@.len() == FRAME_SIZE,
                before.len() == FRAME_SIZE,
                forall|k: int|
                    0 <= k < dy * 512 + dx ==> #[trigger] buffer@[k] == frame_of(
                        input@,
                        before,
                    )[k],
                forall|k: int|
                    dy * 512 + dx <= k < FRAME_SIZE ==> #[trigger] buffer@[k] == before[k],
        {
            let k = dy * FRAME_WIDTH + dx;
            assert(k % 512 == dx && k / 512 == dy);
            if dx % SCALING >= GAP_V && dy % SCALING >= GAP_H {
                let x = dx / SCALING;
                let y = dy / SCALING;
                let shift: u8 = (7 - x % 8) as u8;
                let val = (input[y * (SCREEN_WIDTH / 8) + x / 8] >> shift) & 0x01;
                assert(val == 0 || val == 1) by {
                    let b = input@[y * 8 + x / 8];
                    assert((b >> shift) & 1 == 0 || (b >> shift) & 1 == 1) by (bit_vector);
                }
                buffer[k] = val as u32 * LIT;
            }
        }
    }
    assert(buffer@ =~= frame_of(cpu@.screen, before));
}

/// Counts instruction cycles and says when a timer tick is due: after
/// every ninth cycle.
pub struct Clock {
    pub cycles: usize,
}

impl Clock {
    /// A clock that has counted no cycle.
    pub fn new() -> (r: Self)
        ensures
            r.cycles == 0,
    {
        Clock { cycles: 0 }
    }

    /// Counts one cycle. Returns true, and starts counting again, when
    /// that makes more than `TIMER_FACTOR` cycles since the last tick.
    pub fn advance(&mut self) -> (due: bool)
        ensures
            due == (old(self).cycles >= TIMER_FACTOR),
            final(self).cycles == if due {
                0
            } else {
                old(self).cycles + 1
            },
    {
        if self.cycles >= TIMER_FACTOR {
            self.cycles = 0;
            true
        } else {
            self.cycles = self.cycles + 1;
            false
        }
    }
}

} // verus!
