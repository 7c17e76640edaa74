//! Scaling the framebuffer into a 32-bit pixel buffer for presentation.
//!
//! The display collaborator presents whatever buffer it is handed; the
//! scaling and the color mapping are computed here, so that what reaches
//! the window is exactly a scaled picture of the engine's framebuffer.

use vstd::prelude::*;

use crate::cpu::SCREEN_PIXELS;

verus! {

/// Scale factor from framebuffer pixels to rendered pixels.
pub const RENDER_SCALE: usize = 10;

/// Width of the rendered buffer: the framebuffer width times the scale.
pub const RENDER_WIDTH: usize = 640;

/// Height of the rendered buffer: the framebuffer height times the scale.
pub const RENDER_HEIGHT: usize = 320;

/// Color of a lit pixel; a clear pixel renders black.
pub const PIXEL_ON: u32 = 0xFFFFFF;

/// The color a framebuffer value renders to.
pub open spec fn render_color(v: u8) -> u32 {
    if v == 0 {
        0u32
    } else {
        0xFFFFFFu32
    }
}

/// Scale the 64 x 32 framebuffer by 10 into a 640 x 320 row-major buffer
/// of colors: each framebuffer pixel becomes a 10 x 10 block.
pub fn render_scaled(screen: &Vec<u8>) -> (buffer: Vec<u32>)
    requires
        screen@.len() == SCREEN_PIXELS,
    ensures
        buffer@.len() == RENDER_WIDTH * RENDER_HEIGHT,
        forall|sx: int, sy: int|
            0 <= sx < RENDER_WIDTH && 0 <= sy < RENDER_HEIGHT ==> #[trigger] buffer@[sy
                * RENDER_WIDTH + sx] == render_color(screen@[(sy / 10) * 64 + sx / 10]),
{
    let mut buffer: Vec<u32> = Vec::new();
    let mut sy: usize = 0;
    while sy < RENDER_HEIGHT
        invariant
            screen@.len() == SCREEN_PIXELS,
            sy <= RENDER_HEIGHT,
            buffer@.len() == sy * RENDER_WIDTH,
            forall|px: int, py: int|
                0 <= px < RENDER_WIDTH && 0 <= py < sy ==> #[trigger] buffer@[py * RENDER_WIDTH
                    + px] == render_color(screen@[(py / 10) * 64 + px / 10]),
        decreases RENDER_HEIGHT - sy,
    {
        let mut sx: usize = 0;
        while sx < RENDER_WIDTH
            invariant
                screen@.len() == SCREEN_PIXELS,
                sy < RENDER_HEIGHT,
                sx <= RENDER_WIDTH,
                buffer@.len() == sy * RENDER_WIDTH + sx,
                forall|px: int, py: int|
                    0 <= px < RENDER_WIDTH && 0 <= py < sy ==> #[trigger] buffer@[py * RENDER_WIDTH
                        + px] == render_color(screen@[(py / 10) * 64 + px / 10]),
                forall|px: int|
                    0 <= px < sx ==> #[trigger] buffer@[sy * RENDER_WIDTH + px] == render_color(
                        screen@[(sy as int / 10) * 64 + px / 10],
                    ),
            decreases RENDER_WIDTH - sx,
        {
            proof {
                vstd::arithmetic::div_mod::lemma_fundamental_div_mod(sy as int, 10);
                vstd::arithmetic::div_mod::lemma_mod_pos_bound(sy as int, 10);
                vstd::arithmetic::div_mod::lemma_fundamental_div_mod(sx as int, 10);
                vstd::arithmetic::div_mod::lemma_mod_pos_bound(sx as int, 10);
            }
            let row = sy / 10;
            let col = sx / 10;
            let v = screen[row * 64 + col];
            let color: u32 = if v == 0 {
                0
            } else {
                PIXEL_ON
            };
            buffer.push(color);
            sx = sx + 1;
        }
        sy = sy + 1;
    }
    buffer
}

} // verus!
