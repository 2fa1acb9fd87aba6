//! The 8x8 glyphs of the hexadecimal digits and the mouse cursor sprite.
use vstd::prelude::*;

verus! {

/// Glyphs of `0`-`9` and `a`-`f`, one byte per row, bit 7 leftmost.
pub const FONT_8X8: [[u8; 8]; 16] = [
    [0x3E, 0x66, 0x6E, 0x7E, 0x76, 0x66, 0x3E, 0x00],
    [0x18, 0x18, 0x18, 0x18, 0x18, 0x18, 0x18, 0x00],
    [0x3E, 0x06, 0x06, 0x3E, 0x60, 0x60, 0x3E, 0x00],
    [0x3E, 0x06, 0x06, 0x3E, 0x06, 0x06, 0x3E, 0x00],
    [0x66, 0x66, 0x66, 0x7E, 0x06, 0x06, 0x06, 0x00],
    [0x7E, 0x60, 0x60, 0x7E, 0x06, 0x06, 0x7E, 0x00],
    [0x3E, 0x60, 0x60, 0x3E, 0x66, 0x66, 0x3E, 0x00],
    [0x7E, 0x06, 0x06, 0x06, 0x06, 0x06, 0x06, 0x00],
    [0x3E, 0x66, 0x66, 0x3E, 0x66, 0x66, 0x3E, 0x00],
    [0x3E, 0x66, 0x66, 0x3E, 0x06, 0x06, 0x3E, 0x00],
    [0x3C, 0x66, 0x66, 0x7E, 0x66, 0x66, 0x66, 0x00],
    [0x7C, 0x66, 0x66, 0x7C, 0x66, 0x66, 0x7C, 0x00],
    [0x3C, 0x66, 0x60, 0x60, 0x60, 0x66, 0x3C, 0x00],
    [0x78, 0x6C, 0x66, 0x66, 0x66, 0x6C, 0x78, 0x00],
    [0x7E, 0x60, 0x60, 0x78, 0x60, 0x60, 0x7E, 0x00],
    [0x7E, 0x60, 0x60, 0x78, 0x60, 0x60, 0x60, 0x00],
];

/// Width of the cursor sprite.
pub const CURSOR_WIDTH: usize = 12;

/// Height of the cursor sprite.
pub const CURSOR_HEIGHT: usize = 19;

/// The cursor's click point within the sprite.
pub const HOTSPOT_X: usize = 0;

/// The cursor's click point within the sprite.
pub const HOTSPOT_Y: usize = 0;

/// The cursor sprite, row by row: 0 transparent, 1 black, 2 white.
pub const SPRITE: [u8; 228] = [
    1, 1, 0, 0, 0, 0, 0, 0, 0, 0, 0, 0,
    1, 2, 1, 0, 0, 0, 0, 0, 0, 0, 0, 0,
    1, 2, 2, 1, 0, 0, 0, 0, 0, 0, 0, 0,
    1, 2, 2, 2, 1, 0, 0, 0, 0, 0, 0, 0,
    1, 2, 2, 2, 2, 1, 0, 0, 0, 0, 0, 0,
    1, 2, 2, 2, 2, 2, 1, 0, 0, 0, 0, 0,
    1, 2, 2, 2, 2, 2, 2, 1, 0, 0, 0, 0,
    1, 2, 2, 2, 2, 2, 2, 2, 1, 0, 0, 0,
    1, 2, 2, 2, 2, 2, 2, 2, 2, 1, 0, 0,
    1, 2, 2, 2, 2, 1, 1, 1, 1, 1, 1, 0,
    1, 2, 2, 1, 2, 2, 1, 0, 0, 0, 0, 0,
    1, 2, 1, 0, 1, 2, 2, 1, 0, 0, 0, 0,
    1, 1, 0, 0, 1, 2, 2, 1, 0, 0, 0, 0,
    0, 0, 0, 0, 0, 1, 2, 2, 1, 0, 0, 0,
    0, 0, 0, 0, 0, 1, 2, 2, 1, 0, 0, 0,
    0, 0, 0, 0, 0, 0, 1, 2, 2, 1, 0, 0,
    0, 0, 0, 0, 0, 0, 1, 2, 2, 1, 0, 0,
    0, 0, 0, 0, 0, 0, 0, 1, 1, 0, 0, 0,
    0, 0, 0, 0, 0, 0, 0, 0, 0, 0, 0, 0,
];

} // verus!
