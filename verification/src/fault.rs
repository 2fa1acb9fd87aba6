//! The double-fault screen: the framebuffer filled with plum and the
//! faulting instruction pointer written in the middle as sixteen hex digits.
use vstd::prelude::*;
use crate::gui::font::FONT_8X8;
use crate::gui::renderer::glyph_on;

verus! {

/// Background of the fault screen.
pub const FAULT_BG: u32 = 0x004e2a4f;

/// Color of the digits.
pub const FAULT_TEXT: u32 = 0x00FFFFFF;

/// Horizontal distance between two digits.
pub const DIGIT_ADVANCE: u64 = 9;

/// Width of the sixteen digits, used to centre them.
pub const HEX_WIDTH: u64 = 144;

/// Digit `k` of `rip` written in hex, most significant first.
pub open spec fn nibble(rip: u64, k: int) -> int {
    ((rip >> ((15 - k) * 4) as u64) & 0xFu64) as int
}

/// The offset of pixel (`col`, `row`) of digit `k` drawn at (`x`, `y`).
pub open spec fn digit_offset(stride: int, x: int, y: int, k: int, row: int, col: int) -> int {
    (y + row) * stride + x + DIGIT_ADVANCE * k + col
}

/// Before digit `k`, row `row`, column `col` in drawing order.
pub open spec fn before_step(k2: int, r2: int, c2: int, k: int, row: int, col: int) -> bool {
    k2 < k || (k2 == k && (r2 < row || (r2 == row && c2 < col)))
}

/// Offset `i` is a lit pixel of one of the digits drawn before step
/// (`k`, `row`, `col`).
pub open spec fn hex_lit_upto(
    stride: int,
    x: int,
    y: int,
    rip: u64,
    i: int,
    k: int,
    row: int,
    col: int,
) -> bool {
    exists|k2: int, r2: int, c2: int|
        0 <= k2 < 16 && 0 <= r2 < 8 && 0 <= c2 < 8 && before_step(k2, r2, c2, k, row, col)
            && glyph_on(nibble(rip, k2), r2, c2) && #[trigger] digit_offset(
            stride,
            x,
            y,
            k2,
            r2,
            c2,
        ) == i
}

/// Offset `i` is a lit pixel of the sixteen digits of `rip` at (`x`, `y`).
pub open spec fn hex_lit(stride: int, x: int, y: int, rip: u64, i: int) -> bool {
    hex_lit_upto(stride, x, y, rip, i, 16, 0, 0)
}

/// The pixels with the digits drawn, where their offset is below `limit`.
pub open spec fn hex_drawn(
    buf: Seq<u32>,
    stride: int,
    limit: int,
    x: int,
    y: int,
    rip: u64,
) -> Seq<u32> {
    Seq::new(
        buf.len(),
        |i: int|
            if i < limit && hex_lit(stride, x, y, rip, i) {
                FAULT_TEXT
            } else {
                buf[i]
            },
    )
}

/// Taking one more step of the drawing order adds exactly that step's pixel,
/// when it is lit.
proof fn lemma_hex_step(stride: int, x: int, y: int, rip: u64, i: int, k: int, row: int, col: int)
    requires
        0 <= k < 16,
        0 <= row < 8,
        0 <= col < 8,
    ensures
        hex_lit_upto(stride, x, y, rip, i, k, row, col + 1) == (hex_lit_upto(
            stride,
            x,
            y,
            rip,
            i,
            k,
            row,
            col,
        ) || (glyph_on(nibble(rip, k), row, col) && digit_offset(stride, x, y, k, row, col) == i)),
{
    if glyph_on(nibble(rip, k), row, col) && digit_offset(stride, x, y, k, row, col) == i {
        assert(before_step(k, row, col, k, row, col + 1));
    }
    if hex_lit_upto(stride, x, y, rip, i, k, row, col) {
        let (k2, r2, c2) = choose|k2: int, r2: int, c2: int|
            0 <= k2 < 16 && 0 <= r2 < 8 && 0 <= c2 < 8 && before_step(k2, r2, c2, k, row, col)
                && glyph_on(nibble(rip, k2), r2, c2) && #[trigger] digit_offset(
                stride,
                x,
                y,
                k2,
                r2,
                c2,
            ) == i;
        assert(before_step(k2, r2, c2, k, row, col + 1));
    }
    if hex_lit_upto(stride, x, y, rip, i, k, row, col + 1) {
        let (k2, r2, c2) = choose|k2: int, r2: int, c2: int|
            0 <= k2 < 16 && 0 <= r2 < 8 && 0 <= c2 < 8 && before_step(k2, r2, c2, k, row, col + 1)
                && glyph_on(nibble(rip, k2), r2, c2) && #[trigger] digit_offset(
                stride,
                x,
                y,
                k2,
                r2,
                c2,
            ) == i;
        if !(k2 == k && r2 == row && c2 == col) {
            assert(before_step(k2, r2, c2, k, row, col));
        }
    }
}

/// The end of a row is the start of the next, and the end of a digit the
/// start of the next digit.
proof fn lemma_hex_rollover(stride: int, x: int, y: int, rip: u64, i: int, k: int, row: int)
    requires
        0 <= k < 16,
        0 <= row < 8,
    ensures
        hex_lit_upto(stride, x, y, rip, i, k, row, 8) == hex_lit_upto(
            stride,
            x,
            y,
            rip,
            i,
            k,
            row + 1,
            0,
        ),
        hex_lit_upto(stride, x, y, rip, i, k, 8, 0) == hex_lit_upto(stride, x, y, rip, i, k + 1, 0, 0),
{
    if hex_lit_upto(stride, x, y, rip, i, k, row, 8) {
        let (k2, r2, c2) = choose|k2: int, r2: int, c2: int|
            0 <= k2 < 16 && 0 <= r2 < 8 && 0 <= c2 < 8 && before_step(k2, r2, c2, k, row, 8)
                && glyph_on(nibble(rip, k2), r2, c2) && #[trigger] digit_offset(
                stride,
                x,
                y,
                k2,
                r2,
                c2,
            ) == i;
        assert(before_step(k2, r2, c2, k, row + 1, 0));
    }
    if hex_lit_upto(stride, x, y, rip, i, k, row + 1, 0) {
        let (k2, r2, c2) = choose|k2: int, r2: int, c2: int|
            0 <= k2 < 16 && 0 <= r2 < 8 && 0 <= c2 < 8 && before_step(k2, r2, c2, k, row + 1, 0)
                && glyph_on(nibble(rip, k2), r2, c2) && #[trigger] digit_offset(
                stride,
                x,
                y,
                k2,
                r2,
                c2,
            ) == i;
        assert(before_step(k2, r2, c2, k, row, 8));
    }
    if hex_lit_upto(stride, x, y, rip, i, k, 8, 0) {
        let (k2, r2, c2) = choose|k2: int, r2: int, c2: int|
            0 <= k2 < 16 && 0 <= r2 < 8 && 0 <= c2 < 8 && before_step(k2, r2, c2, k, 8, 0)
                && glyph_on(nibble(rip, k2), r2, c2) && #[trigger] digit_offset(
                stride,
                x,
                y,
                k2,
                r2,
                c2,
            ) == i;
        assert(before_step(k2, r2, c2, k + 1, 0, 0));
    }
    if hex_lit_upto(stride, x, y, rip, i, k + 1, 0, 0) {
        let (k2, r2, c2) = choose|k2: int, r2: int, c2: int|
            0 <= k2 < 16 && 0 <= r2 < 8 && 0 <= c2 < 8 && before_step(k2, r2, c2, k + 1, 0, 0)
                && glyph_on(nibble(rip, k2), r2, c2) && #[trigger] digit_offset(
                stride,
                x,
                y,
                k2,
                r2,
                c2,
            ) == i;
        assert(before_step(k2, r2, c2, k, 8, 0));
    }
}

/// Draws the sixteen hex digits of `rip`, most significant first, 9 pixels
/// apart, with the first digit's top-left corner at offset `y * stride + x`;
/// pixels whose offset is not below `fb_height * stride` are skipped.
pub fn draw_hex_rip(pixels: &mut Vec<u32>, stride: u64, fb_height: u64, x: u64, y: u64, rip: u64)
    requires
        fb_height * stride <= old(pixels)@.len(),
        fb_height * stride <= isize::MAX,
        y + 7 <= u64::MAX,
        (y + 7) * stride + x + DIGIT_ADVANCE * 15 + 7 <= isize::MAX,
    ensures
        final(pixels)@ == hex_drawn(
            old(pixels)@,
            stride as int,
            fb_height * stride,
            x as int,
            y as int,
            rip,
        ),
{
    let ghost start = pixels@;
    let len = pixels.len();
    let max_index = fb_height * stride;
    let mut i: u64 = 0;
    while i < 16
        invariant
            fb_height * stride <= start.len(),
            max_index == fb_height * stride,
            fb_height * stride <= isize::MAX,
            y + 7 <= u64::MAX,
            (y + 7) * stride + x + DIGIT_ADVANCE * 15 + 7 <= isize::MAX,
            pixels@.len() == start.len(),
            i <= 16,
            forall|p: int|
                0 <= p < start.len() ==> #[trigger] pixels@[p] == (if p < max_index
                    && hex_lit_upto(stride as int, x as int, y as int, rip, p, i as int, 0, 0) {
                    FAULT_TEXT
                } else {
                    start[p]
                }),
        decreases 16 - i,
    {
        let shift = (15 - i) * 4;
        let nib = (rip >> shift) & 0xF;
        proof {
            assert(nib <= 15) by (bit_vector)
                requires
                    nib == (rip >> shift) & 0xFu64,
            ;
        }
        let char_x = x + (i * 9);
        let font_char = FONT_8X8[nib as usize];
        let mut row: u64 = 0;
        while row < 8
            invariant
                fb_height * stride <= start.len(),
                max_index == fb_height * stride,
                fb_height * stride <= isize::MAX,
                y + 7 <= u64::MAX,
                (y + 7) * stride + x + DIGIT_ADVANCE * 15 + 7 <= isize::MAX,
                pixels@.len() == start.len(),
                i < 16,
                nib == nibble(rip, i as int),
                char_x == x + 9 * i,
                font_char == FONT_8X8[nib as int],
                row <= 8,
                forall|p: int|
                    0 <= p < start.len() ==> #[trigger] pixels@[p] == (if p < max_index
                        && hex_lit_upto(stride as int, x as int, y as int, rip, p, i as int, row as int, 0) {
                        FAULT_TEXT
                    } else {
                        start[p]
                    }),
            decreases 8 - row,
        {
            let row_data = font_char[row as usize];
            let mut col: u64 = 0;
            while col < 8
                invariant
                    fb_height * stride <= start.len(),
                    max_index == fb_height * stride,
                    fb_height * stride <= isize::MAX,
                    y + 7 <= u64::MAX,
                    (y + 7) * stride + x + DIGIT_ADVANCE * 15 + 7 <= isize::MAX,
                    pixels@.len() == start.len(),
                    i < 16,
                    nib == nibble(rip, i as int),
                    char_x == x + 9 * i,
                    row < 8,
                    row_data == FONT_8X8[nib as int][row as int],
                    col <= 8,
                    forall|p: int|
                        0 <= p < start.len() ==> #[trigger] pixels@[p] == (if p < max_index
                            && hex_lit_upto(stride as int, x as int, y as int, rip, p, i as int, row as int, col as int) {
                            FAULT_TEXT
                        } else {
                            start[p]
                        }),
                decreases 8 - col,
            {
                let cur_x = char_x + col;
                let cur_y = y + row;
                proof {
                    assert(cur_y * stride <= (y + 7) * stride) by (nonlinear_arith)
                        requires
                            cur_y <= y + 7,
                    ;
                }
                let offset = (cur_y * stride) + cur_x;
                let lit = (row_data >> ((7 - col) as u8)) & 1 == 1;
                proof {
                    assert(offset == digit_offset(stride as int, x as int, y as int, i as int, row as int, col as int));
                    assert forall|p: int| 0 <= p < start.len() implies hex_lit_upto(stride as int, x as int, y as int, rip, p, i as int, row as int, col as int + 1)
                        == (hex_lit_upto(stride as int, x as int, y as int, rip, p, i as int, row as int, col as int)
                            || (lit && offset == p)) by {
                        lemma_hex_step(stride as int, x as int, y as int, rip, p, i as int, row as int, col as int);
                    }
                }
                if lit {
                    if (offset as isize) < (max_index as isize) {
                        pixels.set(offset as usize, FAULT_TEXT);
                    }
                }
                col = col + 1;
            }
            proof {
                assert forall|p: int| 0 <= p < start.len() implies hex_lit_upto(stride as int, x as int, y as int, rip, p, i as int, row as int, 8)
                    == hex_lit_upto(stride as int, x as int, y as int, rip, p, i as int, row as int + 1, 0) by {
                    lemma_hex_rollover(stride as int, x as int, y as int, rip, p, i as int, row as int);
                }
            }
            row = row + 1;
        }
        proof {
            assert forall|p: int| 0 <= p < start.len() implies hex_lit_upto(stride as int, x as int, y as int, rip, p, i as int, 8, 0)
                == hex_lit_upto(stride as int, x as int, y as int, rip, p, i as int + 1, 0, 0) by {
                lemma_hex_rollover(stride as int, x as int, y as int, rip, p, i as int, 0);
            }
        }
        i = i + 1;
    }
    assert(pixels@ =~= hex_drawn(start, stride as int, fb_height * stride, x as int, y as int, rip));
}

/// Paints the fault screen: the first `height * pitch / 4` pixels in plum,
/// then the digits of `rip` centred horizontally at mid-height.
pub fn fault_screen(pixels: &mut Vec<u32>, width: u64, height: u64, pitch: u64, rip: u64)
    requires
        width >= HEX_WIDTH,
        height * (pitch / 4) <= old(pixels)@.len(),
        height * (pitch / 4) <= isize::MAX,
        height / 2 + 7 <= u64::MAX,
        (height / 2 + 7) * (pitch / 4) + (width - HEX_WIDTH) / 2 + DIGIT_ADVANCE * 15 + 7
            <= isize::MAX,
    ensures
        final(pixels)@ == hex_drawn(
            Seq::new(
                old(pixels)@.len(),
                |p: int|
                    if p < height * (pitch / 4) {
                        FAULT_BG
                    } else {
                        old(pixels)@[p]
                    },
            ),
            (pitch / 4) as int,
            height * (pitch / 4),
            ((width - HEX_WIDTH) / 2) as int,
            (height / 2) as int,
            rip,
        ),
{
    let stride = pitch / 4;
    let len = pixels.len();
    let count = height * stride;
    let ghost start = pixels@;
    let mut i: u64 = 0;
    while i < count
        invariant
            count == height * stride,
            count <= start.len(),
            len == start.len(),
            pixels@.len() == start.len(),
            i <= count,
            forall|p: int| 0 <= p < start.len() ==> #[trigger] pixels@[p] == (if p < i {
                FAULT_BG
            } else {
                start[p]
            }),
        decreases count - i,
    {
        pixels.set(i as usize, FAULT_BG);
        i = i + 1;
    }
    assert(pixels@ =~= Seq::new(
        start.len(),
        |p: int|
            if p < height * (pitch / 4) {
                FAULT_BG
            } else {
                start[p]
            },
    ));
    draw_hex_rip(pixels, stride, height, (width - HEX_WIDTH) / 2, height / 2, rip);
}

/// The digits are those of `rip`: the sixteen nibbles, most significant
/// first, are each below 16 and spell `rip` in base 16.
pub proof fn law_digits_spell_rip(rip: u64)
    ensures
        forall|k: int| 0 <= k < 16 ==> 0 <= #[trigger] nibble(rip, k) < 16,
        rip as int == nibble(rip, 0) * 0x1000000000000000 + nibble(rip, 1) * 0x100000000000000 + nibble(rip, 2) * 0x10000000000000 + nibble(rip, 3) * 0x1000000000000 + nibble(rip, 4) * 0x100000000000 + nibble(rip, 5) * 0x10000000000 + nibble(rip, 6) * 0x1000000000 + nibble(rip, 7) * 0x100000000 + nibble(rip, 8) * 0x10000000 + nibble(rip, 9) * 0x1000000 + nibble(rip, 10) * 0x100000 + nibble(rip, 11) * 0x10000 + nibble(rip, 12) * 0x1000 + nibble(rip, 13) * 0x100 + nibble(rip, 14) * 0x10 + nibble(rip, 15) * 0x1,
{
    assert forall|k: int| 0 <= k < 16 implies 0 <= #[trigger] nibble(rip, k) < 16 by {
        let s = ((15 - k) * 4) as u64;
        assert((rip >> s) & 0xFu64 <= 15) by (bit_vector);
    }
    assert(rip == ((rip >> 60u64) & 0xFu64) * 0x1000000000000000 + ((rip >> 56u64) & 0xFu64) * 0x100000000000000 + ((rip >> 52u64) & 0xFu64) * 0x10000000000000 + ((rip >> 48u64) & 0xFu64) * 0x1000000000000 + ((rip >> 44u64) & 0xFu64) * 0x100000000000 + ((rip >> 40u64) & 0xFu64) * 0x10000000000 + ((rip >> 36u64) & 0xFu64) * 0x1000000000 + ((rip >> 32u64) & 0xFu64) * 0x100000000 + ((rip >> 28u64) & 0xFu64) * 0x10000000 + ((rip >> 24u64) & 0xFu64) * 0x1000000 + ((rip >> 20u64) & 0xFu64) * 0x100000 + ((rip >> 16u64) & 0xFu64) * 0x10000 + ((rip >> 12u64) & 0xFu64) * 0x1000 + ((rip >> 8u64) & 0xFu64) * 0x100 + ((rip >> 4u64) & 0xFu64) * 0x10 + ((rip >> 0u64) & 0xFu64) * 0x1) by (bit_vector);
}

} // verus!
