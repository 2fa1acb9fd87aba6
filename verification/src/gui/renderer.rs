//! Software renderer: draws into a back buffer of `stride * height` pixels,
//! `stride` being the framebuffer pitch in pixels; the pixel at column `x`,
//! row `y` is at index `y * stride + x`. Copying the back buffer to the
//! framebuffer is outside this crate.
use vstd::prelude::*;
use vstd::arithmetic::div_mod::{lemma_fundamental_div_mod, lemma_fundamental_div_mod_converse};
use crate::gui::font::{CURSOR_HEIGHT, CURSOR_WIDTH, FONT_8X8, SPRITE};

verus! {

/// Number of pixels in the cursor sprite.
pub const CURSOR_PIXELS: usize = 228;

/// Index `i` of a buffer with this geometry is a pixel on the screen.
pub open spec fn visible(i: int, width: int, height: int, stride: int) -> bool {
    &&& stride > 0
    &&& 0 <= i
    &&& i % stride < width
    &&& i / stride < height
}

/// How a drawing operation changes the pixel at offset (`dx`, `dy`) of its
/// area, given the pixel's old value.
pub type Paint = spec_fn(int, int, u32) -> u32;

/// The buffer after `paint` is applied to the visible pixels of the area at
/// (`x`, `y`) of `rw` by `rh` pixels.
pub open spec fn region_drawn(
    buf: Seq<u32>,
    width: int,
    height: int,
    stride: int,
    x: int,
    y: int,
    rw: int,
    rh: int,
    paint: Paint,
) -> Seq<u32> {
    Seq::new(
        buf.len(),
        |i: int|
            if visible(i, width, height, stride) && x <= i % stride < x + rw && y <= i / stride < y
                + rh {
                paint(i % stride - x, i / stride - y, buf[i])
            } else {
                buf[i]
            },
    )
}

/// The area painted up to row `row`, and up to column `col` of that row.
pub open spec fn region_upto(
    buf: Seq<u32>,
    width: int,
    height: int,
    stride: int,
    x: int,
    y: int,
    rw: int,
    row: int,
    col: int,
    paint: Paint,
) -> Seq<u32> {
    Seq::new(
        buf.len(),
        |i: int|
            if visible(i, width, height, stride) && x <= i % stride < x + rw && y <= i / stride && (i
                / stride < y + row || (i / stride == y + row && i % stride < x + col)) {
                paint(i % stride - x, i / stride - y, buf[i])
            } else {
                buf[i]
            },
    )
}

/// The buffer with the visible pixels of the rectangle at (`x`, `y`) of
/// `rw` by `rh` pixels set to `color`.
pub open spec fn rect_drawn(
    buf: Seq<u32>,
    width: int,
    height: int,
    stride: int,
    x: int,
    y: int,
    rw: int,
    rh: int,
    color: u32,
) -> Seq<u32> {
    region_drawn(buf, width, height, stride, x, y, rw, rh, |dx: int, dy: int, old: u32| color)
}


/// Channel `shift / 8` of a 0xRRGGBB color.
pub open spec fn channel(c: u32, shift: u32) -> int {
    ((c >> shift) & 0xFFu32) as int
}

/// A channel of `src` laid over a channel of `dst` with opacity `a` out of
/// 255, in 8.8 fixed point.
pub open spec fn mix(s: int, d: int, a: int) -> int {
    (s * a + d * (255 - a)) / 256
}

/// `src` blended over `dst` with opacity `alpha`, channel by channel.
pub open spec fn blend(src: u32, dst: u32, alpha: u8) -> u32 {
    (mix(channel(src, 16), channel(dst, 16), alpha as int) * 65536 + mix(
        channel(src, 8),
        channel(dst, 8),
        alpha as int,
    ) * 256 + mix(channel(src, 0), channel(dst, 0), alpha as int)) as u32
}

/// The font row of glyph `index`, row `row`.
pub open spec fn glyph_row(index: int, row: int) -> u8 {
    FONT_8X8[index][row]
}

/// Pixel (`col`, `row`) of glyph `index` is set.
pub open spec fn glyph_on(index: int, row: int, col: int) -> bool {
    (glyph_row(index, row) >> ((7 - col) as u8)) & 1u8 == 1u8
}

/// The glyph of a character: `0`-`9` and `a`-`f` have one; others, -1.
pub open spec fn glyph_index(c: char) -> int {
    if '0' <= c && c <= '9' {
        c as int - '0' as int
    } else if 'a' <= c && c <= 'f' {
        c as int - 'a' as int + 10
    } else {
        -1
    }
}

/// The paint of a character's glyph in `color`.
pub open spec fn glyph_paint(c: char, color: u32) -> Paint {
    |dx: int, dy: int, old: u32|
        if glyph_on(glyph_index(c), dy, dx) {
            color
        } else {
            old
        }
}

/// Every pixel of a `width` by `height` rectangle at (`x`, `y`) has
/// coordinates that fit a `usize`; an empty rectangle fits anywhere.
pub open spec fn rect_fits(x: int, y: int, width: int, height: int) -> bool {
    width > 0 && height > 0 ==> x + width - 1 <= usize::MAX && y + height - 1 <= usize::MAX
}

/// Every lit pixel of the glyph of `c`, drawn at (`x`, `y`), has coordinates
/// that fit a `usize`; a character without a glyph draws nothing and fits
/// anywhere.
pub open spec fn glyph_fits(c: char, x: int, y: int) -> bool {
    glyph_index(c) >= 0 ==> forall|row: int, col: int|
        0 <= row < 8 && 0 <= col < 8 && #[trigger] glyph_on(glyph_index(c), row, col) ==> x + col
            <= usize::MAX && y + row <= usize::MAX
}

/// The characters of `text`, drawn eight pixels apart from (`x`, `y`), each
/// start at a column that fits a `usize` and fit there, and the column after
/// the last one does too.
pub open spec fn text_fits(text: Seq<char>, x: int, y: int) -> bool {
    &&& 8 * text.len() <= usize::MAX
    &&& forall|i: int|
        0 <= i < text.len() ==> x + 8 * i <= usize::MAX && #[trigger] glyph_fits(text[i], x + 8 * i, y)
}

/// A glyph whose 8 by 8 box fits fits.
pub proof fn lemma_glyph_fits(c: char, x: int, y: int)
    requires
        0 <= x,
        0 <= y,
        x + 8 <= usize::MAX,
        y + 8 <= usize::MAX,
    ensures
        glyph_fits(c, x, y),
{
}

/// A text whose boxes all fit fits.
pub proof fn lemma_text_fits(text: Seq<char>, x: int, y: int)
    requires
        0 <= x,
        0 <= y,
        x + 8 * text.len() <= usize::MAX,
        y + 8 <= usize::MAX,
    ensures
        text_fits(text, x, y),
{
    assert forall|i: int| 0 <= i < text.len() implies x + 8 * i <= usize::MAX && #[trigger] glyph_fits(text[i], x + 8 * i, y) by {
        lemma_glyph_fits(text[i], x + 8 * i, y);
    }
}

/// The buffer with character `c` drawn at (`x`, `y`): characters without a
/// glyph draw nothing.
pub open spec fn char_drawn(
    buf: Seq<u32>,
    width: int,
    height: int,
    stride: int,
    x: int,
    y: int,
    c: char,
    color: u32,
) -> Seq<u32> {
    if glyph_index(c) < 0 {
        buf
    } else {
        region_drawn(buf, width, height, stride, x, y, 8, 8, glyph_paint(c, color))
    }
}

/// The buffer with the characters `text` drawn from (`x`, `y`), eight pixels
/// apart, left to right.
pub open spec fn text_drawn(
    buf: Seq<u32>,
    width: int,
    height: int,
    stride: int,
    x: int,
    y: int,
    text: Seq<char>,
    color: u32,
) -> Seq<u32>
    decreases text.len(),
{
    if text.len() == 0 {
        buf
    } else {
        char_drawn(
            text_drawn(buf, width, height, stride, x, y, text.drop_last(), color),
            width,
            height,
            stride,
            x + 8 * (text.len() - 1),
            y,
            text.last(),
            color,
        )
    }
}


/// Pixel `k` of a raw image: four bytes, little-endian 0xAARRGGBB.
pub open spec fn image_pixel(data: Seq<u8>, k: int) -> u32 {
    (data[4 * k] as int + data[4 * k + 1] as int * 256 + data[4 * k + 2] as int * 65536
        + data[4 * k + 3] as int * 16777216) as u32
}

/// How a pixel of opacity `alpha` is laid over `old`: transparent pixels
/// leave it, opaque ones replace it, others blend.
pub open spec fn lay_over(color: u32, old: u32, alpha: u8) -> u32 {
    if alpha == 0 {
        old
    } else if alpha == 255 {
        color
    } else {
        blend(color, old, alpha)
    }
}

/// The paint of a raw image `width` pixels wide, each pixel with its own
/// opacity scaled by `global_alpha` out of 255 (255 leaves it unscaled).
pub open spec fn image_paint(data: Seq<u8>, width: int, global_alpha: u8, faded: bool) -> Paint {
    |dx: int, dy: int, old: u32|
        {
            let p = image_pixel(data, dy * width + dx);
            let a = data[4 * (dy * width + dx) + 3];
            let alpha = if faded {
                ((a as int * global_alpha as int) / 255) as u8
            } else {
                a
            };
            lay_over(p, old, alpha)
        }
}

/// What lies under the cursor sprite placed at (`x`, `y`), row by row;
/// sprite pixels off the screen record zero.
pub open spec fn saved_under(buf: Seq<u32>, width: int, height: int, stride: int, x: int, y: int) -> Seq<u32> {
    Seq::new(
        CURSOR_PIXELS as nat,
        |k: int|
            if x + k % (CURSOR_WIDTH as int) < width && y + k / (CURSOR_WIDTH as int) < height {
                buf[(y + k / (CURSOR_WIDTH as int)) * stride + x + k % (CURSOR_WIDTH as int)]
            } else {
                0u32
            },
    )
}

/// The paint that puts back what the cursor covered.
pub open spec fn restore_paint(backup: Seq<u32>) -> Paint {
    |dx: int, dy: int, old: u32| backup[dy * CURSOR_WIDTH as int + dx]
}

/// The paint of the cursor sprite: black outline, white inside.
pub open spec fn sprite_paint() -> Paint {
    |dx: int, dy: int, old: u32|
        if SPRITE[dy * CURSOR_WIDTH as int + dx] == 1 {
            0u32
        } else if SPRITE[dy * CURSOR_WIDTH as int + dx] == 2 {
            0xFFFFFFu32
        } else {
            old
        }
}

/// One copy from the back buffer to the framebuffer: `len` pixels from
/// index `offset`, the same in both.
#[derive(Clone, Copy, Debug, PartialEq, Eq, Structural)]
pub struct RowCopy {
    pub offset: usize,
    pub len: usize,
}

/// Width of each row copy of a partial swap: the rectangle's width, cut at
/// the right edge of the screen.
pub open spec fn swap_row_width(x: int, w: int, width: int) -> int {
    if x + w > width {
        if width > x {
            width - x
        } else {
            0
        }
    } else {
        w
    }
}

/// The buffer with its first `count` pixels set to `color`.
pub open spec fn cleared(buf: Seq<u32>, count: int, color: u32) -> Seq<u32> {
    Seq::new(buf.len(), |i: int| if i < count { color } else { buf[i] })
}

/// Index `i` is the pixel at column `px`, row `py` exactly when its
/// coordinates are those.
pub proof fn lemma_coords(i: int, px: int, py: int, stride: int)
    requires
        stride > 0,
        0 <= px < stride,
        0 <= py,
        0 <= i,
    ensures
        (i == py * stride + px) == (i % stride == px && i / stride == py),
{
    if i == py * stride + px {
        lemma_fundamental_div_mod_converse(i, stride, py, px);
    }
    if i % stride == px && i / stride == py {
        lemma_fundamental_div_mod(i, stride);
        assert(stride * py == py * stride) by (nonlinear_arith);
    }
}

/// A pixel on the screen has an index inside the buffer.
pub proof fn lemma_pixel_in_buffer(px: int, py: int, width: int, height: int, stride: int, len: int)
    requires
        0 <= px < width <= stride,
        0 <= py < height,
        stride * height <= len,
    ensures
        0 <= py * stride + px < len,
        py * stride + px < stride * height,
{
    assert(py * stride + px < stride * height) by (nonlinear_arith)
        requires
            0 <= px < stride,
            0 <= py < height,
    ;
    assert(0 <= py * stride) by (nonlinear_arith)
        requires
            0 <= py,
            0 <= stride,
    ;
}

/// Writing one pixel, seen pixel by pixel: only the pixel at (`px`, `py`)
/// changes, and only when it is on the screen.
pub proof fn lemma_one_pixel(
    buf: Seq<u32>,
    after: Seq<u32>,
    width: int,
    height: int,
    stride: int,
    px: int,
    py: int,
    color: u32,
)
    requires
        0 <= px,
        0 <= py,
        width <= stride,
        stride > 0,
        stride * height <= buf.len(),
        after == (if px < width && py < height {
            buf.update(py * stride + px, color)
        } else {
            buf
        }),
    ensures
        after.len() == buf.len(),
        forall|i: int|
            0 <= i < buf.len() ==> #[trigger] after[i] == (if visible(i, width, height, stride) && i
                % stride == px && i / stride == py {
                color
            } else {
                buf[i]
            }),
{
    if px < width && py < height {
        lemma_pixel_in_buffer(px, py, width, height, stride, buf.len() as int);
    }
    assert forall|i: int| 0 <= i < buf.len() implies #[trigger] after[i] == (if visible(
        i,
        width,
        height,
        stride,
    ) && i % stride == px && i / stride == py {
        color
    } else {
        buf[i]
    }) by {
        if px < width && py < height {
            lemma_coords(i, px, py, stride);
            lemma_pixel_in_buffer(px, py, width, height, stride, buf.len() as int);
        }
    }
}

/// The channels of a color are bytes.
pub proof fn lemma_channel_bound(c: u32)
    ensures
        ((c >> 16u32) & 0xFFu32) <= 255,
        ((c >> 8u32) & 0xFFu32) <= 255,
        (c & 0xFFu32) <= 255,
        (c >> 0u32) == c,
{
    assert(((c >> 16u32) & 0xFFu32) <= 255 && ((c >> 8u32) & 0xFFu32) <= 255 && (c & 0xFFu32)
        <= 255 && (c >> 0u32) == c) by (bit_vector);
}

/// Mixing two byte channels stays within 16 bits and yields a byte.
pub proof fn lemma_mix_bound(s: int, d: int, a: int)
    requires
        0 <= s <= 255,
        0 <= d <= 255,
        0 <= a <= 255,
    ensures
        0 <= s * a,
        0 <= d * (255 - a),
        s * a <= 255 * 255,
        s * a + d * (255 - a) <= 255 * 255,
        0 <= mix(s, d, a) <= 255,
{
    assert(0 <= s * a <= 255 * a) by (nonlinear_arith)
        requires
            0 <= s <= 255,
            0 <= a,
    ;
    assert(0 <= d * (255 - a) <= 255 * (255 - a)) by (nonlinear_arith)
        requires
            0 <= d <= 255,
            0 <= 255 - a,
    ;
    assert(255 * a <= 255 * 255) by (nonlinear_arith)
        requires
            a <= 255,
    ;
}

/// Shifting right by eight divides by 256.
pub proof fn lemma_shift_is_div(v: u16)
    ensures
        (v >> 8u16) as int == v as int / 256,
{
    assert((v >> 8u16) == v / 256u16) by (bit_vector);
}

/// Three byte channels packed as 0xRRGGBB.
pub proof fn lemma_pack(r: u32, g: u32, b: u32)
    requires
        r <= 255,
        g <= 255,
        b <= 255,
    ensures
        (r << 16u32) | (g << 8u32) | b == r * 65536 + g * 256 + b,
{
    assert((r << 16u32) | (g << 8u32) | b == r * 65536 + g * 256 + b) by (bit_vector)
        requires
            r <= 255,
            g <= 255,
            b <= 255,
    ;
}

/// Four bytes read as a little-endian `u32`.
pub proof fn lemma_pack4(b0: u8, b1: u8, b2: u8, b3: u8)
    ensures
        (b0 as u32) | ((b1 as u32) << 8u32) | ((b2 as u32) << 16u32) | ((b3 as u32) << 24u32)
            == b0 as int + b1 as int * 256 + b2 as int * 65536 + b3 as int * 16777216,
        (((b0 as u32) | ((b1 as u32) << 8u32) | ((b2 as u32) << 16u32) | ((b3 as u32) << 24u32))
            >> 24u32) as u8 == b3,
{
    let w0 = b0 as u32;
    let w1 = b1 as u32;
    let w2 = b2 as u32;
    let w3 = b3 as u32;
    assert(w0 | (w1 << 8u32) | (w2 << 16u32) | (w3 << 24u32) == w0 + w1 * 256 + w2 * 65536 + w3
        * 16777216 && ((w0 | (w1 << 8u32) | (w2 << 16u32) | (w3 << 24u32)) >> 24u32) == w3)
        by (bit_vector)
        requires
            w0 < 256,
            w1 < 256,
            w2 < 256,
            w3 < 256,
    ;
}

/// In the middle of a drawing loop the pixel about to be painted still has
/// its value from before the loop.
pub proof fn lemma_region_unpainted(
    start: Seq<u32>,
    width: int,
    height: int,
    stride: int,
    x: int,
    y: int,
    rw: int,
    row: int,
    col: int,
    paint: Paint,
)
    requires
        0 <= x,
        0 <= y,
        0 <= row,
        0 <= col < rw,
        x + col < width <= stride,
        y + row < height,
        stride * height <= start.len(),
    ensures
        region_upto(start, width, height, stride, x, y, rw, row, col, paint)[(y + row) * stride + x
            + col] == start[(y + row) * stride + x + col],
{
    let i = (y + row) * stride + x + col;
    lemma_pixel_in_buffer(x + col, y + row, width, height, stride, start.len() as int);
    lemma_coords(i, x + col, y + row, stride);
}

/// One step of a drawing loop: painting the pixel at column `col` of row
/// `row` of the area (or leaving it, when the paint keeps it) extends the
/// painted part by that pixel.
pub proof fn lemma_region_step(
    start: Seq<u32>,
    buf: Seq<u32>,
    after: Seq<u32>,
    width: int,
    height: int,
    stride: int,
    x: int,
    y: int,
    rw: int,
    row: int,
    col: int,
    paint: Paint,
)
    requires
        0 <= x,
        0 <= y,
        0 <= row,
        0 <= col < rw,
        width <= stride,
        stride > 0,
        stride * height <= start.len(),
        buf == region_upto(start, width, height, stride, x, y, rw, row, col, paint),
        after == (if x + col < width && y + row < height {
            buf.update(
                (y + row) * stride + x + col,
                paint(col, row, start[(y + row) * stride + x + col]),
            )
        } else {
            buf
        }),
    ensures
        after == region_upto(start, width, height, stride, x, y, rw, row, col + 1, paint),
{
    let px = x + col;
    let py = y + row;
    if px < width && py < height {
        lemma_pixel_in_buffer(px, py, width, height, stride, start.len() as int);
    }
    let v = if px < width && py < height {
        paint(col, row, start[py * stride + px])
    } else {
        0u32
    };
    lemma_one_pixel(buf, after, width, height, stride, px, py, v);
    assert(after =~= region_upto(start, width, height, stride, x, y, rw, row, col + 1, paint)) by {
        assert forall|i: int| 0 <= i < start.len() implies #[trigger] after[i] == region_upto(
            start,
            width,
            height,
            stride,
            x,
            y,
            rw,
            row,
            col + 1,
            paint,
        )[i] by {
            if visible(i, width, height, stride) && i % stride == px && i / stride == py {
                lemma_coords(i, px, py, stride);
            }
        }
    }
}

/// A finished row is the start of the next one, and after the last row the
/// whole area is painted.
pub proof fn lemma_region_rows(
    start: Seq<u32>,
    width: int,
    height: int,
    stride: int,
    x: int,
    y: int,
    rw: int,
    row: int,
    paint: Paint,
)
    requires
        0 <= rw,
        0 <= row,
    ensures
        region_upto(start, width, height, stride, x, y, rw, row, rw, paint) == region_upto(
            start,
            width,
            height,
            stride,
            x,
            y,
            rw,
            row + 1,
            0,
            paint,
        ),
        region_upto(start, width, height, stride, x, y, rw, row, 0, paint) == region_drawn(
            start,
            width,
            height,
            stride,
            x,
            y,
            rw,
            row,
            paint,
        ),
{
    assert(region_upto(start, width, height, stride, x, y, rw, row, rw, paint) =~= region_upto(
        start,
        width,
        height,
        stride,
        x,
        y,
        rw,
        row + 1,
        0,
        paint,
    ));
    assert(region_upto(start, width, height, stride, x, y, rw, row, 0, paint) =~= region_drawn(
        start,
        width,
        height,
        stride,
        x,
        y,
        rw,
        row,
        paint,
    ));
}

/// The renderer: framebuffer geometry, the back buffer, and what lies under
/// the cursor.
pub struct Renderer {
    width: usize,
    height: usize,
    pitch: usize,
    buffer: Vec<u32>,
    cursor_backup: Vec<u32>,
    last_cursor_x: usize,
    last_cursor_y: usize,
}

impl Renderer {
    /// Screen width in pixels.
    pub closed spec fn spec_width(&self) -> int {
        self.width as int
    }

    /// Screen height in pixels.
    pub closed spec fn spec_height(&self) -> int {
        self.height as int
    }

    /// Pixels per buffer row: the pitch in bytes over four.
    pub closed spec fn spec_stride(&self) -> int {
        self.pitch as int / 4
    }

    /// The back buffer.
    pub closed spec fn pixels(&self) -> Seq<u32> {
        self.buffer@
    }

    /// Where the cursor was last drawn.
    pub closed spec fn cursor_pos(&self) -> (usize, usize) {
        (self.last_cursor_x, self.last_cursor_y)
    }

    /// What was under the cursor when it was last drawn, row by row.
    pub closed spec fn backup(&self) -> Seq<u32> {
        self.cursor_backup@
    }

    /// Rows of `stride` pixels fit the buffer, each screen row fits a buffer
    /// row, and the cursor backup has one entry per sprite pixel.
    pub closed spec fn wf(&self) -> bool {
        &&& self.width <= self.pitch / 4
        &&& self.pitch / 4 > 0
        &&& (self.pitch / 4) * self.height <= self.buffer@.len()
        &&& self.cursor_backup@.len() == CURSOR_PIXELS
        &&& self.last_cursor_x + CURSOR_WIDTH - 1 <= usize::MAX
        &&& self.last_cursor_y + CURSOR_HEIGHT - 1 <= usize::MAX
    }

    /// The screen's size fits a `usize`.
    pub proof fn lemma_size_fits(&self)
        ensures
            0 <= self.spec_width() <= usize::MAX,
            0 <= self.spec_height() <= usize::MAX,
            0 <= self.spec_stride(),
    {
    }

    /// Renderer and `other` have the same geometry and cursor record.
    pub open spec fn same_frame(&self, other: &Renderer) -> bool {
        &&& self.wf() == other.wf()
        &&& self.spec_width() == other.spec_width()
        &&& self.spec_height() == other.spec_height()
        &&& self.spec_stride() == other.spec_stride()
        &&& self.pixels().len() == other.pixels().len()
        &&& self.cursor_pos() == other.cursor_pos()
    }

    /// A renderer for a framebuffer of `width` by `height` pixels and `pitch`
    /// bytes per row, drawing into `buffer`, with the cursor recorded at the
    /// top-left corner.
    pub fn new(width: usize, height: usize, pitch: usize, buffer: Vec<u32>) -> (r: Self)
        requires
            width <= pitch / 4,
            pitch / 4 > 0,
            (pitch / 4) * height <= buffer@.len(),
        ensures
            r.wf(),
            r.spec_width() == width,
            r.spec_height() == height,
            r.spec_stride() == pitch / 4,
            r.pixels() == buffer@,
            r.backup() == Seq::new(CURSOR_PIXELS as nat, |i: int| 0u32),
            r.cursor_pos() == (0usize, 0usize),
    {
        let mut backup: Vec<u32> = Vec::new();
        while backup.len() < CURSOR_PIXELS
            invariant
                backup@.len() <= CURSOR_PIXELS,
                forall|i: int| 0 <= i < backup@.len() ==> backup@[i] == 0u32,
            decreases CURSOR_PIXELS - backup@.len(),
        {
            backup.push(0u32);
        }
        assert(backup@ =~= Seq::new(CURSOR_PIXELS as nat, |i: int| 0u32));
        Renderer {
            width,
            height,
            pitch,
            buffer,
            cursor_backup: backup,
            last_cursor_x: 0,
            last_cursor_y: 0,
        }
    }

    /// Screen width in pixels.
    pub fn width(&self) -> (r: u64)
        ensures
            r == self.spec_width(),
    {
        self.width as u64
    }

    /// Screen height in pixels.
    pub fn height(&self) -> (r: u64)
        ensures
            r == self.spec_height(),
    {
        self.height as u64
    }

    /// Number of pixels copied to the framebuffer by a full swap: width times
    /// height, starting at index 0.
    pub fn pixel_count(&self) -> (r: usize)
        requires
            self.wf(),
        ensures
            r == self.spec_width() * self.spec_height(),
            r <= self.pixels().len(),
    {
        let len = self.buffer.len();
        proof {
            let w = self.width as int;
            let h = self.height as int;
            let st = (self.pitch / 4) as int;
            assert(w * h <= st * h) by (nonlinear_arith)
                requires
                    0 <= w <= st,
                    0 <= h,
            ;
        }
        self.width * self.height
    }

    /// Where the cursor was last drawn.
    pub fn last_cursor(&self) -> (r: (usize, usize))
        ensures
            r == self.cursor_pos(),
    {
        (self.last_cursor_x, self.last_cursor_y)
    }

    /// The back buffer, for copying to the framebuffer.
    pub fn buffer(&self) -> (r: &Vec<u32>)
        ensures
            r@ == self.pixels(),
    {
        &self.buffer
    }

    /// Sets the pixel at column `x`, row `y`; pixels off the screen are
    /// ignored.
    pub fn put_pixel(&mut self, x: usize, y: usize, color: u32)
        requires
            old(self).wf(),
        ensures
            final(self).same_frame(old(self)),
            final(self).backup() == old(self).backup(),
            final(self).pixels() == (if x < old(self).spec_width() && y < old(self).spec_height() {
                old(self).pixels().update(y * old(self).spec_stride() + x, color)
            } else {
                old(self).pixels()
            }),
    {
        if x >= self.width || y >= self.height {
            return ;
        }
        let stride = self.pitch / 4;
        let len = self.buffer.len();
        proof {
            lemma_pixel_in_buffer(
                x as int,
                y as int,
                self.width as int,
                self.height as int,
                stride as int,
                self.buffer@.len() as int,
            );
        }
        let offset = (y * stride) + x;
        self.buffer.set(offset, color);
    }

    /// `src` blended over `dst` with opacity `alpha`.
    fn blend_pixels(&self, src: u32, dst: u32, alpha: u8) -> (r: u32)
        ensures
            r == blend(src, dst, alpha),
    {
        let a = alpha as u16;
        let inv_a = 255 - a;
        let sr = ((src >> 16) & 0xFF) as u16;
        let sg = ((src >> 8) & 0xFF) as u16;
        let sb = (src & 0xFF) as u16;
        let dr = ((dst >> 16) & 0xFF) as u16;
        let dg = ((dst >> 8) & 0xFF) as u16;
        let db = (dst & 0xFF) as u16;
        proof {
            lemma_channel_bound(src);
            lemma_channel_bound(dst);
            lemma_mix_bound(sr as int, dr as int, a as int);
            lemma_mix_bound(sg as int, dg as int, a as int);
            lemma_mix_bound(sb as int, db as int, a as int);
        }
        let rs = sr * a + dr * inv_a;
        let gs = sg * a + dg * inv_a;
        let bs = sb * a + db * inv_a;
        proof {
            lemma_shift_is_div(rs);
            lemma_shift_is_div(gs);
            lemma_shift_is_div(bs);
        }
        let r = (rs >> 8) as u32;
        let g = (gs >> 8) as u32;
        let b = (bs >> 8) as u32;
        proof {
            lemma_pack(r, g, b);
        }
        (r << 16) | (g << 8) | b
    }

    /// Lays `color` over the pixel at column `x`, row `y` with opacity
    /// `alpha`; full opacity writes `color` itself. Pixels off the screen are
    /// ignored.
    pub fn put_pixel_alpha(&mut self, x: usize, y: usize, color: u32, alpha: u8)
        requires
            old(self).wf(),
        ensures
            final(self).same_frame(old(self)),
            final(self).backup() == old(self).backup(),
            final(self).pixels() == (if x < old(self).spec_width() && y < old(self).spec_height() {
                old(self).pixels().update(
                    y * old(self).spec_stride() + x,
                    if alpha == 255 {
                        color
                    } else {
                        blend(color, old(self).pixels()[y * old(self).spec_stride() + x], alpha)
                    },
                )
            } else {
                old(self).pixels()
            }),
    {
        if x >= self.width || y >= self.height {
            return ;
        }
        let stride = self.pitch / 4;
        let len = self.buffer.len();
        proof {
            lemma_pixel_in_buffer(
                x as int,
                y as int,
                self.width as int,
                self.height as int,
                stride as int,
                self.buffer@.len() as int,
            );
        }
        let offset = (y * stride) + x;
        if alpha == 255 {
            self.buffer.set(offset, color);
        } else {
            let bg_pixel = self.buffer[offset];
            let blended = self.blend_pixels(color, bg_pixel, alpha);
            self.buffer.set(offset, blended);
        }
    }

    /// Draws the glyph of `c` with its top-left corner at (`x`, `y`);
    /// characters other than `0`-`9` and `a`-`f` draw nothing.
    pub fn draw_char(&mut self, x: usize, y: usize, c: char, color: u32)
        requires
            old(self).wf(),
            glyph_fits(c, x as int, y as int),
        ensures
            final(self).same_frame(old(self)),
            final(self).backup() == old(self).backup(),
            final(self).pixels() == char_drawn(
                old(self).pixels(),
                old(self).spec_width(),
                old(self).spec_height(),
                old(self).spec_stride(),
                x as int,
                y as int,
                c,
                color,
            ),
    {
        let index: usize = if c >= '0' && c <= '9' {
            (c as u32 - '0' as u32) as usize
        } else if c >= 'a' && c <= 'f' {
            (c as u32 - 'a' as u32 + 10) as usize
        } else {
            return ;
        };
        if index >= 16 {
            return ;
        }
        let glyph = FONT_8X8[index];
        let ghost start = self.buffer@;
        let ghost w = self.width as int;
        let ghost h = self.height as int;
        let ghost s = self.pitch as int / 4;
        let ghost paint = glyph_paint(c, color);
        assert(index == glyph_index(c));
        let mut row: usize = 0;
        while row < 8
            invariant
                self.wf(),
                self.same_frame(old(self)),
                self.backup() == old(self).backup(),
                start == old(self).pixels(),
                w == self.spec_width(),
                h == self.spec_height(),
                s == self.spec_stride(),
                paint == glyph_paint(c, color),
                index == glyph_index(c),
                0 <= index < 16,
                glyph == FONT_8X8[index as int],
                glyph_fits(c, x as int, y as int),
                row <= 8,
                self.buffer@ == region_upto(start, w, h, s, x as int, y as int, 8, row as int, 0, paint),
            decreases 8 - row,
        {
            let row_data = glyph[row];
            let mut col: usize = 0;
            while col < 8
                invariant
                    self.wf(),
                    self.same_frame(old(self)),
                    self.backup() == old(self).backup(),
                    start == old(self).pixels(),
                    w == self.spec_width(),
                    h == self.spec_height(),
                    s == self.spec_stride(),
                    paint == glyph_paint(c, color),
                    index == glyph_index(c),
                    0 <= index < 16,
                    row_data == glyph_row(index as int, row as int),
                    glyph_fits(c, x as int, y as int),
                    row < 8,
                    col <= 8,
                    self.buffer@ == region_upto(start, w, h, s, x as int, y as int, 8, row as int, col as int, paint),
                decreases 8 - col,
            {
                let ghost before = self.buffer@;
                if (row_data >> ((7 - col) as u8)) & 1 == 1 {
                    assert(glyph_on(index as int, row as int, col as int));
                    self.put_pixel(x + col, y + row, color);
                } else {
                    proof {
                        if x + col < w && y + row < h {
                            lemma_pixel_in_buffer((x + col) as int, (y + row) as int, w, h, s, start.len() as int);
                            assert(before.update(((y + row) * s + x + col) as int, before[((y + row) * s + x + col) as int]) =~= before);
                            lemma_coords(((y + row) * s + x + col) as int, (x + col) as int, (y + row) as int, s);
                        }
                    }
                }
                proof {
                    lemma_region_step(start, before, self.buffer@, w, h, s, x as int, y as int, 8, row as int, col as int, paint);
                }
                col = col + 1;
            }
            proof {
                lemma_region_rows(start, w, h, s, x as int, y as int, 8, row as int, paint);
            }
            row = row + 1;
        }
        proof {
            lemma_region_rows(start, w, h, s, x as int, y as int, 8, 8, paint);
        }
    }

    /// Draws the characters of `text` from (`x`, `y`), eight pixels apart.
    pub fn draw_string(&mut self, x: usize, y: usize, text: &str, color: u32)
        requires
            old(self).wf(),
            text_fits(text@, x as int, y as int),
        ensures
            final(self).same_frame(old(self)),
            final(self).backup() == old(self).backup(),
            final(self).pixels() == text_drawn(
                old(self).pixels(),
                old(self).spec_width(),
                old(self).spec_height(),
                old(self).spec_stride(),
                x as int,
                y as int,
                text@,
                color,
            ),
    {
        let n = text.unicode_len();
        let mut offset: usize = 0;
        let mut k: usize = 0;
        while k < n
            invariant
                self.wf(),
                self.same_frame(old(self)),
                self.backup() == old(self).backup(),
                n == text@.len(),
                k <= n,
                offset == 8 * k,
                text_fits(text@, x as int, y as int),
                self.pixels() == text_drawn(
                    old(self).pixels(),
                    old(self).spec_width(),
                    old(self).spec_height(),
                    old(self).spec_stride(),
                    x as int,
                    y as int,
                    text@.take(k as int),
                    color,
                ),
            decreases n - k,
        {
            let c = text.get_char(k);
            assert(glyph_fits(text@[k as int], x + 8 * k, y as int));
            self.draw_char(x + offset, y, c, color);
            proof {
                let t = text@.take(k as int + 1);
                assert(t.drop_last() =~= text@.take(k as int));
                assert(t.last() == c);
            }
            offset = offset + 8;
            k = k + 1;
        }
        assert(text@.take(n as int) =~= text@);
    }

    /// Lays the raw image `data`, `width` by `height` pixels of little-endian
    /// 0xAARRGGBB, over the screen with its top-left corner at (`x`, `y`),
    /// each pixel with its own opacity; `global_alpha` scales the opacities
    /// when `faded` holds.
    fn draw_image_with(
        &mut self,
        x: u64,
        y: u64,
        width: u64,
        height: u64,
        data: &[u8],
        global_alpha: u8,
        faded: bool,
    )
        requires
            old(self).wf(),
            4 * width * height <= data@.len(),
            x + width <= usize::MAX,
            y + height <= usize::MAX,
        ensures
            final(self).same_frame(old(self)),
            final(self).backup() == old(self).backup(),
            final(self).pixels() == region_drawn(
                old(self).pixels(),
                old(self).spec_width(),
                old(self).spec_height(),
                old(self).spec_stride(),
                x as int,
                y as int,
                width as int,
                height as int,
                image_paint(data@, width as int, global_alpha, faded),
            ),
    {
        let ghost start = self.buffer@;
        let ghost w = self.width as int;
        let ghost h = self.height as int;
        let ghost s = self.pitch as int / 4;
        let ghost paint = image_paint(data@, width as int, global_alpha, faded);
        let dlen = data.len();
        let mut dy: u64 = 0;
        while dy < height
            invariant
                self.wf(),
                self.same_frame(old(self)),
                self.backup() == old(self).backup(),
                start == old(self).pixels(),
                w == self.spec_width(),
                h == self.spec_height(),
                s == self.spec_stride(),
                paint == image_paint(data@, width as int, global_alpha, faded),
                dlen == data@.len(),
                4 * width * height <= data@.len(),
                x + width <= usize::MAX,
                y + height <= usize::MAX,
                dy <= height,
                self.buffer@ == region_upto(start, w, h, s, x as int, y as int, width as int, dy as int, 0, paint),
            decreases height - dy,
        {
            let mut dx: u64 = 0;
            while dx < width
                invariant
                    self.wf(),
                    self.same_frame(old(self)),
                    self.backup() == old(self).backup(),
                    start == old(self).pixels(),
                    w == self.spec_width(),
                    h == self.spec_height(),
                    s == self.spec_stride(),
                    paint == image_paint(data@, width as int, global_alpha, faded),
                    dlen == data@.len(),
                    4 * width * height <= data@.len(),
                    x + width <= usize::MAX,
                    y + height <= usize::MAX,
                    dy < height,
                    dx <= width,
                    self.buffer@ == region_upto(start, w, h, s, x as int, y as int, width as int, dy as int, dx as int, paint),
                decreases width - dx,
            {
                proof {
                    assert(4 * (dy * width + dx) + 3 < 4 * width * height) by (nonlinear_arith)
                        requires
                            dy < height,
                            dx < width,
                    ;
                }
                let k = ((dy * width + dx) * 4) as usize;
                let b0 = data[k];
                let b1 = data[k + 1];
                let b2 = data[k + 2];
                let b3 = data[k + 3];
                let src_pixel = (b0 as u32) | ((b1 as u32) << 8) | ((b2 as u32) << 16) | ((b3 as u32) << 24);
                proof {
                    lemma_pack4(b0, b1, b2, b3);
                    assert(k == 4 * (dy * width + dx));
                }
                let pixel_alpha = (src_pixel >> 24) as u8;
                proof {
                    assert((pixel_alpha as int) * (global_alpha as int) <= 255 * 255) by (nonlinear_arith)
                        requires
                            pixel_alpha <= 255,
                            global_alpha <= 255,
                    ;
                }
                let alpha = if faded {
                    ((pixel_alpha as u16 * global_alpha as u16) / 255) as u8
                } else {
                    pixel_alpha
                };
                let ghost before = self.buffer@;
                let px = (x + dx) as usize;
                let py = (y + dy) as usize;
                if alpha > 0 {
                    proof {
                        if px < w && py < h {
                            lemma_region_unpainted(start, w, h, s, x as int, y as int, width as int, dy as int, dx as int, paint);
                        }
                    }
                    self.put_pixel_alpha(px, py, src_pixel, alpha);
                } else {
                    proof {
                        if px < w && py < h {
                            lemma_region_unpainted(start, w, h, s, x as int, y as int, width as int, dy as int, dx as int, paint);
                            lemma_pixel_in_buffer(px as int, py as int, w, h, s, start.len() as int);
                            assert(before.update(py * s + px, before[py * s + px]) =~= before);
                        }
                    }
                }
                proof {
                    lemma_region_step(start, before, self.buffer@, w, h, s, x as int, y as int, width as int, dy as int, dx as int, paint);
                }
                dx = dx + 1;
            }
            proof {
                lemma_region_rows(start, w, h, s, x as int, y as int, width as int, dy as int, paint);
            }
            dy = dy + 1;
        }
        proof {
            lemma_region_rows(start, w, h, s, x as int, y as int, width as int, height as int, paint);
        }
    }

    /// Lays the raw image `data` (`width` by `height` pixels, little-endian
    /// 0xAARRGGBB) over the screen at (`x`, `y`), each pixel with its opacity.
    pub fn draw_image(&mut self, x: u64, y: u64, width: u64, height: u64, data: &[u8])
        requires
            old(self).wf(),
            4 * width * height <= data@.len(),
            x + width <= usize::MAX,
            y + height <= usize::MAX,
        ensures
            final(self).same_frame(old(self)),
            final(self).backup() == old(self).backup(),
            final(self).pixels() == region_drawn(
                old(self).pixels(),
                old(self).spec_width(),
                old(self).spec_height(),
                old(self).spec_stride(),
                x as int,
                y as int,
                width as int,
                height as int,
                image_paint(data@, width as int, 255, false),
            ),
    {
        self.draw_image_with(x, y, width, height, data, 255, false);
    }

    /// Like `draw_image`, with every pixel's opacity scaled by `global_alpha`
    /// out of 255.
    pub fn draw_image_faded(
        &mut self,
        x: u64,
        y: u64,
        width: u64,
        height: u64,
        data: &[u8],
        global_alpha: u8,
    )
        requires
            old(self).wf(),
            4 * width * height <= data@.len(),
            x + width <= usize::MAX,
            y + height <= usize::MAX,
        ensures
            final(self).same_frame(old(self)),
            final(self).backup() == old(self).backup(),
            final(self).pixels() == region_drawn(
                old(self).pixels(),
                old(self).spec_width(),
                old(self).spec_height(),
                old(self).spec_stride(),
                x as int,
                y as int,
                width as int,
                height as int,
                image_paint(data@, width as int, global_alpha, true),
            ),
    {
        self.draw_image_with(x, y, width, height, data, global_alpha, true);
    }

    /// Puts back what the cursor covered where it was last drawn.
    fn restore_background(&mut self)
        requires
            old(self).wf(),
        ensures
            final(self).same_frame(old(self)),
            final(self).backup() == old(self).backup(),
            final(self).pixels() == region_drawn(
                old(self).pixels(),
                old(self).spec_width(),
                old(self).spec_height(),
                old(self).spec_stride(),
                old(self).cursor_pos().0 as int,
                old(self).cursor_pos().1 as int,
                CURSOR_WIDTH as int,
                CURSOR_HEIGHT as int,
                restore_paint(old(self).backup()),
            ),
    {
        let ghost start = self.buffer@;
        let ghost w = self.width as int;
        let ghost h = self.height as int;
        let ghost s = self.pitch as int / 4;
        let ghost paint = restore_paint(self.cursor_backup@);
        let x = self.last_cursor_x;
        let y = self.last_cursor_y;
        let stride = self.pitch / 4;
        let len = self.buffer.len();
        let mut row: usize = 0;
        while row < CURSOR_HEIGHT
            invariant
                self.wf(),
                self.same_frame(old(self)),
                self.backup() == old(self).backup(),
                start == old(self).pixels(),
                w == self.spec_width(),
                h == self.spec_height(),
                s == self.spec_stride(),
                stride == s,
                len == start.len(),
                x == self.cursor_pos().0,
                y == self.cursor_pos().1,
                paint == restore_paint(old(self).backup()),
                row <= CURSOR_HEIGHT,
                self.buffer@ == region_upto(start, w, h, s, x as int, y as int, CURSOR_WIDTH as int, row as int, 0, paint),
            decreases CURSOR_HEIGHT - row,
        {
            let mut col: usize = 0;
            while col < CURSOR_WIDTH
                invariant
                    self.wf(),
                    self.same_frame(old(self)),
                    self.backup() == old(self).backup(),
                    start == old(self).pixels(),
                    w == self.spec_width(),
                    h == self.spec_height(),
                    s == self.spec_stride(),
                    stride == s,
                    len == start.len(),
                    x == self.cursor_pos().0,
                    y == self.cursor_pos().1,
                    paint == restore_paint(old(self).backup()),
                    row < CURSOR_HEIGHT,
                    col <= CURSOR_WIDTH,
                    self.buffer@ == region_upto(start, w, h, s, x as int, y as int, CURSOR_WIDTH as int, row as int, col as int, paint),
                decreases CURSOR_WIDTH - col,
            {
                let ghost before = self.buffer@;
                let target_x = x + col;
                let target_y = y + row;
                if target_x < self.width && target_y < self.height {
                    proof {
                        lemma_pixel_in_buffer(target_x as int, target_y as int, w, h, s, len as int);
                    }
                    let offset = (target_y * stride) + target_x;
                    let bg_color = self.cursor_backup[row * CURSOR_WIDTH + col];
                    self.buffer.set(offset, bg_color);
                }
                proof {
                    lemma_region_step(start, before, self.buffer@, w, h, s, x as int, y as int, CURSOR_WIDTH as int, row as int, col as int, paint);
                }
                col = col + 1;
            }
            proof {
                lemma_region_rows(start, w, h, s, x as int, y as int, CURSOR_WIDTH as int, row as int, paint);
            }
            row = row + 1;
        }
        proof {
            lemma_region_rows(start, w, h, s, x as int, y as int, CURSOR_WIDTH as int, CURSOR_HEIGHT as int, paint);
        }
    }

    /// Records what lies under the cursor sprite placed at (`x`, `y`).
    fn save_background(&mut self, x: usize, y: usize)
        requires
            old(self).wf(),
            x + CURSOR_WIDTH - 1 <= usize::MAX,
            y + CURSOR_HEIGHT - 1 <= usize::MAX,
        ensures
            final(self).same_frame(old(self)),
            final(self).pixels() == old(self).pixels(),
            final(self).backup() == saved_under(
                old(self).pixels(),
                old(self).spec_width(),
                old(self).spec_height(),
                old(self).spec_stride(),
                x as int,
                y as int,
            ),
    {
        let ghost start = self.cursor_backup@;
        let ghost target = saved_under(
            self.buffer@,
            self.width as int,
            self.height as int,
            self.pitch as int / 4,
            x as int,
            y as int,
        );
        let stride = self.pitch / 4;
        let len = self.buffer.len();
        let mut row: usize = 0;
        while row < CURSOR_HEIGHT
            invariant
                self.wf(),
                self.same_frame(old(self)),
                self.pixels() == old(self).pixels(),
                stride == self.spec_stride(),
                len == self.buffer@.len(),
                x + CURSOR_WIDTH - 1 <= usize::MAX,
                y + CURSOR_HEIGHT - 1 <= usize::MAX,
                target == saved_under(old(self).pixels(), self.spec_width(), self.spec_height(), self.spec_stride(), x as int, y as int),
                row <= CURSOR_HEIGHT,
                forall|k: int| 0 <= k < CURSOR_PIXELS ==> #[trigger] self.cursor_backup@[k] == (if k < row * CURSOR_WIDTH {
                    target[k]
                } else {
                    start[k]
                }),
            decreases CURSOR_HEIGHT - row,
        {
            let mut col: usize = 0;
            while col < CURSOR_WIDTH
                invariant
                    self.wf(),
                    self.same_frame(old(self)),
                    self.pixels() == old(self).pixels(),
                    stride == self.spec_stride(),
                    len == self.buffer@.len(),
                    x + CURSOR_WIDTH - 1 <= usize::MAX,
                    y + CURSOR_HEIGHT - 1 <= usize::MAX,
                    target == saved_under(old(self).pixels(), self.spec_width(), self.spec_height(), self.spec_stride(), x as int, y as int),
                    row < CURSOR_HEIGHT,
                    col <= CURSOR_WIDTH,
                    forall|k: int| 0 <= k < CURSOR_PIXELS ==> #[trigger] self.cursor_backup@[k] == (if k < row * CURSOR_WIDTH + col {
                        target[k]
                    } else {
                        start[k]
                    }),
                decreases CURSOR_WIDTH - col,
            {
                let target_x = x + col;
                let target_y = y + row;
                let k = row * CURSOR_WIDTH + col;
                proof {
                    lemma_coords(k as int, col as int, row as int, CURSOR_WIDTH as int);
                }
                if target_x < self.width && target_y < self.height {
                    proof {
                        lemma_pixel_in_buffer(target_x as int, target_y as int, self.width as int, self.height as int, stride as int, len as int);
                    }
                    let offset = (target_y * stride) + target_x;
                    let v = self.buffer[offset];
                    self.cursor_backup.set(k, v);
                } else {
                    self.cursor_backup.set(k, 0);
                }
                col = col + 1;
            }
            row = row + 1;
        }
        assert(self.cursor_backup@ =~= target);
    }

    /// Moves the cursor to (`x`, `y`): puts back what it covered, records what
    /// lies under its new place, and draws the sprite there.
    pub fn draw_cursor(&mut self, x: usize, y: usize)
        requires
            old(self).wf(),
            x + CURSOR_WIDTH - 1 <= usize::MAX,
            y + CURSOR_HEIGHT - 1 <= usize::MAX,
        ensures
            final(self).wf(),
            cursor_moved(*old(self), *final(self), x, y),
    {
        self.restore_background();
        self.last_cursor_x = x;
        self.last_cursor_y = y;
        self.save_background(x, y);

        let ghost start = self.buffer@;
        let ghost w = self.width as int;
        let ghost h = self.height as int;
        let ghost s = self.pitch as int / 4;
        let ghost paint = sprite_paint();
        let ghost saved = self.cursor_backup@;
        let mut row: usize = 0;
        while row < CURSOR_HEIGHT
            invariant
                self.wf(),
                w == self.spec_width(),
                h == self.spec_height(),
                s == self.spec_stride(),
                start.len() == self.buffer@.len(),
                self.cursor_pos() == (x, y),
                self.backup() == saved,
                paint == sprite_paint(),
                row <= CURSOR_HEIGHT,
                self.buffer@ == region_upto(start, w, h, s, x as int, y as int, CURSOR_WIDTH as int, row as int, 0, paint),
            decreases CURSOR_HEIGHT - row,
        {
            let mut col: usize = 0;
            while col < CURSOR_WIDTH
                invariant
                    self.wf(),
                    w == self.spec_width(),
                    h == self.spec_height(),
                    s == self.spec_stride(),
                    start.len() == self.buffer@.len(),
                    self.cursor_pos() == (x, y),
                    self.backup() == saved,
                    paint == sprite_paint(),
                    row < CURSOR_HEIGHT,
                    col <= CURSOR_WIDTH,
                    self.buffer@ == region_upto(start, w, h, s, x as int, y as int, CURSOR_WIDTH as int, row as int, col as int, paint),
                decreases CURSOR_WIDTH - col,
            {
                let ghost before = self.buffer@;
                let sprite_pixel = SPRITE[row * CURSOR_WIDTH + col];
                if sprite_pixel == 1 {
                    self.put_pixel(x + col, y + row, 0x000000);
                } else if sprite_pixel == 2 {
                    self.put_pixel(x + col, y + row, 0xFFFFFF);
                } else {
                    proof {
                        if x + col < w && y + row < h {
                            lemma_pixel_in_buffer((x + col) as int, (y + row) as int, w, h, s, start.len() as int);
                            lemma_region_unpainted(start, w, h, s, x as int, y as int, CURSOR_WIDTH as int, row as int, col as int, paint);
                            assert(before.update(((y + row) * s + x + col) as int, before[((y + row) * s + x + col) as int]) =~= before);
                        }
                    }
                }
                proof {
                    lemma_region_step(start, before, self.buffer@, w, h, s, x as int, y as int, CURSOR_WIDTH as int, row as int, col as int, paint);
                }
                col = col + 1;
            }
            proof {
                lemma_region_rows(start, w, h, s, x as int, y as int, CURSOR_WIDTH as int, row as int, paint);
            }
            row = row + 1;
        }
        proof {
            lemma_region_rows(start, w, h, s, x as int, y as int, CURSOR_WIDTH as int, CURSOR_HEIGHT as int, paint);
        }
    }

    /// The copies that bring the rectangle at (`x`, `y`) of `w` by `h` pixels
    /// from the back buffer to the framebuffer: one per row on the screen,
    /// each cut at the right edge; none when nothing of the rectangle is on
    /// the screen horizontally.
    pub fn swap_rect(&self, x: usize, y: usize, w: usize, h: usize) -> (copies: Vec<RowCopy>)
        requires
            self.wf(),
            x + w <= usize::MAX,
            y + h <= usize::MAX,
        ensures
            ({
                let rw = swap_row_width(x as int, w as int, self.spec_width());
                let rows = if rw == 0 || y >= self.spec_height() {
                    0
                } else if y + h <= self.spec_height() {
                    h as int
                } else {
                    self.spec_height() - y
                };
                &&& copies@.len() == rows
                &&& forall|k: int|
                    0 <= k < rows ==> #[trigger] copies@[k] == (RowCopy {
                        offset: ((y + k) * self.spec_stride() + x) as usize,
                        len: rw as usize,
                    })
            }),
            forall|k: int|
                0 <= k < copies@.len() ==> #[trigger] copies@[k].offset + copies@[k].len
                    <= self.spec_stride() * self.spec_height(),
    {
        let stride = self.pitch / 4;
        let len = self.buffer.len();
        let mut copies: Vec<RowCopy> = Vec::new();
        let ghost rw = swap_row_width(x as int, w as int, self.width as int);
        let mut row = y;
        while row < y + h
            invariant_except_break
                self.wf(),
                stride == self.spec_stride(),
                len == self.buffer@.len(),
                x + w <= usize::MAX,
                y + h <= usize::MAX,
                rw == swap_row_width(x as int, w as int, self.spec_width()),
                y <= row <= y + h,
                row <= self.spec_height() || row == y,
                copies@.len() == (if rw == 0 { 0 } else { row - y }),
                forall|k: int|
                    0 <= k < copies@.len() ==> #[trigger] copies@[k] == (RowCopy {
                        offset: ((y + k) * self.spec_stride() + x) as usize,
                        len: rw as usize,
                    }),
                forall|k: int|
                    0 <= k < copies@.len() ==> #[trigger] copies@[k].offset + copies@[k].len
                        <= self.spec_stride() * self.spec_height(),
            ensures
                ({
                    let rows = if rw == 0 || y >= self.spec_height() {
                        0
                    } else if y + h <= self.spec_height() {
                        h as int
                    } else {
                        self.spec_height() - y
                    };
                    &&& copies@.len() == rows
                    &&& forall|k: int|
                        0 <= k < rows ==> #[trigger] copies@[k] == (RowCopy {
                            offset: ((y + k) * self.spec_stride() + x) as usize,
                            len: rw as usize,
                        })
                }),
                forall|k: int|
                    0 <= k < copies@.len() ==> #[trigger] copies@[k].offset + copies@[k].len
                        <= self.spec_stride() * self.spec_height(),
            decreases y + h - row,
        {
            if row >= self.height {
                break;
            }
            let row_width = if x + w > self.width {
                if self.width > x {
                    self.width - x
                } else {
                    0
                }
            } else {
                w
            };
            if row_width == 0 {
                row = row + 1;
                continue;
            }
            proof {
                assert(x + row_width <= self.width);
                assert(row * stride + x + row_width <= stride * self.height) by (nonlinear_arith)
                    requires
                        row < self.height,
                        x + row_width <= self.width,
                        self.width <= stride,
                ;
            }
            let offset = (row * stride) + x;
            copies.push(RowCopy { offset, len: row_width });
            row = row + 1;
        }
        copies
    }

    /// Fills the first `width * height` pixels of the back buffer with
    /// `color`.
    pub fn clear_screen(&mut self, color: u32)
        requires
            old(self).wf(),
        ensures
            final(self).same_frame(old(self)),
            final(self).backup() == old(self).backup(),
            final(self).pixels() == cleared(
                old(self).pixels(),
                old(self).spec_width() * old(self).spec_height(),
                color,
            ),
    {
        let pixel_count = self.pixel_count();
        let ghost start = self.buffer@;
        let mut i: usize = 0;
        while i < pixel_count
            invariant
                self.wf(),
                self.same_frame(old(self)),
                self.backup() == old(self).backup(),
                pixel_count == self.spec_width() * self.spec_height(),
                pixel_count <= self.buffer@.len(),
                self.buffer@.len() == start.len(),
                i <= pixel_count,
                forall|k: int| 0 <= k < start.len() ==> #[trigger] self.buffer@[k] == (if k < i {
                    color
                } else {
                    start[k]
                }),
            decreases pixel_count - i,
        {
            self.buffer.set(i, color);
            i = i + 1;
        }
        assert(self.buffer@ =~= Seq::new(
            start.len(),
            |k: int|
                if k < pixel_count {
                    color
                } else {
                    start[k]
                },
        ));
    }

    /// Fills the rectangle at (`x`, `y`) of `width` by `height` pixels with
    /// `color`, clipped to the screen.
    pub fn draw_rect(&mut self, x: usize, y: usize, width: usize, height: usize, color: u32)
        requires
            old(self).wf(),
            rect_fits(x as int, y as int, width as int, height as int),
        ensures
            final(self).same_frame(old(self)),
            final(self).backup() == old(self).backup(),
            final(self).pixels() == rect_drawn(
                old(self).pixels(),
                old(self).spec_width(),
                old(self).spec_height(),
                old(self).spec_stride(),
                x as int,
                y as int,
                width as int,
                height as int,
                color,
            ),
    {
        let ghost start = self.buffer@;
        let ghost w = self.width as int;
        let ghost h = self.height as int;
        let ghost s = self.pitch as int / 4;
        let ghost paint = |dx: int, dy: int, old: u32| color;
        let mut row: usize = 0;
        while row < height
            invariant
                self.wf(),
                self.same_frame(old(self)),
                self.backup() == old(self).backup(),
                start == old(self).pixels(),
                w == self.spec_width(),
                h == self.spec_height(),
                s == self.spec_stride(),
                paint == (|dx: int, dy: int, old: u32| color),
                rect_fits(x as int, y as int, width as int, height as int),
                row <= height,
                self.buffer@ == region_upto(start, w, h, s, x as int, y as int, width as int, row as int, 0, paint),
            decreases height - row,
        {
            let mut col: usize = 0;
            while col < width
                invariant
                    self.wf(),
                    self.same_frame(old(self)),
                    self.backup() == old(self).backup(),
                    start == old(self).pixels(),
                    w == self.spec_width(),
                    h == self.spec_height(),
                    s == self.spec_stride(),
                    paint == (|dx: int, dy: int, old: u32| color),
                    rect_fits(x as int, y as int, width as int, height as int),
                    row < height,
                    col <= width,
                    self.buffer@ == region_upto(start, w, h, s, x as int, y as int, width as int, row as int, col as int, paint),
                decreases width - col,
            {
                let ghost before = self.buffer@;
                self.put_pixel(x + col, y + row, color);
                proof {
                    lemma_region_step(start, before, self.buffer@, w, h, s, x as int, y as int, width as int, row as int, col as int, paint);
                }
                col = col + 1;
            }
            proof {
                lemma_region_rows(start, w, h, s, x as int, y as int, width as int, row as int, paint);
            }
            row = row + 1;
        }
        proof {
            lemma_region_rows(start, w, h, s, x as int, y as int, width as int, height as int, paint);
        }
    }
}


/// `after` is `before` with the cursor moved to (`x`, `y`): what the cursor
/// covered is put back, what lies at the new place is recorded, and the
/// sprite is drawn there; the geometry stays.
pub open spec fn cursor_moved(before: Renderer, after: Renderer, x: usize, y: usize) -> bool {
    let g_w = before.spec_width();
    let g_h = before.spec_height();
    let g_s = before.spec_stride();
    let restored = region_drawn(
        before.pixels(),
        g_w,
        g_h,
        g_s,
        before.cursor_pos().0 as int,
        before.cursor_pos().1 as int,
        CURSOR_WIDTH as int,
        CURSOR_HEIGHT as int,
        restore_paint(before.backup()),
    );
    &&& after.spec_width() == g_w
    &&& after.spec_height() == g_h
    &&& after.spec_stride() == g_s
    &&& after.cursor_pos() == (x, y)
    &&& after.backup() == saved_under(restored, g_w, g_h, g_s, x as int, y as int)
    &&& after.pixels() == region_drawn(
        restored,
        g_w,
        g_h,
        g_s,
        x as int,
        y as int,
        CURSOR_WIDTH as int,
        CURSOR_HEIGHT as int,
        sprite_paint(),
    )
}

/// The cursor leaves no trail: when the screen shows the sprite at the cursor
/// over the image `under`, with what `under` holds there recorded, moving the
/// cursor shows the sprite at its new place over the same image, with what
/// `under` holds at the new place recorded.
pub proof fn law_cursor_leaves_no_trail(before: Renderer, after: Renderer, under: Seq<u32>, x: usize, y: usize)
    requires
        before.wf(),
        under.len() == before.pixels().len(),
        before.backup() == saved_under(
            under,
            before.spec_width(),
            before.spec_height(),
            before.spec_stride(),
            before.cursor_pos().0 as int,
            before.cursor_pos().1 as int,
        ),
        before.pixels() == region_drawn(
            under,
            before.spec_width(),
            before.spec_height(),
            before.spec_stride(),
            before.cursor_pos().0 as int,
            before.cursor_pos().1 as int,
            CURSOR_WIDTH as int,
            CURSOR_HEIGHT as int,
            sprite_paint(),
        ),
        cursor_moved(before, after, x, y),
    ensures
        after.cursor_pos() == (x, y),
        after.backup() == saved_under(
            under,
            before.spec_width(),
            before.spec_height(),
            before.spec_stride(),
            x as int,
            y as int,
        ),
        after.pixels() == region_drawn(
            under,
            before.spec_width(),
            before.spec_height(),
            before.spec_stride(),
            x as int,
            y as int,
            CURSOR_WIDTH as int,
            CURSOR_HEIGHT as int,
            sprite_paint(),
        ),
{
    law_cursor_leaves_no_trace(
        under,
        before.spec_width(),
        before.spec_height(),
        before.spec_stride(),
        before.cursor_pos().0 as int,
        before.cursor_pos().1 as int,
    );
}

/// The cursor leaves no trace: recording what lies under the cursor, drawing
/// the sprite over it and then putting the record back gives the screen as
/// it was, whether or not the sprite is partly off the screen.
pub proof fn law_cursor_leaves_no_trace(
    buf: Seq<u32>,
    width: int,
    height: int,
    stride: int,
    x: int,
    y: int,
)
    requires
        0 <= width <= stride,
        stride > 0,
        0 <= height,
        stride * height <= buf.len(),
        0 <= x,
        0 <= y,
    ensures
        region_drawn(
            region_drawn(
                buf,
                width,
                height,
                stride,
                x,
                y,
                CURSOR_WIDTH as int,
                CURSOR_HEIGHT as int,
                sprite_paint(),
            ),
            width,
            height,
            stride,
            x,
            y,
            CURSOR_WIDTH as int,
            CURSOR_HEIGHT as int,
            restore_paint(saved_under(buf, width, height, stride, x, y)),
        ) == buf,
{
    let drawn = region_drawn(
        buf,
        width,
        height,
        stride,
        x,
        y,
        CURSOR_WIDTH as int,
        CURSOR_HEIGHT as int,
        sprite_paint(),
    );
    let saved = saved_under(buf, width, height, stride, x, y);
    let back = region_drawn(
        drawn,
        width,
        height,
        stride,
        x,
        y,
        CURSOR_WIDTH as int,
        CURSOR_HEIGHT as int,
        restore_paint(saved),
    );
    assert forall|i: int| 0 <= i < buf.len() implies #[trigger] back[i] == buf[i] by {
        if visible(i, width, height, stride) && x <= i % stride < x + CURSOR_WIDTH && y <= i
            / stride < y + CURSOR_HEIGHT {
            let dx = i % stride - x;
            let dy = i / stride - y;
            let k = dy * CURSOR_WIDTH as int + dx;
            lemma_coords(k, dx, dy, CURSOR_WIDTH as int);
            assert(0 <= k < CURSOR_PIXELS) by (nonlinear_arith)
                requires
                    0 <= dx < 12,
                    0 <= dy < 19,
                    k == dy * 12 + dx,
            ;
            lemma_fundamental_div_mod(i, stride);
            assert(i == (y + dy) * stride + x + dx) by (nonlinear_arith)
                requires
                    i == stride * (i / stride) + i % stride,
                    dx == i % stride - x,
                    dy == i / stride - y,
            ;
        }
    }
    assert(back =~= buf);
}

} // verus!
