//! One pass of the desktop loop: the input it was handed applied to the
//! compositor, the frame redrawn in the back buffer, and the area around the
//! cursor that is then to be copied to the framebuffer.
use vstd::prelude::*;
use crate::gui::compositor::{click_outcome, icons_drawn, key_outcome, windows_drawn, Compositor, DESKTOP_COLOR};
use crate::gui::font::{CURSOR_HEIGHT, CURSOR_WIDTH};
use crate::gui::renderer::{rect_drawn, region_drawn, restore_paint, saved_under, sprite_paint, Renderer};
use crate::keyboard::KeyboardState;

verus! {

/// Side of the square wiped around the old cursor position.
pub const ERASE_SIZE: usize = 40;

/// Margin kept around the cursor when copying to the framebuffer.
pub const SWAP_MARGIN: usize = 10;

/// Largest width of a partial copy.
pub const MAX_SWAP_W: usize = 1919;

/// Largest height of a partial copy.
pub const MAX_SWAP_H: usize = 1079;

/// The areas one frame of the desktop loop touches around the cursor.
#[derive(Clone, Copy, Debug, PartialEq, Eq, Structural)]
pub struct CursorAreas {
    /// Top-left corner of the 40 by 40 square wiped at the old position.
    pub erase_x: usize,
    pub erase_y: usize,
    /// The rectangle copied to the framebuffer: both cursor positions with
    /// a margin.
    pub swap_x: usize,
    pub swap_y: usize,
    pub swap_w: usize,
    pub swap_h: usize,
}

/// `a - b`, or zero when `b` is larger.
pub open spec fn sat_sub(a: int, b: int) -> int {
    if a >= b {
        a - b
    } else {
        0
    }
}

/// The smaller of two values.
pub open spec fn min(a: int, b: int) -> int {
    if a <= b {
        a
    } else {
        b
    }
}

/// The larger of two values.
pub open spec fn max(a: int, b: int) -> int {
    if a >= b {
        a
    } else {
        b
    }
}

/// The areas for a cursor moving from (`last_x`, `last_y`) to (`draw_x`,
/// `draw_y`), as `cursor_areas` computes them.
pub open spec fn areas_for(last_x: usize, last_y: usize, draw_x: usize, draw_y: usize) -> CursorAreas {
    let swap_x = sat_sub(min(last_x as int, draw_x as int), SWAP_MARGIN as int);
    let swap_y = sat_sub(min(last_y as int, draw_y as int), SWAP_MARGIN as int);
    CursorAreas {
        erase_x: sat_sub(last_x as int, 5) as usize,
        erase_y: sat_sub(last_y as int, 5) as usize,
        swap_x: swap_x as usize,
        swap_y: swap_y as usize,
        swap_w: min(max(last_x as int, draw_x as int) + ERASE_SIZE - swap_x, MAX_SWAP_W as int) as usize,
        swap_h: min(max(last_y as int, draw_y as int) + ERASE_SIZE - swap_y, MAX_SWAP_H as int) as usize,
    }
}

/// The areas for a cursor moving from (`last_x`, `last_y`) to (`draw_x`,
/// `draw_y`): the wipe starts 5 pixels up and left of the old position; the
/// copy spans from 10 pixels before the smaller coordinate to 40 pixels after
/// the larger, at most 1919 by 1079.
pub fn cursor_areas(last_x: usize, last_y: usize, draw_x: usize, draw_y: usize) -> (r: CursorAreas)
    requires
        max(last_x as int, draw_x as int) + ERASE_SIZE <= usize::MAX,
        max(last_y as int, draw_y as int) + ERASE_SIZE <= usize::MAX,
    ensures
        r.erase_x == sat_sub(last_x as int, 5),
        r.erase_y == sat_sub(last_y as int, 5),
        r.swap_x == sat_sub(min(last_x as int, draw_x as int), SWAP_MARGIN as int),
        r.swap_y == sat_sub(min(last_y as int, draw_y as int), SWAP_MARGIN as int),
        r.swap_w == min(max(last_x as int, draw_x as int) + ERASE_SIZE - r.swap_x, MAX_SWAP_W as int),
        r.swap_h == min(max(last_y as int, draw_y as int) + ERASE_SIZE - r.swap_y, MAX_SWAP_H as int),
        r == areas_for(last_x, last_y, draw_x, draw_y),
{
    let erase_x = if last_x >= 5 { last_x - 5 } else { 0 };
    let erase_y = if last_y >= 5 { last_y - 5 } else { 0 };
    let lo_x = if last_x <= draw_x { last_x } else { draw_x };
    let lo_y = if last_y <= draw_y { last_y } else { draw_y };
    let hi_x = if last_x >= draw_x { last_x } else { draw_x };
    let hi_y = if last_y >= draw_y { last_y } else { draw_y };
    let min_x = if lo_x >= 10 { lo_x - 10 } else { 0 };
    let min_y = if lo_y >= 10 { lo_y - 10 } else { 0 };
    let max_x = hi_x + 40;
    let max_y = hi_y + 40;
    let w = max_x - min_x;
    let h = max_y - min_y;
    CursorAreas {
        erase_x,
        erase_y,
        swap_x: min_x,
        swap_y: min_y,
        swap_w: if w <= MAX_SWAP_W { w } else { MAX_SWAP_W },
        swap_h: if h <= MAX_SWAP_H { h } else { MAX_SWAP_H },
    }
}

/// The copied area covers the cursor at its new position, margin included,
/// as long as the copy is not cut at its largest size.
pub proof fn law_swap_covers_new_cursor(r: CursorAreas, last_x: int, last_y: int, draw_x: int, draw_y: int)
    requires
        0 <= last_x,
        0 <= last_y,
        0 <= draw_x,
        0 <= draw_y,
        r.swap_x == sat_sub(min(last_x, draw_x), SWAP_MARGIN as int),
        r.swap_y == sat_sub(min(last_y, draw_y), SWAP_MARGIN as int),
        r.swap_w == min(max(last_x, draw_x) + ERASE_SIZE - r.swap_x, MAX_SWAP_W as int),
        r.swap_h == min(max(last_y, draw_y) + ERASE_SIZE - r.swap_y, MAX_SWAP_H as int),
        max(last_x, draw_x) + ERASE_SIZE - r.swap_x <= MAX_SWAP_W,
        max(last_y, draw_y) + ERASE_SIZE - r.swap_y <= MAX_SWAP_H,
    ensures
        r.swap_x <= draw_x,
        draw_x + ERASE_SIZE <= r.swap_x + r.swap_w,
        r.swap_y <= draw_y,
        draw_y + ERASE_SIZE <= r.swap_y + r.swap_h,
        r.swap_x <= last_x,
        last_x + ERASE_SIZE <= r.swap_x + r.swap_w,
{
}

/// One pass of the desktop loop, given the mouse position and button and the
/// scancode taken from the keyboard buffer, if any: the click is handled, then
/// the scancode; the old cursor's square is wiped with the desktop color, the
/// icon and the windows are drawn, and the cursor is moved to the mouse
/// position. Returns the areas of the pass; the copy area is what the caller
/// then copies to the framebuffer.
pub fn desktop_frame(
    compositor: &mut Compositor,
    renderer: &mut Renderer,
    keyboard: &mut KeyboardState,
    mx: i32,
    my: i32,
    is_pressed: bool,
    scancode: Option<u8>,
) -> (areas: CursorAreas)
    requires
        old(compositor).wf(),
        old(renderer).wf(),
        0 <= mx,
        0 <= my,
        old(renderer).cursor_pos().0 + ERASE_SIZE <= usize::MAX,
        old(renderer).cursor_pos().1 + ERASE_SIZE <= usize::MAX,
    ensures
        final(compositor).wf(),
        final(renderer).wf(),
        areas == areas_for(
            old(renderer).cursor_pos().0,
            old(renderer).cursor_pos().1,
            mx as usize,
            my as usize,
        ),
        exists|clicked: Compositor|
            {
                &&& #[trigger] click_outcome(*old(compositor), clicked, mx, my, is_pressed)
                &&& clicked.wf()
                &&& match scancode {
                    Some(sc) => key_outcome(
                        clicked,
                        *final(compositor),
                        old(keyboard).shift_pressed,
                        final(keyboard).shift_pressed,
                        sc,
                    ),
                    None => *final(compositor) == clicked && *final(keyboard) == *old(keyboard),
                }
            },
        final(renderer).spec_width() == old(renderer).spec_width(),
        final(renderer).spec_height() == old(renderer).spec_height(),
        final(renderer).spec_stride() == old(renderer).spec_stride(),
        final(renderer).cursor_pos() == (mx as usize, my as usize),
        ({
            let g_w = old(renderer).spec_width();
            let g_h = old(renderer).spec_height();
            let g_s = old(renderer).spec_stride();
            let wiped = rect_drawn(
                old(renderer).pixels(),
                g_w,
                g_h,
                g_s,
                areas.erase_x as int,
                areas.erase_y as int,
                ERASE_SIZE as int,
                ERASE_SIZE as int,
                DESKTOP_COLOR,
            );
            let composed = windows_drawn(
                icons_drawn(wiped, g_w, g_h, g_s, final(compositor).icon_x, final(compositor).icon_y),
                g_w,
                g_h,
                g_s,
                final(compositor).windows@,
            );
            let restored = region_drawn(
                composed,
                g_w,
                g_h,
                g_s,
                old(renderer).cursor_pos().0 as int,
                old(renderer).cursor_pos().1 as int,
                CURSOR_WIDTH as int,
                CURSOR_HEIGHT as int,
                restore_paint(old(renderer).backup()),
            );
            &&& final(renderer).backup() == saved_under(restored, g_w, g_h, g_s, mx as int, my as int)
            &&& final(renderer).pixels() == region_drawn(
                restored,
                g_w,
                g_h,
                g_s,
                mx as int,
                my as int,
                CURSOR_WIDTH as int,
                CURSOR_HEIGHT as int,
                sprite_paint(),
            )
        }),
{
    let draw_x = mx as usize;
    let draw_y = my as usize;
    let (last_x, last_y) = renderer.last_cursor();

    compositor.handle_click(mx, my, is_pressed);
    let ghost clicked = *compositor;
    match scancode {
        Some(sc) => compositor.handle_keyboard(sc, keyboard),
        None => {},
    }

    let areas = cursor_areas(last_x, last_y, draw_x, draw_y);
    renderer.draw_rect(areas.erase_x, areas.erase_y, ERASE_SIZE, ERASE_SIZE, DESKTOP_COLOR);
    compositor.draw_icons(renderer);
    compositor.render(renderer);
    renderer.draw_cursor(draw_x, draw_y);
    assert(click_outcome(*old(compositor), clicked, mx, my, is_pressed));
    areas
}

} // verus!
