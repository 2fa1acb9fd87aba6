//! The boot splash: the logo fading in, then a progress bar filling.
use vstd::prelude::*;
use crate::gui::renderer::{cleared, image_paint, rect_drawn, region_drawn, Renderer};

verus! {

/// Width of the logo image.
pub const LOGO_W: u64 = 347;

/// Height of the logo image.
pub const LOGO_H: u64 = 180;

/// Width of the progress bar.
pub const BAR_W: u64 = 300;

/// Height of the progress bar.
pub const BAR_H: u64 = 4;

/// Background of the splash.
pub const SLATE_BG: u32 = 0x000D1117;

/// Filled part of the progress bar.
pub const ACCENT_BLUE: u32 = 0x0058A6FF;

/// Empty part of the progress bar.
pub const TRACK_COLOR: u32 = 0x001C2533;

/// Progress up to which the logo fades in.
pub const FADE_END: u64 = 30;

/// Where the splash places the logo and the bar on a screen of the given
/// size: logo centred horizontally, its bottom 20 pixels above the middle;
/// bar centred, 40 pixels below the middle.
pub open spec fn splash_layout(width: int, height: int) -> (int, int, int, int) {
    ((width - LOGO_W) / 2, height / 2 - LOGO_H - 20, (width - BAR_W) / 2, height / 2 + 40)
}

/// Opacity of the logo while it fades in.
pub open spec fn fade_alpha(progress: int) -> u8 {
    ((progress * 255) / 30) as u8
}

/// Filled width of the bar once the logo is in.
pub open spec fn bar_fill(progress: int) -> int {
    ((progress - 30) * BAR_W) / 70
}

/// Width of the accent-colored, filled part of the bar: none while the logo
/// fades in, then the bar fill.
pub open spec fn accent_width(progress: int) -> int {
    if progress <= 30 {
        0
    } else {
        bar_fill(progress)
    }
}

/// The screen after one splash frame.
pub open spec fn splash_drawn(
    buf: Seq<u32>,
    width: int,
    height: int,
    stride: int,
    progress: int,
    logo: Seq<u8>,
) -> Seq<u32> {
    let (logo_x, logo_y, bar_x, bar_y) = splash_layout(width, height);
    let start = if progress == 0 {
        cleared(buf, width * height, SLATE_BG)
    } else {
        buf
    };
    let b1 = rect_drawn(start, width, height, stride, logo_x, logo_y, LOGO_W as int, LOGO_H as int, SLATE_BG);
    let b2 = rect_drawn(b1, width, height, stride, bar_x, bar_y, BAR_W as int, BAR_H as int, SLATE_BG);
    if progress <= 30 {
        region_drawn(
            b2,
            width,
            height,
            stride,
            logo_x,
            logo_y,
            LOGO_W as int,
            LOGO_H as int,
            image_paint(logo, LOGO_W as int, fade_alpha(progress), true),
        )
    } else {
        let b3 = region_drawn(
            b2,
            width,
            height,
            stride,
            logo_x,
            logo_y,
            LOGO_W as int,
            LOGO_H as int,
            image_paint(logo, LOGO_W as int, 255, false),
        );
        let b4 = rect_drawn(b3, width, height, stride, bar_x, bar_y, BAR_W as int, BAR_H as int, TRACK_COLOR);
        if accent_width(progress) > 0 {
            rect_drawn(b4, width, height, stride, bar_x, bar_y, accent_width(progress), BAR_H as int, ACCENT_BLUE)
        } else {
            b4
        }
    }
}

/// Draws one frame of the splash at `progress` percent: the first frame
/// clears the screen; each frame repaints the logo and bar areas; up to 30
/// the logo fades in, after that it is shown whole and the bar fills.
/// Showing the frame on the framebuffer is left to the caller.
pub fn draw_splash(renderer: &mut Renderer, progress: u64, logo: &[u8])
    requires
        old(renderer).wf(),
        old(renderer).spec_width() >= LOGO_W,
        old(renderer).spec_height() / 2 >= LOGO_H + 20,
        old(renderer).spec_height() / 2 + 40 + BAR_H <= usize::MAX,
        progress * BAR_W <= u64::MAX,
        (old(renderer).spec_width() - BAR_W) / 2 + bar_fill(progress as int) <= usize::MAX,
        logo@.len() >= 4 * LOGO_W * LOGO_H,
    ensures
        final(renderer).same_frame(old(renderer)),
        final(renderer).backup() == old(renderer).backup(),
        final(renderer).pixels() == splash_drawn(
            old(renderer).pixels(),
            old(renderer).spec_width(),
            old(renderer).spec_height(),
            old(renderer).spec_stride(),
            progress as int,
            logo@,
        ),
{
    proof {
        renderer.lemma_size_fits();
    }
    let logo_x = (renderer.width() - LOGO_W) / 2;
    let logo_y = (renderer.height() / 2) - LOGO_H - 20;
    let bar_x = (renderer.width() - BAR_W) / 2;
    let bar_y = (renderer.height() / 2) + 40;

    if progress == 0 {
        renderer.clear_screen(SLATE_BG);
    }
    renderer.draw_rect(logo_x as usize, logo_y as usize, LOGO_W as usize, LOGO_H as usize, SLATE_BG);
    renderer.draw_rect(bar_x as usize, bar_y as usize, BAR_W as usize, BAR_H as usize, SLATE_BG);

    if progress <= 30 {
        let alpha = ((progress * 255) / 30) as u8;
        renderer.draw_image_faded(logo_x, logo_y, LOGO_W, LOGO_H, logo, alpha);
    } else {
        renderer.draw_image(logo_x, logo_y, LOGO_W, LOGO_H, logo);
        renderer.draw_rect(bar_x as usize, bar_y as usize, BAR_W as usize, BAR_H as usize, TRACK_COLOR);
        let progress_w = ((progress - 30) * BAR_W) / 70;
        if progress_w > 0 {
            renderer.draw_rect(bar_x as usize, bar_y as usize, progress_w as usize, BAR_H as usize, ACCENT_BLUE);
        }
    }
}

/// The splash progresses: over frames 0 to 100, the accent part of the bar
/// never shrinks; it is empty while the logo fades in, up to 30, and is the
/// whole bar at 100; the logo's opacity reaches 255 at 30.
pub proof fn law_splash_progresses(p: int, q: int)
    requires
        0 <= p < q <= 100,
    ensures
        accent_width(p) <= accent_width(q),
        p <= 30 ==> accent_width(p) == 0,
        accent_width(100) == BAR_W,
        fade_alpha(30) == 255,
        fade_alpha(0) == 0,
{
    if p > 30 {
        assert((p - 30) * 300 <= (q - 30) * 300) by (nonlinear_arith)
            requires
                p <= q,
        ;
        vstd::arithmetic::div_mod::lemma_div_is_ordered((p - 30) * 300, (q - 30) * 300, 70);
    } else if q > 30 {
        assert((q - 30) * 300 >= 0) by (nonlinear_arith)
            requires
                q > 30,
        ;
        vstd::arithmetic::div_mod::lemma_div_pos_is_pos((q - 30) * 300, 70);
    }
}

} // verus!
