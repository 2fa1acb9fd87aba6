use aether_kernel::fault::{draw_hex_rip, fault_screen, FAULT_BG, FAULT_TEXT};
use aether_kernel::gui::compositor::Compositor;
use aether_kernel::gui::desktop::{cursor_areas, desktop_frame};
use aether_kernel::gui::grimbox::GrimBox;
use aether_kernel::gui::renderer::{RowCopy, Renderer};
use aether_kernel::gui::splash::draw_splash;
use aether_kernel::gui::window::Window;
use aether_kernel::keyboard::KeyboardState;

/// A 16x8 screen with a pitch of 20 pixels (80 bytes).
fn small_renderer() -> Renderer {
    Renderer::new(16, 8, 80, vec![0u32; 20 * 8])
}

fn px(r: &Renderer, x: usize, y: usize) -> u32 {
    r.buffer()[y * 20 + x]
}

#[test]
fn put_pixel_writes_on_screen_only() {
    let mut r = small_renderer();
    r.put_pixel(3, 2, 0xABCDEF);
    assert_eq!(px(&r, 3, 2), 0xABCDEF);
    r.put_pixel(16, 0, 0x111111);
    r.put_pixel(0, 8, 0x111111);
    assert_eq!(r.buffer().iter().filter(|&&p| p != 0).count(), 1);
    assert_eq!((r.width(), r.height()), (16, 8));
}

#[test]
fn draw_rect_is_clipped() {
    let mut r = small_renderer();
    r.draw_rect(14, 6, 5, 5, 7);
    let lit: Vec<(usize, usize)> = (0..8)
        .flat_map(|y| (0..20).map(move |x| (x, y)))
        .filter(|&(x, y)| r.buffer()[y * 20 + x] == 7)
        .collect();
    assert_eq!(lit, vec![(14, 6), (15, 6), (14, 7), (15, 7)]);
}

#[test]
fn clear_screen_fills_width_times_height() {
    let mut r = small_renderer();
    r.clear_screen(9);
    assert_eq!(r.pixel_count(), 128);
    assert!(r.buffer()[..128].iter().all(|&p| p == 9));
    assert!(r.buffer()[128..].iter().all(|&p| p == 0));
}

#[test]
fn alpha_blending() {
    let mut r = small_renderer();
    r.put_pixel(0, 0, 0x000000);
    r.put_pixel_alpha(0, 0, 0xFF8040, 128);
    // (255*128)>>8 = 127, (128*128)>>8 = 64, (64*128)>>8 = 32
    assert_eq!(px(&r, 0, 0), 0x7F4020);
    r.put_pixel(1, 0, 0x102030);
    r.put_pixel_alpha(1, 0, 0xFFFFFF, 255);
    assert_eq!(px(&r, 1, 0), 0xFFFFFF);
    r.put_pixel(2, 0, 0xFFFFFF);
    r.put_pixel_alpha(2, 0, 0x000000, 0);
    assert_eq!(px(&r, 2, 0), 0xFEFEFE);
}

#[test]
fn draw_char_uses_the_font() {
    let mut r = small_renderer();
    r.draw_char(0, 0, '1', 5);
    // Glyph '1' is 0x18 on rows 0-6: columns 3 and 4.
    for y in 0..8 {
        for x in 0..8 {
            let lit = y < 7 && (x == 3 || x == 4);
            assert_eq!(px(&r, x, y) == 5, lit, "({}, {})", x, y);
        }
    }
    let mut r2 = small_renderer();
    r2.draw_char(0, 0, 'z', 5);
    assert!(r2.buffer().iter().all(|&p| p == 0));
}

#[test]
fn draw_string_advances_eight_pixels() {
    let mut r = small_renderer();
    r.draw_string(0, 0, "1b", 6);
    assert_eq!(px(&r, 3, 0), 6);
    // Glyph 'b' row 0 is 0x7C: columns 1-5 of the second cell.
    assert_eq!(px(&r, 8 + 1, 0), 6);
    assert_eq!(px(&r, 8, 0), 0);
}

#[test]
fn draw_image_respects_alpha() {
    let mut r = small_renderer();
    r.clear_screen(0x000000);
    let data: Vec<u8> = vec![
        0x11, 0x22, 0x33, 0xFF, // opaque
        0x44, 0x55, 0x66, 0x00, // transparent
    ];
    r.draw_image(2, 3, 2, 1, &data);
    assert_eq!(px(&r, 2, 3), 0xFF332211);
    assert_eq!(px(&r, 3, 3), 0);
    let mut r2 = small_renderer();
    r2.draw_image_faded(0, 0, 2, 1, &data, 0);
    assert!(r2.buffer().iter().all(|&p| p == 0));
}

#[test]
fn cursor_leaves_no_trace() {
    let mut r = Renderer::new(30, 30, 120, (0..900u32).collect());
    let before: Vec<u32> = r.buffer().clone();
    r.draw_cursor(20, 15);
    assert_eq!(r.last_cursor(), (20, 15));
    assert_eq!(r.buffer()[15 * 30 + 20], 0x000000);
    assert_eq!(r.buffer()[16 * 30 + 21], 0xFFFFFF);
    r.draw_cursor(0, 0);
    for y in 15..30 {
        for x in 20..30 {
            assert_eq!(r.buffer()[y * 30 + x], before[y * 30 + x]);
        }
    }
}

#[test]
fn swap_rect_clips_rows() {
    let r = small_renderer();
    let copies = r.swap_rect(10, 5, 10, 10);
    assert_eq!(
        copies,
        vec![
            RowCopy { offset: 5 * 20 + 10, len: 6 },
            RowCopy { offset: 6 * 20 + 10, len: 6 },
            RowCopy { offset: 7 * 20 + 10, len: 6 },
        ]
    );
    assert!(r.swap_rect(16, 0, 4, 4).is_empty());
    assert_eq!(r.swap_rect(0, 0, 2, 1), vec![RowCopy { offset: 0, len: 2 }]);
}

#[test]
fn window_text_keys() {
    let mut w = Window::new(10, 40, 100, 50, "Term");
    w.on_key('a');
    w.on_key('b');
    assert_eq!(w.buffer, "ab");
    w.on_key('\x08');
    assert_eq!(w.buffer, "a");
    w.on_key('\x08');
    w.on_key('\x08');
    assert_eq!(w.buffer, "");
    for _ in 0..150 {
        w.on_key('x');
    }
    assert_eq!(w.buffer.len(), 100);
}

#[test]
fn window_hit_test_includes_title_bar() {
    let w = Window::new(100, 100, 200, 50, "T");
    assert!(w.is_mouse_over(100, 75));
    assert!(w.is_mouse_over(300, 150));
    assert!(!w.is_mouse_over(99, 100));
    assert!(!w.is_mouse_over(150, 74));
    assert!(!w.is_mouse_over(150, 151));
}

#[test]
fn window_draw_only_when_visible() {
    let mut r = Renderer::new(40, 40, 160, vec![1u32; 1600]);
    let mut w = Window::new(2, 26, 10, 5, "a");
    w.draw(&mut r);
    assert!(r.buffer().iter().all(|&p| p == 1));
    w.is_visible = true;
    w.draw(&mut r);
    assert_eq!(r.buffer()[1 * 40 + 2], 0x333333);
    assert_eq!(r.buffer()[26 * 40 + 2], 0x000000);
}

#[test]
fn compositor_icon_opens_terminal_once() {
    let mut c = Compositor::new();
    c.handle_click(60, 60, true);
    assert_eq!(c.windows.len(), 1);
    assert_eq!(c.windows[0].title, "GrimBox Terminal");
    assert!(c.windows[0].is_visible);
    c.handle_click(60, 60, true);
    assert_eq!(c.windows.len(), 1);
    c.handle_click(60, 60, false);
    c.handle_click(60, 60, true);
    assert_eq!(c.windows.len(), 1);
}

#[test]
fn compositor_click_raises_window() {
    let mut c = Compositor::new();
    c.windows.push(Window::new(100, 100, 100, 100, "A"));
    c.windows.push(Window::new(500, 500, 100, 100, "B"));
    c.windows.push(Window::new(150, 150, 100, 100, "C"));
    c.handle_click(120, 120, true);
    let titles: Vec<&str> = c.windows.iter().map(|w| w.title).collect();
    assert_eq!(titles, vec!["B", "C", "A"]);
    c.handle_click(220, 220, false);
    c.handle_click(220, 220, true);
    let titles: Vec<&str> = c.windows.iter().map(|w| w.title).collect();
    assert_eq!(titles, vec!["B", "A", "C"]);
}

#[test]
fn compositor_keyboard_to_front_window() {
    let mut c = Compositor::new();
    let mut kb = KeyboardState::new();
    c.handle_keyboard(0x2A, &mut kb);
    assert!(!kb.shift_pressed);
    c.windows.push(Window::new(100, 100, 100, 100, "A"));
    c.windows.push(Window::new(300, 300, 100, 100, "B"));
    c.handle_keyboard(0x2A, &mut kb);
    assert!(kb.shift_pressed);
    c.handle_keyboard(0x23, &mut kb);
    c.handle_keyboard(0xAA, &mut kb);
    c.handle_keyboard(0x17, &mut kb);
    assert_eq!(c.windows[1].buffer, "Hi");
    assert_eq!(c.windows[0].buffer, "");
}

#[test]
fn compositor_render_and_icons() {
    let mut r = Renderer::new(200, 200, 800, vec![0u32; 40000]);
    let c = Compositor::new();
    c.draw_icons(&mut r);
    assert_eq!(r.buffer()[50 * 200 + 50], 0x222222);
    assert_eq!(r.buffer()[113 * 200 + 113], 0x222222);
    assert_eq!(r.buffer()[114 * 200 + 114], 0);
    let mut c2 = Compositor::new();
    c2.handle_click(60, 60, true);
    let mut r2 = Renderer::new(1100, 800, 4400, vec![0u32; 1100 * 800]);
    c2.render(&mut r2);
    assert_eq!(r2.buffer()[280 * 1100 + 400], 0x333333);
    assert_eq!(r2.buffer()[300 * 1100 + 400], 0x000000);
}

#[test]
fn grimbox_draws_and_wraps_lines() {
    let mut r = Renderer::new(64, 64, 256, vec![0u32; 64 * 64]);
    let mut g = GrimBox::new(64, 64);
    g.push_char('1', &mut r);
    assert_eq!(r.buffer()[20 * 64 + 23], 0xFFFFFF);
    g.push_char('\n', &mut r);
    g.push_char('1', &mut r);
    assert_eq!(r.buffer()[32 * 64 + 23], 0xFFFFFF);
}

#[test]
fn splash_first_and_last_frames() {
    let logo = vec![0xFFu8; 4 * 347 * 180];
    let mut r = Renderer::new(400, 500, 1600, vec![7u32; 400 * 500]);
    draw_splash(&mut r, 0, &logo);
    // Logo at ((400-347)/2, 250-200) = (26, 50); fully transparent at 0.
    assert_eq!(r.buffer()[0], 0x000D1117);
    assert_eq!(r.buffer()[50 * 400 + 26], 0x000D1117);
    draw_splash(&mut r, 100, &logo);
    assert_eq!(r.buffer()[50 * 400 + 26], 0xFFFFFFFF);
    // Bar at ((400-300)/2, 250+40) = (50, 290), full width at 100.
    assert_eq!(r.buffer()[290 * 400 + 50], 0x0058A6FF);
    assert_eq!(r.buffer()[290 * 400 + 349], 0x0058A6FF);
    assert_eq!(r.buffer()[290 * 400 + 350], 0x000D1117);
}

#[test]
fn splash_bar_half_way() {
    let logo = vec![0u8; 4 * 347 * 180];
    let mut r = Renderer::new(400, 500, 1600, vec![0u32; 400 * 500]);
    draw_splash(&mut r, 65, &logo);
    // (65-30)*300/70 = 150 pixels filled.
    assert_eq!(r.buffer()[290 * 400 + 50 + 149], 0x0058A6FF);
    assert_eq!(r.buffer()[290 * 400 + 50 + 150], 0x001C2533);
}

#[test]
fn hex_rip_digits() {
    let mut pixels = vec![0u32; 200 * 10];
    draw_hex_rip(&mut pixels, 200, 10, 0, 0, 0x1);
    // Fifteen '0' digits then a '1' at x = 135: column 3 of its cell lit.
    assert_eq!(pixels[135 + 3], FAULT_TEXT);
    assert_eq!(pixels[135], 0);
    // First '0' row 0 is 0x3E: columns 2-6.
    assert_eq!(pixels[2], FAULT_TEXT);
    assert_eq!(pixels[1], 0);
}

#[test]
fn hex_rip_clipped_to_framebuffer() {
    let mut pixels = vec![0u32; 200 * 10];
    draw_hex_rip(&mut pixels, 200, 4, 0, 0, 0x1);
    assert!(pixels[4 * 200..].iter().all(|&p| p == 0));
}

#[test]
fn fault_screen_fills_plum() {
    let mut pixels = vec![0u32; 200 * 20];
    fault_screen(&mut pixels, 180, 20, 800, 0);
    assert_eq!(pixels[0], FAULT_BG);
    // Digits at x = (180-144)/2 = 18, y = 10; first '0' row 0 lit at col 2.
    assert_eq!(pixels[10 * 200 + 20], FAULT_TEXT);
    assert_eq!(pixels[10 * 200 + 18], FAULT_BG);
}

#[test]
fn cursor_dirty_areas() {
    let a = cursor_areas(100, 200, 120, 190);
    assert_eq!((a.erase_x, a.erase_y), (95, 195));
    assert_eq!((a.swap_x, a.swap_y), (90, 180));
    assert_eq!((a.swap_w, a.swap_h), (70, 60));
    let b = cursor_areas(3, 2, 2000, 1500);
    assert_eq!((b.erase_x, b.erase_y), (0, 0));
    assert_eq!((b.swap_x, b.swap_y), (0, 0));
    assert_eq!((b.swap_w, b.swap_h), (1919, 1079));
}

#[test]
fn desktop_frame_opens_terminal_and_types() {
    let mut r = Renderer::new(200, 150, 800, vec![0u32; 200 * 150]);
    let mut c = Compositor::new();
    let mut k = KeyboardState::new();
    // A press on the icon opens the terminal; the cursor moves from (0, 0).
    let a = desktop_frame(&mut c, &mut r, &mut k, 60, 60, true, None);
    assert_eq!(c.windows.len(), 1);
    assert_eq!(c.windows[0].title, "GrimBox Terminal");
    assert!(c.was_pressed);
    assert_eq!(r.last_cursor(), (60, 60));
    assert_eq!((a.erase_x, a.erase_y, a.swap_x, a.swap_y), (0, 0, 0, 0));
    assert_eq!((a.swap_w, a.swap_h), (100, 100));
    // Wiped to the desktop color, outside the old cursor's square.
    assert_eq!(r.buffer()[30 * 200 + 30], 0x000D1117);
    // Inside the old cursor's square: what was there before it was drawn.
    assert_eq!(r.buffer()[5 * 200 + 5], 0);
    // The icon.
    assert_eq!(r.buffer()[52 * 200 + 52], 0x222222);
    // Released, with the 'a' key: typed into the terminal.
    let b = desktop_frame(&mut c, &mut r, &mut k, 61, 60, false, Some(0x1E));
    assert!(!c.was_pressed);
    assert_eq!(c.windows.len(), 1);
    assert_eq!(c.windows[0].buffer, "a");
    assert_eq!((b.erase_x, b.erase_y), (55, 55));
    assert_eq!((b.swap_x, b.swap_y, b.swap_w, b.swap_h), (50, 50, 51, 50));
}

#[test]
fn drawing_at_the_edge_of_the_address_space() {
    let mut r = small_renderer();
    // A character without a glyph draws nothing, wherever it is asked for.
    r.draw_char(usize::MAX, usize::MAX, 'g', 0xFFFFFF);
    // An empty rectangle draws nothing.
    r.draw_rect(usize::MAX, 3, 0, 5, 0xFFFFFF);
    // A one-pixel rectangle at the last address fits.
    r.draw_rect(usize::MAX, usize::MAX, 1, 1, 0xFFFFFF);
    // The cursor may reach the last address with its last column.
    r.draw_cursor(usize::MAX - 11, usize::MAX - 18);
    assert!(r.buffer().iter().all(|&p| p == 0));
    assert_eq!(r.last_cursor(), (usize::MAX - 11, usize::MAX - 18));
}

#[test]
fn cursor_moves_without_trail() {
    let mut r = small_renderer();
    r.draw_cursor(20, 20);
    r.draw_rect(0, 0, 16, 8, 0x123456);
    r.draw_cursor(1, 1);
    assert_ne!(px(&r, 1, 1), 0x123456);
    r.draw_cursor(8, 2);
    // Where the cursor was first, the image under it is back.
    assert_eq!(px(&r, 1, 1), 0x123456);
    assert_eq!(px(&r, 3, 6), 0x123456);
    r.draw_cursor(20, 20);
    assert!(r.buffer().chunks(20).all(|row| row[..16].iter().all(|&p| p == 0x123456)));
}
