//! A terminal window: its frame, title bar and one line of text.
use vstd::prelude::*;
use vstd::utf8::{encode_scalar, encode_utf8};
use crate::gui::renderer::{rect_drawn, text_drawn, Renderer, lemma_text_fits};
use crate::gui::strings::{string_len, string_pop, string_push};

verus! {

/// Height of the title bar above a window's content.
pub const TITLE_BAR_HEIGHT: usize = 25;

/// Bytes of text a window holds before further keys are ignored.
pub const TEXT_LIMIT: usize = 100;

/// Color of the title bar.
pub const TITLE_BAR_COLOR: u32 = 0x333333;

/// Color of the title text.
pub const TITLE_COLOR: u32 = 0xFFFFFF;

/// Color of the content area.
pub const CONTENT_COLOR: u32 = 0x000000;

/// Color of the window's text.
pub const TEXT_COLOR: u32 = 0x00FF00;

/// The character the keyboard produces for backspace.
pub const BACKSPACE: char = '\x08';

/// A window on the desktop.
pub struct Window {
    pub x: usize,
    pub y: usize,
    pub width: usize,
    pub height: usize,
    pub title: &'static str,
    pub is_visible: bool,
    /// The terminal's text.
    pub buffer: String,
}

/// The window's text after a key: backspace removes the last character,
/// another key is appended while the text is under the byte limit.
pub open spec fn text_after_key(text: Seq<char>, c: char) -> Seq<char> {
    if c == BACKSPACE {
        if text.len() > 0 {
            text.drop_last()
        } else {
            text
        }
    } else if encode_utf8(text).len() < TEXT_LIMIT {
        text.push(c)
    } else {
        text
    }
}

/// The point lies on the window or its title bar, edges included, the
/// coordinates compared as `i32`.
pub open spec fn mouse_over(w: Window, mx: i32, my: i32) -> bool {
    mx >= w.x as i32 && mx <= (w.x + w.width) as i32 && my >= (w.y - TITLE_BAR_HEIGHT) as i32
        && my <= (w.y + w.height) as i32
}

/// The buffer with a window drawn: title bar, title, content area, text.
pub open spec fn window_drawn(
    buf: Seq<u32>,
    width: int,
    height: int,
    stride: int,
    win: Window,
) -> Seq<u32> {
    if !win.is_visible {
        buf
    } else {
        let with_bar = rect_drawn(
            buf,
            width,
            height,
            stride,
            win.x as int,
            win.y - TITLE_BAR_HEIGHT,
            win.width as int,
            TITLE_BAR_HEIGHT as int,
            TITLE_BAR_COLOR,
        );
        let with_title = text_drawn(
            with_bar,
            width,
            height,
            stride,
            win.x + 10,
            win.y - 18,
            win.title@,
            TITLE_COLOR,
        );
        let with_content = rect_drawn(
            with_title,
            width,
            height,
            stride,
            win.x as int,
            win.y as int,
            win.width as int,
            win.height as int,
            CONTENT_COLOR,
        );
        text_drawn(
            with_content,
            width,
            height,
            stride,
            win.x + 5,
            win.y + 5,
            win.buffer@,
            TEXT_COLOR,
        )
    }
}

impl Window {
    /// The window's geometry keeps every coordinate it draws at or tests in
    /// range: the title bar fits above it, and its text and title fit the
    /// address space.
    pub open spec fn fits(&self) -> bool {
        &&& self.y >= TITLE_BAR_HEIGHT
        &&& self.x + self.width <= usize::MAX
        &&& self.y + self.height <= usize::MAX
        &&& self.x + 10 + 8 * self.title@.len() <= usize::MAX
        &&& self.x + 5 + 8 * TEXT_LIMIT <= usize::MAX
        &&& self.y + 13 <= usize::MAX
    }

    /// A hidden window with no text.
    pub fn new(x: usize, y: usize, w: usize, h: usize, title: &'static str) -> (r: Self)
        ensures
            r.x == x,
            r.y == y,
            r.width == w,
            r.height == h,
            r.title == title,
            !r.is_visible,
            r.buffer@ == Seq::<char>::empty(),
    {
        Window { x, y, width: w, height: h, title, is_visible: false, buffer: String::new() }
    }

    /// Draws the window when it is visible: a title bar 25 pixels high above
    /// it with the title, the content area, and the text.
    pub fn draw(&self, renderer: &mut Renderer)
        requires
            old(renderer).wf(),
            self.fits(),
            self.buffer@.len() <= TEXT_LIMIT,
        ensures
            final(renderer).same_frame(old(renderer)),
            final(renderer).backup() == old(renderer).backup(),
            final(renderer).pixels() == window_drawn(
                old(renderer).pixels(),
                old(renderer).spec_width(),
                old(renderer).spec_height(),
                old(renderer).spec_stride(),
                *self,
            ),
    {
        if !self.is_visible {
            return ;
        }
        renderer.draw_rect(self.x, self.y - 25, self.width, 25, TITLE_BAR_COLOR);
        proof {
            lemma_text_fits(self.title@, self.x + 10, self.y - 18);
        }
        renderer.draw_string(self.x + 10, self.y - 18, self.title, TITLE_COLOR);
        renderer.draw_rect(self.x, self.y, self.width, self.height, CONTENT_COLOR);
        proof {
            lemma_text_fits(self.buffer@, self.x + 5, self.y + 5);
        }
        renderer.draw_string(self.x + 5, self.y + 5, self.buffer.as_str(), TEXT_COLOR);
    }

    /// Takes a typed character: backspace deletes the last one; another
    /// character is appended while the text is under 100 bytes.
    pub fn on_key(&mut self, c: char)
        ensures
            final(self).buffer@ == text_after_key(old(self).buffer@, c),
            final(self).x == old(self).x,
            final(self).y == old(self).y,
            final(self).width == old(self).width,
            final(self).height == old(self).height,
            final(self).title == old(self).title,
            final(self).is_visible == old(self).is_visible,
    {
        if c == '\x08' {
            let _ = string_pop(&mut self.buffer);
        } else if string_len(&self.buffer) < 100 {
            string_push(&mut self.buffer, c);
        }
    }

    /// Whether the point lies on the window or its title bar, edges
    /// included, the coordinates compared as `i32`.
    pub fn is_mouse_over(&self, mx: i32, my: i32) -> (r: bool)
        requires
            self.y >= TITLE_BAR_HEIGHT,
            self.x + self.width <= usize::MAX,
            self.y + self.height <= usize::MAX,
        ensures
            r == mouse_over(*self, mx, my),
    {
        mx >= self.x as i32 && mx <= (self.x + self.width) as i32 && my >= (self.y - 25) as i32
            && my <= (self.y + self.height) as i32
    }
}


/// Every character takes at least one byte of UTF-8.
pub proof fn lemma_bytes_at_least_chars(text: Seq<char>)
    ensures
        encode_utf8(text).len() >= text.len(),
    decreases text.len(),
{
    if text.len() > 0 {
        lemma_bytes_at_least_chars(text.drop_first());
        assert(encode_scalar(text[0] as u32).len() >= 1);
    }
}

/// Typing never makes a window's text longer than 100 characters: a key is
/// only appended while the text is under 100 bytes, and so under 100
/// characters.
pub proof fn law_text_stays_bounded(text: Seq<char>, c: char)
    requires
        text.len() <= TEXT_LIMIT,
    ensures
        text_after_key(text, c).len() <= TEXT_LIMIT,
{
    lemma_bytes_at_least_chars(text);
}

/// Backspace undoes a typed character: appending a key to a short text and
/// then deleting gives the text back.
pub proof fn law_backspace_undoes_key(text: Seq<char>, c: char)
    requires
        c != BACKSPACE,
        encode_utf8(text).len() < TEXT_LIMIT,
    ensures
        text_after_key(text_after_key(text, c), BACKSPACE) == text,
{
    assert(text.push(c).drop_last() =~= text);
}

} // verus!
