//! The compositor: the window stack, focus and raising by mouse click,
//! keyboard input to the focused window, and the desktop icon.
use vstd::prelude::*;
use crate::gui::renderer::{rect_drawn, text_drawn, Renderer, lemma_text_fits};
use crate::gui::strings::str_eq;
use crate::gui::window::{mouse_over, text_after_key, window_drawn, Window, TEXT_LIMIT};
use crate::keyboard::{key_result, shift_after, KeyboardState};

verus! {

/// Side of the square desktop icon.
pub const ICON_SIZE: usize = 64;

/// Color of the desktop icon.
pub const ICON_COLOR: u32 = 0x222222;

/// Color of the icon's label.
pub const ICON_LABEL_COLOR: u32 = 0xFFFFFF;

/// Desktop background.
pub const DESKTOP_COLOR: u32 = 0x000D1117;

/// The windows from front to back: the index of the frontmost of the first
/// `n` windows under the point, or -1.
pub open spec fn top_hit(ws: Seq<Window>, n: int, mx: i32, my: i32) -> int
    decreases n,
{
    if n <= 0 {
        -1
    } else if mouse_over(ws[n - 1], mx, my) {
        n - 1
    } else {
        top_hit(ws, n - 1, mx, my)
    }
}

/// The point lies on the desktop icon, edges included, compared as `i32`.
pub open spec fn icon_hit(icon_x: usize, icon_y: usize, mx: i32, my: i32) -> bool {
    mx >= icon_x as i32 && mx <= (icon_x + ICON_SIZE) as i32 && my >= icon_y as i32 && my <= (
    icon_y + ICON_SIZE) as i32
}

/// A window titled like the terminal is open.
pub open spec fn has_terminal(ws: Seq<Window>) -> bool {
    exists|i: int| 0 <= i < ws.len() && #[trigger] ws[i].title@ == "GrimBox Terminal"@
}

/// `after` is `before` with a visible terminal window, empty, at (400, 300)
/// of 600 by 400 pixels, on top.
pub open spec fn terminal_opened(before: Seq<Window>, after: Seq<Window>) -> bool {
    &&& after.len() == before.len() + 1
    &&& after.take(before.len() as int) == before
    &&& after.last().x == 400
    &&& after.last().y == 300
    &&& after.last().width == 600
    &&& after.last().height == 400
    &&& after.last().title@ == "GrimBox Terminal"@
    &&& after.last().is_visible
    &&& after.last().buffer@ == Seq::<char>::empty()
}

/// The buffer with the windows drawn back to front.
pub open spec fn windows_drawn(
    buf: Seq<u32>,
    width: int,
    height: int,
    stride: int,
    ws: Seq<Window>,
) -> Seq<u32>
    decreases ws.len(),
{
    if ws.len() == 0 {
        buf
    } else {
        window_drawn(
            windows_drawn(buf, width, height, stride, ws.drop_last()),
            width,
            height,
            stride,
            ws.last(),
        )
    }
}

/// `w2` is `w1` with the text changed by a key.
pub open spec fn typed_into(w1: Window, w2: Window, c: char) -> bool {
    &&& w2.x == w1.x
    &&& w2.y == w1.y
    &&& w2.width == w1.width
    &&& w2.height == w1.height
    &&& w2.title == w1.title
    &&& w2.is_visible == w1.is_visible
    &&& w2.buffer@ == text_after_key(w1.buffer@, c)
}

/// The buffer with the desktop icon drawn at (`icon_x`, `icon_y`): a dark
/// square with the label "GrimBox" in it.
pub open spec fn icons_drawn(
    buf: Seq<u32>,
    width: int,
    height: int,
    stride: int,
    icon_x: usize,
    icon_y: usize,
) -> Seq<u32> {
    text_drawn(
        rect_drawn(
            buf,
            width,
            height,
            stride,
            icon_x as int,
            icon_y as int,
            ICON_SIZE as int,
            ICON_SIZE as int,
            ICON_COLOR,
        ),
        width,
        height,
        stride,
        icon_x + 5,
        icon_y + 25,
        "GrimBox"@,
        ICON_LABEL_COLOR,
    )
}

/// `after` is the desktop `before` once the left button has been polled
/// at (`mx`, `my`): on a new press the frontmost window under the pointer
/// moves to the top; when no window is hit, a press on the icon opens the
/// terminal unless one is open. Nothing else changes.
pub open spec fn click_outcome(before: Compositor, after: Compositor, mx: i32, my: i32, is_pressed: bool) -> bool {
    let ws = before.windows@;
    let hit = top_hit(ws, ws.len() as int, mx, my);
    &&& after.icon_x == before.icon_x
    &&& after.icon_y == before.icon_y
    &&& after.background_color == before.background_color
    &&& after.was_pressed == is_pressed
    &&& if is_pressed && !before.was_pressed {
        if hit >= 0 {
            after.windows@ == ws.remove(hit).push(ws[hit])
        } else if icon_hit(before.icon_x, before.icon_y, mx, my) {
            if has_terminal(ws) {
                after.windows@ == ws
            } else {
                terminal_opened(ws, after.windows@)
            }
        } else {
            after.windows@ == ws
        }
    } else {
        after.windows@ == ws
    }
}

/// `after` is the desktop `before` once `scancode` has been read, with the
/// shift state going from `shift_before` to `shift_now`: with no window the
/// scancode is ignored; otherwise it is translated and the character, if any,
/// typed into the frontmost window. Nothing else changes.
pub open spec fn key_outcome(
    before: Compositor,
    after: Compositor,
    shift_before: bool,
    shift_now: bool,
    scancode: u8,
) -> bool {
    let ws = before.windows@;
    let n = ws.len();
    &&& after.icon_x == before.icon_x
    &&& after.icon_y == before.icon_y
    &&& after.background_color == before.background_color
    &&& after.was_pressed == before.was_pressed
    &&& if n == 0 {
        &&& after.windows@ == ws
        &&& shift_now == shift_before
    } else {
        &&& shift_now == shift_after(shift_before, scancode)
        &&& after.windows@.len() == n
        &&& after.windows@.take(n - 1) == ws.take(n - 1)
        &&& match key_result(shift_before, scancode) {
            Some(c) => typed_into(ws[n - 1], after.windows@[n - 1], c),
            None => after.windows@[n - 1] == ws[n - 1],
        }
    }
}

/// The desktop's windows, back to front, and its icon.
pub struct Compositor {
    pub windows: Vec<Window>,
    pub background_color: u32,
    pub icon_x: usize,
    pub icon_y: usize,
    /// The left button was down at the previous poll.
    pub was_pressed: bool,
}

impl Compositor {
    /// Every window fits its coordinates and holds at most 100 characters;
    /// the icon and its label fit theirs.
    pub open spec fn wf(&self) -> bool {
        &&& forall|i: int|
            0 <= i < self.windows@.len() ==> (#[trigger] self.windows@[i]).fits()
                && self.windows@[i].buffer@.len() <= TEXT_LIMIT
        &&& self.icon_x + ICON_SIZE <= usize::MAX
        &&& self.icon_y + ICON_SIZE <= usize::MAX
    }

    /// An empty desktop with the icon at (50, 50).
    pub fn new() -> (r: Self)
        ensures
            r.wf(),
            r.windows@ == Seq::<Window>::empty(),
            r.background_color == DESKTOP_COLOR,
            r.icon_x == 50,
            r.icon_y == 50,
            !r.was_pressed,
    {
        Compositor {
            windows: Vec::new(),
            background_color: DESKTOP_COLOR,
            icon_x: 50,
            icon_y: 50,
            was_pressed: false,
        }
    }

    /// Draws the windows from back to front.
    pub fn render(&self, renderer: &mut Renderer)
        requires
            self.wf(),
            old(renderer).wf(),
        ensures
            final(renderer).same_frame(old(renderer)),
            final(renderer).backup() == old(renderer).backup(),
            final(renderer).pixels() == windows_drawn(
                old(renderer).pixels(),
                old(renderer).spec_width(),
                old(renderer).spec_height(),
                old(renderer).spec_stride(),
                self.windows@,
            ),
    {
        let n = self.windows.len();
        let mut k: usize = 0;
        while k < n
            invariant
                self.wf(),
                n == self.windows@.len(),
                k <= n,
                renderer.wf(),
                renderer.same_frame(old(renderer)),
                renderer.backup() == old(renderer).backup(),
                renderer.pixels() == windows_drawn(
                    old(renderer).pixels(),
                    old(renderer).spec_width(),
                    old(renderer).spec_height(),
                    old(renderer).spec_stride(),
                    self.windows@.take(k as int),
                ),
            decreases n - k,
        {
            proof {
                assert(self.windows@[k as int].fits());
            }
            self.windows[k].draw(renderer);
            proof {
                let t = self.windows@.take(k as int + 1);
                assert(t.drop_last() =~= self.windows@.take(k as int));
            }
            k = k + 1;
        }
        assert(self.windows@.take(n as int) =~= self.windows@);
    }

    /// Draws the desktop icon: a dark square with the label "GrimBox".
    pub fn draw_icons(&self, renderer: &mut Renderer)
        requires
            self.wf(),
            old(renderer).wf(),
        ensures
            final(renderer).same_frame(old(renderer)),
            final(renderer).backup() == old(renderer).backup(),
            final(renderer).pixels() == icons_drawn(
                old(renderer).pixels(),
                old(renderer).spec_width(),
                old(renderer).spec_height(),
                old(renderer).spec_stride(),
                self.icon_x,
                self.icon_y,
            ),
    {
        renderer.draw_rect(self.icon_x, self.icon_y, ICON_SIZE, ICON_SIZE, ICON_COLOR);
        proof {
            reveal_strlit("GrimBox");
            lemma_text_fits("GrimBox"@, self.icon_x + 5, self.icon_y + 25);
        }
        renderer.draw_string(self.icon_x + 5, self.icon_y + 25, "GrimBox", ICON_LABEL_COLOR);
    }

    /// Handles the left button, polled with the mouse position: on a new
    /// press the frontmost window under the pointer is raised to the front;
    /// when no window is hit, a press on the icon opens the terminal. Holding
    /// the button does nothing more; releasing it rearms the press.
    pub fn handle_click(&mut self, mx: i32, my: i32, is_pressed: bool)
        requires
            old(self).wf(),
        ensures
            final(self).wf(),
            click_outcome(*old(self), *final(self), mx, my, is_pressed),
    {
        if is_pressed && !self.was_pressed {
            self.was_pressed = true;
            let ghost ws = self.windows@;
            let n = self.windows.len();
            let mut clicked: Option<usize> = None;
            let mut i: usize = n;
            while i > 0
                invariant_except_break
                    self.wf(),
                    ws == self.windows@,
                    n == ws.len(),
                    i <= n,
                    clicked is None,
                    top_hit(ws, n as int, mx, my) == top_hit(ws, i as int, mx, my),
                ensures
                    ws == self.windows@,
                    self.wf(),
                    n == ws.len(),
                    match clicked {
                        Some(k) => k == top_hit(ws, n as int, mx, my) && k < n,
                        None => top_hit(ws, n as int, mx, my) == -1,
                    },
                decreases i,
            {
                proof {
                    assert(self.windows@[i - 1].fits());
                }
                if self.windows[i - 1].is_mouse_over(mx, my) {
                    clicked = Some(i - 1);
                    break;
                }
                i = i - 1;
            }
            match clicked {
                Some(index) => {
                    let win = self.windows.remove(index);
                    self.windows.push(win);
                    proof {
                        assert forall|j: int| 0 <= j < self.windows@.len() implies (
                        #[trigger] self.windows@[j]).fits() && self.windows@[j].buffer@.len()
                            <= TEXT_LIMIT by {
                            if j < index {
                                assert(self.windows@[j] == ws[j]);
                            } else if j < ws.len() - 1 {
                                assert(self.windows@[j] == ws[j + 1]);
                            } else {
                                assert(self.windows@[j] == ws[index as int]);
                            }
                        }
                    }
                },
                None => {
                    if mx >= self.icon_x as i32 && mx <= (self.icon_x + 64) as i32 && my
                        >= self.icon_y as i32 && my <= (self.icon_y + 64) as i32 {
                        self.open_grimbox();
                    }
                },
            }
        } else if !is_pressed {
            self.was_pressed = false;
        }
    }

    /// Passes a scancode to the keyboard translation and the resulting
    /// character to the frontmost window; without windows the scancode is
    /// not looked at.
    pub fn handle_keyboard(&mut self, scancode: u8, keyboard: &mut KeyboardState)
        requires
            old(self).wf(),
        ensures
            final(self).wf(),
            key_outcome(
                *old(self),
                *final(self),
                old(keyboard).shift_pressed,
                final(keyboard).shift_pressed,
                scancode,
            ),
    {
        let n = self.windows.len();
        if n > 0 {
            let ghost ws = self.windows@;
            match keyboard.scancode_to_ascii(scancode) {
                Some(c) => {
                    let mut focused = self.windows.pop().unwrap();
                    focused.on_key(c);
                    proof {
                        crate::gui::window::law_text_stays_bounded(ws[n - 1].buffer@, c);
                    }
                    self.windows.push(focused);
                    proof {
                        assert(self.windows@.take(n - 1) =~= ws.take(n - 1));
                        assert forall|j: int| 0 <= j < self.windows@.len() implies (
                        #[trigger] self.windows@[j]).fits() && self.windows@[j].buffer@.len()
                            <= TEXT_LIMIT by {
                            if j < n - 1 {
                                assert(self.windows@[j] == ws[j]);
                            }
                        }
                    }
                },
                None => {},
            }
        }
    }

    /// Opens the terminal window, visible and on top, unless a window with
    /// its title is already open.
    fn open_grimbox(&mut self)
        requires
            old(self).wf(),
        ensures
            final(self).wf(),
            final(self).icon_x == old(self).icon_x,
            final(self).icon_y == old(self).icon_y,
            final(self).background_color == old(self).background_color,
            final(self).was_pressed == old(self).was_pressed,
            has_terminal(old(self).windows@) ==> final(self).windows@ == old(self).windows@,
            !has_terminal(old(self).windows@) ==> terminal_opened(
                old(self).windows@,
                final(self).windows@,
            ),
    {
        let n = self.windows.len();
        let mut found = false;
        let mut i: usize = 0;
        while i < n && !found
            invariant
                n == self.windows@.len(),
                i <= n,
                found ==> has_terminal(self.windows@),
                !found ==> forall|k: int|
                    0 <= k < i ==> #[trigger] self.windows@[k].title@ != "GrimBox Terminal"@,
            decreases n - i + (if found { 0int } else { 1int }),
        {
            if str_eq(self.windows[i].title, "GrimBox Terminal") {
                found = true;
            } else {
                i = i + 1;
            }
        }
        if !found {
            let mut win = Window::new(400, 300, 600, 400, "GrimBox Terminal");
            win.is_visible = true;
            let ghost ws = self.windows@;
            proof {
                reveal_strlit("GrimBox Terminal");
                assert(win.fits());
            }
            self.windows.push(win);
            proof {
                assert(self.windows@.take(n as int) =~= ws);
                assert forall|j: int| 0 <= j < self.windows@.len() implies (
                #[trigger] self.windows@[j]).fits() && self.windows@[j].buffer@.len()
                    <= TEXT_LIMIT by {
                    if j < n {
                        assert(self.windows@[j] == ws[j]);
                    }
                }
            }
        }
    }
}

/// A click raises a window without losing or duplicating any: the stack
/// after the raise holds the same windows, the clicked one on top.
pub proof fn law_raise_keeps_windows(ws: Seq<Window>, hit: int)
    requires
        0 <= hit < ws.len(),
    ensures
        ws.remove(hit).push(ws[hit]).len() == ws.len(),
        ws.remove(hit).push(ws[hit]).last() == ws[hit],
        ws.remove(hit).push(ws[hit]).to_multiset() == ws.to_multiset(),
{
    broadcast use vstd::seq_lib::group_seq_properties;
    let r = ws.remove(hit);
    assert(ws =~= ws.take(hit) + ws.skip(hit));
    assert(r =~= ws.take(hit) + ws.skip(hit + 1));
    assert(ws.skip(hit) =~= seq![ws[hit]] + ws.skip(hit + 1));
    vstd::seq_lib::lemma_multiset_commutative(ws.take(hit), ws.skip(hit));
    vstd::seq_lib::lemma_multiset_commutative(ws.take(hit), ws.skip(hit + 1));
    vstd::seq_lib::lemma_multiset_commutative(seq![ws[hit]], ws.skip(hit + 1));
    vstd::seq_lib::lemma_multiset_commutative(r, seq![ws[hit]]);
    assert(r.push(ws[hit]) =~= r + seq![ws[hit]]);
}

/// The frontmost window under the pointer is the one hit: it lies under the
/// pointer and no window in front of it does.
pub proof fn law_click_hits_frontmost(ws: Seq<Window>, n: int, mx: i32, my: i32)
    requires
        0 <= n <= ws.len(),
    ensures
        top_hit(ws, n, mx, my) >= 0 ==> mouse_over(ws[top_hit(ws, n, mx, my)], mx, my),
        -1 <= top_hit(ws, n, mx, my) < n,
        forall|j: int| top_hit(ws, n, mx, my) < j < n ==> !mouse_over(#[trigger] ws[j], mx, my),
    decreases n,
{
    if n > 0 {
        law_click_hits_frontmost(ws, n - 1, mx, my);
    }
}

/// The terminal opens once: a desktop on which it was just opened has a
/// terminal, so opening it again, or clicking the icon again with no window
/// under the pointer, leaves the windows as they are.
pub proof fn law_terminal_opens_once(before: Compositor, after: Compositor, again: Compositor, mx: i32, my: i32)
    requires
        terminal_opened(before.windows@, after.windows@),
        after.windows@.len() > 0 ==> top_hit(after.windows@, after.windows@.len() as int, mx, my) < 0,
        click_outcome(after, again, mx, my, true),
    ensures
        has_terminal(after.windows@),
        again.windows@ == after.windows@,
{
    let n = after.windows@.len() - 1;
    assert(after.windows@[n].title@ == "GrimBox Terminal"@);
    law_click_hits_frontmost(after.windows@, after.windows@.len() as int, mx, my);
}

/// A press opens the terminal only on the icon's 64 by 64 square (edges
/// included): for an icon whose square lies within `i32` range, a point hits
/// the icon exactly when it lies on the square; so a new press with no window
/// under the pointer and the point off the square leaves the windows as they
/// are, and one on the square opens the terminal unless one is open.
pub proof fn law_icon_opens_only_on_its_square(before: Compositor, after: Compositor, mx: i32, my: i32)
    requires
        before.icon_x + 64 <= i32::MAX,
        before.icon_y + 64 <= i32::MAX,
        !before.was_pressed,
        top_hit(before.windows@, before.windows@.len() as int, mx, my) < 0,
        click_outcome(before, after, mx, my, true),
    ensures
        icon_hit(before.icon_x, before.icon_y, mx, my) <==> (before.icon_x <= mx <= before.icon_x + 64
            && before.icon_y <= my <= before.icon_y + 64),
        !(before.icon_x <= mx <= before.icon_x + 64 && before.icon_y <= my <= before.icon_y + 64)
            ==> after.windows@ == before.windows@,
        (before.icon_x <= mx <= before.icon_x + 64 && before.icon_y <= my <= before.icon_y + 64
            && !has_terminal(before.windows@)) ==> after.windows@.len() == before.windows@.len() + 1
            && after.windows@.last().title@ == "GrimBox Terminal"@,
{
    assert((before.icon_x as i32) as int == before.icon_x as int);
    assert((before.icon_y as i32) as int == before.icon_y as int);
    assert(((before.icon_x + ICON_SIZE) as i32) as int == before.icon_x + 64);
    assert(((before.icon_y + ICON_SIZE) as i32) as int == before.icon_y + 64);
}

} // verus!
