//! GrimBox, the terminal: typed characters are drawn on the screen and
//! collected into lines.
use vstd::prelude::*;
use crate::gui::renderer::{char_drawn, Renderer, lemma_glyph_fits};
use crate::gui::strings::{string_clear, string_push};

verus! {

/// Left and top padding of the terminal text.
pub const PADDING: usize = 20;

/// Height of a text line.
pub const LINE_HEIGHT: usize = 12;

/// Advance of one character.
pub const CHAR_ADVANCE: usize = 8;

/// Color of the terminal text.
pub const TERMINAL_TEXT_COLOR: u32 = 0xFFFFFF;

/// The terminal's state.
pub struct GrimBox {
    history: Vec<String>,
    current_line: String,
    cursor_x: usize,
    cursor_y: usize,
    width: usize,
    height: usize,
}

impl GrimBox {
    /// The finished lines, oldest first.
    pub closed spec fn spec_history(&self) -> Seq<Seq<char>> {
        self.history@.map_values(|s: String| s@)
    }

    /// The line being typed.
    pub closed spec fn spec_line(&self) -> Seq<char> {
        self.current_line@
    }

    /// Where the next character goes.
    pub closed spec fn spec_cursor(&self) -> (usize, usize) {
        (self.cursor_x, self.cursor_y)
    }

    /// The terminal's size.
    pub closed spec fn spec_size(&self) -> (usize, usize) {
        (self.width, self.height)
    }

    /// An empty terminal with the cursor at the padding.
    pub fn new(width: usize, height: usize) -> (r: Self)
        ensures
            r.spec_history() == Seq::<Seq<char>>::empty(),
            r.spec_line() == Seq::<char>::empty(),
            r.spec_cursor() == (PADDING, PADDING),
            r.spec_size() == (width, height),
    {
        let r = GrimBox {
            history: Vec::new(),
            current_line: String::new(),
            cursor_x: 20,
            cursor_y: 20,
            width,
            height,
        };
        assert(r.spec_history() =~= Seq::<Seq<char>>::empty());
        r
    }

    /// Takes a typed character. A newline ends the line: it goes to the
    /// history and the cursor moves to the start of the next text line.
    /// Another character is drawn at the cursor, added to the line, and the
    /// cursor advances.
    pub fn push_char(&mut self, c: char, renderer: &mut Renderer)
        requires
            old(renderer).wf(),
            old(self).spec_cursor().0 + CHAR_ADVANCE <= usize::MAX,
            old(self).spec_cursor().1 + LINE_HEIGHT <= usize::MAX,
        ensures
            final(self).spec_size() == old(self).spec_size(),
            final(renderer).same_frame(old(renderer)),
            final(renderer).backup() == old(renderer).backup(),
            c == '\n' ==> {
                &&& final(self).spec_history() == old(self).spec_history().push(old(self).spec_line())
                &&& final(self).spec_line() == Seq::<char>::empty()
                &&& final(self).spec_cursor() == (PADDING, (old(self).spec_cursor().1 + LINE_HEIGHT) as usize)
                &&& final(renderer).pixels() == old(renderer).pixels()
            },
            c != '\n' ==> {
                &&& final(self).spec_history() == old(self).spec_history()
                &&& final(self).spec_line() == old(self).spec_line().push(c)
                &&& final(self).spec_cursor() == ((old(self).spec_cursor().0 + CHAR_ADVANCE) as usize, old(self).spec_cursor().1)
                &&& final(renderer).pixels() == char_drawn(
                    old(renderer).pixels(),
                    old(renderer).spec_width(),
                    old(renderer).spec_height(),
                    old(renderer).spec_stride(),
                    old(self).spec_cursor().0 as int,
                    old(self).spec_cursor().1 as int,
                    c,
                    TERMINAL_TEXT_COLOR,
                )
            },
    {
        if c == '\n' {
            let line = self.current_line.clone();
            let ghost before = self.history@;
            self.history.push(line);
            proof {
                assert(self.history@.map_values(|s: String| s@) =~= before.map_values(
                    |s: String| s@,
                ).push(old(self).current_line@));
            }
            string_clear(&mut self.current_line);
            self.cursor_x = 20;
            self.cursor_y = self.cursor_y + 12;
        } else {
            proof {
                lemma_glyph_fits(c, self.cursor_x as int, self.cursor_y as int);
            }
            renderer.draw_char(self.cursor_x, self.cursor_y, c, TERMINAL_TEXT_COLOR);
            string_push(&mut self.current_line, c);
            self.cursor_x = self.cursor_x + 8;
        }
    }
}

} // verus!
