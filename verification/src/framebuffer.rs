//! A text console on a surface of pixels, with a splash screen before it and
//! a terminal after it.
use vstd::prelude::*;
use vstd::string::StringSliceAdditionalSpecFns;
use crate::console::Color;
use crate::fb_font::{GLYPH_HEIGHT, GLYPH_WIDTH};
use crate::gfx::{glyph_ink, rect_ink, Framebuffer, Image, PixelFormat, Rect};

verus! {

/// Pixels of a character cell.
pub const CHAR_W: usize = GLYPH_WIDTH;
pub const CHAR_H: usize = GLYPH_HEIGHT;
/// Columns from one tab stop to the next.
pub const TAB_STOP: usize = 8;
/// The size of the splash screen, in the middle of the surface.
pub const SPLASH_WIDTH: usize = 640;
pub const SPLASH_HEIGHT: usize = 480;
/// The progress bar on it: place, size, and the room inside its frame.
pub const BAR_LEFT: usize = 58;
pub const BAR_TOP: usize = 378;
pub const BAR_WIDTH: usize = 220;
pub const BAR_HEIGHT: usize = 10;
pub const BAR_ROOM: usize = 218;
pub const BAR_INNER_HEIGHT: usize = 8;
pub const BAR_FRAME_SHADE: u8 = 0x9a;
pub const BAR_EMPTY_SHADE: u8 = 0x1a;
pub const BAR_FULL_SHADE: u8 = 0xee;
/// Drawn for a character that is not ASCII.
pub const UNKNOWN: u8 = 0x3F;

/// Something for the terminal to do.
#[derive(Debug)]
pub enum TerminalAction {
    /// Clear everything.
    Reset,
    /// Take these bytes.
    Write(Vec<u8>),
    /// Draw everything again.
    RedrawAll,
}

/// Something for the terminal to do.
#[verifier::ext_equal]
pub enum TerminalCall {
    Reset,
    Write(Seq<u8>),
    RedrawAll,
}

impl View for TerminalAction {
    type V = TerminalCall;

    open spec fn view(&self) -> TerminalCall {
        match self {
            TerminalAction::Reset => TerminalCall::Reset,
            TerminalAction::Write(bytes) => TerminalCall::Write(bytes@),
            TerminalAction::RedrawAll => TerminalCall::RedrawAll,
        }
    }
}

/// What the terminal is to do, in order.
pub open spec fn calls(actions: Seq<TerminalAction>) -> Seq<TerminalCall> {
    actions.map_values(|action: TerminalAction| action@)
}

/// The surface as it is lent to a program.
#[derive(Clone, Copy, Debug, PartialEq, Eq, Structural)]
pub struct Scanout {
    pub pitch: usize,
    pub width: u16,
    pub height: u16,
    pub format: PixelFormat,
}

/// What a console is and shows.
#[verifier::ext_equal]
pub struct Screen {
    pub image: Image,
    /// There is a surface.
    pub attached: bool,
    pub format: PixelFormat,
    pub cols: int,
    pub rows: int,
    /// Where the next character goes.
    pub col: int,
    pub row: int,
    pub fg: Color,
    pub bg: Color,
    /// A terminal has taken over.
    pub terminal: bool,
    /// The splash screen is on.
    pub splash: bool,
    /// A program has the surface.
    pub suspended: bool,
    /// Everything is to be drawn again.
    pub redraw: bool,
}

/// A pixel of a console's colour.
pub open spec fn pixel_of(format: PixelFormat, c: Color) -> u32 {
    format.pixel(c.shade().0, c.shade().1, c.shade().2)
}

/// The byte that is drawn for a character.
pub open spec fn byte_for(ch: char) -> u8 {
    if (ch as u32) < 128 {
        (ch as u32) as u8
    } else {
        UNKNOWN
    }
}

/// A text grid moved up by one row, its last row empty.
pub open spec fn scrolled(image: Image, cols: int, rows: int, background: u32) -> Image {
    Image {
        at: |x: int, y: int|
            if 0 <= x < cols * CHAR_W && 0 <= y < (rows - 1) * CHAR_H {
                (image.at)(x, y + CHAR_H)
            } else if 0 <= x < cols * CHAR_W && (rows - 1) * CHAR_H <= y < rows * CHAR_H {
                background
            } else {
                (image.at)(x, y)
            },
        ..image
    }
}

impl Screen {
    /// The text grid is what fits on the surface, and the next character goes
    /// into it.
    pub open spec fn wf(self) -> bool {
        &&& self.format.wf()
        &&& 0 <= self.image.width <= 0xffff
        &&& 0 <= self.image.height <= 0xffff
        &&& self.cols == self.image.width / (CHAR_W as int)
        &&& self.rows == self.image.height / (CHAR_H as int)
        &&& 0 <= self.col <= 0xffff
        &&& 0 <= self.row <= 0xffff
        &&& self.cols > 0 && self.rows > 0 ==> 0 <= self.col < self.cols && 0 <= self.row
            < self.rows
    }

    /// There is something to draw on.
    pub open spec fn drawable(self) -> bool {
        self.attached && self.cols > 0
    }

    /// A grid with columns has rows, so that a line can always end.
    pub open spec fn writable(self) -> bool {
        self.drawable() ==> self.rows > 0
    }

    /// Whether a character ends the line.
    pub open spec fn ends_line(self, ch: char) -> bool {
        ch == '\n' || (ch != '\r' && ch != '\t' && self.col + 1 >= self.cols)
    }

    /// Whether there is a line for what follows some characters, each time that
    /// one of them ends a line.
    pub open spec fn takes_all(self, chars: Seq<char>) -> bool
        decreases chars.len(),
    {
        chars.len() > 0 ==> {
            let before = self.written_all(chars.drop_last());
            &&& self.takes_all(chars.drop_last())
            &&& before.ends_line(chars.last()) ==> before.writable()
        }
    }

    /// Whether some characters can be written: a terminal and a splash screen
    /// take any.
    pub open spec fn takes_text(self, chars: Seq<char>) -> bool {
        self.writable() || self.terminal || self.splash || self.redrawn().1.takes_all(chars)
    }

    /// Whether the cell of the next character is on the surface.
    pub open spec fn has_cell(self) -> bool {
        self.col * CHAR_W + CHAR_W <= self.image.width && self.row * CHAR_H + CHAR_H
            <= self.image.height
    }

    /// With the cell of the next character in one colour, where it is on the
    /// surface.
    pub open spec fn with_cell(self, c: Color) -> Screen {
        if self.has_cell() {
            Screen {
                image: self.image.inked(
                    rect_ink(
                        self.col * CHAR_W,
                        self.row * CHAR_H,
                        self.col * CHAR_W + CHAR_W,
                        self.row * CHAR_H + CHAR_H,
                        pixel_of(self.format, c),
                    ),
                ),
                ..self
            }
        } else {
            self
        }
    }

    /// With the cursor where the next character goes.
    pub open spec fn with_cursor(self) -> Screen {
        self.with_cell(self.fg)
    }

    /// With a character where the next one goes, where that is on the surface.
    pub open spec fn with_glyph(self, byte: u8) -> Screen {
        if self.has_cell() {
            Screen {
                image: self.image.inked(
                    glyph_ink(
                        self.col * CHAR_W,
                        self.row * CHAR_H,
                        byte,
                        pixel_of(self.format, self.fg),
                        pixel_of(self.format, self.bg),
                    ),
                ),
                ..self
            }
        } else {
            self
        }
    }

    /// At the start of the next line; the last line makes room.
    pub open spec fn on_next_line(self) -> Screen {
        if self.row + 1 < self.rows {
            Screen { col: 0, row: self.row + 1, ..self }
        } else {
            Screen {
                col: 0,
                row: self.rows - 1,
                image: scrolled(self.image, self.cols, self.rows, pixel_of(self.format, self.bg)),
                ..self
            }
        }
    }

    /// At the next tab stop, or in the last column.
    pub open spec fn on_tab_stop(self) -> Screen {
        let next = (self.col / (TAB_STOP as int) + 1) * TAB_STOP;
        Screen {
            col: if next >= self.cols {
                self.cols - 1
            } else {
                next
            },
            ..self
        }
    }

    /// After a character.
    pub open spec fn after_glyph(self) -> Screen {
        if self.col + 1 < self.cols {
            Screen { col: self.col + 1, ..self }
        } else {
            self.on_next_line()
        }
    }

    /// With one more character.
    pub open spec fn written(self, ch: char) -> Screen {
        if !self.drawable() {
            self
        } else if ch == '\n' {
            self.with_cell(self.bg).on_next_line().with_cursor()
        } else if ch == '\r' {
            Screen { col: 0, ..self.with_cell(self.bg) }.with_cursor()
        } else if ch == '\t' {
            self.with_cell(self.bg).on_tab_stop().with_cursor()
        } else {
            self.with_glyph(byte_for(ch)).after_glyph().with_cursor()
        }
    }

    /// With some more characters.
    pub open spec fn written_all(self, chars: Seq<char>) -> Screen
        decreases chars.len(),
    {
        if chars.len() == 0 {
            self
        } else {
            self.written_all(chars.drop_last()).written(chars.last())
        }
    }

    /// Empty, with the cursor in the first cell.
    pub open spec fn emptied(self) -> Screen {
        if !self.drawable() {
            self
        } else {
            Screen {
                image: self.image.inked(
                    |x: int, y: int| Some(pixel_of(self.format, self.bg)),
                ),
                col: 0,
                row: 0,
                ..self
            }.with_cursor()
        }
    }

    /// With what was still to be drawn again.
    pub open spec fn redrawn(self) -> (Seq<TerminalCall>, Screen) {
        if !self.redraw {
            (Seq::empty(), self)
        } else if self.terminal {
            (seq![TerminalCall::RedrawAll], Screen { redraw: false, ..self })
        } else {
            (Seq::empty(), Screen { redraw: false, ..self }.emptied())
        }
    }

    /// Hand bytes to the terminal, or draw characters where there is none.
    /// The first text for a terminal ends the splash screen; before there is
    /// one, the splash screen stays.
    pub open spec fn text_run(self, bytes: Seq<u8>, chars: Seq<char>) -> (
        Seq<TerminalCall>,
        Screen,
    ) {
        let (before, screen) = self.redrawn();
        if screen.terminal {
            (
                before + (if screen.splash {
                    seq![TerminalCall::Reset]
                } else {
                    Seq::empty()
                }) + seq![TerminalCall::Write(bytes)],
                Screen { splash: false, ..screen },
            )
        } else if screen.splash {
            (before, screen)
        } else {
            (before, screen.written_all(chars))
        }
    }

    /// Clear everything but a splash screen.
    pub open spec fn clear_run(self) -> (Seq<TerminalCall>, Screen) {
        let (before, screen) = self.redrawn();
        if screen.splash {
            (before, screen)
        } else if screen.terminal {
            (before + seq![TerminalCall::Reset], screen)
        } else {
            (before, screen.emptied())
        }
    }

    /// With the progress bar of the splash screen.
    pub open spec fn with_progress(self, percent: u8) -> Screen {
        if !self.splash || !self.attached || self.image.width < SPLASH_WIDTH || self.image.height
            < SPLASH_HEIGHT {
            self
        } else {
            let x = (self.image.width - SPLASH_WIDTH) / 2 + BAR_LEFT;
            let y = (self.image.height - SPLASH_HEIGHT) / 2 + BAR_TOP;
            let part = if percent < 100 {
                percent as int
            } else {
                100
            };
            let filled = BAR_ROOM * part / 100;
            let shade = |level: u8| self.format.pixel(level, level, level);
            let framed = self.image.inked(
                rect_ink(x, y, x + BAR_WIDTH, y + BAR_HEIGHT, shade(BAR_FRAME_SHADE)),
            );
            let hollow = framed.inked(
                rect_ink(
                    x + 1,
                    y + 1,
                    x + 1 + BAR_ROOM,
                    y + 1 + BAR_INNER_HEIGHT,
                    shade(BAR_EMPTY_SHADE),
                ),
            );
            Screen {
                image: hollow.inked(
                    rect_ink(
                        x + 1,
                        y + 1,
                        x + 1 + filled,
                        y + 1 + BAR_INNER_HEIGHT,
                        shade(BAR_FULL_SHADE),
                    ),
                ),
                ..self
            }
        }
    }
}

/// A console.
pub struct FramebufferConsole {
    pub surface: Framebuffer,
    pub attached: bool,
    pub format: PixelFormat,
    pub cols: usize,
    pub rows: usize,
    pub col: usize,
    pub row: usize,
    pub fg: Color,
    pub bg: Color,
    pub terminal: bool,
    pub splash: bool,
    pub suspended: bool,
    pub redraw: bool,
}

impl View for FramebufferConsole {
    type V = Screen;

    open spec fn view(&self) -> Screen {
        Screen {
            image: self.surface@,
            attached: self.attached,
            format: self.format,
            cols: self.cols as int,
            rows: self.rows as int,
            col: self.col as int,
            row: self.row as int,
            fg: self.fg,
            bg: self.bg,
            terminal: self.terminal,
            splash: self.splash,
            suspended: self.suspended,
            redraw: self.redraw,
        }
    }
}

fn rgb_of(format: PixelFormat, c: Color) -> (pixel: u32)
    requires
        format.wf(),
    ensures
        pixel == pixel_of(format, c),
{
    let (r, g, b): (u8, u8, u8) = c.rgb();
    format.pack_rgb(r, g, b)
}

impl FramebufferConsole {
    pub open spec fn wf(self) -> bool {
        self.surface.wf() && self@.wf()
    }

    /// A console without a surface.
    pub fn uninit() -> (console: Self)
        ensures
            console.wf(),
            console@.writable(),
            !console@.attached,
            console@.col == 0,
            console@.row == 0,
            console@.fg == Color::LightGray,
            console@.bg == Color::Black,
            !console@.terminal,
            !console@.splash,
            !console@.suspended,
            !console@.redraw,
    {
        FramebufferConsole {
            surface: Framebuffer::new(Vec::new(), 0, 0, 0),
            attached: false,
            format: PixelFormat::xrgb8888(),
            cols: 0,
            rows: 0,
            col: 0,
            row: 0,
            fg: Color::LightGray,
            bg: Color::Black,
            terminal: false,
            splash: false,
            suspended: false,
            redraw: false,
        }
    }

    fn fill_cell(&mut self, c: Color)
        requires
            old(self).wf(),
        ensures
            final(self).wf(),
            final(self)@ == old(self)@.with_cell(c),
    {
        let x: i64 = (self.col * CHAR_W) as i64;
        let y: i64 = (self.row * CHAR_H) as i64;
        if x + CHAR_W as i64 > self.surface.width() as i64 || y + CHAR_H as i64
            > self.surface.height() as i64 {
            return ;
        }
        self.surface.fill_region(
            x,
            y,
            x + CHAR_W as i64,
            y + CHAR_H as i64,
            rgb_of(self.format, c),
        );
    }

    fn draw_glyph(&mut self, byte: u8)
        requires
            old(self).wf(),
        ensures
            final(self).wf(),
            final(self)@ == old(self)@.with_glyph(byte),
    {
        let x: i64 = (self.col * CHAR_W) as i64;
        let y: i64 = (self.row * CHAR_H) as i64;
        if x + CHAR_W as i64 > self.surface.width() as i64 || y + CHAR_H as i64
            > self.surface.height() as i64 {
            return ;
        }
        self.surface.draw_cell(
            x,
            y,
            byte,
            rgb_of(self.format, self.fg),
            rgb_of(self.format, self.bg),
        );
    }

    fn draw_cursor(&mut self)
        requires
            old(self).wf(),
        ensures
            final(self).wf(),
            final(self)@ == old(self)@.with_cursor(),
    {
        self.fill_cell(self.fg);
    }

    /// Move the text grid up by one row, and empty its last row.
    fn scroll_up(&mut self)
        requires
            old(self).wf(),
            old(self)@.cols > 0,
            old(self)@.rows > 0,
        ensures
            final(self).wf(),
            final(self)@ == (Screen {
                image: scrolled(
                    old(self)@.image,
                    old(self)@.cols,
                    old(self)@.rows,
                    pixel_of(old(self)@.format, old(self)@.bg),
                ),
                ..old(self)@
            }),
    {
        let width: i32 = (self.cols * CHAR_W) as i32;
        let height: i32 = ((self.rows - 1) * CHAR_H) as i32;
        let background: u32 = rgb_of(self.format, self.bg);
        let ghost start = self.surface@;
        self.surface.blit(Rect::new(0, CHAR_H as i32, width, height), 0, 0);
        self.surface.fill_region(
            0,
            height as i64,
            width as i64,
            height as i64 + CHAR_H as i64,
            background,
        );
        assert(self.surface@.at =~= scrolled(
            start,
            self.cols as int,
            self.rows as int,
            background,
        ).at);
    }

    fn next_line(&mut self)
        requires
            old(self).wf(),
            old(self)@.cols > 0,
            old(self)@.rows > 0,
        ensures
            final(self).wf(),
            final(self)@ == old(self)@.on_next_line(),
    {
        self.col = 0;
        if self.row + 1 < self.rows {
            self.row = self.row + 1;
        } else {
            self.row = self.rows - 1;
            self.scroll_up();
        }
    }

    fn next_tab_stop(&mut self)
        requires
            old(self).wf(),
            old(self)@.cols > 0,
        ensures
            final(self).wf(),
            final(self)@ == old(self)@.on_tab_stop(),
    {
        let next: usize = (self.col / TAB_STOP + 1) * TAB_STOP;
        self.col = if next >= self.cols {
            self.cols - 1
        } else {
            next
        };
    }

    fn next_cell(&mut self)
        requires
            old(self).wf(),
            old(self)@.cols > 0,
            old(self)@.col + 1 >= old(self)@.cols ==> old(self)@.rows > 0,
        ensures
            final(self).wf(),
            final(self)@ == old(self)@.after_glyph(),
    {
        if self.col + 1 < self.cols {
            self.col = self.col + 1;
        } else {
            self.next_line();
        }
    }

    /// Draw one character, where no terminal does.
    pub fn write_char_early(&mut self, ch: char)
        requires
            old(self).wf(),
            old(self)@.ends_line(ch) ==> old(self)@.writable(),
        ensures
            final(self).wf(),
            final(self)@ == old(self)@.written(ch),
    {
        if self.cols == 0 || !self.attached {
            return ;
        }
        if ch == '\n' {
            self.fill_cell(self.bg);
            self.next_line();
            self.draw_cursor();
        } else if ch == '\r' {
            self.fill_cell(self.bg);
            self.col = 0;
            self.draw_cursor();
        } else if ch == '\t' {
            self.fill_cell(self.bg);
            self.next_tab_stop();
            self.draw_cursor();
        } else {
            let code: u32 = ch as u32;
            let byte: u8 = if code < 128 {
                code as u8
            } else {
                UNKNOWN
            };
            self.draw_glyph(byte);
            self.next_cell();
            self.draw_cursor();
        }
    }

    /// Empty the surface, where no terminal does.
    fn clear_early_surface(&mut self)
        requires
            old(self).wf(),
        ensures
            final(self).wf(),
            final(self)@ == old(self)@.emptied(),
    {
        if self.cols == 0 || !self.attached {
            return ;
        }
        let background: u32 = rgb_of(self.format, self.bg);
        let ghost start = self.surface@;
        let width: i64 = self.surface.width() as i64;
        let height: i64 = self.surface.height() as i64;
        self.surface.fill_region(0, 0, width, height, background);
        assert(self.surface@.at =~= start.inked(|x: int, y: int| Some(background)).at);
        self.col = 0;
        self.row = 0;
        self.draw_cursor();
    }

    /// Draw again what is still to be drawn again.
    fn finish_pending_redraw(&mut self, actions: &mut Vec<TerminalAction>)
        requires
            old(self).wf(),
        ensures
            final(self).wf(),
            final(self)@ == old(self)@.redrawn().1,
            calls(final(actions)@) == calls(old(actions)@) + old(self)@.redrawn().0,
    {
        if !self.redraw {
            assert(calls(actions@) =~= calls(old(actions)@) + old(self)@.redrawn().0);
            return ;
        }
        self.redraw = false;
        if self.terminal {
            actions.push(TerminalAction::RedrawAll);
        } else {
            self.clear_early_surface();
        }
        assert(calls(actions@) =~= calls(old(actions)@) + old(self)@.redrawn().0);
    }

    /// Write a text: what the terminal is to do, where there is one.
    pub fn write_str(&mut self, text: &str) -> (actions: Vec<TerminalAction>)
        requires
            old(self).wf(),
            old(self)@.takes_text(text@),
        ensures
            final(self).wf(),
            old(self)@.writable() ==> final(self)@.writable(),
            (calls(actions@), final(self)@) == old(self)@.text_run(text.spec_bytes(), text@),
    {
        let mut actions: Vec<TerminalAction> = Vec::new();
        assert(calls(actions@) =~= Seq::<TerminalCall>::empty());
        self.finish_pending_redraw(&mut actions);
        let ghost redrawn = self@;
        let ghost before = calls(actions@);
        if self.terminal {
            if self.splash {
                self.splash = false;
                actions.push(TerminalAction::Reset);
            }
            actions.push(TerminalAction::Write(text.as_bytes_vec()));
            assert(calls(actions@) =~= old(self)@.text_run(text.spec_bytes(), text@).0);
        } else if !self.splash {
            let count: usize = text.unicode_len();
            let mut i: usize = 0;
            proof {
                assert(text@.take(0) =~= Seq::<char>::empty());
                assert(text@.take(text@.len() as int) =~= text@);
                if redrawn.writable() {
                    lemma_rows_take_any_text(redrawn, text@);
                }
            }
            while i < count
                invariant
                    i <= count,
                    count == text@.len(),
                    self.wf(),
                    old(self)@.writable() ==> self@.writable(),
                    redrawn.takes_all(text@),
                    self@ == redrawn.written_all(text@.take(i as int)),
                decreases count - i,
            {
                proof {
                    lemma_prefix_is_taken(redrawn, text@, i + 1);
                    assert(text@.take(i + 1).drop_last() =~= text@.take(i as int));
                }
                self.write_char_early(text.get_char(i));
                i = i + 1;
            }
            assert(text@.take(i as int) =~= text@);
        }
        assert(calls(actions@) =~= old(self)@.text_run(text.spec_bytes(), text@).0);
        actions
    }

    /// Write one character: what the terminal is to do, where there is one.
    pub fn write_char(&mut self, ch: char) -> (actions: Vec<TerminalAction>)
        requires
            old(self).wf(),
            old(self)@.takes_text(seq![ch]),
        ensures
            final(self).wf(),
            old(self)@.writable() ==> final(self)@.writable(),
            (calls(actions@), final(self)@) == old(self)@.text_run(seq![byte_for(ch)], seq![ch]),
    {
        let code: u32 = ch as u32;
        let byte: u8 = if code < 128 {
            code as u8
        } else {
            UNKNOWN
        };
        let mut actions: Vec<TerminalAction> = Vec::new();
        assert(calls(actions@) =~= Seq::<TerminalCall>::empty());
        self.finish_pending_redraw(&mut actions);
        let ghost redrawn = self@;
        if self.terminal {
            if self.splash {
                self.splash = false;
                actions.push(TerminalAction::Reset);
            }
            let mut bytes: Vec<u8> = Vec::new();
            bytes.push(byte);
            assert(bytes@ =~= seq![byte]);
            actions.push(TerminalAction::Write(bytes));
        } else if !self.splash {
            proof {
                assert(seq![ch].drop_last() =~= Seq::<char>::empty());
                reveal_with_fuel(Screen::takes_all, 2);
            }
            self.write_char_early(ch);
            proof {
                assert(redrawn.written_all(seq![ch].drop_last()) == redrawn);
                assert(redrawn.written_all(seq![ch]) == redrawn.written(ch));
            }
        }
        assert(calls(actions@) =~= old(self)@.text_run(seq![byte_for(ch)], seq![ch]).0);
        actions
    }

    /// Clear everything but a splash screen: what the terminal is to do, where
    /// there is one.
    pub fn clear(&mut self) -> (actions: Vec<TerminalAction>)
        requires
            old(self).wf(),
        ensures
            final(self).wf(),
            (calls(actions@), final(self)@) == old(self)@.clear_run(),
    {
        let mut actions: Vec<TerminalAction> = Vec::new();
        assert(calls(actions@) =~= Seq::<TerminalCall>::empty());
        self.finish_pending_redraw(&mut actions);
        if !self.splash {
            if self.terminal {
                actions.push(TerminalAction::Reset);
            } else {
                self.clear_early_surface();
            }
        }
        assert(calls(actions@) =~= old(self)@.clear_run().0);
        actions
    }

    /// Choose the colours of what is written from now on.
    pub fn set_color(&mut self, fg: Color, bg: Color)
        requires
            old(self).wf(),
        ensures
            final(self).wf(),
            final(self)@ == (Screen { fg, bg, ..old(self)@ }),
    {
        self.fg = fg;
        self.bg = bg;
    }

    /// How a terminal is to be opened: not at all without a text grid; else
    /// whether it keeps what is on the surface.
    pub fn terminal_mode(&self) -> (preserving: Option<bool>)
        ensures
            preserving == (if !self@.attached || self@.cols == 0 || self@.rows == 0 {
                None
            } else {
                Some(self@.splash)
            }),
    {
        if !self.attached || self.cols == 0 || self.rows == 0 {
            return None;
        }
        Some(self.splash)
    }
}

/// Give a console its surface.
pub fn init_in_place(
    console: &mut FramebufferConsole,
    buffer: Vec<u32>,
    pitch: u16,
    width: u16,
    height: u16,
    format: PixelFormat,
    preserve_splash: bool,
) -> (actions: Vec<TerminalAction>)
    requires
        pitch % 4 == 0,
        4 * width <= pitch,
        buffer@.len() == height * (pitch / 4),
        format.wf(),
        old(console)@.col == 0,
        old(console)@.row == 0,
    ensures
        final(console).wf(),
        ({
            let stride = pitch as int / 4;
            let fresh = Screen {
                image: Image {
                    width: width as int,
                    height: height as int,
                    stride,
                    at: |x: int, y: int|
                        if 0 <= x < stride && 0 <= y < height {
                            buffer@[y * stride + x]
                        } else {
                            0
                        },
                },
                attached: true,
                format,
                cols: width as int / CHAR_W as int,
                rows: height as int / CHAR_H as int,
                splash: preserve_splash,
                suspended: false,
                redraw: false,
                ..old(console)@
            };
            if preserve_splash {
                final(console)@ == fresh && calls(actions@) == Seq::<TerminalCall>::empty()
            } else {
                (calls(actions@), final(console)@) == fresh.clear_run()
            }
        }),
{
    let ghost pixels = buffer@;
    console.surface = Framebuffer::new(buffer, pitch as usize, width, height);
    console.attached = true;
    console.format = format;
    console.cols = width as usize / CHAR_W;
    console.rows = height as usize / CHAR_H;
    console.splash = preserve_splash;
    console.suspended = false;
    console.redraw = false;
    proof {
        let stride = pitch as int / 4;
        assert(console.surface@.at =~= |x: int, y: int|
            if 0 <= x < stride && 0 <= y < height {
                pixels[y * stride + x]
            } else {
                0
            });
    }
    if !preserve_splash {
        console.clear()
    } else {
        let actions: Vec<TerminalAction> = Vec::new();
        assert(calls(actions@) =~= Seq::<TerminalCall>::empty());
        actions
    }
}

/// Let a terminal take over, once it was opened; where it could not be, a
/// splash screen ends.
pub fn upgrade_terminal(console: &mut FramebufferConsole, opened: bool) -> (upgraded: bool)
    requires
        old(console).wf(),
    ensures
        final(console).wf(),
        ({
            let screen = old(console)@;
            let usable = screen.attached && screen.cols > 0 && screen.rows > 0;
            &&& upgraded == (usable && opened)
            &&& final(console)@ == (if !usable {
                screen
            } else if opened {
                Screen { terminal: true, ..screen }
            } else if screen.splash {
                Screen { splash: false, ..screen }.emptied()
            } else {
                screen
            })
        }),
{
    match console.terminal_mode() {
        None => {
            return false;
        },
        Some(preserving) => {
            if !opened {
                if preserving {
                    console.splash = false;
                    console.clear_early_surface();
                }
                return false;
            }
        },
    }
    console.terminal = true;
    true
}

/// Whether the splash screen is on.
pub fn splash_active(console: &FramebufferConsole) -> (active: bool)
    ensures
        active == console@.splash,
{
    console.splash
}

/// Lend the surface to a program; there must be a terminal to give it back to.
pub fn suspend_for_userspace(console: &mut FramebufferConsole) -> (scanout: Option<Scanout>)
    requires
        old(console).wf(),
    ensures
        final(console).wf(),
        ({
            let screen = old(console)@;
            if !screen.attached || screen.cols == 0 || screen.rows == 0 || !screen.terminal
                || screen.suspended {
                scanout is None && final(console)@ == screen
            } else {
                &&& scanout is Some
                &&& scanout->0.pitch == 4 * screen.image.stride
                &&& scanout->0.width == screen.image.width
                &&& scanout->0.height == screen.image.height
                &&& scanout->0.format == screen.format
                &&& final(console)@ == (Screen {
                    suspended: true,
                    redraw: false,
                    splash: false,
                    ..screen
                })
            }
        }),
{
    if !console.attached || console.cols == 0 || console.rows == 0 || !console.terminal
        || console.suspended {
        return None;
    }
    console.suspended = true;
    console.redraw = false;
    console.splash = false;
    Some(
        Scanout {
            pitch: console.surface.pitch(),
            width: console.surface.width() as u16,
            height: console.surface.height() as u16,
            format: console.format,
        },
    )
}

/// Take the surface back from a program, and draw everything again.
pub fn resume_from_userspace(console: &mut FramebufferConsole) -> (actions: Vec<TerminalAction>)
    requires
        old(console).wf(),
    ensures
        final(console).wf(),
        (calls(actions@), final(console)@) == (if !old(console)@.suspended {
            (Seq::<TerminalCall>::empty(), old(console)@)
        } else {
            Screen { suspended: false, redraw: true, ..old(console)@ }.redrawn()
        }),
{
    let mut actions: Vec<TerminalAction> = Vec::new();
    assert(calls(actions@) =~= Seq::<TerminalCall>::empty());
    if !console.suspended {
        return actions;
    }
    console.redraw = true;
    console.suspended = false;
    let ghost pending = console@;
    console.finish_pending_redraw(&mut actions);
    assert(calls(actions@) =~= pending.redrawn().0);
    actions
}

/// Whether a program has the surface.
pub fn userspace_suspended(console: &FramebufferConsole) -> (suspended: bool)
    ensures
        suspended == console@.suspended,
{
    console.suspended
}

/// Draw the progress bar of the splash screen.
pub fn splash_progress(console: &mut FramebufferConsole, percent: u8)
    requires
        old(console).wf(),
    ensures
        final(console).wf(),
        final(console)@ == old(console)@.with_progress(percent),
{
    if !console.splash {
        return ;
    }
    let width: usize = console.surface.width() as usize;
    let height: usize = console.surface.height() as usize;
    if !console.attached || width < SPLASH_WIDTH || height < SPLASH_HEIGHT {
        return ;
    }
    let x: i64 = ((width - SPLASH_WIDTH) / 2 + BAR_LEFT) as i64;
    let y: i64 = ((height - SPLASH_HEIGHT) / 2 + BAR_TOP) as i64;
    let part: usize = if percent < 100 {
        percent as usize
    } else {
        100
    };
    let filled: usize = BAR_ROOM * part / 100;
    let frame: u32 = console.format.pack_rgb(BAR_FRAME_SHADE, BAR_FRAME_SHADE, BAR_FRAME_SHADE);
    let empty: u32 = console.format.pack_rgb(BAR_EMPTY_SHADE, BAR_EMPTY_SHADE, BAR_EMPTY_SHADE);
    let full: u32 = console.format.pack_rgb(BAR_FULL_SHADE, BAR_FULL_SHADE, BAR_FULL_SHADE);
    let bottom: i64 = y + 1 + BAR_INNER_HEIGHT as i64;
    console.surface.fill_region(x, y, x + BAR_WIDTH as i64, y + BAR_HEIGHT as i64, frame);
    console.surface.fill_region(x + 1, y + 1, x + 1 + BAR_ROOM as i64, bottom, empty);
    console.surface.fill_region(x + 1, y + 1, x + 1 + filled as i64, bottom, full);
}

/// End the splash screen, and show an empty console.
pub fn dismiss_splash(console: &mut FramebufferConsole) -> (actions: Vec<TerminalAction>)
    requires
        old(console).wf(),
    ensures
        final(console).wf(),
        ({
            let ended = Screen { splash: false, ..old(console)@ };
            (calls(actions@), final(console)@) == (if !old(console)@.splash {
                (Seq::<TerminalCall>::empty(), old(console)@)
            } else if ended.terminal {
                (seq![TerminalCall::Reset], ended)
            } else {
                (Seq::empty(), ended.emptied())
            })
        }),
{
    let mut actions: Vec<TerminalAction> = Vec::new();
    assert(calls(actions@) =~= Seq::<TerminalCall>::empty());
    if console.splash {
        console.splash = false;
        if console.terminal {
            actions.push(TerminalAction::Reset);
            assert(calls(actions@) =~= seq![TerminalCall::Reset]);
        } else {
            console.clear_early_surface();
        }
    }
    actions
}

proof fn lemma_prefix_is_taken(screen: Screen, chars: Seq<char>, count: int)
    requires
        screen.takes_all(chars),
        0 <= count <= chars.len(),
    ensures
        screen.takes_all(chars.take(count)),
    decreases chars.len(),
{
    if count == chars.len() {
        assert(chars.take(count) =~= chars);
    } else {
        lemma_prefix_is_taken(screen, chars.drop_last(), count);
        assert(chars.drop_last().take(count) =~= chars.take(count));
    }
}

/// A grid with rows takes any text.
pub proof fn lemma_rows_take_any_text(screen: Screen, chars: Seq<char>)
    requires
        screen.writable(),
    ensures
        screen.takes_all(chars),
        screen.written_all(chars).writable(),
        screen.written_all(chars).cols == screen.cols,
        screen.written_all(chars).rows == screen.rows,
        screen.written_all(chars).attached == screen.attached,
    decreases chars.len(),
{
    if chars.len() > 0 {
        lemma_rows_take_any_text(screen, chars.drop_last());
    }
}

/// Writing never leaves the text grid.
pub proof fn lemma_writing_stays_in_the_grid(screen: Screen, chars: Seq<char>)
    requires
        screen.wf(),
        screen.takes_all(chars),
    ensures
        screen.written_all(chars).wf(),
        screen.written_all(chars).cols == screen.cols,
        screen.written_all(chars).rows == screen.rows,
        screen.written_all(chars).attached == screen.attached,
    decreases chars.len(),
{
    if chars.len() > 0 {
        lemma_writing_stays_in_the_grid(screen, chars.drop_last());
    }
}

/// A program that gives the surface back gets everything drawn again, and the
/// surface can then be lent once more.
pub proof fn lemma_lending_ends(screen: Screen)
    requires
        screen.terminal,
        screen.suspended,
    ensures
        ({
            let (calls, after) = Screen { suspended: false, redraw: true, ..screen }.redrawn();
            &&& calls == seq![TerminalCall::RedrawAll]
            &&& after == (Screen { suspended: false, redraw: false, ..screen })
        }),
{
}

} // verus!
