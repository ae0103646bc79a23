//! Drawing on a surface of 32-bit pixels.
use vstd::prelude::*;
use vstd::string::StringSliceAdditionalSpecFns;
use crate::console;
use crate::fb_font;
use crate::fb_font::{bit_on, glyph_row, GLYPH_HEIGHT, GLYPH_WIDTH};

verus! {

/// A colour as a pixel holds it: red, green and blue from the top, under a
/// byte of zeros.
#[derive(Clone, Copy, Debug, PartialEq, Eq, Hash, Structural)]
pub struct Color(pub u32);

/// Red, green and blue in one word.
pub open spec fn packed(r: u8, g: u8, b: u8) -> u32 {
    ((r as u32) << 16) | ((g as u32) << 8) | (b as u32)
}

impl Color {
    pub fn new(r: u8, g: u8, b: u8) -> (color: Self)
        ensures
            color.0 == packed(r, g, b),
    {
        Color(((r as u32) << 16) | ((g as u32) << 8) | (b as u32))
    }

    /// A colour out of a word whose top byte does not count.
    pub fn from_rgb24(rgb: u32) -> (color: Self)
        ensures
            color.0 == rgb & 0x00FF_FFFF,
    {
        Color(rgb & 0x00FF_FFFF)
    }

    pub fn to_u32(self) -> (word: u32)
        ensures
            word == self.0,
    {
        self.0
    }

    pub fn r(self) -> (red: u8)
        ensures
            red == (self.0 >> 16) as u8,
    {
        (self.0 >> 16) as u8
    }

    pub fn g(self) -> (green: u8)
        ensures
            green == (self.0 >> 8) as u8,
    {
        (self.0 >> 8) as u8
    }

    pub fn b(self) -> (blue: u8)
        ensures
            blue == self.0 as u8,
    {
        self.0 as u8
    }

    /// A colour of the text console.
    pub fn from_console(c: console::Color) -> (color: Self)
        ensures
            color.0 == packed(c.shade().0, c.shade().1, c.shade().2),
    {
        let (r, g, b): (u8, u8, u8) = c.rgb();
        Color::new(r, g, b)
    }
}

/// The parts of a colour can be read back, and nothing else is in it.
pub proof fn lemma_color_parts(r: u8, g: u8, b: u8)
    ensures
        (packed(r, g, b) >> 16) as u8 == r,
        (packed(r, g, b) >> 8) as u8 == g,
        packed(r, g, b) as u8 == b,
        packed(r, g, b) & 0x00FF_FFFF == packed(r, g, b),
{
    let c = packed(r, g, b);
    assert((c >> 16) as u8 == r && (c >> 8) as u8 == g && c as u8 == b && c & 0x00FF_FFFF == c)
        by (bit_vector)
        requires
            c == ((r as u32) << 16) | ((g as u32) << 8) | (b as u32),
    ;
}

/// Where the three parts of a colour stand in a pixel, in bits.
#[derive(Clone, Copy, Debug, PartialEq, Eq, Structural)]
pub struct PixelFormat {
    pub red: u8,
    pub green: u8,
    pub blue: u8,
}

impl PixelFormat {
    /// Every part stands inside the pixel.
    pub open spec fn wf(self) -> bool {
        self.red <= 24 && self.green <= 24 && self.blue <= 24
    }

    /// A pixel of a colour.
    pub open spec fn pixel(self, r: u8, g: u8, b: u8) -> u32 {
        ((r as u32) << (self.red as u32)) | ((g as u32) << (self.green as u32)) | ((b as u32) << (
        self.blue as u32))
    }

    /// Red, green and blue from the top, under eight bits that do not count.
    pub fn xrgb8888() -> (format: Self)
        ensures
            format == (PixelFormat { red: 16, green: 8, blue: 0 }),
            format.wf(),
    {
        PixelFormat { red: 16, green: 8, blue: 0 }
    }

    /// A pixel of a colour.
    pub fn pack_rgb(self, r: u8, g: u8, b: u8) -> (pixel: u32)
        requires
            self.wf(),
        ensures
            pixel == self.pixel(r, g, b),
    {
        ((r as u32) << (self.red as u32)) | ((g as u32) << (self.green as u32)) | ((b as u32) << (
        self.blue as u32))
    }
}

/// A rectangle.
#[derive(Clone, Copy, Debug, PartialEq, Eq, Structural)]
pub struct Rect {
    pub x: i32,
    pub y: i32,
    pub w: i32,
    pub h: i32,
}

impl Rect {
    /// Whether a point is inside.
    pub open spec fn covers(self, px: int, py: int) -> bool {
        self.x <= px < self.x + self.w && self.y <= py < self.y + self.h
    }

    /// Whether both far edges are numbers.
    pub open spec fn has_edges(self) -> bool {
        i32::MIN <= self.x + self.w <= i32::MAX && i32::MIN <= self.y + self.h <= i32::MAX
    }

    pub fn new(x: i32, y: i32, w: i32, h: i32) -> (rect: Self)
        ensures
            rect == (Rect { x, y, w, h }),
    {
        Rect { x, y, w, h }
    }

    pub fn is_empty(self) -> (empty: bool)
        ensures
            empty == (self.w <= 0 || self.h <= 0),
    {
        self.w <= 0 || self.h <= 0
    }

    pub fn right(self) -> (edge: i32)
        requires
            self.has_edges(),
        ensures
            edge == self.x + self.w,
    {
        self.x + self.w
    }

    pub fn bottom(self) -> (edge: i32)
        requires
            self.has_edges(),
        ensures
            edge == self.y + self.h,
    {
        self.y + self.h
    }

    pub fn contains(self, px: i32, py: i32) -> (inside: bool)
        requires
            self.has_edges(),
        ensures
            inside == self.covers(px as int, py as int),
    {
        px >= self.x && px < self.right() && py >= self.y && py < self.bottom()
    }

    /// The part that two rectangles share.
    pub open spec fn shared(self, other: Rect) -> (int, int, int, int) {
        let x = if self.x > other.x {
            self.x
        } else {
            other.x
        };
        let y = if self.y > other.y {
            self.y
        } else {
            other.y
        };
        let right = if self.x + self.w < other.x + other.w {
            self.x + self.w
        } else {
            other.x + other.w
        };
        let bottom = if self.y + self.h < other.y + other.h {
            self.y + self.h
        } else {
            other.y + other.h
        };
        (x as int, y as int, right - x, bottom - y)
    }

    /// The part that two rectangles share; empty where they share nothing.
    pub fn intersect(self, other: Rect) -> (rect: Rect)
        requires
            self.has_edges(),
            other.has_edges(),
            i32::MIN <= self.shared(other).2 <= i32::MAX,
            i32::MIN <= self.shared(other).3 <= i32::MAX,
        ensures
            (rect.x as int, rect.y as int, rect.w as int, rect.h as int) == self.shared(other),
    {
        let x: i32 = if self.x > other.x {
            self.x
        } else {
            other.x
        };
        let y: i32 = if self.y > other.y {
            self.y
        } else {
            other.y
        };
        let right: i32 = if self.right() < other.right() {
            self.right()
        } else {
            other.right()
        };
        let bottom: i32 = if self.bottom() < other.bottom() {
            self.bottom()
        } else {
            other.bottom()
        };
        Rect::new(x, y, right - x, bottom - y)
    }
}

/// A point is in the part that two rectangles share just where it is in both.
pub proof fn lemma_shared_part(a: Rect, b: Rect, px: int, py: int)
    ensures
        ({
            let (x, y, w, h) = a.shared(b);
            (x <= px < x + w && y <= py < y + h) == (a.covers(px, py) && b.covers(px, py))
        }),
{
}

/// What a surface shows.
#[verifier::ext_equal]
pub struct Image {
    pub width: int,
    pub height: int,
    /// Pixels from one row to the next.
    pub stride: int,
    /// All pixels, those that are not shown too.
    pub at: spec_fn(int, int) -> u32,
}

/// One colour over a region, from the first corner up to the second.
pub open spec fn rect_ink(x0: int, y0: int, x1: int, y1: int, c: u32) -> spec_fn(
    int,
    int,
) -> Option<u32> {
    |x: int, y: int|
        if x0 <= x < x1 && y0 <= y < y1 {
            Some(c)
        } else {
            None
        }
}

/// A glyph with its background.
pub open spec fn glyph_ink(left: int, top: int, ch: u8, fg: u32, bg: u32) -> spec_fn(
    int,
    int,
) -> Option<u32> {
    |x: int, y: int|
        if left <= x < left + GLYPH_WIDTH && top <= y < top + GLYPH_HEIGHT {
            Some(
                if bit_on(glyph_row(ch, y - top), x - left) {
                    fg
                } else {
                    bg
                },
            )
        } else {
            None
        }
}

/// Forwards or backwards.
pub open spec fn direction(from: int, to: int) -> int {
    if from < to {
        1
    } else {
        -1
    }
}

pub open spec fn distance(from: int, to: int) -> int {
    if from < to {
        to - from
    } else {
        from - to
    }
}

/// The step along the short side that is nearest to a step along the long
/// side; of two that are as near the farther one.
pub open spec fn nearest_step(short: int, long: int, step: int) -> int {
    if long == 0 {
        0
    } else {
        (2 * (short * step) + long) / (2 * long)
    }
}

/// Whether a step is on a line: along its longer side every step is, and the
/// other side follows as near as it can.
pub open spec fn on_line(dx: int, dy: int, i: int, j: int) -> bool {
    if dx >= dy {
        0 <= i <= dx && j == nearest_step(dy, dx, i)
    } else {
        0 <= j <= dy && i == nearest_step(dx, dy, j)
    }
}

/// The number of a step, along the longer side.
spec fn step_number(dx: int, dy: int, i: int, j: int) -> int {
    if dx >= dy {
        i
    } else {
        j
    }
}

/// One colour along a line.
pub open spec fn line_ink(x0: int, y0: int, x1: int, y1: int, c: u32) -> spec_fn(
    int,
    int,
) -> Option<u32> {
    |x: int, y: int|
        if on_line(
            distance(x0, x1),
            distance(y0, y1),
            (x - x0) * direction(x0, x1),
            (y - y0) * direction(y0, y1),
        ) {
            Some(c)
        } else {
            None
        }
}

/// One colour along a line, up to a number of steps.
spec fn partial_line_ink(x0: int, y0: int, x1: int, y1: int, c: u32, steps: int) -> spec_fn(
    int,
    int,
) -> Option<u32> {
    |x: int, y: int|
        {
            let dx = distance(x0, x1);
            let dy = distance(y0, y1);
            let i = (x - x0) * direction(x0, x1);
            let j = (y - y0) * direction(y0, y1);
            if on_line(dx, dy, i, j) && step_number(dx, dy, i, j) < steps {
                Some(c)
            } else {
                None
            }
        }
}

/// A number, no larger than the largest coordinate.
pub open spec fn capped(value: int) -> int {
    if value > i32::MAX {
        i32::MAX as int
    } else {
        value
    }
}

pub const LINE_FEED: u8 = 0x0A;
pub const CARRIAGE_RETURN: u8 = 0x0D;

/// Where the next character of a text goes.
pub open spec fn text_cursor(x: int, y: int, bytes: Seq<u8>) -> (int, int)
    decreases bytes.len(),
{
    if bytes.len() == 0 {
        (x, y)
    } else {
        let (cx, cy) = text_cursor(x, y, bytes.drop_last());
        if bytes.last() == LINE_FEED {
            (x, capped(cy + GLYPH_HEIGHT))
        } else if bytes.last() == CARRIAGE_RETURN {
            (x, cy)
        } else {
            (capped(cx + GLYPH_WIDTH), cy)
        }
    }
}

impl Image {
    /// Whether a pixel is shown.
    pub open spec fn visible(self, x: int, y: int) -> bool {
        0 <= x < self.width && 0 <= y < self.height
    }

    /// With ink over it, where it is shown.
    pub open spec fn inked(self, ink: spec_fn(int, int) -> Option<u32>) -> Image {
        Image {
            at: |x: int, y: int|
                if self.visible(x, y) && ink(x, y) is Some {
                    ink(x, y)->0
                } else {
                    (self.at)(x, y)
                },
            ..self
        }
    }

    /// With a text on it.
    pub open spec fn with_text(self, x: int, y: int, bytes: Seq<u8>, fg: u32, bg: u32) -> Image
        decreases bytes.len(),
    {
        if bytes.len() == 0 {
            self
        } else {
            let before = self.with_text(x, y, bytes.drop_last(), fg, bg);
            let (cx, cy) = text_cursor(x, y, bytes.drop_last());
            if bytes.last() == LINE_FEED || bytes.last() == CARRIAGE_RETURN {
                before
            } else {
                before.inked(glyph_ink(cx, cy, bytes.last(), fg, bg))
            }
        }
    }

    /// With some pixels of a row copied over others.
    pub open spec fn row_copied(self, sx: int, sy: int, dx: int, dy: int, w: int) -> Image {
        Image {
            at: |x: int, y: int|
                if y == dy && dx <= x < dx + w {
                    (self.at)(x - dx + sx, sy)
                } else {
                    (self.at)(x, y)
                },
            ..self
        }
    }

    /// With some rows of a region copied to another place, all at once.
    pub open spec fn rows_moved(
        self,
        sx: int,
        sy: int,
        dx: int,
        dy: int,
        w: int,
        first: int,
        end: int,
    ) -> Image {
        Image {
            at: |x: int, y: int|
                if dx <= x < dx + w && first <= y - dy < end {
                    (self.at)(x - dx + sx, y - dy + sy)
                } else {
                    (self.at)(x, y)
                },
            ..self
        }
    }

    /// With a rectangle copied to another place, all at once: every pixel that is
    /// shown, and comes from one that is shown, takes its value.
    pub open spec fn blitted(self, src: Rect, dst_x: int, dst_y: int) -> Image {
        Image {
            at: |x: int, y: int|
                if self.visible(x, y) && 0 <= x - dst_x < src.w && 0 <= y - dst_y < src.h
                    && self.visible(src.x + (x - dst_x), src.y + (y - dst_y)) {
                    (self.at)(src.x + (x - dst_x), src.y + (y - dst_y))
                } else {
                    (self.at)(x, y)
                },
            ..self
        }
    }
}

/// A surface.
pub struct Framebuffer {
    /// All pixels, row by row.
    pub pixels: Vec<u32>,
    /// Pixels from one row to the next.
    pub stride: usize,
    pub width: i32,
    pub height: i32,
}

impl View for Framebuffer {
    type V = Image;

    open spec fn view(&self) -> Image {
        Image {
            width: self.width as int,
            height: self.height as int,
            stride: self.stride as int,
            at: |x: int, y: int|
                if 0 <= x < self.stride && 0 <= y < self.height {
                    self.pixels@[y * self.stride + x]
                } else {
                    0
                },
        }
    }
}

proof fn lemma_index(x: int, y: int, stride: int, height: int)
    requires
        0 <= x < stride,
        0 <= y < height,
    ensures
        0 <= y * stride,
        0 <= y * stride + x < height * stride,
{
    assert(0 <= y * stride && y * stride + stride <= height * stride) by (nonlinear_arith)
        requires
            0 <= y,
            y + 1 <= height,
            0 < stride,
    ;
}

proof fn lemma_index_differs(x: int, y: int, u: int, v: int, stride: int)
    requires
        0 <= x < stride,
        0 <= u < stride,
        x != u || y != v,
    ensures
        y * stride + x != v * stride + u,
{
    if y < v {
        assert(y * stride + stride <= v * stride) by (nonlinear_arith)
            requires
                y + 1 <= v,
                0 < stride,
        ;
    } else if v < y {
        assert(v * stride + stride <= y * stride) by (nonlinear_arith)
            requires
                v + 1 <= y,
                0 < stride,
        ;
    }
}

impl Framebuffer {
    /// There is a pixel for every place, and a row is as long as it is shown.
    pub open spec fn wf(self) -> bool {
        &&& 0 <= self.width <= self.stride
        &&& 0 <= self.height
        &&& 4 * self.stride <= usize::MAX
        &&& self.pixels@.len() == self.height * self.stride
    }

    /// A surface over some pixels.  The pitch is in bytes.
    pub fn new(buffer: Vec<u32>, pitch: usize, width: u16, height: u16) -> (surface: Self)
        requires
            pitch % 4 == 0,
            4 * width <= pitch,
            buffer@.len() == height * (pitch / 4),
        ensures
            surface.wf(),
            surface.pixels@ == buffer@,
            surface.stride == pitch / 4,
            surface.width == width,
            surface.height == height,
    {
        Framebuffer {
            pixels: buffer,
            stride: pitch / 4,
            width: width as i32,
            height: height as i32,
        }
    }

    pub fn width(&self) -> (width: i32)
        ensures
            width == self.width,
    {
        self.width
    }

    pub fn height(&self) -> (height: i32)
        ensures
            height == self.height,
    {
        self.height
    }

    /// Bytes from one row to the next.
    pub fn pitch(&self) -> (pitch: usize)
        requires
            self.wf(),
        ensures
            pitch == 4 * self.stride,
    {
        self.stride * 4
    }

    /// All that is shown.
    pub fn view_rect(&self) -> (rect: Rect)
        ensures
            rect == (Rect { x: 0, y: 0, w: self.width, h: self.height }),
    {
        Rect::new(0, 0, self.width, self.height)
    }

    pub fn in_bounds(&self, x: i32, y: i32) -> (shown: bool)
        ensures
            shown == self@.visible(x as int, y as int),
    {
        x >= 0 && x < self.width && y >= 0 && y < self.height
    }

    /// A pixel.
    pub fn pixel(&self, x: usize, y: usize) -> (c: u32)
        requires
            self.wf(),
            self@.visible(x as int, y as int),
        ensures
            c == (self@.at)(x as int, y as int),
    {
        proof {
            lemma_index(x as int, y as int, self.stride as int, self.height as int);
        }
        let total: usize = self.pixels.len();
        assert(y * self.stride + x < total);
        self.pixels[y * self.stride + x]
    }

    /// Change one pixel that is shown.
    pub fn put_pixel_raw(&mut self, x: usize, y: usize, c: u32)
        requires
            old(self).wf(),
            old(self)@.visible(x as int, y as int),
        ensures
            final(self).wf(),
            final(self)@ == old(self)@.inked(
                rect_ink(x as int, y as int, x + 1, y + 1, c),
            ),
    {
        proof {
            lemma_index(x as int, y as int, self.stride as int, self.height as int);
        }
        let total: usize = self.pixels.len();
        assert(y * self.stride + x < total);
        let index: usize = y * self.stride + x;
        self.pixels.set(index, c);
        proof {
            let after = old(self)@.inked(rect_ink(x as int, y as int, x + 1, y + 1, c));
            assert forall|u: int, v: int| (self@.at)(u, v) == #[trigger] (after.at)(u, v) by {
                if 0 <= u < self.stride && 0 <= v < self.height {
                    lemma_index(u, v, self.stride as int, self.height as int);
                    if u != x || v != y {
                        lemma_index_differs(u, v, x as int, y as int, self.stride as int);
                    }
                }
            }
            assert(self@.at =~= after.at);
        }
    }

    /// Change one pixel, where it is shown.
    fn put(&mut self, x: i64, y: i64, c: u32)
        requires
            old(self).wf(),
        ensures
            final(self).wf(),
            final(self)@ == old(self)@.inked(
                rect_ink(x as int, y as int, x + 1, y + 1, c),
            ),
    {
        if x >= 0 && x < self.width as i64 && y >= 0 && y < self.height as i64 {
            self.put_pixel_raw(x as usize, y as usize, c);
        } else {
            assert(self@.at =~= old(self)@.inked(
                rect_ink(x as int, y as int, x + 1, y + 1, c),
            ).at);
        }
    }

    /// Change one pixel, where it is shown.
    pub fn put_pixel(&mut self, x: i32, y: i32, c: Color)
        requires
            old(self).wf(),
        ensures
            final(self).wf(),
            final(self)@ == old(self)@.inked(
                rect_ink(x as int, y as int, x + 1, y + 1, c.0),
            ),
    {
        self.put(x as i64, y as i64, c.to_u32());
    }

    /// Fill a region, as far as it is shown.
    pub fn fill_region(&mut self, x0: i64, y0: i64, x1: i64, y1: i64, c: u32)
        requires
            old(self).wf(),
        ensures
            final(self).wf(),
            final(self)@ == old(self)@.inked(
                rect_ink(x0 as int, y0 as int, x1 as int, y1 as int, c),
            ),
    {
        let left: i64 = if x0 > 0 {
            x0
        } else {
            0
        };
        let top: i64 = if y0 > 0 {
            y0
        } else {
            0
        };
        let right: i64 = if x1 < self.width as i64 {
            x1
        } else {
            self.width as i64
        };
        let bottom: i64 = if y1 < self.height as i64 {
            y1
        } else {
            self.height as i64
        };
        let ghost start = self@;
        let ghost whole = start.inked(rect_ink(x0 as int, y0 as int, x1 as int, y1 as int, c));
        if left >= right || top >= bottom {
            assert(self@.at =~= whole.at);
            return ;
        }
        let mut y: i64 = top;
        assert(self@.at =~= start.inked(
            rect_ink(left as int, top as int, right as int, y as int, c),
        ).at);
        while y < bottom
            invariant
                0 <= left < right <= self.width,
                0 <= top <= y <= bottom <= self.height,
                self.wf(),
                self@ == start.inked(
                    rect_ink(left as int, top as int, right as int, y as int, c),
                ),
            decreases bottom - y,
        {
            let ghost rows = self@;
            let mut x: i64 = left;
            assert(self@.at =~= rows.inked(
                rect_ink(left as int, y as int, x as int, y + 1, c),
            ).at);
            while x < right
                invariant
                    0 <= left <= x <= right <= self.width,
                    0 <= y < self.height,
                    self.wf(),
                    self@ == rows.inked(rect_ink(left as int, y as int, x as int, y + 1, c)),
                decreases right - x,
            {
                self.put_pixel_raw(x as usize, y as usize, c);
                x = x + 1;
                assert(self@.at =~= rows.inked(
                    rect_ink(left as int, y as int, x as int, y + 1, c),
                ).at);
            }
            y = y + 1;
            assert(self@.at =~= start.inked(
                rect_ink(left as int, top as int, right as int, y as int, c),
            ).at);
        }
        assert(self@.at =~= whole.at);
    }

    /// Fill a rectangle, as far as it is shown.
    pub fn fill_rect(&mut self, r: Rect, c: Color)
        requires
            old(self).wf(),
        ensures
            final(self).wf(),
            final(self)@ == old(self)@.inked(
                rect_ink(r.x as int, r.y as int, r.x + r.w, r.y + r.h, c.0),
            ),
    {
        self.fill_region(
            r.x as i64,
            r.y as i64,
            r.x as i64 + r.w as i64,
            r.y as i64 + r.h as i64,
            c.to_u32(),
        );
    }

    /// Draw the outline of a rectangle, as far as it is shown.
    pub fn draw_rect(&mut self, r: Rect, c: Color)
        requires
            old(self).wf(),
        ensures
            final(self).wf(),
            final(self)@ == old(self)@.inked(outline_ink(r, c.0)),
    {
        let ghost start = self@;
        let ghost whole = start.inked(outline_ink(r, c.0));
        if r.is_empty() {
            assert(self@.at =~= whole.at);
            return ;
        }
        let left: i64 = r.x as i64;
        let top: i64 = r.y as i64;
        let right: i64 = left + r.w as i64;
        let bottom: i64 = top + r.h as i64;
        self.fill_region(left, top, right, top + 1, c.to_u32());
        if r.h > 1 {
            self.fill_region(left, bottom - 1, right, bottom, c.to_u32());
        }
        if r.h > 2 {
            self.fill_region(left, top + 1, left + 1, bottom - 1, c.to_u32());
        }
        if r.h > 2 && r.w > 1 {
            self.fill_region(right - 1, top + 1, right, bottom - 1, c.to_u32());
        }
        assert(self@.at =~= whole.at);
    }

    /// Draw a character with its background, as far as it is shown.
    pub fn draw_char(&mut self, x: i32, y: i32, ch: u8, fg: Color, bg: Color)
        requires
            old(self).wf(),
        ensures
            final(self).wf(),
            final(self)@ == old(self)@.inked(glyph_ink(x as int, y as int, ch, fg.0, bg.0)),
    {
        self.draw_cell(x as i64, y as i64, ch, fg.to_u32(), bg.to_u32());
    }

    /// Draw a character with its background, as far as it is shown.
    pub fn draw_cell(&mut self, x: i64, y: i64, ch: u8, fg: u32, bg: u32)
        requires
            old(self).wf(),
            -0x1_0000_0000_0000 < x < 0x1_0000_0000_0000,
            -0x1_0000_0000_0000 < y < 0x1_0000_0000_0000,
        ensures
            final(self).wf(),
            final(self)@ == old(self)@.inked(glyph_ink(x as int, y as int, ch, fg, bg)),
    {
        let glyph: [u8; GLYPH_HEIGHT] = fb_font::glyph(ch);
        let ghost start = self@;
        let ghost ink = glyph_ink(x as int, y as int, ch, fg, bg);
        let mut gy: usize = 0;
        assert(self@.at =~= start.inked(above(ink, y as int)).at);
        while gy < GLYPH_HEIGHT
            invariant
                gy <= GLYPH_HEIGHT,
                -0x1_0000_0000_0000 < x < 0x1_0000_0000_0000,
                -0x1_0000_0000_0000 < y < 0x1_0000_0000_0000,
                glyph@ == Seq::new(GLYPH_HEIGHT as nat, |row: int| glyph_row(ch, row)),
                ink == glyph_ink(x as int, y as int, ch, fg, bg),
                self.wf(),
                self@ == start.inked(above(ink, y + gy)),
            decreases GLYPH_HEIGHT - gy,
        {
            let ghost rows = self@;
            let mut gx: usize = 0;
            assert(self@.at =~= rows.inked(before_in_row(ink, x + gx, y + gy)).at);
            while gx < GLYPH_WIDTH
                invariant
                    gx <= GLYPH_WIDTH,
                    gy < GLYPH_HEIGHT,
                    -0x1_0000_0000_0000 < x < 0x1_0000_0000_0000,
                    -0x1_0000_0000_0000 < y < 0x1_0000_0000_0000,
                    glyph@ == Seq::new(GLYPH_HEIGHT as nat, |row: int| glyph_row(ch, row)),
                    ink == glyph_ink(x as int, y as int, ch, fg, bg),
                    self.wf(),
                    self@ == rows.inked(before_in_row(ink, x + gx, y + gy)),
                decreases GLYPH_WIDTH - gx,
            {
                let on: bool = fb_font::pixel_on(&glyph, gy, gx);
                assert(on == bit_on(glyph_row(ch, gy as int), gx as int));
                self.put(
                    x + gx as i64,
                    y + gy as i64,
                    if on {
                        fg
                    } else {
                        bg
                    },
                );
                gx = gx + 1;
                assert(self@.at =~= rows.inked(before_in_row(ink, x + gx, y + gy)).at);
            }
            gy = gy + 1;
            assert(self@.at =~= start.inked(above(ink, y + gy)).at);
        }
        assert(self@.at =~= start.inked(ink).at);
    }

    /// Draw a line, as far as it is shown.
    pub fn draw_line(&mut self, x0: i32, y0: i32, x1: i32, y1: i32, c: Color)
        requires
            old(self).wf(),
        ensures
            final(self).wf(),
            final(self)@ == old(self)@.inked(
                line_ink(x0 as int, y0 as int, x1 as int, y1 as int, c.0),
            ),
    {
        let from_x: i64 = x0 as i64;
        let from_y: i64 = y0 as i64;
        let to_x: i64 = x1 as i64;
        let to_y: i64 = y1 as i64;
        let dx: i64 = if from_x < to_x {
            to_x - from_x
        } else {
            from_x - to_x
        };
        let dy: i64 = if from_y < to_y {
            to_y - from_y
        } else {
            from_y - to_y
        };
        let sx: i64 = if from_x < to_x {
            1
        } else {
            -1
        };
        let sy: i64 = if from_y < to_y {
            1
        } else {
            -1
        };
        let mut err: i64 = dx - dy;
        let mut x: i64 = from_x;
        let mut y: i64 = from_y;
        let ghost start = self@;
        let ghost mut i: int = 0;
        let ghost mut j: int = 0;
        proof {
            lemma_line_start(dx as int, dy as int);
            assert(self@.at =~= start.inked(
                partial_line_ink(x0 as int, y0 as int, x1 as int, y1 as int, c.0, 0),
            ).at) by {
                lemma_no_steps(x0 as int, y0 as int, x1 as int, y1 as int, c.0);
            }
        }
        loop
            invariant
                from_x == x0,
                from_y == y0,
                to_x == x1,
                to_y == y1,
                dx == distance(x0 as int, x1 as int),
                dy == distance(y0 as int, y1 as int),
                sx == direction(x0 as int, x1 as int),
                sy == direction(y0 as int, y1 as int),
                x == x0 + sx * i,
                y == y0 + sy * j,
                line_state(dx as int, dy as int, i, j, err as int),
                self.wf(),
                self@ == start.inked(
                    partial_line_ink(
                        x0 as int,
                        y0 as int,
                        x1 as int,
                        y1 as int,
                        c.0,
                        step_number(dx as int, dy as int, i, j),
                    ),
                ),
                start == old(self)@,
            decreases dx + dy - i - j,
        {
            let ghost done = step_number(dx as int, dy as int, i, j);
            proof {
                lemma_line_position(dx as int, dy as int, i, j, err as int);
                lemma_turn(x0 as int, sx as int, i, x as int);
                lemma_turn(y0 as int, sy as int, j, y as int);
            }
            let ghost before = self@;
            self.put(x, y, c.to_u32());
            proof {
                lemma_one_step(
                    start,
                    x0 as int,
                    y0 as int,
                    x1 as int,
                    y1 as int,
                    c.0,
                    i,
                    j,
                    x as int,
                    y as int,
                );
            }
            if x == to_x && y == to_y {
                proof {
                    lemma_line_end(start, x0 as int, y0 as int, x1 as int, y1 as int, c.0, i, j);
                }
                return ;
            }
            let e2: i64 = 2 * err;
            proof {
                lemma_line_step(dx as int, dy as int, i, j, err as int);
            }
            let ghost step_x = e2 >= -dy;
            let ghost step_y = e2 <= dx;
            if e2 >= -dy {
                err = err - dy;
                x = x + sx;
            }
            if e2 <= dx {
                err = err + dx;
                y = y + sy;
            }
            proof {
                assert(sx * (i + 1) == sx * i + sx) by (nonlinear_arith);
                assert(sy * (j + 1) == sy * j + sy) by (nonlinear_arith);
                if step_x {
                    i = i + 1;
                }
                if step_y {
                    j = j + 1;
                }
            }
        }
    }

    /// Draw a text, as far as it is shown.  A line feed goes to the start of
    /// the next line, and a carriage return to the start of this one.
    pub fn draw_str(&mut self, x: i32, y: i32, s: &str, fg: Color, bg: Color)
        requires
            old(self).wf(),
        ensures
            final(self).wf(),
            final(self)@ == old(self)@.with_text(
                x as int,
                y as int,
                s.spec_bytes(),
                fg.0,
                bg.0,
            ),
    {
        let bytes: &[u8] = s.as_bytes();
        let mut cx: i32 = x;
        let mut cy: i32 = y;
        let mut k: usize = 0;
        assert(bytes@.take(0) =~= Seq::<u8>::empty());
        while k < bytes.len()
            invariant
                k <= bytes@.len(),
                (cx as int, cy as int) == text_cursor(x as int, y as int, bytes@.take(k as int)),
                self.wf(),
                self@ == old(self)@.with_text(
                    x as int,
                    y as int,
                    bytes@.take(k as int),
                    fg.0,
                    bg.0,
                ),
            decreases bytes@.len() - k,
        {
            let byte: u8 = bytes[k];
            assert(bytes@.take(k + 1).drop_last() =~= bytes@.take(k as int));
            assert(bytes@.take(k + 1).last() == byte);
            if byte == LINE_FEED {
                cy = advance(cy, GLYPH_HEIGHT as i32);
                cx = x;
            } else if byte == CARRIAGE_RETURN {
                cx = x;
            } else {
                self.draw_char(cx, cy, byte, fg, bg);
                cx = advance(cx, GLYPH_WIDTH as i32);
            }
            k = k + 1;
        }
        assert(bytes@.take(k as int) =~= bytes@);
    }

    fn copy_row(&mut self, sx: usize, sy: usize, dx: usize, dy: usize, w: usize)
        requires
            old(self).wf(),
            0 < w,
            sx + w <= old(self).width,
            dx + w <= old(self).width,
            sy < old(self).height,
            dy < old(self).height,
        ensures
            final(self).wf(),
            final(self)@ == old(self)@.row_copied(
                sx as int,
                sy as int,
                dx as int,
                dy as int,
                w as int,
            ),
    {
        let ghost start = self@;
        let mut row: Vec<u32> = Vec::new();
        let mut k: usize = 0;
        while k < w
            invariant
                k <= w,
                sx + w <= self.width,
                sy < self.height,
                self.wf(),
                self@ == start,
                row@.len() == k,
                forall|n: int| 0 <= n < k ==> row@[n] == (start.at)(sx + n, sy as int),
            decreases w - k,
        {
            row.push(self.pixel(sx + k, sy));
            k = k + 1;
        }
        let mut n: usize = 0;
        assert(self@.at =~= start.row_copied(sx as int, sy as int, dx as int, dy as int, 0).at);
        while n < w
            invariant
                n <= w,
                dx + w <= self.width,
                dy < self.height,
                self.wf(),
                row@.len() == w,
                forall|n: int| 0 <= n < w ==> row@[n] == (start.at)(sx + n, sy as int),
                self@ == start.row_copied(sx as int, sy as int, dx as int, dy as int, n as int),
            decreases w - n,
        {
            self.put_pixel_raw(dx + n, dy, row[n]);
            n = n + 1;
            assert(self@.at =~= start.row_copied(
                sx as int,
                sy as int,
                dx as int,
                dy as int,
                n as int,
            ).at);
        }
    }

    /// Copy a rectangle to another place of the surface, as far as both ends of
    /// the way are visible.  The two may overlap.
    pub fn blit(&mut self, src_rect: Rect, dst_x: i32, dst_y: i32)
        requires
            old(self).wf(),
        ensures
            final(self).wf(),
            final(self)@ == old(self)@.blitted(src_rect, dst_x as int, dst_y as int),
    {
        let ghost start = self@;
        let ghost whole = start.blitted(src_rect, dst_x as int, dst_y as int);
        let (left, w): (i64, i64) = clip(src_rect.x as i64, src_rect.w as i64, self.width);
        let (top, h): (i64, i64) = clip(src_rect.y as i64, src_rect.h as i64, self.height);
        if w <= 0 || h <= 0 {
            assert(self@.at =~= whole.at);
            return ;
        }
        let over_x: i64 = dst_x as i64 - src_rect.x as i64;
        let over_y: i64 = dst_y as i64 - src_rect.y as i64;
        let (to_x, width): (i64, i64) = clip(left + over_x, w, self.width);
        let (to_y, height): (i64, i64) = clip(top + over_y, h, self.height);
        if width <= 0 || height <= 0 {
            assert(self@.at =~= whole.at);
            return ;
        }
        let from_x: i64 = to_x - over_x;
        let from_y: i64 = to_y - over_y;
        let forward: bool = over_y <= 0;
        let mut done: i64 = 0;
        assert(self@.at =~= start.rows_moved(
            from_x as int,
            from_y as int,
            to_x as int,
            to_y as int,
            width as int,
            if forward {
                0
            } else {
                height as int
            },
            if forward {
                0
            } else {
                height as int
            },
        ).at);
        while done < height
            invariant
                0 <= done <= height,
                0 < width,
                0 <= from_x,
                from_x + width <= self.width,
                0 <= from_y,
                from_y + height <= self.height,
                0 <= to_x,
                to_x + width <= self.width,
                0 <= to_y,
                to_y + height <= self.height,
                forward ==> to_y <= from_y,
                !forward ==> from_y < to_y,
                self.wf(),
                self@ == start.rows_moved(
                    from_x as int,
                    from_y as int,
                    to_x as int,
                    to_y as int,
                    width as int,
                    if forward {
                        0
                    } else {
                        height - done
                    },
                    if forward {
                        done as int
                    } else {
                        height as int
                    },
                ),
            decreases height - done,
        {
            let row: i64 = if forward {
                done
            } else {
                height - 1 - done
            };
            self.copy_row(
                from_x as usize,
                (from_y + row) as usize,
                to_x as usize,
                (to_y + row) as usize,
                width as usize,
            );
            done = done + 1;
            assert(self@.at =~= start.rows_moved(
                from_x as int,
                from_y as int,
                to_x as int,
                to_y as int,
                width as int,
                if forward {
                    0
                } else {
                    height - done
                },
                if forward {
                    done as int
                } else {
                    height as int
                },
            ).at);
        }
        assert(self@.at =~= whole.at);
    }

    /// Fill all that is shown.
    pub fn clear(&mut self, c: Color)
        requires
            old(self).wf(),
        ensures
            final(self).wf(),
            final(self)@ == old(self)@.inked(|x: int, y: int| Some(c.0)),
    {
        let view: Rect = self.view_rect();
        self.fill_rect(view, c);
        assert(self@.at =~= old(self)@.inked(|x: int, y: int| Some(c.0)).at);
    }
}

/// How far a line has come: `i` steps one way and `j` steps the other, with
/// the error that decides on the next.
spec fn line_state(dx: int, dy: int, i: int, j: int, err: int) -> bool {
    let off = dx * j - dy * i;
    &&& 0 <= dx < 0x1_0000_0000
    &&& 0 <= dy < 0x1_0000_0000
    &&& 0 <= i <= dx
    &&& 0 <= j <= dy
    &&& err == off + dx - dy
    &&& dx >= dy && dx > 0 ==> -dx < 2 * off <= dx
    &&& dx < dy ==> -dy <= 2 * off < dy
    &&& dx == 0 && dy == 0 ==> off == 0
}

proof fn lemma_line_start(dx: int, dy: int)
    requires
        0 <= dx < 0x1_0000_0000,
        0 <= dy < 0x1_0000_0000,
    ensures
        line_state(dx, dy, 0, 0, dx - dy),
{
    assert(dx * 0 == 0 && dy * 0 == 0) by (nonlinear_arith);
}

/// A number between two neighbouring multiples has the lower one as its part.
proof fn lemma_quotient(value: int, divisor: int, quotient: int)
    requires
        divisor > 0,
        divisor * quotient <= value < divisor * quotient + divisor,
    ensures
        value / divisor == quotient,
{
    assert(divisor * quotient == quotient * divisor) by (nonlinear_arith);
    vstd::arithmetic::div_mod::lemma_fundamental_div_mod_converse(
        value,
        divisor,
        quotient,
        value - divisor * quotient,
    );
}

/// The steps that were taken are on the line, and those that were taken along
/// its longer side tell when it ends.
proof fn lemma_line_position(dx: int, dy: int, i: int, j: int, err: int)
    requires
        line_state(dx, dy, i, j, err),
    ensures
        on_line(dx, dy, i, j),
        dx >= dy && i == dx ==> j == dy,
        dx < dy && j == dy ==> i == dx,
        dx >= dy && j == dy && i == dx || dx >= dy && i < dx || dx < dy && j < dy || dx < dy && i
            == dx && j == dy,
{
    if dx >= dy {
        if dx == 0 {
        } else {
            assert((2 * dx) * j <= 2 * (dy * i) + dx < (2 * dx) * j + 2 * dx) by (nonlinear_arith)
                requires
                    -dx < 2 * (dx * j - dy * i) <= dx,
            ;
            lemma_quotient(2 * (dy * i) + dx, 2 * dx, j);
            if i == dx {
                assert(j == dy) by (nonlinear_arith)
                    requires
                        dx > 0,
                        -dx < 2 * (dx * j - dy * dx) <= dx,
                ;
            }
        }
    } else {
        assert((2 * dy) * i <= 2 * (dx * j) + dy < (2 * dy) * i + 2 * dy) by (nonlinear_arith)
            requires
                -dy <= 2 * (dx * j - dy * i) < dy,
        ;
        lemma_quotient(2 * (dx * j) + dy, 2 * dy, i);
        if j == dy {
            assert(i == dx) by (nonlinear_arith)
                requires
                    dy > 0,
                    -dy <= 2 * (dx * dy - dy * i) < dy,
            ;
        }
    }
}

/// A step keeps near the line, and moves along its longer side.
proof fn lemma_line_step(dx: int, dy: int, i: int, j: int, err: int)
    requires
        line_state(dx, dy, i, j, err),
        i != dx || j != dy,
    ensures
        -0x10_0000_0000 < err < 0x10_0000_0000,
        dx >= dy ==> 2 * err >= -dy,
        dx < dy ==> 2 * err <= dx,
        ({
            let u = if 2 * err >= -dy {
                i + 1
            } else {
                i
            };
            let v = if 2 * err <= dx {
                j + 1
            } else {
                j
            };
            let e = err + (if 2 * err <= dx {
                dx
            } else {
                0
            }) - (if 2 * err >= -dy {
                dy
            } else {
                0
            });
            &&& line_state(dx, dy, u, v, e)
            &&& step_number(dx, dy, u, v) == step_number(dx, dy, i, j) + 1
        }),
{
    lemma_line_position(dx, dy, i, j, err);
    assert(dx * (j + 1) == dx * j + dx) by (nonlinear_arith);
    assert(dy * (i + 1) == dy * i + dy) by (nonlinear_arith);
    let off = dx * j - dy * i;
    if dx >= dy {
        if 2 * err <= dx {
            if j == dy {
                assert(dy * i + dy <= dy * dx) by (nonlinear_arith)
                    requires
                        i + 1 <= dx,
                        0 <= dy,
                ;
                assert(dx * dy == dy * dx) by (nonlinear_arith);
            }
        }
    } else {
        if 2 * err >= -dy {
            if i == dx {
                assert(dx * j + dx <= dx * dy) by (nonlinear_arith)
                    requires
                        j + 1 <= dy,
                        0 <= dx,
                ;
                assert(dx * dy == dy * dx) by (nonlinear_arith);
            }
        }
    }
}

proof fn lemma_turn(from: int, sign: int, steps: int, to: int)
    requires
        sign == 1 || sign == -1,
        to == from + sign * steps,
    ensures
        (to - from) * sign == steps,
        forall|other: int| #![trigger (other - from) * sign]
            (other - from) * sign == steps ==> other == to,
        -0x1_0000_0000 <= steps <= 0x1_0000_0000 ==> from - 0x1_0000_0000 <= to <= from
            + 0x1_0000_0000,
{
    if sign == 1 {
        assert(forall|other: int| #![trigger (other - from) * sign]
            (other - from) * 1 == other - from) by (nonlinear_arith);
        assert(1 * steps == steps);
    } else {
        assert(forall|other: int| #![trigger (other - from) * sign]
            (other - from) * (-1) == from - other) by (nonlinear_arith);
        assert((-1) * steps == -steps);
    }
}

proof fn lemma_no_steps(x0: int, y0: int, x1: int, y1: int, c: u32)
    ensures
        forall|x: int, y: int| (#[trigger] partial_line_ink(x0, y0, x1, y1, c, 0)(x, y)) is None,
{
}

/// The next pixel of a line is the only one that its next step adds.
proof fn lemma_one_step(
    start: Image,
    x0: int,
    y0: int,
    x1: int,
    y1: int,
    c: u32,
    i: int,
    j: int,
    x: int,
    y: int,
)
    requires
        x == x0 + direction(x0, x1) * i,
        y == y0 + direction(y0, y1) * j,
        on_line(distance(x0, x1), distance(y0, y1), i, j),
    ensures
        ({
            let done = step_number(distance(x0, x1), distance(y0, y1), i, j);
            start.inked(partial_line_ink(x0, y0, x1, y1, c, done)).inked(
                rect_ink(x, y, x + 1, y + 1, c),
            ) == start.inked(partial_line_ink(x0, y0, x1, y1, c, done + 1))
        }),
{
    let done = step_number(distance(x0, x1), distance(y0, y1), i, j);
    let sx = direction(x0, x1);
    let sy = direction(y0, y1);
    let one = start.inked(partial_line_ink(x0, y0, x1, y1, c, done)).inked(
        rect_ink(x, y, x + 1, y + 1, c),
    );
    let two = start.inked(partial_line_ink(x0, y0, x1, y1, c, done + 1));
    lemma_turn(x0, sx, i, x);
    lemma_turn(y0, sy, j, y);
    assert forall|u: int, v: int| #[trigger] (one.at)(u, v) == (two.at)(u, v) by {
        let a = (u - x0) * sx;
        let b = (v - y0) * sy;
    }
    assert(one.at =~= two.at);
}

proof fn lemma_line_end(
    start: Image,
    x0: int,
    y0: int,
    x1: int,
    y1: int,
    c: u32,
    i: int,
    j: int,
)
    requires
        i == distance(x0, x1),
        j == distance(y0, y1),
    ensures
        start.inked(partial_line_ink(x0, y0, x1, y1, c, step_number(i, j, i, j) + 1)) == start.inked(
            line_ink(x0, y0, x1, y1, c),
        ),
{
    assert(start.inked(partial_line_ink(x0, y0, x1, y1, c, step_number(i, j, i, j) + 1)).at
        =~= start.inked(line_ink(x0, y0, x1, y1, c)).at);
}

/// Move on, no farther than the largest coordinate.
fn advance(value: i32, step: i32) -> (moved: i32)
    requires
        0 <= step,
    ensures
        moved == capped(value + step),
{
    if value > i32::MAX - step {
        i32::MAX
    } else {
        value + step
    }
}

/// The part of a span that lies below a limit.
spec fn clipped(start: int, length: int, limit: int) -> (int, int) {
    let first = if start > 0 {
        start
    } else {
        0
    };
    let end = if start + length < limit {
        start + length
    } else {
        limit
    };
    (first, end - first)
}

/// Cut a span to the part that lies below a limit.
fn clip(start: i64, length: i64, limit: i32) -> (part: (i64, i64))
    requires
        -0x2_0000_0000 < start < 0x2_0000_0000,
        -0x1_0000_0000 < length < 0x1_0000_0000,
    ensures
        (part.0 as int, part.1 as int) == clipped(start as int, length as int, limit as int),
{
    let first: i64 = if start > 0 {
        start
    } else {
        0
    };
    let end: i64 = if start + length < limit as i64 {
        start + length
    } else {
        limit as i64
    };
    (first, end - first)
}

/// Both ends of a line are on it.
pub proof fn lemma_line_has_its_ends(dx: int, dy: int)
    requires
        0 <= dx,
        0 <= dy,
    ensures
        on_line(dx, dy, 0, 0),
        on_line(dx, dy, dx, dy),
{
    let (short, long) = if dx >= dy {
        (dy, dx)
    } else {
        (dx, dy)
    };
    if long > 0 {
        assert(short * 0 == 0) by (nonlinear_arith);
        assert((2 * long) * 0 == 0) by (nonlinear_arith);
        lemma_quotient(2 * (short * 0) + long, 2 * long, 0);
        assert((2 * long) * short == 2 * (short * long)) by (nonlinear_arith);
        lemma_quotient(2 * (short * long) + long, 2 * long, short);
    }
}

/// A line stays between its ends, and no pixel of it is farther than half a
/// pixel from the line that has no width.
pub proof fn lemma_line_is_near(dx: int, dy: int, i: int, j: int)
    requires
        0 <= dx,
        0 <= dy,
        on_line(dx, dy, i, j),
    ensures
        0 <= i <= dx,
        0 <= j <= dy,
        dx >= dy ==> -dx <= 2 * (dx * j - dy * i) <= dx,
        dx < dy ==> -dy <= 2 * (dx * j - dy * i) <= dy,
{
    if dx >= dy {
        lemma_nearest_step(dy, dx, i, j);
    } else {
        lemma_nearest_step(dx, dy, j, i);
        assert(dx * j == j * dx && dy * i == i * dy) by (nonlinear_arith);
    }
}

proof fn lemma_nearest_step(short: int, long: int, step: int, other: int)
    requires
        0 <= short <= long,
        0 <= step <= long,
        other == nearest_step(short, long, step),
    ensures
        0 <= other <= short,
        -long <= 2 * (long * other - short * step) <= long,
{
    if long > 0 {
        let value = 2 * (short * step) + long;
        vstd::arithmetic::div_mod::lemma_fundamental_div_mod(value, 2 * long);
        vstd::arithmetic::div_mod::lemma_mod_bound(value, 2 * long);
        assert((2 * long) * other == 2 * (long * other)) by (nonlinear_arith);
        assert(0 <= short * step <= short * long) by (nonlinear_arith)
            requires
                0 <= short,
                0 <= step <= long,
        ;
        assert(0 <= other <= short) by (nonlinear_arith)
            requires
                0 < long,
                0 <= short,
                2 * (long * other) <= 2 * (short * long) + long,
                -long < 2 * (long * other),
        ;
    } else {
        assert(long * other - short * step == 0) by (nonlinear_arith)
            requires
                long == 0,
                short == 0,
        ;
    }
}

/// Drawing changes only what is shown.
pub proof fn lemma_drawing_is_clipped(
    image: Image,
    ink: spec_fn(int, int) -> Option<u32>,
    src: Rect,
    dst_x: int,
    dst_y: int,
    x: int,
    y: int,
)
    requires
        !image.visible(x, y),
    ensures
        (image.inked(ink).at)(x, y) == (image.at)(x, y),
        (image.blitted(src, dst_x, dst_y).at)(x, y) == (image.at)(x, y),
{
}

/// The outline of a rectangle, one pixel wide.
pub open spec fn outline_ink(r: Rect, c: u32) -> spec_fn(int, int) -> Option<u32> {
    |x: int, y: int|
        if r.covers(x, y) && (x == r.x || x == r.x + r.w - 1 || y == r.y || y == r.y + r.h - 1) {
            Some(c)
        } else {
            None
        }
}

/// The part of an ink above a row.
pub open spec fn above(ink: spec_fn(int, int) -> Option<u32>, row: int) -> spec_fn(
    int,
    int,
) -> Option<u32> {
    |x: int, y: int|
        if y < row {
            ink(x, y)
        } else {
            None
        }
}

/// The part of an ink in a row, before a column.
pub open spec fn before_in_row(
    ink: spec_fn(int, int) -> Option<u32>,
    column: int,
    row: int,
) -> spec_fn(int, int) -> Option<u32> {
    |x: int, y: int|
        if y == row && x < column {
            ink(x, y)
        } else {
            None
        }
}

} // verus!
