//! What drawing shows.
use vstd::prelude::*;
use crate::fb_font::glyph_row;
use crate::framebuffer::{byte_for, pixel_of, Screen};
use crate::gfx::{glyph_ink, outline_ink, rect_ink, text_cursor, Image, Rect};

verus! {

/// A filled rectangle shows its colour inside, from its corner up to its extent, and
/// nothing else changes; its outline shows the first and the last row and column.
pub proof fn lemma_rectangle_is_shown(image: Image, r: Rect, c: u32, x: int, y: int)
    ensures
        ({
            let shown = 0 <= x < image.width && 0 <= y < image.height;
            let inside = 0 <= x - r.x < r.w && 0 <= y - r.y < r.h;
            let edge = x == r.x || x == r.x + r.w - 1 || y == r.y || y == r.y + r.h - 1;
            let filled = image.inked(
                rect_ink(r.x as int, r.y as int, r.x + r.w, r.y + r.h, c),
            );
            let outlined = image.inked(outline_ink(r, c));
            &&& (filled.at)(x, y) == (if shown && inside {
                c
            } else {
                (image.at)(x, y)
            })
            &&& (outlined.at)(x, y) == (if shown && inside && edge {
                c
            } else {
                (image.at)(x, y)
            })
            &&& filled.width == image.width && filled.height == image.height
        }),
{
}

proof fn lemma_row_bits(row: u8, place: u8)
    by (bit_vector)
    requires
        place <= 7,
    ensures
        (row >> place) & 1 == 1 <==> (row & (1u8 << place)) != 0,
        1u8 << 0 == 1,
        1u8 << 7 == 0x80,
{
}

/// A character shows its glyph, eight pixels wide and sixteen high: where a row's bit
/// is set the colour of the text, the top bit leftmost, and else that of the ground.
pub proof fn lemma_character_is_shown(
    image: Image,
    left: int,
    top: int,
    ch: u8,
    fg: u32,
    bg: u32,
    x: int,
    y: int,
)
    ensures
        ({
            let drawn = image.inked(glyph_ink(left, top, ch, fg, bg));
            let shown = 0 <= x < image.width && 0 <= y < image.height;
            let inside = 0 <= x - left < 8 && 0 <= y - top < 16;
            let row = glyph_row(ch, y - top);
            (drawn.at)(x, y) == (if !shown || !inside {
                (image.at)(x, y)
            } else if row & (1u8 << ((7 - (x - left)) as u8)) != 0 {
                fg
            } else {
                bg
            })
        }),
{
    if 0 <= x - left < 8 && 0 <= y - top < 16 {
        lemma_row_bits(glyph_row(ch, y - top), (7 - (x - left)) as u8);
    }
}

/// A text goes eight pixels to the right with each character, and with each line
/// sixteen down and back to where it began.
pub proof fn lemma_text_goes_on(x: int, y: int, bytes: Seq<u8>, byte: u8)
    requires
        text_cursor(x, y, bytes).0 + 8 <= i32::MAX,
        text_cursor(x, y, bytes).1 + 16 <= i32::MAX,
    ensures
        ({
            let (cx, cy) = text_cursor(x, y, bytes);
            text_cursor(x, y, bytes.push(byte)) == (if byte == 10 {
                (x, cy + 16)
            } else if byte == 13 {
                (x, cy)
            } else {
                (cx + 8, cy)
            })
        }),
        text_cursor(x, y, Seq::empty()) == (x, y),
{
    assert(bytes.push(byte).drop_last() =~= bytes);
}

/// A character on the console appears in the cell of the cursor, eight pixels wide and
/// sixteen high, and the cursor, a block in the colour of the text, moves on to the
/// next cell; all other cells stay.
pub proof fn lemma_console_shows_character(screen: Screen, ch: char, x: int, y: int)
    requires
        screen.wf(),
        screen.attached,
        screen.cols > 0,
        screen.rows > 0,
        screen.col + 1 < screen.cols,
        ch != '\n' && ch != '\r' && ch != '\t',
        0 <= x < screen.image.width,
        0 <= y < screen.image.height,
    ensures
        ({
            let after = screen.written(ch);
            let left = 8 * screen.col;
            let top = 16 * screen.row;
            let row = glyph_row(byte_for(ch), y - top);
            let fg = pixel_of(screen.format, screen.fg);
            let bg = pixel_of(screen.format, screen.bg);
            &&& after.col == screen.col + 1
            &&& after.row == screen.row
            &&& (after.image.at)(x, y) == (if 0 <= y - top < 16 && 0 <= x - left < 8 {
                if row & (1u8 << ((7 - (x - left)) as u8)) != 0 {
                    fg
                } else {
                    bg
                }
            } else if 0 <= y - top < 16 && 8 <= x - left < 16 {
                fg
            } else {
                (screen.image.at)(x, y)
            })
        }),
{
    let left = 8 * screen.col;
    let top = 16 * screen.row;
    if 0 <= x - left < 8 && 0 <= y - top < 16 {
        lemma_row_bits(glyph_row(byte_for(ch), y - top), (7 - (x - left)) as u8);
    }
    assert(8 * (screen.col + 2) <= screen.image.width);
    assert(16 * (screen.row + 1) <= screen.image.height);
}

/// The end of a line moves the cursor to the start of the next one; on the last line
/// all text moves up by one, sixteen pixels, and the last line becomes empty but for
/// the cursor.
pub proof fn lemma_console_ends_line(screen: Screen, x: int, y: int)
    requires
        screen.wf(),
        screen.attached,
        screen.cols > 0,
        screen.rows > 0,
        0 <= x < 8 * screen.cols,
        0 <= y < 16 * screen.rows,
    ensures
        ({
            let after = screen.written('\n');
            let fg = pixel_of(screen.format, screen.fg);
            let bg = pixel_of(screen.format, screen.bg);
            let last = screen.row + 1 >= screen.rows;
            let cursor = x < 8 && 0 <= y - 16 * after.row < 16;
            let old_cursor = |y: int|
                0 <= x - 8 * screen.col < 8 && 0 <= y - 16 * screen.row < 16;
            &&& after.col == 0
            &&& after.row == (if last {
                screen.rows - 1
            } else {
                screen.row + 1
            })
            &&& cursor ==> (after.image.at)(x, y) == fg
            &&& !cursor && !last ==> (after.image.at)(x, y) == (if old_cursor(y) {
                bg
            } else {
                (screen.image.at)(x, y)
            })
            &&& !cursor && last ==> (after.image.at)(x, y) == (if y >= 16 * (screen.rows - 1)
                || old_cursor(y + 16) {
                bg
            } else {
                (screen.image.at)(x, y + 16)
            })
        }),
{
    assert(8 * screen.cols <= screen.image.width);
    assert(16 * screen.rows <= screen.image.height);
}

} // verus!
