use xenith_devices::console::Color;
use xenith_devices::fb_font;
use xenith_devices::framebuffer::{
    dismiss_splash, init_in_place, resume_from_userspace, splash_active, splash_progress,
    suspend_for_userspace, upgrade_terminal, userspace_suspended, FramebufferConsole,
    TerminalAction,
};
use xenith_devices::gfx::PixelFormat;

const BLACK: u32 = 0;
const GRAY: u32 = 0x00AA_AAAA;

fn console(width: u16, height: u16, splash: bool) -> FramebufferConsole {
    let mut console = FramebufferConsole::uninit();
    let actions = init_in_place(
        &mut console,
        vec![7; width as usize * height as usize],
        width * 4,
        width,
        height,
        PixelFormat::xrgb8888(),
        splash,
    );
    assert!(actions.is_empty());
    console
}

/// Whether a cell shows a character.
fn shows(console: &FramebufferConsole, col: usize, row: usize, byte: u8) -> bool {
    let glyph = fb_font::glyph(byte);
    (0..16).all(|y| {
        (0..8).all(|x| {
            let on = fb_font::pixel_on(&glyph, y, x);
            console.surface.pixel(col * 8 + x, row * 16 + y) == if on { GRAY } else { BLACK }
        })
    })
}

fn filled(console: &FramebufferConsole, col: usize, row: usize, c: u32) -> bool {
    (0..16).all(|y| (0..8).all(|x| console.surface.pixel(col * 8 + x, row * 16 + y) == c))
}

#[test]
fn fresh_console_is_empty_with_a_cursor() {
    let console = console(35, 40, false);
    assert_eq!((console.cols, console.rows), (4, 2));
    assert!(filled(&console, 0, 0, GRAY));
    assert!(filled(&console, 1, 0, BLACK));
    assert_eq!(console.surface.pixel(34, 39), BLACK);
}

#[test]
fn characters_advance_and_wrap() {
    let mut console = console(24, 32, false);
    assert!(console.write_str("abcd").is_empty());
    assert!(shows(&console, 0, 0, b'a'));
    assert!(shows(&console, 2, 0, b'c'));
    assert!(shows(&console, 0, 1, b'd'));
    assert!(filled(&console, 1, 1, GRAY));
    assert_eq!((console.col, console.row), (1, 1));
}

#[test]
fn last_line_makes_room() {
    let mut console = console(24, 32, false);
    console.write_str("ab\ncd\nef");
    assert!(shows(&console, 0, 0, b'c'));
    assert!(shows(&console, 1, 0, b'd'));
    assert!(shows(&console, 0, 1, b'e'));
    assert!(shows(&console, 1, 1, b'f'));
    assert!(filled(&console, 2, 1, GRAY));
    assert_eq!((console.col, console.row), (2, 1));
}

#[test]
fn returns_and_tabs_move_the_cursor() {
    let mut console = console(160, 16, false);
    console.write_str("ab\rX");
    assert!(shows(&console, 0, 0, b'X'));
    assert!(filled(&console, 1, 0, GRAY));
    assert!(filled(&console, 2, 0, BLACK));
    console.write_char('\t');
    assert_eq!(console.col, 8);
    console.write_char('\t');
    assert_eq!(console.col, 16);
    console.write_char('\t');
    assert_eq!(console.col, 19);
    console.write_char('\u{20ac}');
    assert_eq!((console.col, console.row), (0, 0));
    assert!(filled(&console, 0, 0, GRAY));
    assert!((1..20).all(|col| filled(&console, col, 0, BLACK)));
}

#[test]
fn unknown_characters_become_question_marks() {
    let mut console = console(24, 32, false);
    console.write_char('\u{e9}');
    assert!(shows(&console, 0, 0, b'?'));
    console.set_color(Color::White, Color::Blue);
    console.write_char(' ');
    assert!(filled(&console, 1, 0, 0x0000_00AA));
    assert!(filled(&console, 2, 0, 0x00FF_FFFF));
}

#[test]
fn console_without_a_surface_draws_nothing() {
    let mut console = FramebufferConsole::uninit();
    assert!(console.write_str("text\n").is_empty());
    assert!(console.clear().is_empty());
    assert!(console.surface.pixels.is_empty());
    assert!(!upgrade_terminal(&mut console, true));
    assert!(suspend_for_userspace(&mut console).is_none());
}

#[test]
fn splash_screen_stays_until_it_is_dismissed() {
    let mut console = console(640, 480, true);
    assert!(splash_active(&console));
    console.write_str("early text");
    console.clear();
    assert!(console.surface.pixels.iter().all(|pixel| *pixel == 7));
    assert!(dismiss_splash(&mut console).is_empty());
    assert!(!splash_active(&console));
    assert!(filled(&console, 0, 0, GRAY));
    assert!(filled(&console, 79, 29, BLACK));
    assert!(dismiss_splash(&mut console).is_empty());
}

#[test]
fn progress_bar_fills_its_room() {
    let mut console = console(800, 600, true);
    splash_progress(&mut console, 50);
    let (left, top) = (80 + 58, 60 + 378);
    assert_eq!(console.surface.pixel(left, top), 0x009a_9a9a);
    assert_eq!(console.surface.pixel(left + 219, top + 9), 0x009a_9a9a);
    assert_eq!(console.surface.pixel(left + 1, top + 1), 0x00ee_eeee);
    assert_eq!(console.surface.pixel(left + 109, top + 8), 0x00ee_eeee);
    assert_eq!(console.surface.pixel(left + 110, top + 8), 0x001a_1a1a);
    assert_eq!(console.surface.pixel(left + 220, top), 7);
    splash_progress(&mut console, 255);
    assert_eq!(console.surface.pixel(left + 218, top + 8), 0x00ee_eeee);
    let mut small = self::console(639, 480, true);
    splash_progress(&mut small, 50);
    assert!(small.surface.pixels.iter().all(|pixel| *pixel == 7));
}

#[test]
fn terminal_takes_over() {
    let mut console = console(64, 32, true);
    assert_eq!(console.terminal_mode(), Some(true));
    assert!(upgrade_terminal(&mut console, true));
    let actions = console.write_str("a\n");
    assert!(matches!(actions[0], TerminalAction::Reset));
    assert!(matches!(&actions[1], TerminalAction::Write(bytes) if bytes == b"a\n"));
    assert_eq!(actions.len(), 2);
    assert!(!splash_active(&console));
    let actions = console.write_char('\u{e9}');
    assert!(matches!(&actions[0], TerminalAction::Write(bytes) if bytes == b"?"));
    assert!(matches!(console.clear()[0], TerminalAction::Reset));
}

#[test]
fn terminal_that_does_not_open_ends_the_splash_screen() {
    let mut console = console(64, 32, true);
    assert!(!upgrade_terminal(&mut console, false));
    assert!(!splash_active(&console));
    assert!(filled(&console, 0, 0, GRAY));
    assert!(!upgrade_terminal(&mut console, false));
    console.write_char('q');
    assert!(shows(&console, 0, 0, b'q'));
}

#[test]
fn surface_is_lent_once_and_drawn_again() {
    let mut console = console(64, 32, false);
    assert!(suspend_for_userspace(&mut console).is_none());
    assert!(upgrade_terminal(&mut console, true));
    let scanout = suspend_for_userspace(&mut console).unwrap();
    assert_eq!((scanout.pitch, scanout.width, scanout.height), (256, 64, 32));
    assert!(userspace_suspended(&console));
    assert!(suspend_for_userspace(&mut console).is_none());
    let actions = resume_from_userspace(&mut console);
    assert!(matches!(actions[0], TerminalAction::RedrawAll));
    assert_eq!(actions.len(), 1);
    assert!(!userspace_suspended(&console));
    assert!(resume_from_userspace(&mut console).is_empty());
    assert!(suspend_for_userspace(&mut console).is_some());
}

#[test]
fn surface_without_rows_takes_text_that_ends_no_line() {
    let mut console = console(40, 8, false);
    assert_eq!((console.cols, console.rows), (5, 0));
    assert!(console.write_str("ab\rXYZ").is_empty());
    assert_eq!((console.col, console.row), (3, 0));
    assert!(console.write_char('\t').is_empty());
    assert_eq!((console.col, console.row), (4, 0));
    assert!(console.surface.pixels.iter().all(|pixel| *pixel == BLACK));
}
