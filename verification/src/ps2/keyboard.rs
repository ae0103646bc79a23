//! The keyboard: scancodes of set one, the US layout, and the queue of events.
use vstd::prelude::*;
use std::collections::VecDeque;
use crate::machine::{Io, Machine};
use crate::ps2::{
    cmd_data_run, cmd_run, config_run, first_port_run, read_config, read_first_port_data, send_cmd,
    try_first_run, try_read_first_port_byte, write_config, write_data, write_run, ControllerConfig,
    Ps2Controller, Ps2ControllerError, CMD_ENABLE_FIRST, CMD_WRITE_CONFIG, POLL_LIMIT,
};

verus! {

pub const KBD_RESET: u8 = 0xFF;
pub const KBD_DISABLE_SCANNING: u8 = 0xF5;
pub const KBD_ENABLE_SCANNING: u8 = 0xF4;
pub const KBD_SET_SCANCODE_SET: u8 = 0xF0;
pub const KBD_SET_LEDS: u8 = 0xED;
pub const SCANCODE_SET_1: u8 = 0x01;
pub const ACK: u8 = 0xFA;
pub const RESEND: u8 = 0xFE;
pub const SELF_TEST_PASSED: u8 = 0xAA;
/// Times a command is sent at most.
pub const COMMAND_RETRIES: usize = 3;
/// Events that are kept.
pub const EVENT_QUEUE_CAPACITY: usize = 1024;
/// Bytes behind the first one of the Pause key.
pub const PAUSE_LENGTH: u8 = 5;

#[derive(Debug, Clone, Copy, PartialEq, Eq, Structural)]
pub enum Ps2KeyboardError {
    ControllerNotInitialized,
    Controller(Ps2ControllerError),
    /// The keyboard refused a command.
    BadResponse,
    SelfTestFailed,
}

impl From<Ps2ControllerError> for Ps2KeyboardError {
    fn from(error: Ps2ControllerError) -> (wrapped: Self) {
        Ps2KeyboardError::Controller(error)
    }
}

impl vstd::std_specs::convert::FromSpecImpl<Ps2ControllerError> for Ps2KeyboardError {
    open spec fn obeys_from_spec() -> bool {
        true
    }

    open spec fn from_spec(error: Ps2ControllerError) -> Ps2KeyboardError {
        Ps2KeyboardError::Controller(error)
    }
}

/// Keys that are held and locks that are on.
#[derive(Debug, Clone, Copy, PartialEq, Eq, Structural)]
pub struct KeyModifiers {
    pub bits: u16,
}

impl KeyModifiers {
    pub const LEFT_SHIFT: u16 = 0x0001;
    pub const RIGHT_SHIFT: u16 = 0x0002;
    pub const LEFT_CTRL: u16 = 0x0004;
    pub const RIGHT_CTRL: u16 = 0x0008;
    pub const LEFT_ALT: u16 = 0x0010;
    pub const RIGHT_ALT: u16 = 0x0020;
    pub const LEFT_SUPER: u16 = 0x0040;
    pub const RIGHT_SUPER: u16 = 0x0080;
    pub const CAPS_LOCK: u16 = 0x0100;
    pub const NUM_LOCK: u16 = 0x0200;
    pub const SCROLL_LOCK: u16 = 0x0400;
    /// Every bit that is defined.
    pub const ALL: u16 = 0x07FF;

    pub open spec fn has(self, mask: u16) -> bool {
        self.bits & mask == mask
    }

    pub open spec fn any(self, mask: u16) -> bool {
        self.bits & mask != 0
    }

    pub fn empty() -> (none: Self)
        ensures
            none.bits == 0,
    {
        KeyModifiers { bits: 0 }
    }

    /// The defined bits of a number.
    pub fn from_bits_truncate(bits: u16) -> (modifiers: Self)
        ensures
            modifiers.bits == bits & Self::ALL,
    {
        KeyModifiers { bits: bits & Self::ALL }
    }

    pub fn bits(self) -> (bits: u16)
        ensures
            bits == self.bits,
    {
        self.bits
    }

    /// Whether every bit of `mask` is set.
    pub fn contains(self, mask: u16) -> (all: bool)
        ensures
            all == self.has(mask),
    {
        self.bits & mask == mask
    }

    /// Whether a bit of `mask` is set.
    pub fn intersects(self, mask: u16) -> (any: bool)
        ensures
            any == self.any(mask),
    {
        self.bits & mask != 0
    }

    /// Set or clear the bits of `mask`.
    pub fn set(&mut self, mask: u16, value: bool)
        ensures
            final(self).bits == (if value {
                old(self).bits | mask
            } else {
                old(self).bits & !mask
            }),
    {
        if value {
            self.bits = self.bits | mask;
        } else {
            self.bits = self.bits & !mask;
        }
    }

    /// Turn the bits of `mask` over.
    pub fn toggle(&mut self, mask: u16)
        ensures
            final(self).bits == old(self).bits ^ mask,
    {
        self.bits = self.bits ^ mask;
    }

    /// Either Shift key is held.
    pub fn shift(self) -> (held: bool)
        ensures
            held == self.any(Self::LEFT_SHIFT | Self::RIGHT_SHIFT),
    {
        self.intersects(Self::LEFT_SHIFT | Self::RIGHT_SHIFT)
    }

    /// Either Control key is held.
    pub fn control(self) -> (held: bool)
        ensures
            held == self.any(Self::LEFT_CTRL | Self::RIGHT_CTRL),
    {
        self.intersects(Self::LEFT_CTRL | Self::RIGHT_CTRL)
    }

    /// Either Alt key is held.
    pub fn alt(self) -> (held: bool)
        ensures
            held == self.any(Self::LEFT_ALT | Self::RIGHT_ALT),
    {
        self.intersects(Self::LEFT_ALT | Self::RIGHT_ALT)
    }
}

/// Physical keys.
#[derive(Debug, Clone, Copy, PartialEq, Eq, Structural)]
pub enum KeyCode {
    Escape,
    Digit1,
    Digit2,
    Digit3,
    Digit4,
    Digit5,
    Digit6,
    Digit7,
    Digit8,
    Digit9,
    Digit0,
    Minus,
    Equal,
    Backspace,
    Tab,
    Q,
    W,
    E,
    R,
    T,
    Y,
    U,
    I,
    O,
    P,
    LeftBracket,
    RightBracket,
    Enter,
    LeftCtrl,
    A,
    S,
    D,
    F,
    G,
    H,
    J,
    K,
    L,
    Semicolon,
    Apostrophe,
    Grave,
    LeftShift,
    Backslash,
    Z,
    X,
    C,
    V,
    B,
    N,
    M,
    Comma,
    Period,
    Slash,
    RightShift,
    NumpadMultiply,
    LeftAlt,
    Space,
    CapsLock,
    F1,
    F2,
    F3,
    F4,
    F5,
    F6,
    F7,
    F8,
    F9,
    F10,
    F11,
    F12,
    NumLock,
    ScrollLock,
    Numpad7,
    Numpad8,
    Numpad9,
    NumpadSubtract,
    Numpad4,
    Numpad5,
    Numpad6,
    NumpadAdd,
    Numpad1,
    Numpad2,
    Numpad3,
    Numpad0,
    NumpadDecimal,
    NumpadEnter,
    NumpadDivide,
    RightCtrl,
    RightAlt,
    Home,
    ArrowUp,
    PageUp,
    ArrowLeft,
    ArrowRight,
    End,
    ArrowDown,
    PageDown,
    Insert,
    Delete,
    LeftSuper,
    RightSuper,
    Menu,
    PrintScreen,
    Pause,
    Unknown(u16),
}

/// The key behind a scancode.
pub open spec fn key_of(code: u8, extended: bool) -> KeyCode {
    if extended {
        match code {
            0x1C => KeyCode::NumpadEnter,
            0x1D => KeyCode::RightCtrl,
            0x35 => KeyCode::NumpadDivide,
            0x37 => KeyCode::PrintScreen,
            0x38 => KeyCode::RightAlt,
            0x47 => KeyCode::Home,
            0x48 => KeyCode::ArrowUp,
            0x49 => KeyCode::PageUp,
            0x4B => KeyCode::ArrowLeft,
            0x4D => KeyCode::ArrowRight,
            0x4F => KeyCode::End,
            0x50 => KeyCode::ArrowDown,
            0x51 => KeyCode::PageDown,
            0x52 => KeyCode::Insert,
            0x53 => KeyCode::Delete,
            0x5B => KeyCode::LeftSuper,
            0x5C => KeyCode::RightSuper,
            0x5D => KeyCode::Menu,
            _ => KeyCode::Unknown(0xE000 | (code as u16)),
        }
    } else {
        match code {
            0x01 => KeyCode::Escape,
            0x02 => KeyCode::Digit1,
            0x03 => KeyCode::Digit2,
            0x04 => KeyCode::Digit3,
            0x05 => KeyCode::Digit4,
            0x06 => KeyCode::Digit5,
            0x07 => KeyCode::Digit6,
            0x08 => KeyCode::Digit7,
            0x09 => KeyCode::Digit8,
            0x0A => KeyCode::Digit9,
            0x0B => KeyCode::Digit0,
            0x0C => KeyCode::Minus,
            0x0D => KeyCode::Equal,
            0x0E => KeyCode::Backspace,
            0x0F => KeyCode::Tab,
            0x10 => KeyCode::Q,
            0x11 => KeyCode::W,
            0x12 => KeyCode::E,
            0x13 => KeyCode::R,
            0x14 => KeyCode::T,
            0x15 => KeyCode::Y,
            0x16 => KeyCode::U,
            0x17 => KeyCode::I,
            0x18 => KeyCode::O,
            0x19 => KeyCode::P,
            0x1A => KeyCode::LeftBracket,
            0x1B => KeyCode::RightBracket,
            0x1C => KeyCode::Enter,
            0x1D => KeyCode::LeftCtrl,
            0x1E => KeyCode::A,
            0x1F => KeyCode::S,
            0x20 => KeyCode::D,
            0x21 => KeyCode::F,
            0x22 => KeyCode::G,
            0x23 => KeyCode::H,
            0x24 => KeyCode::J,
            0x25 => KeyCode::K,
            0x26 => KeyCode::L,
            0x27 => KeyCode::Semicolon,
            0x28 => KeyCode::Apostrophe,
            0x29 => KeyCode::Grave,
            0x2A => KeyCode::LeftShift,
            0x2B => KeyCode::Backslash,
            0x2C => KeyCode::Z,
            0x2D => KeyCode::X,
            0x2E => KeyCode::C,
            0x2F => KeyCode::V,
            0x30 => KeyCode::B,
            0x31 => KeyCode::N,
            0x32 => KeyCode::M,
            0x33 => KeyCode::Comma,
            0x34 => KeyCode::Period,
            0x35 => KeyCode::Slash,
            0x36 => KeyCode::RightShift,
            0x37 => KeyCode::NumpadMultiply,
            0x38 => KeyCode::LeftAlt,
            0x39 => KeyCode::Space,
            0x3A => KeyCode::CapsLock,
            0x3B => KeyCode::F1,
            0x3C => KeyCode::F2,
            0x3D => KeyCode::F3,
            0x3E => KeyCode::F4,
            0x3F => KeyCode::F5,
            0x40 => KeyCode::F6,
            0x41 => KeyCode::F7,
            0x42 => KeyCode::F8,
            0x43 => KeyCode::F9,
            0x44 => KeyCode::F10,
            0x45 => KeyCode::NumLock,
            0x46 => KeyCode::ScrollLock,
            0x47 => KeyCode::Numpad7,
            0x48 => KeyCode::Numpad8,
            0x49 => KeyCode::Numpad9,
            0x4A => KeyCode::NumpadSubtract,
            0x4B => KeyCode::Numpad4,
            0x4C => KeyCode::Numpad5,
            0x4D => KeyCode::Numpad6,
            0x4E => KeyCode::NumpadAdd,
            0x4F => KeyCode::Numpad1,
            0x50 => KeyCode::Numpad2,
            0x51 => KeyCode::Numpad3,
            0x52 => KeyCode::Numpad0,
            0x53 => KeyCode::NumpadDecimal,
            0x57 => KeyCode::F11,
            0x58 => KeyCode::F12,
            _ => KeyCode::Unknown(code as u16),
        }
    }
}

/// The key behind a scancode.
pub fn decode_key(code: u8, extended: bool) -> (key: KeyCode)
    ensures
        key == key_of(code, extended),
{
    if extended {
        match code {
            0x1C => KeyCode::NumpadEnter,
            0x1D => KeyCode::RightCtrl,
            0x35 => KeyCode::NumpadDivide,
            0x37 => KeyCode::PrintScreen,
            0x38 => KeyCode::RightAlt,
            0x47 => KeyCode::Home,
            0x48 => KeyCode::ArrowUp,
            0x49 => KeyCode::PageUp,
            0x4B => KeyCode::ArrowLeft,
            0x4D => KeyCode::ArrowRight,
            0x4F => KeyCode::End,
            0x50 => KeyCode::ArrowDown,
            0x51 => KeyCode::PageDown,
            0x52 => KeyCode::Insert,
            0x53 => KeyCode::Delete,
            0x5B => KeyCode::LeftSuper,
            0x5C => KeyCode::RightSuper,
            0x5D => KeyCode::Menu,
            _ => KeyCode::Unknown(0xE000 | (code as u16)),
        }
    } else {
        match code {
            0x01 => KeyCode::Escape,
            0x02 => KeyCode::Digit1,
            0x03 => KeyCode::Digit2,
            0x04 => KeyCode::Digit3,
            0x05 => KeyCode::Digit4,
            0x06 => KeyCode::Digit5,
            0x07 => KeyCode::Digit6,
            0x08 => KeyCode::Digit7,
            0x09 => KeyCode::Digit8,
            0x0A => KeyCode::Digit9,
            0x0B => KeyCode::Digit0,
            0x0C => KeyCode::Minus,
            0x0D => KeyCode::Equal,
            0x0E => KeyCode::Backspace,
            0x0F => KeyCode::Tab,
            0x10 => KeyCode::Q,
            0x11 => KeyCode::W,
            0x12 => KeyCode::E,
            0x13 => KeyCode::R,
            0x14 => KeyCode::T,
            0x15 => KeyCode::Y,
            0x16 => KeyCode::U,
            0x17 => KeyCode::I,
            0x18 => KeyCode::O,
            0x19 => KeyCode::P,
            0x1A => KeyCode::LeftBracket,
            0x1B => KeyCode::RightBracket,
            0x1C => KeyCode::Enter,
            0x1D => KeyCode::LeftCtrl,
            0x1E => KeyCode::A,
            0x1F => KeyCode::S,
            0x20 => KeyCode::D,
            0x21 => KeyCode::F,
            0x22 => KeyCode::G,
            0x23 => KeyCode::H,
            0x24 => KeyCode::J,
            0x25 => KeyCode::K,
            0x26 => KeyCode::L,
            0x27 => KeyCode::Semicolon,
            0x28 => KeyCode::Apostrophe,
            0x29 => KeyCode::Grave,
            0x2A => KeyCode::LeftShift,
            0x2B => KeyCode::Backslash,
            0x2C => KeyCode::Z,
            0x2D => KeyCode::X,
            0x2E => KeyCode::C,
            0x2F => KeyCode::V,
            0x30 => KeyCode::B,
            0x31 => KeyCode::N,
            0x32 => KeyCode::M,
            0x33 => KeyCode::Comma,
            0x34 => KeyCode::Period,
            0x35 => KeyCode::Slash,
            0x36 => KeyCode::RightShift,
            0x37 => KeyCode::NumpadMultiply,
            0x38 => KeyCode::LeftAlt,
            0x39 => KeyCode::Space,
            0x3A => KeyCode::CapsLock,
            0x3B => KeyCode::F1,
            0x3C => KeyCode::F2,
            0x3D => KeyCode::F3,
            0x3E => KeyCode::F4,
            0x3F => KeyCode::F5,
            0x40 => KeyCode::F6,
            0x41 => KeyCode::F7,
            0x42 => KeyCode::F8,
            0x43 => KeyCode::F9,
            0x44 => KeyCode::F10,
            0x45 => KeyCode::NumLock,
            0x46 => KeyCode::ScrollLock,
            0x47 => KeyCode::Numpad7,
            0x48 => KeyCode::Numpad8,
            0x49 => KeyCode::Numpad9,
            0x4A => KeyCode::NumpadSubtract,
            0x4B => KeyCode::Numpad4,
            0x4C => KeyCode::Numpad5,
            0x4D => KeyCode::Numpad6,
            0x4E => KeyCode::NumpadAdd,
            0x4F => KeyCode::Numpad1,
            0x50 => KeyCode::Numpad2,
            0x51 => KeyCode::Numpad3,
            0x52 => KeyCode::Numpad0,
            0x53 => KeyCode::NumpadDecimal,
            0x57 => KeyCode::F11,
            0x58 => KeyCode::F12,
            _ => KeyCode::Unknown(code as u16),
        }
    }
}

/// The small and the capital letter of a key.
pub open spec fn letter(code: KeyCode) -> Option<(char, char)> {
    match code {
        KeyCode::A => Some(('a', 'A')),
        KeyCode::B => Some(('b', 'B')),
        KeyCode::C => Some(('c', 'C')),
        KeyCode::D => Some(('d', 'D')),
        KeyCode::E => Some(('e', 'E')),
        KeyCode::F => Some(('f', 'F')),
        KeyCode::G => Some(('g', 'G')),
        KeyCode::H => Some(('h', 'H')),
        KeyCode::I => Some(('i', 'I')),
        KeyCode::J => Some(('j', 'J')),
        KeyCode::K => Some(('k', 'K')),
        KeyCode::L => Some(('l', 'L')),
        KeyCode::M => Some(('m', 'M')),
        KeyCode::N => Some(('n', 'N')),
        KeyCode::O => Some(('o', 'O')),
        KeyCode::P => Some(('p', 'P')),
        KeyCode::Q => Some(('q', 'Q')),
        KeyCode::R => Some(('r', 'R')),
        KeyCode::S => Some(('s', 'S')),
        KeyCode::T => Some(('t', 'T')),
        KeyCode::U => Some(('u', 'U')),
        KeyCode::V => Some(('v', 'V')),
        KeyCode::W => Some(('w', 'W')),
        KeyCode::X => Some(('x', 'X')),
        KeyCode::Y => Some(('y', 'Y')),
        KeyCode::Z => Some(('z', 'Z')),
        _ => None,
    }
}

fn letter_of(code: KeyCode) -> (pair: Option<(char, char)>)
    ensures
        pair == letter(code),
{
    match code {
        KeyCode::A => Some(('a', 'A')),
        KeyCode::B => Some(('b', 'B')),
        KeyCode::C => Some(('c', 'C')),
        KeyCode::D => Some(('d', 'D')),
        KeyCode::E => Some(('e', 'E')),
        KeyCode::F => Some(('f', 'F')),
        KeyCode::G => Some(('g', 'G')),
        KeyCode::H => Some(('h', 'H')),
        KeyCode::I => Some(('i', 'I')),
        KeyCode::J => Some(('j', 'J')),
        KeyCode::K => Some(('k', 'K')),
        KeyCode::L => Some(('l', 'L')),
        KeyCode::M => Some(('m', 'M')),
        KeyCode::N => Some(('n', 'N')),
        KeyCode::O => Some(('o', 'O')),
        KeyCode::P => Some(('p', 'P')),
        KeyCode::Q => Some(('q', 'Q')),
        KeyCode::R => Some(('r', 'R')),
        KeyCode::S => Some(('s', 'S')),
        KeyCode::T => Some(('t', 'T')),
        KeyCode::U => Some(('u', 'U')),
        KeyCode::V => Some(('v', 'V')),
        KeyCode::W => Some(('w', 'W')),
        KeyCode::X => Some(('x', 'X')),
        KeyCode::Y => Some(('y', 'Y')),
        KeyCode::Z => Some(('z', 'Z')),
        _ => None,
    }
}

/// What a key gives without and with Shift.
pub open spec fn symbol(code: KeyCode) -> Option<(char, char)> {
    match code {
        KeyCode::Digit1 => Some(('1', '!')),
        KeyCode::Digit2 => Some(('2', '@')),
        KeyCode::Digit3 => Some(('3', '#')),
        KeyCode::Digit4 => Some(('4', '$')),
        KeyCode::Digit5 => Some(('5', '%')),
        KeyCode::Digit6 => Some(('6', '^')),
        KeyCode::Digit7 => Some(('7', '&')),
        KeyCode::Digit8 => Some(('8', '*')),
        KeyCode::Digit9 => Some(('9', '(')),
        KeyCode::Digit0 => Some(('0', ')')),
        KeyCode::Minus => Some(('-', '_')),
        KeyCode::Equal => Some(('=', '+')),
        KeyCode::LeftBracket => Some(('[', '{')),
        KeyCode::RightBracket => Some((']', '}')),
        KeyCode::Backslash => Some(('\\', '|')),
        KeyCode::Semicolon => Some((';', ':')),
        KeyCode::Apostrophe => Some(('\'', '"')),
        KeyCode::Grave => Some(('`', '~')),
        KeyCode::Comma => Some((',', '<')),
        KeyCode::Period => Some(('.', '>')),
        KeyCode::Slash => Some(('/', '?')),
        _ => None,
    }
}

fn symbol_of(code: KeyCode) -> (pair: Option<(char, char)>)
    ensures
        pair == symbol(code),
{
    match code {
        KeyCode::Digit1 => Some(('1', '!')),
        KeyCode::Digit2 => Some(('2', '@')),
        KeyCode::Digit3 => Some(('3', '#')),
        KeyCode::Digit4 => Some(('4', '$')),
        KeyCode::Digit5 => Some(('5', '%')),
        KeyCode::Digit6 => Some(('6', '^')),
        KeyCode::Digit7 => Some(('7', '&')),
        KeyCode::Digit8 => Some(('8', '*')),
        KeyCode::Digit9 => Some(('9', '(')),
        KeyCode::Digit0 => Some(('0', ')')),
        KeyCode::Minus => Some(('-', '_')),
        KeyCode::Equal => Some(('=', '+')),
        KeyCode::LeftBracket => Some(('[', '{')),
        KeyCode::RightBracket => Some((']', '}')),
        KeyCode::Backslash => Some(('\\', '|')),
        KeyCode::Semicolon => Some((';', ':')),
        KeyCode::Apostrophe => Some(('\'', '"')),
        KeyCode::Grave => Some(('`', '~')),
        KeyCode::Comma => Some((',', '<')),
        KeyCode::Period => Some(('.', '>')),
        KeyCode::Slash => Some(('/', '?')),
        _ => None,
    }
}

/// What a key gives whatever else is held.
pub open spec fn control(code: KeyCode) -> Option<char> {
    match code {
        KeyCode::Space => Some(' '),
        KeyCode::Tab => Some('\t'),
        KeyCode::Enter => Some('\n'),
        KeyCode::NumpadEnter => Some('\n'),
        KeyCode::Backspace => Some('\u{8}'),
        KeyCode::Escape => Some('\u{1b}'),
        KeyCode::NumpadMultiply => Some('*'),
        KeyCode::NumpadDivide => Some('/'),
        KeyCode::NumpadSubtract => Some('-'),
        KeyCode::NumpadAdd => Some('+'),
        _ => None,
    }
}

fn control_of(code: KeyCode) -> (character: Option<char>)
    ensures
        character == control(code),
{
    match code {
        KeyCode::Space => Some(' '),
        KeyCode::Tab => Some('\t'),
        KeyCode::Enter => Some('\n'),
        KeyCode::NumpadEnter => Some('\n'),
        KeyCode::Backspace => Some('\u{8}'),
        KeyCode::Escape => Some('\u{1b}'),
        KeyCode::NumpadMultiply => Some('*'),
        KeyCode::NumpadDivide => Some('/'),
        KeyCode::NumpadSubtract => Some('-'),
        KeyCode::NumpadAdd => Some('+'),
        _ => None,
    }
}

/// What a key of the number block gives while Num Lock is on.
pub open spec fn numpad(code: KeyCode) -> Option<char> {
    match code {
        KeyCode::Numpad0 => Some('0'),
        KeyCode::Numpad1 => Some('1'),
        KeyCode::Numpad2 => Some('2'),
        KeyCode::Numpad3 => Some('3'),
        KeyCode::Numpad4 => Some('4'),
        KeyCode::Numpad5 => Some('5'),
        KeyCode::Numpad6 => Some('6'),
        KeyCode::Numpad7 => Some('7'),
        KeyCode::Numpad8 => Some('8'),
        KeyCode::Numpad9 => Some('9'),
        KeyCode::NumpadDecimal => Some('.'),
        _ => None,
    }
}

fn numpad_of(code: KeyCode) -> (character: Option<char>)
    ensures
        character == numpad(code),
{
    match code {
        KeyCode::Numpad0 => Some('0'),
        KeyCode::Numpad1 => Some('1'),
        KeyCode::Numpad2 => Some('2'),
        KeyCode::Numpad3 => Some('3'),
        KeyCode::Numpad4 => Some('4'),
        KeyCode::Numpad5 => Some('5'),
        KeyCode::Numpad6 => Some('6'),
        KeyCode::Numpad7 => Some('7'),
        KeyCode::Numpad8 => Some('8'),
        KeyCode::Numpad9 => Some('9'),
        KeyCode::NumpadDecimal => Some('.'),
        _ => None,
    }
}

/// The character of a key on the US layout.  A letter is a capital one where
/// Shift is held or Caps Lock is on, but not both.
pub open spec fn character_of(code: KeyCode, modifiers: KeyModifiers) -> Option<char> {
    let shift = modifiers.any(KeyModifiers::LEFT_SHIFT | KeyModifiers::RIGHT_SHIFT);
    let caps = modifiers.has(KeyModifiers::CAPS_LOCK);
    match letter(code) {
        Some((small, capital)) => Some(
            if shift != caps {
                capital
            } else {
                small
            },
        ),
        None => match symbol(code) {
            Some((plain, shifted)) => Some(
                if shift {
                    shifted
                } else {
                    plain
                },
            ),
            None => match control(code) {
                Some(character) => Some(character),
                None => if modifiers.has(KeyModifiers::NUM_LOCK) {
                    numpad(code)
                } else {
                    None
                },
            },
        },
    }
}

/// The character of a key on the US layout.
pub fn key_character(code: KeyCode, modifiers: KeyModifiers) -> (character: Option<char>)
    ensures
        character == character_of(code, modifiers),
{
    let shift: bool = modifiers.shift();
    let caps: bool = modifiers.contains(KeyModifiers::CAPS_LOCK);
    if let Some((small, capital)) = letter_of(code) {
        return Some(
            if shift != caps {
                capital
            } else {
                small
            },
        );
    }
    if let Some((plain, shifted)) = symbol_of(code) {
        return Some(
            if shift {
                shifted
            } else {
                plain
            },
        );
    }
    if let Some(character) = control_of(code) {
        return Some(character);
    }
    if modifiers.contains(KeyModifiers::NUM_LOCK) {
        numpad_of(code)
    } else {
        None
    }
}

/// One key that went down, stayed down or came up.
#[derive(Debug, Clone, Copy, PartialEq, Eq, Structural)]
pub struct KeyEvent {
    pub code: KeyCode,
    /// Whether the key is down.
    pub pressed: bool,
    /// What it gives, where it went down and gives something.
    pub character: Option<char>,
    /// What is held and on behind this event.
    pub modifiers: KeyModifiers,
    /// The scancode; `0xE000` is set for an extended one.
    pub raw_scancode: u16,
    /// Whether the key was down already.
    pub repeat: bool,
}

/// The bit of a key that counts while it is held.
pub open spec fn held_bit(code: KeyCode) -> Option<u16> {
    match code {
        KeyCode::LeftShift => Some(KeyModifiers::LEFT_SHIFT),
        KeyCode::RightShift => Some(KeyModifiers::RIGHT_SHIFT),
        KeyCode::LeftCtrl => Some(KeyModifiers::LEFT_CTRL),
        KeyCode::RightCtrl => Some(KeyModifiers::RIGHT_CTRL),
        KeyCode::LeftAlt => Some(KeyModifiers::LEFT_ALT),
        KeyCode::RightAlt => Some(KeyModifiers::RIGHT_ALT),
        KeyCode::LeftSuper => Some(KeyModifiers::LEFT_SUPER),
        KeyCode::RightSuper => Some(KeyModifiers::RIGHT_SUPER),
        _ => None,
    }
}

/// The bit of a key that turns something on and off.
pub open spec fn lock_bit(code: KeyCode) -> Option<u16> {
    match code {
        KeyCode::CapsLock => Some(KeyModifiers::CAPS_LOCK),
        KeyCode::NumLock => Some(KeyModifiers::NUM_LOCK),
        KeyCode::ScrollLock => Some(KeyModifiers::SCROLL_LOCK),
        _ => None,
    }
}

/// Byte `index` behind the first one of the Pause key, counted from one.
pub open spec fn pause_byte(index: u8) -> u8 {
    if index == 1 {
        0x1D
    } else if index == 2 {
        0x45
    } else if index == 3 {
        0xE1
    } else if index == 4 {
        0x9D
    } else {
        0xC5
    }
}

/// What is known of the keyboard.
#[derive(Debug)]
pub struct KeyboardState {
    pub events: VecDeque<KeyEvent>,
    pub modifiers: KeyModifiers,
    pub pressed: [bool; 256],
    pub extended: bool,
    pub pause_index: u8,
    pub initialized: bool,
    pub leds_dirty: bool,
    pub dropped_events: u64,
    pub bus_errors: u64,
}

/// The same, apart from how it is held.
#[verifier::ext_equal]
pub struct KeyboardModel {
    pub events: Seq<KeyEvent>,
    pub modifiers: KeyModifiers,
    pub pressed: Seq<bool>,
    pub extended: bool,
    pub pause_index: u8,
    pub initialized: bool,
    pub leds_dirty: bool,
    pub dropped_events: u64,
    pub bus_errors: u64,
}

impl View for KeyboardState {
    type V = KeyboardModel;

    open spec fn view(&self) -> KeyboardModel {
        KeyboardModel {
            events: self.events@,
            modifiers: self.modifiers,
            pressed: self.pressed@,
            extended: self.extended,
            pause_index: self.pause_index,
            initialized: self.initialized,
            leds_dirty: self.leds_dirty,
            dropped_events: self.dropped_events,
            bus_errors: self.bus_errors,
        }
    }
}

/// The number of a key: extended ones follow the others.
pub open spec fn key_id(code_byte: u8, extended: bool) -> int {
    code_byte as int + if extended {
        128int
    } else {
        0int
    }
}

impl KeyboardModel {
    /// No key is down, and nothing waits.
    pub open spec fn fresh() -> KeyboardModel {
        KeyboardModel {
            events: Seq::empty(),
            modifiers: KeyModifiers { bits: 0 },
            pressed: Seq::new(256, |i: int| false),
            extended: false,
            pause_index: 0,
            initialized: false,
            leds_dirty: false,
            dropped_events: 0,
            bus_errors: 0,
        }
    }

    /// Whether the queue is no longer than it may be, the Pause key is not
    /// read past its end, and every key is known.
    pub open spec fn wf(self) -> bool {
        &&& self.events.len() <= EVENT_QUEUE_CAPACITY
        &&& self.pause_index <= PAUSE_LENGTH
        &&& self.pressed.len() == 256
    }

    /// The modifiers behind a key: one that counts while held follows it, a
    /// lock turns over when its key goes down.
    pub open spec fn modified(self, code: KeyCode, pressed: bool, was_down: bool) -> KeyboardModel {
        match held_bit(code) {
            Some(bit) => KeyboardModel {
                modifiers: KeyModifiers {
                    bits: if pressed {
                        self.modifiers.bits | bit
                    } else {
                        self.modifiers.bits & !bit
                    },
                },
                ..self
            },
            None => match lock_bit(code) {
                Some(bit) => if pressed && !was_down {
                    KeyboardModel {
                        modifiers: KeyModifiers { bits: self.modifiers.bits ^ bit },
                        leds_dirty: true,
                        ..self
                    }
                } else {
                    self
                },
                None => self,
            },
        }
    }

    /// A scancode that is no prefix and no part of the Pause key.
    pub open spec fn key_run(self, byte: u8) -> (Option<KeyEvent>, KeyboardModel) {
        let extended = self.extended;
        let base = KeyboardModel { extended: false, ..self };
        let pressed = byte & 0x80 == 0;
        let code_byte = byte & 0x7F;
        if extended && (code_byte == 0x2A || code_byte == 0x36) {
            (None, base)
        } else {
            let code = key_of(code_byte, extended);
            let id = key_id(code_byte, extended);
            let was_down = self.pressed[id];
            let after = KeyboardModel { pressed: self.pressed.update(id, pressed), ..base }.modified(
                code,
                pressed,
                was_down,
            );
            (
                Some(
                    KeyEvent {
                        code,
                        pressed,
                        character: if pressed {
                            character_of(code, after.modifiers)
                        } else {
                            None
                        },
                        modifiers: after.modifiers,
                        raw_scancode: if extended {
                            0xE000 | (code_byte as u16)
                        } else {
                            code_byte as u16
                        },
                        repeat: pressed && was_down,
                    },
                ),
                after,
            )
        }
    }

    /// A byte inside the Pause key.
    pub open spec fn pause_run(self, byte: u8) -> (Option<KeyEvent>, KeyboardModel) {
        if byte != pause_byte(self.pause_index) {
            (
                None,
                KeyboardModel {
                    pause_index: if byte == 0xE1 {
                        1
                    } else {
                        0
                    },
                    ..self
                },
            )
        } else if self.pause_index < PAUSE_LENGTH {
            (None, KeyboardModel { pause_index: (self.pause_index + 1) as u8, ..self })
        } else {
            (
                Some(
                    KeyEvent {
                        code: KeyCode::Pause,
                        pressed: true,
                        character: None,
                        modifiers: self.modifiers,
                        raw_scancode: 0xE11D,
                        repeat: false,
                    },
                ),
                KeyboardModel { pause_index: 0, ..self },
            )
        }
    }

    /// The event that a byte completes, and what is known behind it.
    pub open spec fn feed_run(self, byte: u8) -> (Option<KeyEvent>, KeyboardModel) {
        if self.pause_index != 0 {
            self.pause_run(byte)
        } else if byte == 0xE0 {
            (None, KeyboardModel { extended: true, ..self })
        } else if byte == 0xE1 {
            (None, KeyboardModel { extended: false, pause_index: 1, ..self })
        } else {
            self.key_run(byte)
        }
    }

    /// With one more event; where there is no room, the oldest one goes.
    pub open spec fn queued(self, event: KeyEvent) -> KeyboardModel {
        if self.events.len() < EVENT_QUEUE_CAPACITY {
            KeyboardModel { events: self.events.push(event), ..self }
        } else {
            KeyboardModel {
                events: self.events.skip(1).push(event),
                dropped_events: if self.dropped_events == u64::MAX {
                    u64::MAX
                } else {
                    (self.dropped_events + 1) as u64
                },
                ..self
            }
        }
    }
}

proof fn lemma_seven_bits(byte: u8)
    by (bit_vector)
    ensures
        byte & 0x7F < 128,
        (byte & 0x7F) as u16 | 0x80 == (byte & 0x7F) + 128,
{
}

impl KeyboardState {
    /// Nothing is pressed and nothing is queued.
    pub fn new() -> (state: Self)
        ensures
            state@ == KeyboardModel::fresh(),
            state@.wf(),
    {
        KeyboardState {
            events: VecDeque::new(),
            modifiers: KeyModifiers::empty(),
            pressed: crate::bits::no_flags(),
            extended: false,
            pause_index: 0,
            initialized: false,
            leds_dirty: false,
            dropped_events: 0,
            bus_errors: 0,
        }
    }

    fn is_down(&self, id: usize) -> (down: bool)
        requires
            id < 256,
        ensures
            down == self@.pressed[id as int],
    {
        self.pressed[id]
    }

    fn set_down(&mut self, id: usize, down: bool)
        requires
            id < 256,
        ensures
            final(self)@ == (KeyboardModel {
                pressed: old(self)@.pressed.update(id as int, down),
                ..old(self)@
            }),
    {
        self.pressed[id] = down;
    }

    fn feed_pause(&mut self, byte: u8) -> (event: Option<KeyEvent>)
        requires
            old(self)@.wf(),
            old(self)@.pause_index != 0,
        ensures
            (event, final(self)@) == old(self)@.pause_run(byte),
    {
        let expected: u8 = match self.pause_index {
            1 => 0x1D,
            2 => 0x45,
            3 => 0xE1,
            4 => 0x9D,
            _ => 0xC5,
        };
        if byte != expected {
            self.pause_index = if byte == 0xE1 {
                1
            } else {
                0
            };
            return None;
        }
        self.pause_index = self.pause_index + 1;
        if self.pause_index <= PAUSE_LENGTH {
            return None;
        }
        self.pause_index = 0;
        Some(
            KeyEvent {
                code: KeyCode::Pause,
                pressed: true,
                character: None,
                modifiers: self.modifiers,
                raw_scancode: 0xE11D,
                repeat: false,
            },
        )
    }

    /// Take in one byte, and give the event that it completes.
    pub fn feed(&mut self, byte: u8) -> (event: Option<KeyEvent>)
        requires
            old(self)@.wf(),
        ensures
            (event, final(self)@) == old(self)@.feed_run(byte),
            final(self)@.wf(),
    {
        if self.pause_index != 0 {
            return self.feed_pause(byte);
        }
        if byte == 0xE0 {
            self.extended = true;
            return None;
        }
        if byte == 0xE1 {
            self.extended = false;
            self.pause_index = 1;
            return None;
        }
        let extended: bool = self.extended;
        self.extended = false;
        let pressed: bool = byte & 0x80 == 0;
        let code_byte: u8 = byte & 0x7F;
        if extended && (code_byte == 0x2A || code_byte == 0x36) {
            return None;
        }
        proof {
            lemma_seven_bits(byte);
        }
        let code: KeyCode = decode_key(code_byte, extended);
        let id: usize = code_byte as usize + if extended {
            128
        } else {
            0
        };
        let was_down: bool = self.is_down(id);
        self.set_down(id, pressed);
        self.update_modifiers(code, pressed, was_down);
        let raw: u16 = if extended {
            0xE000 | (code_byte as u16)
        } else {
            code_byte as u16
        };
        Some(
            KeyEvent {
                code,
                pressed,
                character: if pressed {
                    key_character(code, self.modifiers)
                } else {
                    None
                },
                modifiers: self.modifiers,
                raw_scancode: raw,
                repeat: pressed && was_down,
            },
        )
    }

    fn update_modifiers(&mut self, code: KeyCode, pressed: bool, was_down: bool)
        ensures
            final(self)@ == old(self)@.modified(code, pressed, was_down),
    {
        let momentary: Option<u16> = match code {
            KeyCode::LeftShift => Some(KeyModifiers::LEFT_SHIFT),
            KeyCode::RightShift => Some(KeyModifiers::RIGHT_SHIFT),
            KeyCode::LeftCtrl => Some(KeyModifiers::LEFT_CTRL),
            KeyCode::RightCtrl => Some(KeyModifiers::RIGHT_CTRL),
            KeyCode::LeftAlt => Some(KeyModifiers::LEFT_ALT),
            KeyCode::RightAlt => Some(KeyModifiers::RIGHT_ALT),
            KeyCode::LeftSuper => Some(KeyModifiers::LEFT_SUPER),
            KeyCode::RightSuper => Some(KeyModifiers::RIGHT_SUPER),
            _ => None,
        };
        if let Some(flag) = momentary {
            self.modifiers.set(flag, pressed);
            return ;
        }
        if pressed && !was_down {
            let lock: Option<u16> = match code {
                KeyCode::CapsLock => Some(KeyModifiers::CAPS_LOCK),
                KeyCode::NumLock => Some(KeyModifiers::NUM_LOCK),
                KeyCode::ScrollLock => Some(KeyModifiers::SCROLL_LOCK),
                _ => None,
            };
            if let Some(flag) = lock {
                self.modifiers.toggle(flag);
                self.leds_dirty = true;
            }
        }
    }

    /// Queue an event; where there is no room, the oldest one goes.
    pub fn enqueue(&mut self, event: KeyEvent)
        requires
            old(self)@.wf(),
        ensures
            final(self)@ == old(self)@.queued(event),
            final(self)@.wf(),
    {
        if self.events.len() < EVENT_QUEUE_CAPACITY {
            self.events.push_back(event);
        } else {
            let _ = self.events.pop_front();
            self.events.push_back(event);
            self.dropped_events = self.dropped_events.saturating_add(1);
            assert(self.events@ =~= old(self)@.events.skip(1).push(event));
        }
    }
}

/// Send a command until the keyboard takes it, `tries` times at most.
pub open spec fn command_run(command: u8, tries: nat, io: Io) -> (Result<
    (),
    Ps2KeyboardError,
>, Io)
    decreases tries,
{
    if tries == 0 {
        (Err(Ps2KeyboardError::BadResponse), io)
    } else {
        match write_run(command, io) {
            (Err(error), io) => (Err(Ps2KeyboardError::Controller(error)), io),
            (Ok(_), io) => match first_port_run(POLL_LIMIT as nat, io) {
                (Err(error), io) => (Err(Ps2KeyboardError::Controller(error)), io),
                (Ok(answer), io) => if answer == ACK {
                    (Ok(()), io)
                } else if answer == RESEND {
                    command_run(command, (tries - 1) as nat, io)
                } else {
                    (Err(Ps2KeyboardError::BadResponse), io)
                },
            },
        }
    }
}

/// Send one command after the other.
pub open spec fn commands_run(commands: Seq<u8>, from: int, io: Io) -> (Result<
    (),
    Ps2KeyboardError,
>, Io)
    decreases commands.len() - from,
{
    if from >= commands.len() {
        (Ok(()), io)
    } else {
        match command_run(commands[from], COMMAND_RETRIES as nat, io) {
            (Err(error), io) => (Err(error), io),
            (Ok(_), io) => commands_run(commands, from + 1, io),
        }
    }
}

fn keyboard_command<M: Machine>(machine: &mut M, command: u8) -> (result: Result<
    (),
    Ps2KeyboardError,
>)
    ensures
        (result, final(machine).io()) == command_run(
            command,
            COMMAND_RETRIES as nat,
            old(machine).io(),
        ),
{
    let mut tries: usize = COMMAND_RETRIES;
    while tries > 0
        invariant
            command_run(command, COMMAND_RETRIES as nat, old(machine).io()) == command_run(
                command,
                tries as nat,
                machine.io(),
            ),
        decreases tries,
    {
        match write_data(machine, command) {
            Ok(_) => {},
            Err(error) => {
                return Err(Ps2KeyboardError::Controller(error));
            },
        }
        let answer: u8 = match read_first_port_data(machine) {
            Ok(answer) => answer,
            Err(error) => {
                return Err(Ps2KeyboardError::Controller(error));
            },
        };
        if answer == ACK {
            return Ok(());
        }
        if answer != RESEND {
            return Err(Ps2KeyboardError::BadResponse);
        }
        tries = tries - 1;
    }
    Err(Ps2KeyboardError::BadResponse)
}

fn keyboard_commands<M: Machine>(machine: &mut M, commands: &[u8]) -> (result: Result<
    (),
    Ps2KeyboardError,
>)
    ensures
        (result, final(machine).io()) == commands_run(commands@, 0, old(machine).io()),
{
    let mut i: usize = 0;
    while i < commands.len()
        invariant
            i <= commands@.len(),
            commands_run(commands@, 0, old(machine).io()) == commands_run(
                commands@,
                i as int,
                machine.io(),
            ),
        decreases commands@.len() - i,
    {
        match keyboard_command(machine, commands[i]) {
            Ok(_) => {},
            Err(error) => {
                return Err(error);
            },
        }
        i = i + 1;
    }
    Ok(())
}

/// The byte that sets the lights.
pub open spec fn light_byte(modifiers: KeyModifiers) -> u8 {
    (if modifiers.has(KeyModifiers::SCROLL_LOCK) {
        1u8
    } else {
        0u8
    }) | (if modifiers.has(KeyModifiers::NUM_LOCK) {
        2u8
    } else {
        0u8
    }) | (if modifiers.has(KeyModifiers::CAPS_LOCK) {
        4u8
    } else {
        0u8
    })
}

/// The byte that sets the lights.
pub fn led_bits(modifiers: KeyModifiers) -> (byte: u8)
    ensures
        byte == light_byte(modifiers),
{
    (if modifiers.contains(KeyModifiers::SCROLL_LOCK) {
        1u8
    } else {
        0u8
    }) | (if modifiers.contains(KeyModifiers::NUM_LOCK) {
        2u8
    } else {
        0u8
    }) | (if modifiers.contains(KeyModifiers::CAPS_LOCK) {
        4u8
    } else {
        0u8
    })
}

/// What is sent behind the reset: no scanning, set one, lights off, scanning.
pub open spec fn setup_commands() -> Seq<u8> {
    seq![
        KBD_DISABLE_SCANNING,
        KBD_SET_SCANCODE_SET,
        SCANCODE_SET_1,
        KBD_SET_LEDS,
        0u8,
        KBD_ENABLE_SCANNING,
    ]
}

/// Reset the keyboard and set it up.
pub open spec fn reset_run(io: Io) -> (Result<(), Ps2KeyboardError>, Io) {
    match cmd_run(CMD_ENABLE_FIRST, io) {
        (Err(error), io) => (Err(Ps2KeyboardError::Controller(error)), io),
        (Ok(_), io) => match commands_run(seq![KBD_DISABLE_SCANNING, KBD_RESET], 0, io) {
            (Err(error), io) => (Err(error), io),
            (Ok(_), io) => match first_port_run(POLL_LIMIT as nat, io) {
                (Err(error), io) => (Err(Ps2KeyboardError::Controller(error)), io),
                (Ok(answer), io) => if answer != SELF_TEST_PASSED {
                    (Err(Ps2KeyboardError::SelfTestFailed), io)
                } else {
                    commands_run(setup_commands(), 0, io)
                },
            },
        },
    }
}

/// The configuration with the keyboard's interrupt on, its clock running and
/// no translation; the bits of the second port stay.
pub open spec fn keyboard_config(bits: u8) -> u8 {
    (bits | (ControllerConfig::FIRST_INT & ControllerConfig::ALL)) & !(
    ControllerConfig::FIRST_CLK_DISABLED | ControllerConfig::TRANSLATION)
}

/// Let the controller pass the keyboard on.
pub open spec fn attach_run(io: Io) -> (Result<(), Ps2KeyboardError>, Io) {
    match config_run(io) {
        (Err(error), io) => (Err(Ps2KeyboardError::Controller(error)), io),
        (Ok(config), io) => match cmd_data_run(
            CMD_WRITE_CONFIG,
            keyboard_config(config.bits),
            io,
        ) {
            (Err(error), io) => (Err(Ps2KeyboardError::Controller(error)), io),
            (Ok(_), io) => (Ok(()), io),
        },
    }
}

impl KeyboardModel {
    /// Bring the keyboard up, once.
    pub open spec fn init_run(self, ready: bool, io: Io) -> (Result<
        (),
        Ps2KeyboardError,
    >, KeyboardModel, Io) {
        if !ready {
            (Err(Ps2KeyboardError::ControllerNotInitialized), self, io)
        } else if self.initialized {
            (Ok(()), self, io)
        } else {
            match reset_run(io) {
                (Err(error), io) => (Err(error), self, io),
                (Ok(_), io) => match attach_run(io) {
                    (Err(error), io) => (Err(error), self, io),
                    (Ok(_), io) => (
                        Ok(()),
                        KeyboardModel { initialized: true, leds_dirty: false, ..self },
                        io,
                    ),
                },
            }
        }
    }

    /// Serve the keyboard's interrupt.  A byte that comes before the keyboard
    /// is up is dropped.
    pub open spec fn irq_run(self, io: Io) -> (Option<KeyEvent>, KeyboardModel, Io) {
        match try_first_run(io) {
            (Err(_), io) => (
                None,
                KeyboardModel {
                    bus_errors: if self.bus_errors == u64::MAX {
                        u64::MAX
                    } else {
                        (self.bus_errors + 1) as u64
                    },
                    ..self
                },
                io,
            ),
            (Ok(None), io) => (None, self, io),
            (Ok(Some(byte)), io) => if self.initialized {
                let (event, after) = self.feed_run(byte);
                (event, after, io)
            } else {
                (None, self, io)
            },
        }
    }

    /// Set the lights, where they are not as they should be.
    pub open spec fn lights_run(self, io: Io) -> (Result<(), Ps2KeyboardError>, KeyboardModel, Io) {
        if !self.leds_dirty {
            (Ok(()), self, io)
        } else {
            match commands_run(seq![KBD_SET_LEDS, light_byte(self.modifiers)], 0, io) {
                (Err(error), io) => (Err(error), self, io),
                (Ok(_), io) => (Ok(()), KeyboardModel { leds_dirty: false, ..self }, io),
            }
        }
    }
}

fn reset_keyboard<M: Machine>(machine: &mut M) -> (result: Result<(), Ps2KeyboardError>)
    ensures
        (result, final(machine).io()) == reset_run(old(machine).io()),
{
    match send_cmd(machine, CMD_ENABLE_FIRST) {
        Ok(_) => {},
        Err(error) => {
            return Err(Ps2KeyboardError::Controller(error));
        },
    }
    let first: [u8; 2] = [KBD_DISABLE_SCANNING, KBD_RESET];
    assert(first@ =~= seq![KBD_DISABLE_SCANNING, KBD_RESET]);
    match keyboard_commands(machine, first.as_slice()) {
        Ok(_) => {},
        Err(error) => {
            return Err(error);
        },
    }
    match read_first_port_data(machine) {
        Ok(answer) => {
            if answer != SELF_TEST_PASSED {
                return Err(Ps2KeyboardError::SelfTestFailed);
            }
        },
        Err(error) => {
            return Err(Ps2KeyboardError::Controller(error));
        },
    }
    let rest: [u8; 6] = [
        KBD_DISABLE_SCANNING,
        KBD_SET_SCANCODE_SET,
        SCANCODE_SET_1,
        KBD_SET_LEDS,
        0,
        KBD_ENABLE_SCANNING,
    ];
    assert(rest@ =~= setup_commands());
    keyboard_commands(machine, rest.as_slice())
}

fn attach_keyboard<M: Machine>(machine: &mut M) -> (result: Result<(), Ps2KeyboardError>)
    ensures
        (result, final(machine).io()) == attach_run(old(machine).io()),
{
    let mut config: ControllerConfig = match read_config(machine) {
        Ok(config) => config,
        Err(error) => {
            return Err(Ps2KeyboardError::Controller(error));
        },
    };
    config.insert(ControllerConfig::FIRST_INT);
    config.remove(ControllerConfig::FIRST_CLK_DISABLED | ControllerConfig::TRANSLATION);
    match write_config(machine, config) {
        Ok(_) => Ok(()),
        Err(error) => Err(Ps2KeyboardError::Controller(error)),
    }
}

/// Bring the keyboard up.
pub fn init<M: Machine>(
    state: &mut KeyboardState,
    controller: &Ps2Controller,
    machine: &mut M,
) -> (result: Result<(), Ps2KeyboardError>)
    ensures
        (result, final(state)@, final(machine).io()) == old(state)@.init_run(
            controller.initialized,
            old(machine).io(),
        ),
{
    if !controller.initialized {
        return Err(Ps2KeyboardError::ControllerNotInitialized);
    }
    if state.initialized {
        return Ok(());
    }
    match reset_keyboard(machine) {
        Ok(_) => {},
        Err(error) => {
            return Err(error);
        },
    }
    match attach_keyboard(machine) {
        Ok(_) => {},
        Err(error) => {
            return Err(error);
        },
    }
    state.initialized = true;
    state.leds_dirty = false;
    Ok(())
}

/// Serve the keyboard's interrupt: take at most one byte, and give the event
/// that it completes.
pub fn handle_interrupt<M: Machine>(state: &mut KeyboardState, machine: &mut M) -> (event: Option<
    KeyEvent,
>)
    requires
        old(state)@.wf(),
    ensures
        (event, final(state)@, final(machine).io()) == old(state)@.irq_run(old(machine).io()),
        final(state)@.wf(),
{
    match try_read_first_port_byte(machine) {
        Ok(Some(byte)) => {
            if !state.initialized {
                return None;
            }
            state.feed(byte)
        },
        Ok(None) => None,
        Err(_) => {
            state.bus_errors = state.bus_errors.saturating_add(1);
            None
        },
    }
}

/// Queue an event for the console.
pub fn enqueue_console_event(state: &mut KeyboardState, event: KeyEvent)
    requires
        old(state)@.wf(),
    ensures
        final(state)@ == old(state)@.queued(event),
        final(state)@.wf(),
{
    state.enqueue(event);
}

/// Take the oldest event.
pub fn pop_event(state: &mut KeyboardState) -> (event: Option<KeyEvent>)
    ensures
        old(state)@.events.len() == 0 ==> event is None && final(state)@ == old(state)@,
        old(state)@.events.len() > 0 ==> event == Some(old(state)@.events[0]) && final(state)@
            =~= (KeyboardModel { events: old(state)@.events.skip(1), ..old(state)@ }),
{
    state.events.pop_front()
}

/// How many events are queued.
pub fn pending_events(state: &KeyboardState) -> (count: usize)
    ensures
        count == state@.events.len(),
{
    state.events.len()
}

/// Drop all queued events, and a scancode that is only half there.
pub fn clear_events(state: &mut KeyboardState)
    ensures
        final(state)@ == (KeyboardModel {
            events: Seq::empty(),
            extended: false,
            pause_index: 0,
            ..old(state)@
        }),
{
    state.events.clear();
    state.extended = false;
    state.pause_index = 0;
}

/// What is held and on.
pub fn modifiers(state: &KeyboardState) -> (modifiers: KeyModifiers)
    ensures
        modifiers == state@.modifiers,
{
    state.modifiers
}

/// Whether the keyboard came up.
pub fn is_initialized(state: &KeyboardState) -> (initialized: bool)
    ensures
        initialized == state@.initialized,
{
    state.initialized
}

/// How many events went for want of room.
pub fn dropped_events(state: &KeyboardState) -> (count: u64)
    ensures
        count == state@.dropped_events,
{
    state.dropped_events
}

/// Set the lights, where they are not as they should be.
pub fn sync_leds<M: Machine>(state: &mut KeyboardState, machine: &mut M) -> (result: Result<
    (),
    Ps2KeyboardError,
>)
    ensures
        (result, final(state)@, final(machine).io()) == old(state)@.lights_run(old(machine).io()),
{
    if !state.leds_dirty {
        return Ok(());
    }
    let commands: [u8; 2] = [KBD_SET_LEDS, led_bits(state.modifiers)];
    assert(commands@ =~= seq![KBD_SET_LEDS, light_byte(state.modifiers)]);
    match keyboard_commands(machine, commands.as_slice()) {
        Ok(_) => {
            state.leds_dirty = false;
            Ok(())
        },
        Err(error) => Err(error),
    }
}

/// Feeding a byte never touches the queue, and keeps everything well formed.
pub proof fn lemma_feed_keeps_queue(state: KeyboardModel, byte: u8)
    requires
        state.wf(),
    ensures
        state.feed_run(byte).1.events == state.events,
        state.feed_run(byte).1.dropped_events == state.dropped_events,
        state.feed_run(byte).1.wf(),
{
    lemma_seven_bits(byte);
}

/// The six bytes of the Pause key give one event, behind the last byte, and
/// leave no key down.
pub proof fn lemma_pause_is_one_event(state: KeyboardModel)
    requires
        state.wf(),
        state.pause_index == 0,
    ensures
        ({
            let (a, s1) = state.feed_run(0xE1);
            let (b, s2) = s1.feed_run(0x1D);
            let (c, s3) = s2.feed_run(0x45);
            let (d, s4) = s3.feed_run(0xE1);
            let (e, s5) = s4.feed_run(0x9D);
            let (f, s6) = s5.feed_run(0xC5);
            &&& a is None && b is None && c is None && d is None && e is None
            &&& f is Some && f->0.code == KeyCode::Pause
            &&& s6 == (KeyboardModel { extended: false, ..state })
        }),
{
}

/// The shifts inside the PrintScreen sequence change nothing but the prefix.
pub proof fn lemma_fake_shifts_are_ignored(state: KeyboardModel, byte: u8)
    requires
        state.pause_index == 0,
        byte == 0x2A || byte == 0x36 || byte == 0xAA || byte == 0xB6,
    ensures
        ({
            let (a, s1) = state.feed_run(0xE0);
            let (b, s2) = s1.feed_run(byte);
            a is None && b is None && s2 == (KeyboardModel { extended: false, ..state })
        }),
{
    lemma_shift_codes();
}

proof fn lemma_shift_codes()
    by (bit_vector)
    ensures
        0x2Au8 & 0x7F == 0x2A,
        0x36u8 & 0x7F == 0x36,
        0xAAu8 & 0x7F == 0x2A,
        0xB6u8 & 0x7F == 0x36,
{
}

proof fn lemma_break_code(code: u8)
    by (bit_vector)
    requires
        code < 0x80,
    ensures
        code & 0x80 == 0,
        code & 0x7F == code,
        (code | 0x80) & 0x80 != 0,
        (code | 0x80) & 0x7F == code,
{
}

/// A key that goes down gives a press, one that stays down gives a repeat, and
/// one that comes up gives a release without a character.
pub proof fn lemma_make_repeat_break(state: KeyboardModel, code: u8)
    requires
        state.wf(),
        state.pause_index == 0,
        !state.extended,
        code < 0x60,
        !state.pressed[code as int],
    ensures
        ({
            let (make, s1) = state.feed_run(code);
            let (again, s2) = s1.feed_run(code);
            let (release, s3) = s2.feed_run(code | 0x80);
            &&& make is Some && make->0.pressed && !make->0.repeat
            &&& again is Some && again->0.pressed && again->0.repeat
            &&& again->0.modifiers == make->0.modifiers || held_bit(make->0.code) is Some
            &&& release is Some && !release->0.pressed && release->0.character is None
            &&& !s3.pressed[code as int]
        }),
{
    lemma_break_code(code);
    lemma_no_prefix(code);
}

proof fn lemma_no_prefix(code: u8)
    by (bit_vector)
    requires
        code < 0x60,
    ensures
        code | 0x80 != 0xE0,
        code | 0x80 != 0xE1,
{
}

/// A lock turns over once for each time its key goes down, however long it is
/// held.
pub proof fn lemma_lock_ignores_repeat(state: KeyboardModel, code: KeyCode)
    requires
        lock_bit(code) is Some,
    ensures
        state.modified(code, true, true) == state,
        state.modified(code, false, true) == state,
        state.modified(code, true, false).modifiers.bits == state.modifiers.bits ^ lock_bit(
            code,
        )->0,
{
}

/// A full queue keeps the newest events, in order.
pub proof fn lemma_queue_keeps_newest(state: KeyboardModel, event: KeyEvent)
    requires
        state.wf(),
    ensures
        state.queued(event).wf(),
        state.queued(event).events.last() == event,
        state.events.len() == EVENT_QUEUE_CAPACITY ==> state.queued(event).events.drop_last()
            =~= state.events.skip(1),
        state.events.len() < EVENT_QUEUE_CAPACITY ==> state.queued(event).events.drop_last()
            =~= state.events,
{
}

proof fn lemma_config_parts(bits: u8)
    by (bit_vector)
    ensures
        ({
            let c = (bits | (0x01u8 & 0x7F)) & !(0x10u8 | 0x40u8);
            &&& c & 0x01 != 0
            &&& c & 0x50 == 0
            &&& c & 0x22 == bits & 0x22
        }),
{
}

/// Bringing the keyboard up leaves the second port's bits alone.
pub proof fn lemma_keyboard_config_spares_mouse(bits: u8)
    ensures
        keyboard_config(bits) & ControllerConfig::FIRST_INT != 0,
        keyboard_config(bits) & 0x50 == 0,
        keyboard_config(bits) & 0x22 == bits & 0x22,
{
    lemma_config_parts(bits);
}

} // verus!
