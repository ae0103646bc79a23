//! Which key gives what, told by where it lies.
use vstd::prelude::*;
use crate::ps2::keyboard::{character_of, key_of, light_byte, KeyCode, KeyModifiers, KeyboardModel};

verus! {

/// What the four rows of the keyboard give without Shift, by scancode.
pub open spec fn plain_char(code: u8) -> char {
    if 0x02 <= code <= 0x0D {
        seq!['1', '2', '3', '4', '5', '6', '7', '8', '9', '0', '-', '='][code - 0x02]
    } else if 0x10 <= code <= 0x1B {
        seq!['q', 'w', 'e', 'r', 't', 'y', 'u', 'i', 'o', 'p', '[', ']'][code - 0x10]
    } else if 0x1E <= code <= 0x29 {
        seq!['a', 's', 'd', 'f', 'g', 'h', 'j', 'k', 'l', ';', '\'', '`'][code - 0x1E]
    } else {
        seq!['\\', 'z', 'x', 'c', 'v', 'b', 'n', 'm', ',', '.', '/'][code - 0x2B]
    }
}

/// What they give with Shift.
pub open spec fn shifted_char(code: u8) -> char {
    if 0x02 <= code <= 0x0D {
        seq!['!', '@', '#', '$', '%', '^', '&', '*', '(', ')', '_', '+'][code - 0x02]
    } else if 0x10 <= code <= 0x1B {
        seq!['Q', 'W', 'E', 'R', 'T', 'Y', 'U', 'I', 'O', 'P', '{', '}'][code - 0x10]
    } else if 0x1E <= code <= 0x29 {
        seq!['A', 'S', 'D', 'F', 'G', 'H', 'J', 'K', 'L', ':', '"', '~'][code - 0x1E]
    } else {
        seq!['|', 'Z', 'X', 'C', 'V', 'B', 'N', 'M', '<', '>', '?'][code - 0x2B]
    }
}

/// Whether a scancode is one of the four rows.
pub open spec fn is_in_rows(code: u8) -> bool {
    0x02 <= code <= 0x0D || 0x10 <= code <= 0x1B || 0x1E <= code <= 0x29 || 0x2B <= code <= 0x35
}

/// Whether a scancode is that of a letter.
pub open spec fn is_letter(code: u8) -> bool {
    0x10 <= code <= 0x19 || 0x1E <= code <= 0x26 || 0x2C <= code <= 0x32
}

/// Every key of the four rows gives what is printed on it: the upper character
/// while one of the Shift keys is held.  Caps Lock turns that over for letters,
/// and means nothing to other keys.
pub proof fn lemma_rows_give_their_characters(code: u8, modifiers: KeyModifiers)
    requires
        is_in_rows(code),
    ensures
        ({
            let shift = modifiers.bits & (0x0001u16 | 0x0002u16) != 0;
            let caps = modifiers.bits & 0x0100 == 0x0100;
            character_of(key_of(code, false), modifiers) == Some(
                if is_letter(code) {
                    if shift != caps {
                        shifted_char(code)
                    } else {
                        plain_char(code)
                    }
                } else if shift {
                    shifted_char(code)
                } else {
                    plain_char(code)
                },
            )
        }),
{
}

/// The keys of the number block give their numbers while Num Lock is on, and
/// nothing else; its signs, and the keys for space, tabulator, line end, erasing
/// and escape, give the same whatever is held.
pub proof fn lemma_other_keys_give_their_characters(code: u8, modifiers: KeyModifiers)
    ensures
        ({
            let given = |code: u8, extended: bool| character_of(key_of(code, extended), modifiers);
            let pad = seq!['7', '8', '9', '-', '4', '5', '6', '+', '1', '2', '3', '0', '.'];
            &&& 0x47 <= code <= 0x53 && code != 0x4A && code != 0x4E ==> given(code, false) == (
            if modifiers.bits & 0x0200 == 0x0200 {
                Some(pad[code - 0x47])
            } else {
                None
            })
            &&& given(0x4A, false) == Some('-')
            &&& given(0x4E, false) == Some('+')
            &&& given(0x37, false) == Some('*')
            &&& given(0x35, true) == Some('/')
            &&& given(0x39, false) == Some(' ')
            &&& given(0x0F, false) == Some('\t')
            &&& given(0x1C, false) == Some('\n')
            &&& given(0x1C, true) == Some('\n')
            &&& given(0x0E, false) == Some('\u{8}')
            &&& given(0x01, false) == Some('\u{1b}')
            &&& 0x3A <= code <= 0x46 || 0x57 <= code <= 0x58 || code == 0x1D || code == 0x2A
                || code == 0x36 || code == 0x38 ==> given(code, false) is None
            &&& code != 0x1C && code != 0x35 ==> given(code, true) is None
        }),
{
}

/// The keys that give no character, by scancode.
pub proof fn lemma_keys_by_scancode(code: u8)
    ensures
        key_of(0x3B, false) == KeyCode::F1,
        key_of(0x3C, false) == KeyCode::F2,
        key_of(0x3D, false) == KeyCode::F3,
        key_of(0x3E, false) == KeyCode::F4,
        key_of(0x3F, false) == KeyCode::F5,
        key_of(0x40, false) == KeyCode::F6,
        key_of(0x41, false) == KeyCode::F7,
        key_of(0x42, false) == KeyCode::F8,
        key_of(0x43, false) == KeyCode::F9,
        key_of(0x44, false) == KeyCode::F10,
        key_of(0x57, false) == KeyCode::F11,
        key_of(0x58, false) == KeyCode::F12,
        key_of(0x47, true) == KeyCode::Home,
        key_of(0x48, true) == KeyCode::ArrowUp,
        key_of(0x49, true) == KeyCode::PageUp,
        key_of(0x4B, true) == KeyCode::ArrowLeft,
        key_of(0x4D, true) == KeyCode::ArrowRight,
        key_of(0x4F, true) == KeyCode::End,
        key_of(0x50, true) == KeyCode::ArrowDown,
        key_of(0x51, true) == KeyCode::PageDown,
        key_of(0x52, true) == KeyCode::Insert,
        key_of(0x53, true) == KeyCode::Delete,
        key_of(0x37, true) == KeyCode::PrintScreen,
        key_of(0x5D, true) == KeyCode::Menu,
        key_of(0x1C, true) == KeyCode::NumpadEnter,
        key_of(0x1C, false) == KeyCode::Enter,
        key_of(0x35, true) == KeyCode::NumpadDivide,
        key_of(0x37, false) == KeyCode::NumpadMultiply,
        code > 0x58 || 0x54 <= code <= 0x56 || code == 0 ==> key_of(code, false)
            == KeyCode::Unknown(code as u16),
{
}

/// The bit that a key counts for while it is held, by scancode; a prefixed one is
/// on the right.
pub open spec fn held_mask(code: u8, extended: bool) -> u16 {
    if extended {
        if code == 0x1D {
            0x08
        } else if code == 0x38 {
            0x20
        } else if code == 0x5B {
            0x40
        } else if code == 0x5C {
            0x80
        } else {
            0
        }
    } else {
        if code == 0x2A {
            0x01
        } else if code == 0x36 {
            0x02
        } else if code == 0x1D {
            0x04
        } else if code == 0x38 {
            0x10
        } else {
            0
        }
    }
}

/// The bit that a key turns over.
pub open spec fn lock_mask(code: u8, extended: bool) -> u16 {
    if extended {
        0
    } else if code == 0x3A {
        0x0100
    } else if code == 0x45 {
        0x0200
    } else if code == 0x46 {
        0x0400
    } else {
        0
    }
}

proof fn lemma_byte_parts(code: u8, bits: u16)
    by (bit_vector)
    ensures
        code < 0x80 ==> code & 0x80 == 0 && code & 0x7F == code && (code | 0x80) & 0x80 != 0 && (
        code | 0x80) & 0x7F == code,
        code < 0x60 ==> (code | 0x80) < 0xE0,
        bits & !0u16 == bits,
        bits | 0u16 == bits,
        bits ^ 0u16 == bits,
{
}

/// A scancode makes one event of its key, with what is held then: Shift, Ctrl, Alt
/// and the system keys count from when they go down to when they come up, and each
/// lock turns over when its key goes down, not when it repeats or comes up.
pub proof fn lemma_scancode_makes_event(state: KeyboardModel, code: u8)
    requires
        state.wf(),
        state.pause_index == 0,
        code < 0x60,
        state.extended ==> code != 0x2A && code != 0x36,
    ensures
        ({
            let extended = state.extended;
            let id = code as int + (if extended {
                128int
            } else {
                0int
            });
            let held = held_mask(code, extended);
            let lock = lock_mask(code, extended);
            let (down, after) = state.feed_run(code);
            let (up, later) = state.feed_run(code | 0x80);
            let bits = (state.modifiers.bits | held) ^ (if state.pressed[id] {
                0
            } else {
                lock
            });
            &&& down is Some
            &&& down->0.pressed
            &&& down->0.code == key_of(code, extended)
            &&& down->0.repeat == state.pressed[id]
            &&& down->0.modifiers.bits == bits
            &&& down->0.character == character_of(key_of(code, extended), down->0.modifiers)
            &&& after.modifiers == down->0.modifiers
            &&& after.pressed == state.pressed.update(id, true)
            &&& !after.extended
            &&& after.leds_dirty == (state.leds_dirty || (lock != 0 && !state.pressed[id]))
            &&& up is Some
            &&& !up->0.pressed
            &&& up->0.code == key_of(code, extended)
            &&& !up->0.repeat
            &&& up->0.character is None
            &&& later.modifiers.bits == state.modifiers.bits & !held
            &&& later.pressed == state.pressed.update(id, false)
            &&& later.leds_dirty == state.leds_dirty
        }),
{
    lemma_byte_parts(code, state.modifiers.bits);
    lemma_byte_parts(code, state.modifiers.bits | held_mask(code, state.extended));
}

/// The lights: bit zero for Scroll Lock, one for Num Lock, two for Caps Lock.
pub proof fn lemma_lights(modifiers: KeyModifiers)
    ensures
        ({
            let on = |mask: u16| modifiers.bits & mask == mask;
            let light = |mask: u16, bit: u8|
                if on(mask) {
                    bit
                } else {
                    0u8
                };
            light_byte(modifiers) == light(0x0400, 1) | light(0x0200, 2) | light(0x0100, 4)
        }),
{
}

} // verus!
