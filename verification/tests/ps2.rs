use xenith_devices::ps2::keyboard::{key_character, KeyCode, KeyModifiers, KeyboardState};
use xenith_devices::ps2::mouse::{
    decode_packet, sign_extend_4, sign_extend_9, MouseButtons, MouseEvent, PacketDecoder,
    BTN_BACK_BIT, BTN_FORWARD_BIT, BTN_LEFT_BIT, BTN_MIDDLE_BIT, BTN_RIGHT_BIT, SYNC_BIT,
    X_OVERFLOW_BIT, X_SIGN_BIT, Y_OVERFLOW_BIT, Y_SIGN_BIT,
};
use xenith_devices::ps2::{
    ControllerConfig, KEYBOARD_IRQ, MOUSE_IRQ, PORT_TEST_OK, SELF_TEST_OK, STS_FROM_AUX,
    STS_IN_FULL, STS_OUT_FULL, STS_PARITY, STS_TIMEOUT,
};

fn held(bits: u16) -> KeyModifiers {
    KeyModifiers::from_bits_truncate(bits)
}

#[test]
fn config_bits_are_disjoint() {
    let all = ControllerConfig::from_bits_truncate(
        ControllerConfig::FIRST_INT
            | ControllerConfig::SECOND_INT
            | ControllerConfig::SYSTEM_FLAG
            | ControllerConfig::FIRST_CLK_DISABLED
            | ControllerConfig::SECOND_CLK_DISABLED
            | ControllerConfig::TRANSLATION,
    );
    assert!(!all.contains(ControllerConfig::RESERVED_3));
    assert_ne!(all.bits(), 0);
    assert_eq!(all.bits() & (1 << 3), 0);
}

#[test]
fn config_round_trips_through_bits() {
    let cfg = ControllerConfig::from_bits_truncate(
        ControllerConfig::FIRST_INT | ControllerConfig::SECOND_INT,
    );
    let raw = cfg.bits();
    let back = ControllerConfig::from_bits_truncate(raw);
    assert_eq!(back, cfg);
}

#[test]
fn irq_constants_match_legacy_wiring() {
    assert_eq!(KEYBOARD_IRQ, 1);
    assert_eq!(MOUSE_IRQ, 12);
}

#[test]
fn self_test_and_port_test_constants_match_spec() {
    assert_eq!(SELF_TEST_OK, 0x55);
    assert_eq!(PORT_TEST_OK, 0x00);
}

#[test]
fn status_bits_are_disjoint() {
    assert_eq!(STS_OUT_FULL & STS_IN_FULL, 0);
    assert_eq!(STS_OUT_FULL & STS_FROM_AUX, 0);
    assert_eq!(STS_TIMEOUT & STS_PARITY, 0);
    assert_eq!(STS_TIMEOUT | STS_PARITY, 0xC0);
}

#[test]
fn letters_follow_shift_xor_caps() {
    assert_eq!(key_character(KeyCode::A, KeyModifiers::empty()), Some('a'));
    assert_eq!(
        key_character(KeyCode::A, held(KeyModifiers::LEFT_SHIFT)),
        Some('A')
    );
    assert_eq!(
        key_character(KeyCode::A, held(KeyModifiers::CAPS_LOCK)),
        Some('A')
    );
    assert_eq!(
        key_character(
            KeyCode::A,
            held(KeyModifiers::CAPS_LOCK | KeyModifiers::LEFT_SHIFT)
        ),
        Some('a')
    );
}

#[test]
fn make_break_and_repeat_are_tracked() {
    let mut state = KeyboardState::new();
    let first = state.feed(0x1E).unwrap();
    assert!(first.pressed);
    assert!(!first.repeat);
    assert_eq!(first.character, Some('a'));
    assert!(state.feed(0x1E).unwrap().repeat);
    let release = state.feed(0x9E).unwrap();
    assert!(!release.pressed);
    assert_eq!(release.character, None);
}

#[test]
fn extended_navigation_decodes() {
    let mut state = KeyboardState::new();
    assert!(state.feed(0xE0).is_none());
    let event = state.feed(0x48).unwrap();
    assert_eq!(event.code, KeyCode::ArrowUp);
    assert_eq!(event.raw_scancode, 0xE048);
}

#[test]
fn extended_left_super_preserves_raw_code_and_modifier_edges() {
    let mut state = KeyboardState::new();
    assert!(state.feed(0xE0).is_none());
    let make = state.feed(0x5B).unwrap();
    assert_eq!(make.code, KeyCode::LeftSuper);
    assert_eq!(make.raw_scancode, 0xE05B);
    assert!(make.pressed);
    assert!(!make.repeat);
    assert!(make.modifiers.contains(KeyModifiers::LEFT_SUPER));

    assert!(state.feed(0xE0).is_none());
    let release = state.feed(0xDB).unwrap();
    assert_eq!(release.code, KeyCode::LeftSuper);
    assert_eq!(release.raw_scancode, 0xE05B);
    assert!(!release.pressed);
    assert!(!release.modifiers.contains(KeyModifiers::LEFT_SUPER));
}

#[test]
fn pause_sequence_emits_one_event() {
    let mut state = KeyboardState::new();
    for byte in [0xE1, 0x1D, 0x45, 0xE1, 0x9D] {
        assert!(state.feed(byte).is_none());
    }
    assert_eq!(state.feed(0xC5).unwrap().code, KeyCode::Pause);
}

#[test]
fn lock_key_does_not_toggle_on_repeat() {
    let mut state = KeyboardState::new();
    let first = state.feed(0x3A).unwrap();
    assert!(first.modifiers.contains(KeyModifiers::CAPS_LOCK));
    let repeat = state.feed(0x3A).unwrap();
    assert!(repeat.repeat);
    assert!(repeat.modifiers.contains(KeyModifiers::CAPS_LOCK));
}

#[test]
fn decode_3byte_plain_motion() {
    let bytes = [SYNC_BIT, 5, 3];
    let ev = decode_packet(&bytes, false).expect("plain packet decodes");
    assert_eq!(ev.dx, 5);
    assert_eq!(ev.dy, -3, "Y must be negated to screen orientation");
    assert_eq!(ev.dz, 0, "no Z in 3-byte mode");
    assert!(ev.buttons.is_empty());
}

#[test]
fn decode_3byte_negative_x_with_sign() {
    let flags = BTN_LEFT_BIT | SYNC_BIT | X_SIGN_BIT;
    let bytes = [flags, 0xFE, 0];
    let ev = decode_packet(&bytes, false).expect("signed packet decodes");
    assert_eq!(ev.dx, -2, "0xFE with X_SIGN must sign-extend to -2");
    assert!(ev.buttons.contains(MouseButtons::LEFT));
}

#[test]
fn decode_full_negative_y() {
    let flags = SYNC_BIT | Y_SIGN_BIT;
    let bytes = [flags, 0, 0x00];
    let ev = decode_packet(&bytes, false).expect("full-negative Y decodes");
    assert_eq!(ev.dy, 256, "raw -256 negated to screen +256");
}

#[test]
fn decode_4byte_scroll_and_back_button() {
    let zbyte = 0x02 | BTN_BACK_BIT;
    let bytes = [SYNC_BIT, 0, 0, zbyte];
    let ev = decode_packet(&bytes, true).expect("4-byte packet decodes");
    assert_eq!(ev.dz, 2, "Z nibble 0x02 sign-extends to +2");
    assert!(ev.buttons.contains(MouseButtons::BACK));
    assert!(!ev.buttons.contains(MouseButtons::FORWARD));
}

#[test]
fn decode_4byte_negative_scroll() {
    let bytes = [SYNC_BIT, 0, 0, 0x08];
    let ev = decode_packet(&bytes, true).expect("negative scroll decodes");
    assert_eq!(ev.dz, -8);
}

#[test]
fn overflow_packet_is_dropped() {
    let bytes: [u8; 3] = [SYNC_BIT | X_OVERFLOW_BIT, 0, 0];
    assert!(decode_packet(&bytes, false).is_none());
}

#[test]
fn y_overflow_packet_is_dropped() {
    let bytes: [u8; 3] = [SYNC_BIT | Y_OVERFLOW_BIT, 0, 0];
    assert!(decode_packet(&bytes, false).is_none());
}

#[test]
fn feed_drops_desync_header() {
    let mut dec = PacketDecoder::new();
    assert!(dec.feed(0x00).is_none());
    assert_eq!(dec.index, 0);
    assert!(dec.feed(SYNC_BIT).is_none());
    assert_eq!(dec.index, 1);
}

#[test]
fn feed_assembles_3byte_packet() {
    let mut dec = PacketDecoder::new();
    assert!(dec.feed(SYNC_BIT | BTN_RIGHT_BIT).is_none());
    assert!(dec.feed(10).is_none());
    let ev = dec.feed(0).expect("third byte completes the packet");
    assert_eq!(ev.dx, 10);
    assert_eq!(ev.dy, 0);
    assert!(ev.buttons.contains(MouseButtons::RIGHT));
    assert_eq!(dec.index, 0, "index resets after a completed packet");
}

#[test]
fn feed_assembles_4byte_packet() {
    let mut dec = PacketDecoder::new();
    dec.four_byte = true;
    assert!(dec.feed(SYNC_BIT).is_none());
    assert!(dec.feed(1).is_none());
    assert!(
        dec.feed(2).is_none(),
        "three bytes do not complete a 4-byte packet"
    );
    let ev = dec.feed(0x01).expect("fourth byte completes the packet");
    assert_eq!(ev.dx, 1);
    assert_eq!(ev.dy, -2);
    assert_eq!(ev.dz, 1);
}

#[test]
fn sign_extend_9_ranges() {
    assert_eq!(sign_extend_9(false, 0), 0);
    assert_eq!(sign_extend_9(false, 255), 255);
    assert_eq!(sign_extend_9(true, 0), -256);
    assert_eq!(sign_extend_9(true, 1), -255);
    assert_eq!(sign_extend_9(true, 255), -1);
}

#[test]
fn sign_extend_4_ranges() {
    assert_eq!(sign_extend_4(0), 0);
    assert_eq!(sign_extend_4(7), 7);
    assert_eq!(sign_extend_4(8), -8);
    assert_eq!(sign_extend_4(0x0F), -1);
}

#[test]
fn button_flags_pack_correctly() {
    let all = MouseButtons::from_bits_truncate(
        MouseButtons::LEFT
            | MouseButtons::RIGHT
            | MouseButtons::MIDDLE
            | MouseButtons::BACK
            | MouseButtons::FORWARD,
    );
    assert_eq!(
        all.bits(),
        BTN_LEFT_BIT | BTN_RIGHT_BIT | BTN_MIDDLE_BIT | BTN_BACK_BIT | BTN_FORWARD_BIT
    );
    assert!(all.contains(MouseButtons::FORWARD));
}

#[test]
fn mouse_event_default_is_quiet() {
    let ev = MouseEvent::default();
    assert!(ev.buttons.is_empty());
    assert_eq!(ev.dx, 0);
    assert_eq!(ev.dy, 0);
    assert_eq!(ev.dz, 0);
}
