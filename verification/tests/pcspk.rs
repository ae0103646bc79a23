use xenith_devices::machine::{Access, Order, Place, Query, ScriptedMachine};
use xenith_devices::pcspk::{beep, freq_to_divider, init, is_beeping, silence, Speaker};

#[test]
fn divider_is_nearest_and_clamped() {
    assert_eq!(freq_to_divider(0), (0, 0));
    assert_eq!(freq_to_divider(440), (2712, 439));
    assert_eq!(freq_to_divider(1000), (1193, 1000));
    assert_eq!(freq_to_divider(1), (65535, 18));
    assert_eq!(freq_to_divider(19), (62799, 19));
    assert_eq!(freq_to_divider(18), (65535, 18));
    assert_eq!(freq_to_divider(700_000), (2, 596_591));
    assert_eq!(freq_to_divider(2_000_000), (1, 1_193_182));
    assert_eq!(freq_to_divider(u32::MAX), (1, 1_193_182));
}

#[test]
fn tone_lasts_until_its_deadline() {
    let mut speaker = Speaker::new();
    let mut machine = ScriptedMachine::new(vec![0x202, 0xF0, 5, 1_000_004, 3_000_005, 0x46, 0xF3], 0);
    beep(&mut speaker, &mut machine, 440, 3);
    assert!(!is_beeping(&speaker));
    let port = |port: u16, value: u8| Access::Write8(Place::Port(port), value);
    assert_eq!(
        machine.accesses(),
        &vec![
            Access::Ask(Query::MaskInterrupts),
            port(0x43, 0xB6),
            port(0x42, 0x98),
            port(0x42, 0x0A),
            Access::Read8(Place::Port(0x61)),
            port(0x61, 0xF3),
            Access::Tell(Order::RestoreInterrupts(0x202)),
            Access::Ask(Query::UptimeNs),
            Access::Ask(Query::UptimeNs),
            Access::Ask(Query::UptimeNs),
            Access::Ask(Query::MaskInterrupts),
            Access::Read8(Place::Port(0x61)),
            port(0x61, 0xF0),
            Access::Tell(Order::RestoreInterrupts(0x46)),
        ]
    );
}

#[test]
fn clock_that_does_not_run_is_not_waited_for() {
    let mut speaker = Speaker::new();
    let mut machine = ScriptedMachine::new(vec![1, 0x30, 0, 1, 0x33], 0);
    beep(&mut speaker, &mut machine, 440, 1000);
    assert_eq!(machine.accesses().len(), 12);
    assert!(!is_beeping(&speaker));
}

#[test]
fn nothing_to_play_touches_nothing() {
    let mut speaker = Speaker { beeping: true };
    let mut machine = ScriptedMachine::new(Vec::new(), 0);
    beep(&mut speaker, &mut machine, 0, 10);
    beep(&mut speaker, &mut machine, 10, 0);
    assert!(machine.accesses().is_empty());
    assert!(is_beeping(&speaker));
    silence(&mut speaker, &mut machine);
    assert!(!is_beeping(&speaker));
    assert_eq!(machine.accesses().len(), 4);
    silence(&mut speaker, &mut machine);
    assert_eq!(machine.accesses().len(), 4);
}

#[test]
fn speaker_starts_silent() {
    let mut speaker = Speaker { beeping: true };
    let mut machine = ScriptedMachine::new(vec![1, 0xFF], 0);
    init(&mut speaker, &mut machine);
    assert!(!is_beeping(&speaker));
    assert_eq!(
        machine.accesses()[2],
        Access::Write8(Place::Port(0x61), 0xFC)
    );
}

#[test]
fn long_tones_stop_at_the_last_moment() {
    let mut speaker = Speaker::new();
    let mut machine = ScriptedMachine::new(vec![1, 0, 7, u64::MAX - 1, u64::MAX], 0);
    beep(&mut speaker, &mut machine, 100, u64::MAX);
    assert_eq!(machine.accesses().len(), 14);
}
