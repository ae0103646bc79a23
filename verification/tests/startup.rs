use std::collections::VecDeque;
use xenith_devices::machine::{Access, Io, Machine, Order, Place, Query};
use xenith_devices::pcspk::is_beeping;
use xenith_devices::ps2;
use xenith_devices::ps2::keyboard;
use xenith_devices::ps2::keyboard::{KeyCode, KeyboardState, Ps2KeyboardError};
use xenith_devices::ps2::mouse;
use xenith_devices::ps2::mouse::{MouseEvent, MouseState, Ps2MouseError};
use xenith_devices::ps2::{ControllerConfig, Ps2Controller, Ps2ControllerError};
use xenith_devices::startup::{init, System};

/// A machine with a keyboard, a mouse, a clock and an empty bus.
struct Pc {
    output: VecDeque<(u8, bool)>,
    config: u8,
    pending: u8,
    keyboard_argument: bool,
    mouse_argument: bool,
    rates: Vec<u8>,
    wheel: bool,
    dual: bool,
    self_test: u8,
    line_test: u8,
    deaf_after: Option<u8>,
    mouse_ack: u8,
    leds: Vec<u8>,
    aux_enabled: bool,
    first_enabled: bool,
    selected: u8,
    log: Vec<Access>,
}

impl Pc {
    fn new() -> Self {
        Pc {
            output: VecDeque::new(),
            config: 0x40,
            pending: 0,
            keyboard_argument: false,
            mouse_argument: false,
            rates: Vec::new(),
            wheel: true,
            dual: true,
            self_test: 0x55,
            line_test: 0,
            deaf_after: None,
            mouse_ack: 0xFA,
            leds: Vec::new(),
            aux_enabled: true,
            first_enabled: true,
            selected: 0,
            log: Vec::new(),
        }
    }

    fn command(&mut self, command: u8) {
        match command {
            0x20 => self.output.push_back((self.config, false)),
            0x60 | 0xD4 => self.pending = command,
            0xA7 => {
                self.aux_enabled = false;
                if self.dual {
                    self.config |= 0x20;
                }
            }
            0xA8 => {
                self.aux_enabled = true;
                self.config &= !0x20;
            }
            0xA9 | 0xAB if self.deaf_after == Some(command) => {}
            0xA9 | 0xAB => self.output.push_back((self.line_test, false)),
            0xAA => self.output.push_back((self.self_test, false)),
            0xAD => {
                self.first_enabled = false;
                self.config |= 0x10;
            }
            0xAE => {
                self.first_enabled = true;
                self.config &= !0x10;
            }
            _ => {}
        }
    }

    fn data(&mut self, byte: u8) {
        let pending = self.pending;
        self.pending = 0;
        match pending {
            0x60 => self.config = byte,
            0xD4 => self.to_mouse(byte),
            _ => self.to_keyboard(byte),
        }
    }

    fn to_keyboard(&mut self, byte: u8) {
        self.output.push_back((0xFA, false));
        if self.keyboard_argument {
            self.keyboard_argument = false;
            self.leds.push(byte);
        } else if byte == 0xFF {
            self.output.push_back((0xAA, false));
        } else if byte == 0xED || byte == 0xF0 {
            self.keyboard_argument = true;
        }
    }

    fn to_mouse(&mut self, byte: u8) {
        self.output.push_back((self.mouse_ack, true));
        if self.mouse_argument {
            self.mouse_argument = false;
            self.rates.push(byte);
        } else {
            match byte {
                0xFF => {
                    self.output.push_back((0xAA, true));
                    self.output.push_back((0x00, true));
                }
                0xF3 | 0xE8 => self.mouse_argument = true,
                0xF2 => {
                    let knocked = self.rates.ends_with(&[200, 100, 80]);
                    self.output
                        .push_back((if knocked && self.wheel { 3 } else { 0 }, true));
                }
                _ => {}
            }
        }
    }
}

impl Machine for Pc {
    fn io(&self) -> Io {
        unreachable!()
    }

    fn read8(&mut self, place: Place) -> u8 {
        self.log.push(Access::Read8(place));
        match place {
            Place::Port(0x64) => match self.output.front() {
                Some((_, true)) => 0x21,
                Some((_, false)) => 0x01,
                None => 0x00,
            },
            Place::Port(0x60) => self.output.pop_front().map_or(0, |(byte, _)| byte),
            Place::Port(0x71) => match self.selected {
                0x07 | 0x08 => 1,
                0x09 => 0x26,
                0x0B => 0x02,
                0x32 => 0x20,
                _ => 0,
            },
            _ => 0xFF,
        }
    }

    fn read16(&mut self, _place: Place) -> u16 {
        0xFFFF
    }

    fn read32(&mut self, _place: Place) -> u32 {
        0xFFFF_FFFF
    }

    fn read64(&mut self, _place: Place) -> u64 {
        0
    }

    fn write8(&mut self, place: Place, value: u8) {
        self.log.push(Access::Write8(place, value));
        match place {
            Place::Port(0x64) => self.command(value),
            Place::Port(0x60) => self.data(value),
            Place::Port(0x70) => self.selected = value & 0x7F,
            _ => {}
        }
    }

    fn write16(&mut self, _place: Place, _value: u16) {}

    fn write32(&mut self, _place: Place, _value: u32) {}

    fn write64(&mut self, _place: Place, _value: u64) {}

    fn ask(&mut self, query: Query) -> u64 {
        self.log.push(Access::Ask(query));
        match query {
            Query::IoApicCount => 1,
            Query::Route(_, _, _) => 1,
            _ => 0,
        }
    }

    fn tell(&mut self, order: Order) {
        self.log.push(Access::Tell(order));
    }
}

#[test]
fn everything_comes_up_in_order() {
    let mut machine = Pc::new();
    let mut system = System::new();
    let startup = init(&mut system, &mut machine, None);
    assert!(system.rng.seeded);
    let clock = startup.clock.unwrap();
    assert_eq!((clock.day, clock.month, clock.year), (1, 1, 2026));
    assert_eq!(startup.ps2, Ok(()));
    assert_eq!(startup.keyboard, Some(Ok(())));
    assert_eq!(startup.mouse, Some(Ok(())));
    assert!(ps2::is_initialized(&system.ps2));
    assert!(keyboard::is_initialized(&system.keyboard));
    assert!(mouse::is_initialized(&system.mouse));
    assert!(mouse::is_four_byte(&system.mouse));
    assert!(startup.discovery.found.is_empty());
    assert!(startup.discovery.bindings.is_empty());
    let keys: Vec<usize> = system.drivers.drivers.iter().map(|entry| entry.key).collect();
    assert_eq!(keys, vec![1, 2, 3, 4, 5]);
    assert_eq!(
        machine.log[0],
        Access::Write8(Place::Port(0x3F9), 0x00)
    );
    assert!(!is_beeping(&system.speaker));
    assert!(machine
        .log
        .contains(&Access::Write8(Place::Port(0x61), 0xFC)));
    assert_eq!(machine.config & 0x03, 0x03);
    assert_eq!(machine.config & 0x30, 0x00);
}

#[test]
fn failed_controller_keeps_nothing_else_from_coming_up() {
    let mut machine = Pc::new();
    machine.self_test = 0xFC;
    let mut system = System::new();
    let startup = init(&mut system, &mut machine, None);
    assert_eq!(startup.ps2, Err(Ps2ControllerError::SelfTestFailed));
    assert_eq!(startup.keyboard, None);
    assert_eq!(startup.mouse, None);
    assert!(!ps2::is_initialized(&system.ps2));
    assert_eq!(system.drivers.drivers.len(), 5);
}

#[test]
fn single_channel_has_no_mouse() {
    let mut machine = Pc::new();
    machine.dual = false;
    let mut system = System::new();
    let startup = init(&mut system, &mut machine, None);
    assert_eq!(startup.keyboard, Some(Ok(())));
    assert_eq!(startup.mouse, None);
    assert!(!ps2::is_dual_channel(&system.ps2));
}

#[test]
fn port_with_a_stuck_line_stays_off() {
    let mut machine = Pc::new();
    machine.line_test = 2;
    let mut controller = Ps2Controller::new();
    assert_eq!(ps2::init(&mut controller, &mut machine), Ok(()));
    assert!(!machine.first_enabled);
    assert!(!machine.aux_enabled);
}

#[test]
fn failed_controller_leaves_both_ports_off() {
    let mut machine = Pc::new();
    machine.deaf_after = Some(0xA9);
    let mut controller = Ps2Controller::new();
    assert_eq!(
        ps2::init(&mut controller, &mut machine),
        Err(Ps2ControllerError::Timeout)
    );
    assert!(!ps2::is_initialized(&controller));
    assert!(!machine.first_enabled);
    assert!(!machine.aux_enabled);
}

#[test]
fn missing_controller_times_out() {
    struct Nothing;
    impl Machine for Nothing {
        fn io(&self) -> Io {
            unreachable!()
        }
        fn read8(&mut self, _place: Place) -> u8 {
            0xFF
        }
        fn read16(&mut self, _place: Place) -> u16 {
            0xFFFF
        }
        fn read32(&mut self, _place: Place) -> u32 {
            0xFFFF_FFFF
        }
        fn read64(&mut self, _place: Place) -> u64 {
            0
        }
        fn write8(&mut self, _place: Place, _value: u8) {}
        fn write16(&mut self, _place: Place, _value: u16) {}
        fn write32(&mut self, _place: Place, _value: u32) {}
        fn write64(&mut self, _place: Place, _value: u64) {}
        fn ask(&mut self, _query: Query) -> u64 {
            0
        }
        fn tell(&mut self, _order: Order) {}
    }
    let mut controller = Ps2Controller::new();
    assert_eq!(
        ps2::init(&mut controller, &mut Nothing),
        Err(Ps2ControllerError::Timeout)
    );
    let mut state = KeyboardState::new();
    assert_eq!(
        keyboard::init(&mut state, &controller, &mut Nothing),
        Err(Ps2KeyboardError::ControllerNotInitialized)
    );
    let mut state = MouseState::new();
    assert_eq!(
        mouse::init(&mut state, &mut Nothing),
        Err(Ps2MouseError::Timeout)
    );
}

#[test]
fn mouse_that_does_not_acknowledge_is_refused() {
    let mut machine = Pc::new();
    machine.mouse_ack = 0xFE;
    let mut state = MouseState::new();
    assert_eq!(
        mouse::init(&mut state, &mut machine),
        Err(Ps2MouseError::BadAck)
    );
    assert!(!mouse::is_initialized(&state));
    assert!(!machine.aux_enabled);
    assert_eq!(mouse::handle_interrupt(&mut state, &mut machine), None);
    machine.mouse_ack = 0xFA;
    machine.output.clear();
    assert_eq!(mouse::init(&mut state, &mut machine), Ok(()));
    assert!(machine.aux_enabled);
}

#[test]
fn mouse_without_a_wheel_sends_three_bytes() {
    let mut machine = Pc::new();
    machine.wheel = false;
    let mut state = MouseState::new();
    assert_eq!(mouse::init(&mut state, &mut machine), Ok(()));
    assert!(!mouse::is_four_byte(&state));
    for byte in [0x08, 5, 3] {
        machine.output.push_back((byte, true));
    }
    assert_eq!(mouse::handle_interrupt(&mut state, &mut machine), None);
    assert_eq!(mouse::handle_interrupt(&mut state, &mut machine), None);
    let event = mouse::handle_interrupt(&mut state, &mut machine).unwrap();
    assert_eq!((event.dx, event.dy, event.dz), (5, -3, 0));
    assert_eq!(mouse::handle_interrupt(&mut state, &mut machine), None);
    machine.output.push_back((0x08, true));
    assert_eq!(mouse::handle_interrupt(&mut state, &mut machine), None);
    assert_eq!(state.decoder.index, 1);
    mouse::resync(&mut state);
    assert_eq!(state.decoder.index, 0);
}

#[test]
fn mouse_queue_keeps_the_newest() {
    let mut state = MouseState::new();
    for dx in 0..70 {
        let event = MouseEvent {
            dx,
            ..MouseEvent::default()
        };
        mouse::enqueue_device_event(&mut state, event);
    }
    assert_eq!(mouse::pop_event(&mut state).unwrap().dx, 6);
    mouse::clear_events(&mut state);
    assert_eq!(mouse::pop_event(&mut state), None);
}

#[test]
fn keyboard_queue_keeps_the_newest_and_counts_the_rest() {
    let mut state = KeyboardState::new();
    for _ in 0..513 {
        for byte in [0x1E, 0x9E] {
            let event = state.feed(byte).unwrap();
            keyboard::enqueue_console_event(&mut state, event);
        }
    }
    assert_eq!(keyboard::pending_events(&state), 1024);
    assert_eq!(keyboard::dropped_events(&state), 2);
    assert_eq!(keyboard::pop_event(&mut state).unwrap().code, KeyCode::A);
    keyboard::clear_events(&mut state);
    assert_eq!(keyboard::pending_events(&state), 0);
}

#[test]
fn keyboard_bytes_become_events_and_lights_follow() {
    let mut machine = Pc::new();
    let mut controller = Ps2Controller::new();
    assert_eq!(ps2::init(&mut controller, &mut machine), Ok(()));
    let mut state = KeyboardState::new();
    assert_eq!(
        keyboard::init(&mut state, &controller, &mut machine),
        Ok(())
    );
    assert!(machine.config & ControllerConfig::FIRST_INT != 0);
    machine.output.push_back((0x3A, false));
    let event = keyboard::handle_interrupt(&mut state, &mut machine).unwrap();
    assert_eq!(event.code, KeyCode::CapsLock);
    assert_eq!(keyboard::handle_interrupt(&mut state, &mut machine), None);
    machine.leds.clear();
    assert_eq!(keyboard::sync_leds(&mut state, &mut machine), Ok(()));
    assert_eq!(machine.leds, vec![0x04]);
    assert_eq!(keyboard::sync_leds(&mut state, &mut machine), Ok(()));
    assert_eq!(machine.leds, vec![0x04]);
}

#[test]
fn settings_can_be_changed_without_the_other_port() {
    let mut machine = Pc::new();
    let before = ps2::read_config(&mut machine).unwrap();
    let mut config = before;
    config.insert(ControllerConfig::TRANSLATION);
    config.remove(ControllerConfig::FIRST_CLK_DISABLED);
    assert_eq!(ps2::write_config(&mut machine, config), Ok(()));
    assert_eq!(ps2::read_config(&mut machine), Ok(config));
    assert_eq!(ps2::send_aux(&mut machine, 0xF4), Ok(0xFA));
}
