use xenith_devices::machine::{Access, Place, ScriptedMachine};
use xenith_devices::serial::{e9_write_char, SerialPort, COM1, LSR_THR_EMPTY};
use xenith_devices::serial_ext::{
    debug_write, debug_writeln, BaudRate, ComPort, FifoTrigger, LsrFlags, MsrFlags, SerialHub,
    SerialPortExt, COM2_BASE, COM3_BASE, COM4_BASE, PROBE_A, PROBE_B,
};

fn ready() -> ScriptedMachine {
    ScriptedMachine::new(Vec::new(), LSR_THR_EMPTY as u64)
}

fn sent(machine: &ScriptedMachine, base: u16) -> Vec<u8> {
    let mut bytes = Vec::new();
    for access in machine.accesses() {
        if let Access::Write8(Place::Port(port), value) = access {
            if *port == base {
                bytes.push(*value);
            }
        }
    }
    bytes
}

#[test]
fn port_is_set_up_in_order() {
    let mut machine = ready();
    SerialPort::new(COM1).init(&mut machine);
    let port = |offset: u16, value: u8| Access::Write8(Place::Port(COM1 + offset), value);
    assert_eq!(
        machine.accesses(),
        &vec![
            port(1, 0x00),
            port(3, 0x83),
            port(0, 0x03),
            port(1, 0x00),
            port(3, 0x03),
            port(2, 0xC7),
            port(4, 0x03),
        ]
    );
}

#[test]
fn byte_waits_for_the_transmitter() {
    let mut machine = ScriptedMachine::new(vec![0x00, 0x40, 0x60], 0);
    SerialPort::new(COM1).send(&mut machine, 0x41);
    let status = Access::Read8(Place::Port(COM1 + 5));
    assert_eq!(
        machine.accesses(),
        &vec![
            status,
            status,
            status,
            Access::Write8(Place::Port(COM1), 0x41)
        ]
    );
}

#[test]
fn line_feeds_get_carriage_returns() {
    let mut machine = ready();
    SerialPort::new(COM1).send_str(&mut machine, "a\nb\n\r\u{e9}");
    assert_eq!(sent(&machine, COM1), b"a\r\nb\r\n\r\xc3\xa9".to_vec());
}

#[test]
fn byte_is_read_once_it_is_there() {
    let mut machine = ScriptedMachine::new(vec![0x60, 0x61, 0x7A], 0);
    assert_eq!(SerialPort::new(COM1).read_byte(&mut machine), 0x7A);
    let mut machine = ScriptedMachine::new(vec![0x61, 0x20, 0x01], 0);
    let port = SerialPort::new(COM1);
    assert!(port.data_ready(&mut machine));
    assert!(port.thr_empty(&mut machine));
    assert!(!port.thr_empty(&mut machine));
}

#[test]
fn emulator_console_takes_bytes() {
    let mut machine = ready();
    e9_write_char(&mut machine, 0x21);
    assert_eq!(
        machine.accesses(),
        &vec![Access::Write8(Place::Port(0xE9), 0x21)]
    );
}

#[test]
fn divisors_divide_the_clock() {
    let rates = [
        (BaudRate::Baud1200, 96),
        (BaudRate::Baud2400, 48),
        (BaudRate::Baud4800, 24),
        (BaudRate::Baud9600, 12),
        (BaudRate::Baud19200, 6),
        (BaudRate::Baud38400, 3),
        (BaudRate::Baud57600, 2),
        (BaudRate::Baud115200, 1),
    ];
    for (rate, divisor) in rates {
        assert_eq!(rate.divisor(), divisor);
    }
    assert_eq!(FifoTrigger::Bytes1.bits(), 0x00);
    assert_eq!(FifoTrigger::Bytes4.bits(), 0x40);
    assert_eq!(FifoTrigger::Bytes8.bits(), 0x80);
    assert_eq!(FifoTrigger::Bytes14.bits(), 0xC0);
    assert_eq!(ComPort::Com1.base(), 0x3F8);
    assert_eq!(ComPort::Com4.index(), 3);
}

#[test]
fn probe_wants_both_patterns_back() {
    let mut port = SerialPortExt::new(COM2_BASE);
    assert!(!port.is_present());
    let mut machine = ScriptedMachine::new(vec![PROBE_A as u64, PROBE_B as u64], 0);
    assert!(port.probe(&mut machine));
    assert!(port.is_present());
    let mut machine = ScriptedMachine::new(vec![PROBE_A as u64, PROBE_A as u64], 0);
    assert!(!port.probe(&mut machine));
    assert!(!port.is_present());
}

#[test]
fn absent_port_is_left_alone() {
    let mut port = SerialPortExt::new(COM2_BASE);
    let mut machine = ready();
    port.send(&mut machine, 1);
    port.send_str(&mut machine, "text");
    assert!(machine.accesses().is_empty());
    port.init(&mut machine, BaudRate::Baud9600, FifoTrigger::Bytes8);
    assert!(port.is_present());
    let write = |offset: u16, value: u8| Access::Write8(Place::Port(COM2_BASE + offset), value);
    assert_eq!(
        machine.accesses(),
        &vec![
            write(1, 0x00),
            write(3, 0x83),
            write(0, 12),
            write(1, 0),
            write(3, 0x03),
            write(2, 0x87),
            write(4, 0x03),
        ]
    );
}

#[test]
fn queues_and_status_have_their_registers() {
    let mut port = SerialPortExt::new(COM3_BASE);
    let mut machine = ScriptedMachine::new(vec![0x61, 0xB0, 0x01, 0x20], 0);
    port.enable_fifo(&mut machine, FifoTrigger::Bytes4);
    port.disable_fifo(&mut machine);
    port.clear_fifos(&mut machine);
    assert_eq!(
        machine.accesses(),
        &vec![
            Access::Write8(Place::Port(COM3_BASE + 2), 0x47),
            Access::Write8(Place::Port(COM3_BASE + 2), 0x00),
            Access::Write8(Place::Port(COM3_BASE + 2), 0x47),
        ]
    );
    let line = port.line_status(&mut machine);
    assert!(line.contains(LsrFlags::DATA_READY | LsrFlags::THR_EMPTY | LsrFlags::TRANSMITTER_EMPTY));
    assert!(!line.contains(LsrFlags::OVERRUN_ERROR));
    let modem = port.modem_status(&mut machine);
    assert!(modem.contains(MsrFlags::CTS | MsrFlags::DSR | MsrFlags::DATA_CARRIER_DETECT));
    assert_eq!(modem.bits(), 0xB0);
    assert!(port.data_ready(&mut machine));
    assert!(port.thr_empty(&mut machine));
}

#[test]
fn hub_counts_the_ports_that_answer() {
    let mut hub = SerialHub::default();
    let (a, b) = (PROBE_A as u64, PROBE_B as u64);
    let mut machine = ScriptedMachine::new(vec![a, b, 0, 0, a, b, a, 0], 0);
    assert_eq!(hub.init_all(&mut machine, BaudRate::Baud115200), 2);
    assert_eq!(hub.present(), [true, false, true, false]);
    assert_eq!(hub.port(ComPort::Com4).base, COM4_BASE);
    hub.port_mut(ComPort::Com2).present = true;
    let mut machine = ready();
    hub.broadcast(&mut machine, "x");
    assert_eq!(sent(&machine, 0x3F8), b"x".to_vec());
    assert_eq!(sent(&machine, COM2_BASE), b"x".to_vec());
    assert_eq!(sent(&machine, COM3_BASE), b"x".to_vec());
    assert_eq!(sent(&machine, COM4_BASE), Vec::<u8>::new());
    let mut machine = ready();
    hub.send_to(&mut machine, ComPort::Com3, "y\n");
    assert_eq!(sent(&machine, COM3_BASE), b"y\r\n".to_vec());
}

#[test]
fn debug_text_brings_the_second_port_up_once() {
    let mut hub = SerialHub::new();
    let mut machine = ScriptedMachine::new(vec![PROBE_A as u64, PROBE_B as u64], 0x20);
    debug_writeln(&mut hub, &mut machine, "hi");
    assert!(hub.port(ComPort::Com2).is_present());
    let bytes = sent(&machine, COM2_BASE);
    assert_eq!(bytes[bytes.len() - 4..], *b"hi\r\n");
    let mut machine = ready();
    debug_write(&mut hub, &mut machine, "z");
    assert_eq!(machine.accesses().len(), 2);
    let mut silent = SerialHub::new();
    let mut machine = ScriptedMachine::new(Vec::new(), 0);
    debug_write(&mut silent, &mut machine, "z");
    assert_eq!(machine.accesses().len(), 4);
}
