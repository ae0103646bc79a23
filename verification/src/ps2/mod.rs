//! The 8042 controller with its two ports: keyboard and mouse.
//!
//! The status port tells whether a byte waits on the data port and whether the
//! controller can take one; every transfer polls it, for a bounded time.
use vstd::prelude::*;
use crate::machine::{Io, Machine, Order, Place, Query};

pub mod cable;
pub mod keyboard;
pub mod layout;
pub mod mouse;
pub mod pointer;

pub use self::keyboard::Ps2KeyboardError;
pub use self::mouse::Ps2MouseError;

verus! {

pub const STATUS_CMD: u16 = 0x64;
pub const DATA: u16 = 0x60;

/// A byte waits to be read.
pub const STS_OUT_FULL: u8 = 0x01;
/// The controller cannot take a byte.
pub const STS_IN_FULL: u8 = 0x02;
/// The byte that waits came from the second port.
pub const STS_FROM_AUX: u8 = 0x20;
pub const STS_TIMEOUT: u8 = 0x40;
pub const STS_PARITY: u8 = 0x80;

pub const CMD_READ_CONFIG: u8 = 0x20;
pub const CMD_WRITE_CONFIG: u8 = 0x60;
pub const CMD_DISABLE_AUX: u8 = 0xA7;
pub const CMD_ENABLE_AUX: u8 = 0xA8;
pub const CMD_DISABLE_FIRST: u8 = 0xAD;
pub const CMD_ENABLE_FIRST: u8 = 0xAE;
pub const CMD_SELF_TEST: u8 = 0xAA;
pub const CMD_TEST_FIRST: u8 = 0xAB;
pub const CMD_TEST_AUX: u8 = 0xA9;
/// The next data byte is for the device at the second port.
pub const CMD_WRITE_AUX: u8 = 0xD4;
pub const SELF_TEST_OK: u8 = 0x55;
pub const PORT_TEST_OK: u8 = 0x00;
/// Polls of the status port at most.
pub const POLL_LIMIT: u32 = 100_000;
/// Bytes that are drained before the controller is tested.
pub const FLUSH_LIMIT: u32 = 256;

/// Lines and vectors of the two ports.
pub const KEYBOARD_IRQ: u8 = 1;
pub const MOUSE_IRQ: u8 = 12;
pub const KEYBOARD_VECTOR: u8 = 0x21;
pub const MOUSE_VECTOR: u8 = 0x2C;
/// The line by which the second interrupt controller hangs on the first.
pub const CASCADE_IRQ: u8 = 2;

/// The configuration byte of the controller.
#[derive(Clone, Copy, Debug, PartialEq, Eq, Structural)]
pub struct ControllerConfig {
    pub bits: u8,
}

impl ControllerConfig {
    pub const FIRST_INT: u8 = 0x01;
    pub const SECOND_INT: u8 = 0x02;
    pub const SYSTEM_FLAG: u8 = 0x04;
    pub const RESERVED_3: u8 = 0x08;
    pub const FIRST_CLK_DISABLED: u8 = 0x10;
    pub const SECOND_CLK_DISABLED: u8 = 0x20;
    pub const TRANSLATION: u8 = 0x40;
    /// Every bit that is defined.
    pub const ALL: u8 = 0x7F;

    /// The defined bits of a byte.
    pub fn from_bits_truncate(bits: u8) -> (config: Self)
        ensures
            config.bits == bits & Self::ALL,
    {
        ControllerConfig { bits: bits & Self::ALL }
    }

    pub fn bits(self) -> (bits: u8)
        ensures
            bits == self.bits,
    {
        self.bits
    }

    /// Whether every bit of `mask` is set.
    pub fn contains(self, mask: u8) -> (all: bool)
        ensures
            all == (self.bits & mask == mask),
    {
        self.bits & mask == mask
    }

    /// Set the bits of `mask` that are defined.
    pub fn insert(&mut self, mask: u8)
        ensures
            final(self).bits == old(self).bits | (mask & Self::ALL),
    {
        self.bits = self.bits | (mask & Self::ALL);
    }

    /// Clear the bits of `mask`.
    pub fn remove(&mut self, mask: u8)
        ensures
            final(self).bits == old(self).bits & !mask,
    {
        self.bits = self.bits & !mask;
    }
}

#[derive(Debug, Clone, Copy, PartialEq, Eq, Structural)]
pub enum Ps2ControllerError {
    /// The controller did not react in time.
    Timeout,
    /// A byte arrived damaged, or not at all.
    BusError,
    SelfTestFailed,
    FirstPortTestFailed,
    AuxPortTestFailed,
}

/// Poll until the controller can take a byte.
pub open spec fn in_empty_run(limit: nat, io: Io) -> (bool, Io)
    decreases limit,
{
    if limit == 0 {
        (false, io)
    } else {
        let (status, io) = io.r8(Place::Port(STATUS_CMD));
        if status & STS_IN_FULL == 0 {
            (true, io)
        } else {
            in_empty_run((limit - 1) as nat, io.tell(Order::IoWait))
        }
    }
}

/// What came of waiting for a byte.
#[derive(Debug, Clone, Copy, PartialEq, Eq, Structural)]
pub enum Output {
    Waiting,
    Faulty,
    Missing,
}

/// Poll until a byte waits.
pub open spec fn out_full_run(limit: nat, io: Io) -> (Output, Io)
    decreases limit,
{
    if limit == 0 {
        (Output::Missing, io)
    } else {
        let (status, io) = io.r8(Place::Port(STATUS_CMD));
        if status & STS_OUT_FULL != 0 {
            if status & (STS_TIMEOUT | STS_PARITY) != 0 {
                (Output::Faulty, io)
            } else {
                (Output::Waiting, io)
            }
        } else {
            out_full_run((limit - 1) as nat, io.tell(Order::IoWait))
        }
    }
}

/// Poll until the controller can take a byte.
pub(crate) fn poll_in_empty<M: Machine>(machine: &mut M, limit: u32) -> (empty: bool)
    ensures
        (empty, final(machine).io()) == in_empty_run(limit as nat, old(machine).io()),
{
    let mut left: u32 = limit;
    while left > 0
        invariant
            in_empty_run(limit as nat, old(machine).io()) == in_empty_run(
                left as nat,
                machine.io(),
            ),
        decreases left,
    {
        if machine.read8(Place::Port(STATUS_CMD)) & STS_IN_FULL == 0 {
            return true;
        }
        machine.tell(Order::IoWait);
        left = left - 1;
    }
    false
}

/// Poll until a byte waits.
pub(crate) fn poll_out_full<M: Machine>(machine: &mut M, limit: u32) -> (output: Output)
    ensures
        (output, final(machine).io()) == out_full_run(limit as nat, old(machine).io()),
{
    let mut left: u32 = limit;
    while left > 0
        invariant
            out_full_run(limit as nat, old(machine).io()) == out_full_run(
                left as nat,
                machine.io(),
            ),
        decreases left,
    {
        let status: u8 = machine.read8(Place::Port(STATUS_CMD));
        if status & STS_OUT_FULL != 0 {
            if status & (STS_TIMEOUT | STS_PARITY) != 0 {
                return Output::Faulty;
            }
            return Output::Waiting;
        }
        machine.tell(Order::IoWait);
        left = left - 1;
    }
    Output::Missing
}

/// Write a byte to one of the two ports once the controller can take it.
pub open spec fn put_run(limit: nat, port: u16, byte: u8, io: Io) -> (bool, Io) {
    let (empty, io) = in_empty_run(limit, io);
    if empty {
        (true, io.w8(Place::Port(port), byte).tell(Order::IoWait))
    } else {
        (false, io)
    }
}

/// Read the byte that waits.
pub open spec fn get_run(limit: nat, io: Io) -> (Output, u8, Io) {
    let (output, io) = out_full_run(limit, io);
    if output == Output::Waiting {
        let (byte, io) = io.r8(Place::Port(DATA));
        (output, byte, io)
    } else {
        (output, 0, io)
    }
}

/// Write a byte to one of the two ports once the controller can take it.
pub(crate) fn put<M: Machine>(machine: &mut M, limit: u32, port: u16, byte: u8) -> (written: bool)
    ensures
        (written, final(machine).io()) == put_run(limit as nat, port, byte, old(machine).io()),
{
    if !poll_in_empty(machine, limit) {
        return false;
    }
    machine.write8(Place::Port(port), byte);
    machine.tell(Order::IoWait);
    true
}

/// Read the byte that waits.
pub(crate) fn get<M: Machine>(machine: &mut M, limit: u32) -> (got: (Output, u8))
    ensures
        (got.0, got.1, final(machine).io()) == get_run(limit as nat, old(machine).io()),
{
    let output: Output = poll_out_full(machine, limit);
    match output {
        Output::Waiting => {
            let byte: u8 = machine.read8(Place::Port(DATA));
            (output, byte)
        },
        _ => (output, 0),
    }
}

/// Send a command.
pub open spec fn cmd_run(cmd: u8, io: Io) -> (Result<(), Ps2ControllerError>, Io) {
    let (written, io) = put_run(POLL_LIMIT as nat, STATUS_CMD, cmd, io);
    (
        if written {
            Ok(())
        } else {
            Err(Ps2ControllerError::Timeout)
        },
        io,
    )
}

/// Write a data byte.
pub open spec fn write_run(byte: u8, io: Io) -> (Result<(), Ps2ControllerError>, Io) {
    let (written, io) = put_run(POLL_LIMIT as nat, DATA, byte, io);
    (
        if written {
            Ok(())
        } else {
            Err(Ps2ControllerError::Timeout)
        },
        io,
    )
}

/// Read a data byte.
pub open spec fn read_run(io: Io) -> (Result<u8, Ps2ControllerError>, Io) {
    let (output, byte, io) = get_run(POLL_LIMIT as nat, io);
    (
        match output {
            Output::Waiting => Ok(byte),
            Output::Faulty => Err(Ps2ControllerError::BusError),
            Output::Missing => Err(Ps2ControllerError::Timeout),
        },
        io,
    )
}

/// Send a command with its data byte.
pub open spec fn cmd_data_run(cmd: u8, data: u8, io: Io) -> (Result<
    (),
    Ps2ControllerError,
>, Io) {
    match cmd_run(cmd, io) {
        (Err(error), io) => (Err(error), io),
        (Ok(_), io) => write_run(data, io),
    }
}

/// Send a command and read its answer.
pub open spec fn query_run(cmd: u8, io: Io) -> (Result<u8, Ps2ControllerError>, Io) {
    match cmd_run(cmd, io) {
        (Err(error), io) => (Err(error), io),
        (Ok(_), io) => read_run(io),
    }
}

/// Wait until the controller can take a byte.
pub fn wait_in_empty<M: Machine>(machine: &mut M) -> (result: Result<(), Ps2ControllerError>)
    ensures
        result == (if in_empty_run(POLL_LIMIT as nat, old(machine).io()).0 {
            Ok(())
        } else {
            Err(Ps2ControllerError::Timeout)
        }),
        final(machine).io() == in_empty_run(POLL_LIMIT as nat, old(machine).io()).1,
{
    if poll_in_empty(machine, POLL_LIMIT) {
        Ok(())
    } else {
        Err(Ps2ControllerError::Timeout)
    }
}

/// Wait until a byte can be read.
pub fn wait_out_full<M: Machine>(machine: &mut M) -> (result: Result<(), Ps2ControllerError>)
    ensures
        result == (match out_full_run(POLL_LIMIT as nat, old(machine).io()).0 {
            Output::Waiting => Ok(()),
            Output::Faulty => Err(Ps2ControllerError::BusError),
            Output::Missing => Err(Ps2ControllerError::Timeout),
        }),
        final(machine).io() == out_full_run(POLL_LIMIT as nat, old(machine).io()).1,
{
    match poll_out_full(machine, POLL_LIMIT) {
        Output::Waiting => Ok(()),
        Output::Faulty => Err(Ps2ControllerError::BusError),
        Output::Missing => Err(Ps2ControllerError::Timeout),
    }
}

/// Send a command that takes no data.
pub fn send_cmd_raw<M: Machine>(machine: &mut M, cmd: u8) -> (result: Result<
    (),
    Ps2ControllerError,
>)
    ensures
        (result, final(machine).io()) == cmd_run(cmd, old(machine).io()),
{
    if put(machine, POLL_LIMIT, STATUS_CMD, cmd) {
        Ok(())
    } else {
        Err(Ps2ControllerError::Timeout)
    }
}

/// Send a command that takes no data.
pub fn send_cmd<M: Machine>(machine: &mut M, cmd: u8) -> (result: Result<(), Ps2ControllerError>)
    ensures
        (result, final(machine).io()) == cmd_run(cmd, old(machine).io()),
{
    send_cmd_raw(machine, cmd)
}

/// Send a command with its data byte.
pub fn send_cmd_with_data<M: Machine>(machine: &mut M, cmd: u8, data: u8) -> (result: Result<
    (),
    Ps2ControllerError,
>)
    ensures
        (result, final(machine).io()) == cmd_data_run(cmd, data, old(machine).io()),
{
    match send_cmd_raw(machine, cmd) {
        Ok(_) => write_data(machine, data),
        Err(error) => Err(error),
    }
}

/// Read a byte once it is there.
pub fn read_data<M: Machine>(machine: &mut M) -> (result: Result<u8, Ps2ControllerError>)
    ensures
        (result, final(machine).io()) == read_run(old(machine).io()),
{
    match get(machine, POLL_LIMIT) {
        (Output::Waiting, byte) => Ok(byte),
        (Output::Faulty, _) => Err(Ps2ControllerError::BusError),
        (Output::Missing, _) => Err(Ps2ControllerError::Timeout),
    }
}

/// Write a byte once the controller can take it.
pub fn write_data<M: Machine>(machine: &mut M, byte: u8) -> (result: Result<
    (),
    Ps2ControllerError,
>)
    ensures
        (result, final(machine).io()) == write_run(byte, old(machine).io()),
{
    if put(machine, POLL_LIMIT, DATA, byte) {
        Ok(())
    } else {
        Err(Ps2ControllerError::Timeout)
    }
}

/// Read the next byte of the first port, and drop what the second one sends in
/// between.
pub open spec fn first_port_run(limit: nat, io: Io) -> (Result<u8, Ps2ControllerError>, Io)
    decreases limit,
{
    if limit == 0 {
        (Err(Ps2ControllerError::Timeout), io)
    } else {
        let (status, io) = io.r8(Place::Port(STATUS_CMD));
        if status & STS_OUT_FULL == 0 {
            first_port_run((limit - 1) as nat, io.tell(Order::IoWait))
        } else {
            let (byte, io) = io.r8(Place::Port(DATA));
            if status & (STS_TIMEOUT | STS_PARITY) != 0 {
                (Err(Ps2ControllerError::BusError), io)
            } else if status & STS_FROM_AUX == 0 {
                (Ok(byte), io)
            } else {
                first_port_run((limit - 1) as nat, io)
            }
        }
    }
}

/// Read the next byte of the first port, and drop what the second one sends in
/// between.
pub fn read_first_port_data<M: Machine>(machine: &mut M) -> (result: Result<
    u8,
    Ps2ControllerError,
>)
    ensures
        (result, final(machine).io()) == first_port_run(POLL_LIMIT as nat, old(machine).io()),
{
    let mut left: u32 = POLL_LIMIT;
    while left > 0
        invariant
            first_port_run(POLL_LIMIT as nat, old(machine).io()) == first_port_run(
                left as nat,
                machine.io(),
            ),
        decreases left,
    {
        let status: u8 = machine.read8(Place::Port(STATUS_CMD));
        left = left - 1;
        if status & STS_OUT_FULL == 0 {
            machine.tell(Order::IoWait);
        } else {
            let byte: u8 = machine.read8(Place::Port(DATA));
            if status & (STS_TIMEOUT | STS_PARITY) != 0 {
                return Err(Ps2ControllerError::BusError);
            }
            if status & STS_FROM_AUX == 0 {
                return Ok(byte);
            }
        }
    }
    Err(Ps2ControllerError::Timeout)
}

/// Take a byte of the first port, where one waits now.  A byte of the second
/// port is left where it is.
pub open spec fn try_first_run(io: Io) -> (Result<Option<u8>, Ps2ControllerError>, Io) {
    let (status, io) = io.r8(Place::Port(STATUS_CMD));
    if status & STS_OUT_FULL == 0 || status & STS_FROM_AUX != 0 {
        (Ok(None), io)
    } else {
        let (byte, io) = io.r8(Place::Port(DATA));
        if status & (STS_TIMEOUT | STS_PARITY) != 0 {
            (Err(Ps2ControllerError::BusError), io)
        } else {
            (Ok(Some(byte)), io)
        }
    }
}

/// Take a byte of the first port, where one waits now.
pub fn try_read_first_port_byte<M: Machine>(machine: &mut M) -> (result: Result<
    Option<u8>,
    Ps2ControllerError,
>)
    ensures
        (result, final(machine).io()) == try_first_run(old(machine).io()),
{
    let status: u8 = machine.read8(Place::Port(STATUS_CMD));
    if status & STS_OUT_FULL == 0 || status & STS_FROM_AUX != 0 {
        return Ok(None);
    }
    let byte: u8 = machine.read8(Place::Port(DATA));
    if status & (STS_TIMEOUT | STS_PARITY) != 0 {
        return Err(Ps2ControllerError::BusError);
    }
    Ok(Some(byte))
}

/// Drop the bytes that wait, a bounded number of them.
pub open spec fn flush_run(limit: nat, io: Io) -> Io
    decreases limit,
{
    if limit == 0 {
        io
    } else {
        let (status, io) = io.r8(Place::Port(STATUS_CMD));
        if status & STS_OUT_FULL == 0 {
            io
        } else {
            let (_, io) = io.r8(Place::Port(DATA));
            flush_run((limit - 1) as nat, io.tell(Order::IoWait))
        }
    }
}

fn flush_output<M: Machine>(machine: &mut M)
    ensures
        final(machine).io() == flush_run(FLUSH_LIMIT as nat, old(machine).io()),
{
    let mut left: u32 = FLUSH_LIMIT;
    while left > 0
        invariant
            flush_run(FLUSH_LIMIT as nat, old(machine).io()) == flush_run(
                left as nat,
                machine.io(),
            ),
        decreases left,
    {
        if machine.read8(Place::Port(STATUS_CMD)) & STS_OUT_FULL == 0 {
            return ;
        }
        let _ = machine.read8(Place::Port(DATA));
        machine.tell(Order::IoWait);
        left = left - 1;
    }
}

/// Send a byte to the device at the second port, and read its answer.
pub open spec fn aux_run(byte: u8, io: Io) -> (Result<u8, Ps2ControllerError>, Io) {
    match cmd_run(CMD_WRITE_AUX, io) {
        (Err(error), io) => (Err(error), io),
        (Ok(_), io) => match write_run(byte, io) {
            (Err(error), io) => (Err(error), io),
            (Ok(_), io) => read_run(io),
        },
    }
}

/// Send a byte to the device at the second port, and read its answer.
pub fn send_aux<M: Machine>(machine: &mut M, byte: u8) -> (result: Result<u8, Ps2ControllerError>)
    ensures
        (result, final(machine).io()) == aux_run(byte, old(machine).io()),
{
    match send_cmd_raw(machine, CMD_WRITE_AUX) {
        Ok(_) => {},
        Err(error) => {
            return Err(error);
        },
    }
    match write_data(machine, byte) {
        Ok(_) => read_data(machine),
        Err(error) => Err(error),
    }
}

/// Read the configuration byte.
pub open spec fn config_run(io: Io) -> (Result<ControllerConfig, Ps2ControllerError>, Io) {
    match query_run(CMD_READ_CONFIG, io) {
        (Err(error), io) => (Err(error), io),
        (Ok(raw), io) => (Ok(ControllerConfig { bits: raw & ControllerConfig::ALL }), io),
    }
}

fn query<M: Machine>(machine: &mut M, cmd: u8) -> (result: Result<u8, Ps2ControllerError>)
    ensures
        (result, final(machine).io()) == query_run(cmd, old(machine).io()),
{
    match send_cmd(machine, cmd) {
        Ok(_) => read_data(machine),
        Err(error) => Err(error),
    }
}

/// Read the configuration byte.
pub fn read_config<M: Machine>(machine: &mut M) -> (result: Result<
    ControllerConfig,
    Ps2ControllerError,
>)
    ensures
        (result, final(machine).io()) == config_run(old(machine).io()),
{
    match query(machine, CMD_READ_CONFIG) {
        Ok(raw) => Ok(ControllerConfig::from_bits_truncate(raw)),
        Err(error) => Err(error),
    }
}

/// Write the configuration byte.
pub fn write_config<M: Machine>(machine: &mut M, config: ControllerConfig) -> (result: Result<
    (),
    Ps2ControllerError,
>)
    ensures
        (result, final(machine).io()) == cmd_data_run(
            CMD_WRITE_CONFIG,
            config.bits,
            old(machine).io(),
        ),
{
    send_cmd_with_data(machine, CMD_WRITE_CONFIG, config.bits())
}

/// Whether the controller has a second port: switching its clock off shows in
/// the configuration only where it has one.
pub open spec fn dual_run(io: Io) -> (Result<bool, Ps2ControllerError>, Io) {
    match cmd_run(CMD_DISABLE_AUX, io) {
        (Err(error), io) => (Err(error), io),
        (Ok(_), io) => match config_run(io) {
            (Err(error), io) => (Err(error), io),
            (Ok(config), io) => (
                Ok(
                    config.bits & ControllerConfig::SECOND_CLK_DISABLED
                        == ControllerConfig::SECOND_CLK_DISABLED,
                ),
                io,
            ),
        },
    }
}

/// Whether the controller has a second port.
pub fn probe_dual_channel<M: Machine>(machine: &mut M) -> (result: Result<
    bool,
    Ps2ControllerError,
>)
    ensures
        (result, final(machine).io()) == dual_run(old(machine).io()),
{
    match send_cmd(machine, CMD_DISABLE_AUX) {
        Ok(_) => {},
        Err(error) => {
            return Err(error);
        },
    }
    match read_config(machine) {
        Ok(config) => Ok(config.contains(ControllerConfig::SECOND_CLK_DISABLED)),
        Err(error) => Err(error),
    }
}

/// What is known of the controller.
#[derive(Clone, Copy, Debug, PartialEq, Eq, Structural)]
pub struct Ps2Controller {
    pub dual_channel: bool,
    pub initialized: bool,
    pub keyboard_ioapic: bool,
    pub mouse_ioapic: bool,
}

/// Test a port, and where it passes enable it.
pub open spec fn port_run(test: u8, enable: u8, io: Io) -> (Result<(), Ps2ControllerError>, Io) {
    match query_run(test, io) {
        (Err(error), io) => (Err(error), io),
        (Ok(answer), io) => if answer == PORT_TEST_OK {
            cmd_run(enable, io)
        } else {
            (Ok(()), io)
        },
    }
}

/// Silence the controller and test it.
pub open spec fn self_test_run(io: Io) -> (Result<(), Ps2ControllerError>, Io) {
    match cmd_run(CMD_DISABLE_FIRST, io) {
        (Err(error), io) => (Err(error), io),
        (Ok(_), io) => match cmd_run(CMD_DISABLE_AUX, io) {
            (Err(error), io) => (Err(error), io),
            (Ok(_), io) => match query_run(CMD_SELF_TEST, flush_run(FLUSH_LIMIT as nat, io)) {
                (Err(error), io) => (Err(error), io),
                (Ok(answer), io) => if answer == SELF_TEST_OK {
                    (Ok(()), io)
                } else {
                    (Err(Ps2ControllerError::SelfTestFailed), io)
                },
            },
        },
    }
}

/// Test and enable the ports there are.
pub open spec fn ports_run(dual: bool, io: Io) -> (Result<(), Ps2ControllerError>, Io) {
    match port_run(CMD_TEST_FIRST, CMD_ENABLE_FIRST, io) {
        (Err(error), io) => (Err(error), io),
        (Ok(_), io) => if dual {
            port_run(CMD_TEST_AUX, CMD_ENABLE_AUX, io)
        } else {
            (Ok(()), io)
        },
    }
}

/// Turn both ports off, as far as the controller still takes commands.
pub open spec fn disable_run(io: Io) -> Io {
    cmd_run(CMD_DISABLE_AUX, cmd_run(CMD_DISABLE_FIRST, io).1).1
}

fn disable_ports<M: Machine>(machine: &mut M)
    ensures
        final(machine).io() == disable_run(old(machine).io()),
{
    let _ = send_cmd(machine, CMD_DISABLE_FIRST);
    let _ = send_cmd(machine, CMD_DISABLE_AUX);
}

fn bring_up_port<M: Machine>(machine: &mut M, test: u8, enable: u8) -> (result: Result<
    (),
    Ps2ControllerError,
>)
    ensures
        (result, final(machine).io()) == port_run(test, enable, old(machine).io()),
{
    match query(machine, test) {
        Ok(answer) => if answer == PORT_TEST_OK {
            send_cmd(machine, enable)
        } else {
            Ok(())
        },
        Err(error) => Err(error),
    }
}

fn self_test<M: Machine>(machine: &mut M) -> (result: Result<(), Ps2ControllerError>)
    ensures
        (result, final(machine).io()) == self_test_run(old(machine).io()),
{
    match send_cmd(machine, CMD_DISABLE_FIRST) {
        Ok(_) => {},
        Err(error) => {
            return Err(error);
        },
    }
    match send_cmd(machine, CMD_DISABLE_AUX) {
        Ok(_) => {},
        Err(error) => {
            return Err(error);
        },
    }
    flush_output(machine);
    match query(machine, CMD_SELF_TEST) {
        Ok(answer) => if answer == SELF_TEST_OK {
            Ok(())
        } else {
            Err(Ps2ControllerError::SelfTestFailed)
        },
        Err(error) => Err(error),
    }
}

fn bring_up_ports<M: Machine>(machine: &mut M, dual: bool) -> (result: Result<
    (),
    Ps2ControllerError,
>)
    ensures
        (result, final(machine).io()) == ports_run(dual, old(machine).io()),
{
    match bring_up_port(machine, CMD_TEST_FIRST, CMD_ENABLE_FIRST) {
        Ok(_) => {},
        Err(error) => {
            return Err(error);
        },
    }
    if dual {
        return bring_up_port(machine, CMD_TEST_AUX, CMD_ENABLE_AUX);
    }
    Ok(())
}

/// End an interrupt at the controller that delivered it.
pub open spec fn end_run(via_ioapic: bool, io: Io) -> Io {
    if via_ioapic {
        io.tell(Order::EndOfInterrupt)
    } else {
        io.tell(Order::EndOfLegacyInterrupt)
    }
}

/// End an interrupt at the controller that delivered it.
pub fn finish_irq<M: Machine>(machine: &mut M, via_ioapic: bool)
    ensures
        final(machine).io() == end_run(via_ioapic, old(machine).io()),
{
    if via_ioapic {
        machine.tell(Order::EndOfInterrupt);
    } else {
        machine.tell(Order::EndOfLegacyInterrupt);
    }
}

impl Ps2Controller {
    pub open spec fn fresh() -> Self {
        Ps2Controller {
            dual_channel: false,
            initialized: false,
            keyboard_ioapic: false,
            mouse_ioapic: false,
        }
    }

    /// Nothing is known yet.
    pub fn new() -> (controller: Self)
        ensures
            controller == Self::fresh(),
    {
        Ps2Controller {
            dual_channel: false,
            initialized: false,
            keyboard_ioapic: false,
            mouse_ioapic: false,
        }
    }

    /// Bring the controller up.  What was learnt of the second port stays known
    /// where a later step fails.
    pub open spec fn init_run(self, io: Io) -> (Result<(), Ps2ControllerError>, Ps2Controller, Io) {
        match self_test_run(io) {
            (Err(error), io) => (Err(error), self, io),
            (Ok(_), io) => match dual_run(io) {
                (Err(error), io) => (Err(error), self, io),
                (Ok(dual), io) => {
                    let known = Ps2Controller { dual_channel: dual, ..self };
                    match ports_run(dual, io) {
                        (Err(error), io) => (Err(error), known, disable_run(io)),
                        (Ok(_), io) => match config_run(io) {
                            (Err(error), io) => (Err(error), known, disable_run(io)),
                            (Ok(_), io) => (
                                Ok(()),
                                Ps2Controller { initialized: true, ..known },
                                io,
                            ),
                        },
                    }
                },
            },
        }
    }

    /// Wire both lines: through the I/O interrupt controller where there is
    /// one that owns them, else through the legacy ones.
    pub open spec fn wire_run(self, io: Io) -> (Ps2Controller, Io) {
        let io = io.tell(Order::InstallHandler(KEYBOARD_VECTOR));
        let io = io.tell(Order::InstallHandler(MOUSE_VECTOR));
        let (count, io) = io.ask(Query::IoApicCount);
        let (wired, io) = if count != 0 {
            let (apic_id, io) = io.ask(Query::LocalApicId);
            let (keyboard, io) = io.ask(
                Query::Route(KEYBOARD_IRQ as u32, KEYBOARD_VECTOR, apic_id as u8),
            );
            let (mouse, io) = io.ask(Query::Route(MOUSE_IRQ as u32, MOUSE_VECTOR, apic_id as u8));
            (
                Ps2Controller {
                    keyboard_ioapic: keyboard != 0,
                    mouse_ioapic: mouse != 0,
                    ..self
                },
                io,
            )
        } else {
            (self, io)
        };
        let io = if wired.keyboard_ioapic {
            io
        } else {
            io.tell(Order::UnmaskLegacy(KEYBOARD_IRQ))
        };
        let io = if wired.mouse_ioapic {
            io
        } else {
            io.tell(Order::UnmaskLegacy(CASCADE_IRQ)).tell(Order::UnmaskLegacy(MOUSE_IRQ))
        };
        (wired, io)
    }
}

/// Whether the controller has a second port.
pub fn is_dual_channel(controller: &Ps2Controller) -> (dual: bool)
    ensures
        dual == controller.dual_channel,
{
    controller.dual_channel
}

/// Whether the controller came up.
pub fn is_initialized(controller: &Ps2Controller) -> (initialized: bool)
    ensures
        initialized == controller.initialized,
{
    controller.initialized
}

/// Bring the controller up.  One that fails is left with both ports off.
pub fn init<M: Machine>(controller: &mut Ps2Controller, machine: &mut M) -> (result: Result<
    (),
    Ps2ControllerError,
>)
    ensures
        (result, *final(controller), final(machine).io()) == old(controller).init_run(
            old(machine).io(),
        ),
{
    match self_test(machine) {
        Ok(_) => {},
        Err(error) => {
            return Err(error);
        },
    }
    let dual: bool = match probe_dual_channel(machine) {
        Ok(dual) => dual,
        Err(error) => {
            return Err(error);
        },
    };
    controller.dual_channel = dual;
    match bring_up_ports(machine, dual) {
        Ok(_) => {},
        Err(error) => {
            disable_ports(machine);
            return Err(error);
        },
    }
    match read_config(machine) {
        Ok(_) => {},
        Err(error) => {
            disable_ports(machine);
            return Err(error);
        },
    }
    controller.initialized = true;
    Ok(())
}

/// Enter both handlers and wire both lines.
pub fn register_irq_handlers<M: Machine>(controller: &mut Ps2Controller, machine: &mut M)
    ensures
        (*final(controller), final(machine).io()) == old(controller).wire_run(old(machine).io()),
{
    machine.tell(Order::InstallHandler(KEYBOARD_VECTOR));
    machine.tell(Order::InstallHandler(MOUSE_VECTOR));
    if machine.ask(Query::IoApicCount) != 0 {
        let apic_id: u64 = machine.ask(Query::LocalApicId);
        let destination: u8 = apic_id as u8;
        let keyboard: u64 = machine.ask(
            Query::Route(KEYBOARD_IRQ as u32, KEYBOARD_VECTOR, destination),
        );
        let mouse: u64 = machine.ask(Query::Route(MOUSE_IRQ as u32, MOUSE_VECTOR, destination));
        controller.keyboard_ioapic = keyboard != 0;
        controller.mouse_ioapic = mouse != 0;
    }
    if !controller.keyboard_ioapic {
        machine.tell(Order::UnmaskLegacy(KEYBOARD_IRQ));
    }
    if !controller.mouse_ioapic {
        machine.tell(Order::UnmaskLegacy(CASCADE_IRQ));
        machine.tell(Order::UnmaskLegacy(MOUSE_IRQ));
    }
}

/// A controller that fails to come up is not taken for one that did.
pub proof fn lemma_failure_is_not_initialized(controller: Ps2Controller, io: Io)
    ensures
        controller.init_run(io).1.initialized == (controller.initialized
            || controller.init_run(io).0 is Ok),
{
}

proof fn lemma_config_bits(bits: u8)
    by (bit_vector)
    ensures
        (bits & 0x7F) & 0x7F == bits & 0x7F,
{
}

/// A configuration leads back to itself through its byte.
pub proof fn lemma_config_round_trip(bits: u8)
    ensures
        (bits & ControllerConfig::ALL) & ControllerConfig::ALL == bits & ControllerConfig::ALL,
{
    lemma_config_bits(bits);
}

} // verus!
