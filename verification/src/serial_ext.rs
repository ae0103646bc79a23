//! All four serial ports of a PC: presence, speed, queues and status.
use vstd::prelude::*;
use vstd::string::StringSliceAdditionalSpecFns;
use crate::machine::{Io, Machine, Place};
use crate::serial::{
    receive_run, send_byte, send_run, send_text, sends_run, terminal_bytes, wait_line,
    CARRIAGE_RETURN, DATA, IER, IIR_FCR, LCR, LCR_8N1, LCR_DLAB, LINE_FEED, LSR, LSR_DATA_READY,
    MCR, MCR_DTR_RTS,
};

verus! {

pub const MSR: u16 = 6;
/// A register that does nothing.
pub const SCR: u16 = 7;
pub const FCR_ENABLE_CLEAR: u8 = 0x07;
pub const PROBE_A: u8 = 0x5A;
pub const PROBE_B: u8 = 0xA5;

/// Bits of the line status.
#[derive(Debug, Clone, Copy, PartialEq, Eq, Structural)]
pub struct LsrFlags {
    pub bits: u64,
}

impl LsrFlags {
    pub const DATA_READY: u64 = 0x01;
    pub const OVERRUN_ERROR: u64 = 0x02;
    pub const PARITY_ERROR: u64 = 0x04;
    pub const FRAMING_ERROR: u64 = 0x08;
    pub const BREAK_INTERRUPT: u64 = 0x10;
    pub const THR_EMPTY: u64 = 0x20;
    pub const TRANSMITTER_EMPTY: u64 = 0x40;
    pub const FIFO_ERROR: u64 = 0x80;
    pub const ALL: u64 = 0xFF;

    pub fn from_bits_truncate(bits: u64) -> (flags: Self)
        ensures
            flags.bits == bits & Self::ALL,
    {
        LsrFlags { bits: bits & Self::ALL }
    }

    pub fn bits(self) -> (bits: u64)
        ensures
            bits == self.bits,
    {
        self.bits
    }

    pub fn contains(self, mask: u64) -> (all: bool)
        ensures
            all == (self.bits & mask == mask),
    {
        self.bits & mask == mask
    }
}

/// Bits of the modem status.
#[derive(Debug, Clone, Copy, PartialEq, Eq, Structural)]
pub struct MsrFlags {
    pub bits: u64,
}

impl MsrFlags {
    pub const DELTA_CTS: u64 = 0x01;
    pub const DELTA_DSR: u64 = 0x02;
    pub const TRAILING_EDGE_RI: u64 = 0x04;
    pub const DELTA_DCD: u64 = 0x08;
    pub const CTS: u64 = 0x10;
    pub const DSR: u64 = 0x20;
    pub const RING_INDICATOR: u64 = 0x40;
    pub const DATA_CARRIER_DETECT: u64 = 0x80;
    pub const ALL: u64 = 0xFF;

    pub fn from_bits_truncate(bits: u64) -> (flags: Self)
        ensures
            flags.bits == bits & Self::ALL,
    {
        MsrFlags { bits: bits & Self::ALL }
    }

    pub fn bits(self) -> (bits: u64)
        ensures
            bits == self.bits,
    {
        self.bits
    }

    pub fn contains(self, mask: u64) -> (all: bool)
        ensures
            all == (self.bits & mask == mask),
    {
        self.bits & mask == mask
    }
}

#[derive(Debug, Clone, Copy, PartialEq, Eq, Structural)]
pub enum BaudRate {
    Baud1200,
    Baud2400,
    Baud4800,
    Baud9600,
    Baud19200,
    Baud38400,
    Baud57600,
    Baud115200,
}

impl BaudRate {
    /// Bits in a second.
    pub open spec fn rate(self) -> int {
        match self {
            BaudRate::Baud1200 => 1200,
            BaudRate::Baud2400 => 2400,
            BaudRate::Baud4800 => 4800,
            BaudRate::Baud9600 => 9600,
            BaudRate::Baud19200 => 19200,
            BaudRate::Baud38400 => 38400,
            BaudRate::Baud57600 => 57600,
            BaudRate::Baud115200 => 115200,
        }
    }

    /// The divider of the port's clock that makes the rate.
    pub fn divisor(self) -> (divisor: u16)
        ensures
            divisor as int == 115200int / self.rate(),
            divisor * self.rate() == 115200,
    {
        match self {
            BaudRate::Baud1200 => 96,
            BaudRate::Baud2400 => 48,
            BaudRate::Baud4800 => 24,
            BaudRate::Baud9600 => 12,
            BaudRate::Baud19200 => 6,
            BaudRate::Baud38400 => 3,
            BaudRate::Baud57600 => 2,
            BaudRate::Baud115200 => 1,
        }
    }
}

/// Bytes in the receive queue that raise an interrupt.
#[derive(Debug, Clone, Copy, PartialEq, Eq, Structural)]
pub enum FifoTrigger {
    Bytes1,
    Bytes4,
    Bytes8,
    Bytes14,
}

impl FifoTrigger {
    pub open spec fn code(self) -> u8 {
        match self {
            FifoTrigger::Bytes1 => 0x00,
            FifoTrigger::Bytes4 => 0x40,
            FifoTrigger::Bytes8 => 0x80,
            FifoTrigger::Bytes14 => 0xC0,
        }
    }

    /// The bits of the queue register.
    pub fn bits(self) -> (bits: u8)
        ensures
            bits == self.code(),
    {
        match self {
            FifoTrigger::Bytes1 => 0x00,
            FifoTrigger::Bytes4 => 0x40,
            FifoTrigger::Bytes8 => 0x80,
            FifoTrigger::Bytes14 => 0xC0,
        }
    }
}

pub const COM1_BASE: u16 = 0x3F8;
pub const COM2_BASE: u16 = 0x2F8;
pub const COM3_BASE: u16 = 0x3E8;
pub const COM4_BASE: u16 = 0x2E8;

#[derive(Debug, Clone, Copy, PartialEq, Eq, Structural)]
pub enum ComPort {
    Com1,
    Com2,
    Com3,
    Com4,
}

impl ComPort {
    pub open spec fn address(self) -> u16 {
        match self {
            ComPort::Com1 => COM1_BASE,
            ComPort::Com2 => COM2_BASE,
            ComPort::Com3 => COM3_BASE,
            ComPort::Com4 => COM4_BASE,
        }
    }

    pub open spec fn number(self) -> int {
        match self {
            ComPort::Com1 => 0,
            ComPort::Com2 => 1,
            ComPort::Com3 => 2,
            ComPort::Com4 => 3,
        }
    }

    pub fn base(self) -> (base: u16)
        ensures
            base == self.address(),
    {
        match self {
            ComPort::Com1 => COM1_BASE,
            ComPort::Com2 => COM2_BASE,
            ComPort::Com3 => COM3_BASE,
            ComPort::Com4 => COM4_BASE,
        }
    }

    pub fn index(self) -> (index: usize)
        ensures
            index == self.number(),
    {
        match self {
            ComPort::Com1 => 0,
            ComPort::Com2 => 1,
            ComPort::Com3 => 2,
            ComPort::Com4 => 3,
        }
    }
}

/// One port, and whether there is something behind it.
#[derive(Debug, Clone, Copy, PartialEq, Eq, Structural)]
pub struct SerialPortExt {
    pub base: u16,
    pub present: bool,
    /// How the receive queue was set up last.
    pub trigger: FifoTrigger,
}

impl SerialPortExt {
    pub open spec fn register(self, offset: u16) -> Place {
        Place::Port(self.base.wrapping_add(offset))
    }

    /// Whether the idle register holds what is written to it.
    pub open spec fn probe_run(self, io: Io) -> (bool, Io) {
        let io = io.w8(self.register(SCR), PROBE_A);
        let (a, io) = io.r8(self.register(SCR));
        let io = io.w8(self.register(SCR), PROBE_B);
        let (b, io) = io.r8(self.register(SCR));
        (a == PROBE_A && b == PROBE_B, io)
    }

    /// Set the speed.
    pub open spec fn speed_run(self, baud: BaudRate, io: Io) -> Io {
        let divisor = (115200int / baud.rate()) as u16;
        let io = io.w8(self.register(LCR), LCR_DLAB);
        let io = io.w8(self.register(DATA), (divisor & 0xFF) as u8);
        let io = io.w8(self.register(IER), ((divisor >> 8) & 0xFF) as u8);
        io.w8(self.register(LCR), LCR_8N1)
    }

    /// Interrupts off, the speed, the queues, and the modem lines up.
    pub open spec fn init_run(self, baud: BaudRate, trigger: FifoTrigger, io: Io) -> Io {
        let io = io.w8(self.register(IER), 0x00);
        let io = self.speed_run(baud, io);
        let io = io.w8(self.register(IIR_FCR), FCR_ENABLE_CLEAR | trigger.code());
        io.w8(self.register(MCR), MCR_DTR_RTS)
    }

    /// Probe the port, and where it is present set it up.
    pub open spec fn bring_up_run(self, baud: BaudRate, io: Io) -> (SerialPortExt, Io) {
        let (present, io) = self.probe_run(io);
        if present {
            (
                SerialPortExt { present, trigger: FifoTrigger::Bytes14, ..self },
                self.init_run(baud, FifoTrigger::Bytes14, io),
            )
        } else {
            (SerialPortExt { present, ..self }, io)
        }
    }

    /// Send a text, where the port is present.
    pub open spec fn text_run(self, bytes: Seq<u8>, io: Io) -> Io {
        if self.present {
            sends_run(self.base, terminal_bytes(bytes), io)
        } else {
            io
        }
    }

    pub fn new(base: u16) -> (port: Self)
        ensures
            port == (SerialPortExt { base, present: false, trigger: FifoTrigger::Bytes14 }),
    {
        SerialPortExt { base, present: false, trigger: FifoTrigger::Bytes14 }
    }

    pub fn is_present(&self) -> (present: bool)
        ensures
            present == self.present,
    {
        self.present
    }

    /// Find out whether there is something behind the port.
    pub fn probe<M: Machine>(&mut self, machine: &mut M) -> (present: bool)
        ensures
            (present, final(machine).io()) == old(self).probe_run(old(machine).io()),
            *final(self) == (SerialPortExt { present, ..*old(self) }),
    {
        self.write_reg(machine, SCR, PROBE_A);
        let a: u8 = self.read_reg(machine, SCR);
        self.write_reg(machine, SCR, PROBE_B);
        let b: u8 = self.read_reg(machine, SCR);
        self.present = a == PROBE_A && b == PROBE_B;
        self.present
    }

    /// Set the port up; it counts as present from then on.
    pub fn init<M: Machine>(&mut self, machine: &mut M, baud: BaudRate, trigger: FifoTrigger)
        ensures
            *final(self) == (SerialPortExt { present: true, trigger, ..*old(self) }),
            final(machine).io() == old(self).init_run(baud, trigger, old(machine).io()),
    {
        self.write_reg(machine, IER, 0x00);
        self.set_baud(machine, baud);
        self.write_reg(machine, IIR_FCR, FCR_ENABLE_CLEAR | trigger.bits());
        self.write_reg(machine, MCR, MCR_DTR_RTS);
        self.trigger = trigger;
        self.present = true;
    }

    /// Set the speed.
    pub fn set_baud<M: Machine>(&mut self, machine: &mut M, baud: BaudRate)
        ensures
            *final(self) == *old(self),
            final(machine).io() == old(self).speed_run(baud, old(machine).io()),
    {
        self.write_reg(machine, LCR, LCR_DLAB);
        let divisor: u16 = baud.divisor();
        self.write_reg(machine, DATA, (divisor & 0xFF) as u8);
        self.write_reg(machine, IER, ((divisor >> 8) & 0xFF) as u8);
        self.write_reg(machine, LCR, LCR_8N1);
    }

    /// Turn the queues on, empty.
    pub fn enable_fifo<M: Machine>(&mut self, machine: &mut M, trigger: FifoTrigger)
        ensures
            *final(self) == (SerialPortExt { trigger, ..*old(self) }),
            final(machine).io() == old(machine).io().w8(
                old(self).register(IIR_FCR),
                FCR_ENABLE_CLEAR | trigger.code(),
            ),
    {
        self.write_reg(machine, IIR_FCR, FCR_ENABLE_CLEAR | trigger.bits());
        self.trigger = trigger;
    }

    /// Turn the queues off.
    pub fn disable_fifo<M: Machine>(&mut self, machine: &mut M)
        ensures
            *final(self) == *old(self),
            final(machine).io() == old(machine).io().w8(old(self).register(IIR_FCR), 0x00),
    {
        self.write_reg(machine, IIR_FCR, 0x00);
    }

    /// Empty the queues; how they are set up stays.
    pub fn clear_fifos<M: Machine>(&mut self, machine: &mut M)
        ensures
            *final(self) == *old(self),
            final(machine).io() == old(machine).io().w8(
                old(self).register(IIR_FCR),
                FCR_ENABLE_CLEAR | old(self).trigger.code(),
            ),
    {
        self.write_reg(machine, IIR_FCR, FCR_ENABLE_CLEAR | self.trigger.bits());
    }

    pub fn line_status<M: Machine>(&self, machine: &mut M) -> (flags: LsrFlags)
        ensures
            flags.bits == old(machine).io().r8(self.register(LSR)).0 as u64 & LsrFlags::ALL,
            final(machine).io() == old(machine).io().r8(self.register(LSR)).1,
    {
        LsrFlags::from_bits_truncate(self.read_reg(machine, LSR) as u64)
    }

    pub fn modem_status<M: Machine>(&self, machine: &mut M) -> (flags: MsrFlags)
        ensures
            flags.bits == old(machine).io().r8(self.register(MSR)).0 as u64 & MsrFlags::ALL,
            final(machine).io() == old(machine).io().r8(self.register(MSR)).1,
    {
        MsrFlags::from_bits_truncate(self.read_reg(machine, MSR) as u64)
    }

    /// Whether a byte can be read.
    pub fn data_ready<M: Machine>(&self, machine: &mut M) -> (ready: bool)
        ensures
            ready == (old(machine).io().r8(self.register(LSR)).0 & 0x01 != 0),
            final(machine).io() == old(machine).io().r8(self.register(LSR)).1,
    {
        let flags: LsrFlags = self.line_status(machine);
        proof {
            lemma_status_bits(old(machine).io().r8(self.register(LSR)).0);
        }
        flags.contains(LsrFlags::DATA_READY)
    }

    /// Whether a byte can be sent.
    pub fn thr_empty<M: Machine>(&self, machine: &mut M) -> (empty: bool)
        ensures
            empty == (old(machine).io().r8(self.register(LSR)).0 & 0x20 != 0),
            final(machine).io() == old(machine).io().r8(self.register(LSR)).1,
    {
        let flags: LsrFlags = self.line_status(machine);
        proof {
            lemma_status_bits(old(machine).io().r8(self.register(LSR)).0);
        }
        flags.contains(LsrFlags::THR_EMPTY)
    }

    /// Send a byte, where the port is present.
    pub fn send<M: Machine>(&mut self, machine: &mut M, byte: u8)
        ensures
            *final(self) == *old(self),
            final(machine).io() == (if old(self).present {
                send_run(old(self).base, byte, old(machine).io())
            } else {
                old(machine).io()
            }),
    {
        if !self.present {
            return ;
        }
        send_byte(machine, self.base, byte);
    }

    /// Send a text, where the port is present; a carriage return goes before
    /// each line feed.
    pub fn send_str<M: Machine>(&mut self, machine: &mut M, s: &str)
        ensures
            *final(self) == *old(self),
            final(machine).io() == old(self).text_run(s.spec_bytes(), old(machine).io()),
    {
        if !self.present {
            return ;
        }
        send_text(machine, self.base, s);
    }

    /// Read a byte once one is there.
    pub fn read_byte<M: Machine>(&mut self, machine: &mut M) -> (byte: u8)
        ensures
            *final(self) == *old(self),
            (byte, final(machine).io()) == receive_run(old(self).base, old(machine).io()),
    {
        wait_line(machine, self.base, LSR_DATA_READY);
        self.read_reg(machine, DATA)
    }

    fn read_reg<M: Machine>(&self, machine: &mut M, offset: u16) -> (value: u8)
        ensures
            (value, final(machine).io()) == old(machine).io().r8(self.register(offset)),
    {
        machine.read8(Place::Port(self.base.wrapping_add(offset)))
    }

    fn write_reg<M: Machine>(&self, machine: &mut M, offset: u16, value: u8)
        ensures
            final(machine).io() == old(machine).io().w8(self.register(offset), value),
    {
        machine.write8(Place::Port(self.base.wrapping_add(offset)), value);
    }
}

proof fn lemma_status_bits(status: u8)
    by (bit_vector)
    ensures
        ((status as u64 & 0xFF) & 0x01 == 0x01) == (status & 0x01 != 0),
        ((status as u64 & 0xFF) & 0x20 == 0x20) == (status & 0x20 != 0),
{
}

/// The four ports.
#[derive(Debug, Clone, Copy, PartialEq, Eq, Structural)]
pub struct SerialHub {
    pub com1: SerialPortExt,
    pub com2: SerialPortExt,
    pub com3: SerialPortExt,
    pub com4: SerialPortExt,
}

impl SerialHub {
    pub open spec fn fresh() -> SerialHub {
        let port = |base: u16|
            SerialPortExt { base, present: false, trigger: FifoTrigger::Bytes14 };
        SerialHub {
            com1: port(COM1_BASE),
            com2: port(COM2_BASE),
            com3: port(COM3_BASE),
            com4: port(COM4_BASE),
        }
    }

    pub open spec fn at(self, port: ComPort) -> SerialPortExt {
        match port {
            ComPort::Com1 => self.com1,
            ComPort::Com2 => self.com2,
            ComPort::Com3 => self.com3,
            ComPort::Com4 => self.com4,
        }
    }

    pub open spec fn with(self, port: ComPort, state: SerialPortExt) -> SerialHub {
        match port {
            ComPort::Com1 => SerialHub { com1: state, ..self },
            ComPort::Com2 => SerialHub { com2: state, ..self },
            ComPort::Com3 => SerialHub { com3: state, ..self },
            ComPort::Com4 => SerialHub { com4: state, ..self },
        }
    }

    /// Bring all four ports up, one after the other.
    pub open spec fn all_run(self, baud: BaudRate, io: Io) -> (SerialHub, Io) {
        let (com1, io) = self.com1.bring_up_run(baud, io);
        let (com2, io) = self.com2.bring_up_run(baud, io);
        let (com3, io) = self.com3.bring_up_run(baud, io);
        let (com4, io) = self.com4.bring_up_run(baud, io);
        (SerialHub { com1, com2, com3, com4 }, io)
    }

    /// How many ports are present.
    pub open spec fn count(self) -> int {
        (if self.com1.present {
            1int
        } else {
            0
        }) + (if self.com2.present {
            1int
        } else {
            0
        }) + (if self.com3.present {
            1int
        } else {
            0
        }) + (if self.com4.present {
            1int
        } else {
            0
        })
    }

    pub fn new() -> (hub: Self)
        ensures
            hub == Self::fresh(),
    {
        SerialHub {
            com1: SerialPortExt::new(COM1_BASE),
            com2: SerialPortExt::new(COM2_BASE),
            com3: SerialPortExt::new(COM3_BASE),
            com4: SerialPortExt::new(COM4_BASE),
        }
    }

    fn bring_up<M: Machine>(machine: &mut M, port: SerialPortExt, baud: BaudRate) -> (after:
        SerialPortExt)
        ensures
            (after, final(machine).io()) == port.bring_up_run(baud, old(machine).io()),
    {
        let mut port: SerialPortExt = port;
        if port.probe(machine) {
            port.init(machine, baud, FifoTrigger::Bytes14);
        }
        port
    }

    /// Bring all ports up, and give how many are present.
    pub fn init_all<M: Machine>(&mut self, machine: &mut M, baud: BaudRate) -> (up: usize)
        ensures
            (*final(self), final(machine).io()) == old(self).all_run(baud, old(machine).io()),
            up == final(self).count(),
    {
        self.com1 = Self::bring_up(machine, self.com1, baud);
        self.com2 = Self::bring_up(machine, self.com2, baud);
        self.com3 = Self::bring_up(machine, self.com3, baud);
        self.com4 = Self::bring_up(machine, self.com4, baud);
        let mut up: usize = 0;
        if self.com1.present {
            up = up + 1;
        }
        if self.com2.present {
            up = up + 1;
        }
        if self.com3.present {
            up = up + 1;
        }
        if self.com4.present {
            up = up + 1;
        }
        up
    }

    /// Bring one port up, and give whether it is present.
    pub fn init_port<M: Machine>(&mut self, machine: &mut M, port: ComPort, baud: BaudRate) -> (up:
        bool)
        ensures
            ({
                let (after, io) = old(self).at(port).bring_up_run(baud, old(machine).io());
                &&& *final(self) == old(self).with(port, after)
                &&& final(machine).io() == io
                &&& up == after.present
            }),
    {
        let after: SerialPortExt = Self::bring_up(machine, *self.port(port), baud);
        match port {
            ComPort::Com1 => {
                self.com1 = after;
            },
            ComPort::Com2 => {
                self.com2 = after;
            },
            ComPort::Com3 => {
                self.com3 = after;
            },
            ComPort::Com4 => {
                self.com4 = after;
            },
        }
        after.present
    }

    pub fn port(&self, port: ComPort) -> (state: &SerialPortExt)
        ensures
            *state == self.at(port),
    {
        match port {
            ComPort::Com1 => &self.com1,
            ComPort::Com2 => &self.com2,
            ComPort::Com3 => &self.com3,
            ComPort::Com4 => &self.com4,
        }
    }

    /// A port, to work on.
    pub fn port_mut(&mut self, port: ComPort) -> (state: &mut SerialPortExt)
        ensures
            *state == old(self).at(port),
            *final(self) == old(self).with(port, *final(state)),
    {
        match port {
            ComPort::Com1 => &mut self.com1,
            ComPort::Com2 => &mut self.com2,
            ComPort::Com3 => &mut self.com3,
            ComPort::Com4 => &mut self.com4,
        }
    }

    /// Which ports are present.
    pub fn present(&self) -> (present: [bool; 4])
        ensures
            present@ == seq![
                self.com1.present,
                self.com2.present,
                self.com3.present,
                self.com4.present,
            ],
    {
        let present: [bool; 4] = [
            self.com1.is_present(),
            self.com2.is_present(),
            self.com3.is_present(),
            self.com4.is_present(),
        ];
        assert(present@ =~= seq![
            self.com1.present,
            self.com2.present,
            self.com3.present,
            self.com4.present,
        ]);
        present
    }

    /// Send a text through one port.
    pub fn send_to<M: Machine>(&mut self, machine: &mut M, port: ComPort, s: &str)
        ensures
            *final(self) == *old(self),
            final(machine).io() == old(self).at(port).text_run(s.spec_bytes(), old(machine).io()),
    {
        let mut state: SerialPortExt = *self.port(port);
        state.send_str(machine, s);
    }

    /// Send a text through every port that is present.
    pub fn broadcast<M: Machine>(&mut self, machine: &mut M, s: &str)
        ensures
            *final(self) == *old(self),
            final(machine).io() == ({
                let io = old(self).com1.text_run(s.spec_bytes(), old(machine).io());
                let io = old(self).com2.text_run(s.spec_bytes(), io);
                let io = old(self).com3.text_run(s.spec_bytes(), io);
                old(self).com4.text_run(s.spec_bytes(), io)
            }),
    {
        self.com1.send_str(machine, s);
        self.com2.send_str(machine, s);
        self.com3.send_str(machine, s);
        self.com4.send_str(machine, s);
    }
}

impl Default for SerialHub {
    fn default() -> (hub: Self)
        ensures
            hub == SerialHub::fresh(),
    {
        SerialHub::new()
    }
}

/// The port debug text goes to, brought up where it is not yet.
pub open spec fn debug_run(hub: SerialHub, io: Io) -> (SerialHub, Io) {
    if hub.com2.present {
        (hub, io)
    } else {
        let (com2, io) = hub.com2.bring_up_run(BaudRate::Baud38400, io);
        (SerialHub { com2, ..hub }, io)
    }
}

fn debug_port<M: Machine>(hub: &mut SerialHub, machine: &mut M)
    ensures
        (*final(hub), final(machine).io()) == debug_run(*old(hub), old(machine).io()),
{
    if !hub.com2.is_present() {
        let _ = hub.init_port(machine, ComPort::Com2, BaudRate::Baud38400);
    }
}

/// Send debug text.
pub fn debug_write<M: Machine>(hub: &mut SerialHub, machine: &mut M, s: &str)
    ensures
        *final(hub) == debug_run(*old(hub), old(machine).io()).0,
        final(machine).io() == ({
            let (after, io) = debug_run(*old(hub), old(machine).io());
            after.com2.text_run(s.spec_bytes(), io)
        }),
{
    debug_port(hub, machine);
    hub.send_to(machine, ComPort::Com2, s);
}

/// Send a line of debug text.
pub fn debug_writeln<M: Machine>(hub: &mut SerialHub, machine: &mut M, s: &str)
    ensures
        *final(hub) == debug_run(*old(hub), old(machine).io()).0,
        final(machine).io() == ({
            let (after, io) = debug_run(*old(hub), old(machine).io());
            if after.com2.present {
                let io = after.com2.text_run(s.spec_bytes(), io);
                let io = send_run(after.com2.base, CARRIAGE_RETURN, io);
                send_run(after.com2.base, LINE_FEED, io)
            } else {
                io
            }
        }),
{
    debug_port(hub, machine);
    hub.com2.send_str(machine, s);
    hub.com2.send(machine, CARRIAGE_RETURN);
    hub.com2.send(machine, LINE_FEED);
}

} // verus!
