//! A serial port with a 16550 behind it.
use vstd::prelude::*;
use vstd::string::StringSliceAdditionalSpecFns;
use crate::machine::{Io, Machine, Place};

verus! {

pub const DATA: u16 = 0;
pub const IER: u16 = 1;
pub const IIR_FCR: u16 = 2;
pub const LCR: u16 = 3;
pub const MCR: u16 = 4;
pub const LSR: u16 = 5;
pub const LSR_DATA_READY: u8 = 0x01;
pub const LSR_THR_EMPTY: u8 = 0x20;
pub const LCR_8N1: u8 = 0x03;
pub const LCR_DLAB: u8 = 0x83;
pub const FCR_ENABLE: u8 = 0xC7;
pub const MCR_DTR_RTS: u8 = 0x03;
pub const DIVISOR_38400: u8 = 0x03;
/// The port at which an emulator listens.
pub const DEBUG_CONSOLE: u16 = 0xE9;
pub const COM1: u16 = 0x3F8;
/// Polls of a line that never gets ready before it is used as it is.
pub const LINE_POLLS: u64 = 0xffff_ffff_ffff_ffff;
pub const CARRIAGE_RETURN: u8 = 0x0D;
pub const LINE_FEED: u8 = 0x0A;

/// Poll the line status until a bit is set.
pub open spec fn line_run(base: u16, mask: u8, polls: nat, io: Io) -> Io
    decreases polls,
{
    if polls == 0 {
        io
    } else {
        let (status, io) = io.r8(Place::Port(base.wrapping_add(LSR)));
        if status & mask != 0 {
            io
        } else {
            line_run(base, mask, (polls - 1) as nat, io)
        }
    }
}

/// Poll the line status until a bit is set.
pub(crate) fn wait_line<M: Machine>(machine: &mut M, base: u16, mask: u8)
    ensures
        final(machine).io() == line_run(base, mask, LINE_POLLS as nat, old(machine).io()),
{
    let mut polls: u64 = LINE_POLLS;
    while polls > 0
        invariant
            line_run(base, mask, LINE_POLLS as nat, old(machine).io()) == line_run(
                base,
                mask,
                polls as nat,
                machine.io(),
            ),
        decreases polls,
    {
        if machine.read8(Place::Port(base.wrapping_add(LSR))) & mask != 0 {
            return ;
        }
        polls = polls - 1;
    }
}

/// Send a byte once the transmitter is empty.
pub open spec fn send_run(base: u16, byte: u8, io: Io) -> Io {
    line_run(base, LSR_THR_EMPTY, LINE_POLLS as nat, io).w8(
        Place::Port(base.wrapping_add(DATA)),
        byte,
    )
}

/// Bytes as a terminal wants them: a carriage return before each line feed.
pub open spec fn terminal_bytes(bytes: Seq<u8>) -> Seq<u8>
    decreases bytes.len(),
{
    if bytes.len() == 0 {
        Seq::empty()
    } else {
        let before = terminal_bytes(bytes.drop_last());
        if bytes.last() == LINE_FEED {
            before.push(CARRIAGE_RETURN).push(LINE_FEED)
        } else {
            before.push(bytes.last())
        }
    }
}

/// Send some bytes one by one.
pub open spec fn sends_run(base: u16, bytes: Seq<u8>, io: Io) -> Io
    decreases bytes.len(),
{
    if bytes.len() == 0 {
        io
    } else {
        send_run(base, bytes.last(), sends_run(base, bytes.drop_last(), io))
    }
}

proof fn lemma_sends_push(base: u16, bytes: Seq<u8>, byte: u8, io: Io)
    ensures
        sends_run(base, bytes.push(byte), io) == send_run(base, byte, sends_run(base, bytes, io)),
{
    assert(bytes.push(byte).drop_last() =~= bytes);
}

/// Read a byte once one is there.
pub open spec fn receive_run(base: u16, io: Io) -> (u8, Io) {
    line_run(base, LSR_DATA_READY, LINE_POLLS as nat, io).r8(
        Place::Port(base.wrapping_add(DATA)),
    )
}

/// Send a byte once the transmitter is empty.
pub(crate) fn send_byte<M: Machine>(machine: &mut M, base: u16, byte: u8)
    ensures
        final(machine).io() == send_run(base, byte, old(machine).io()),
{
    wait_line(machine, base, LSR_THR_EMPTY);
    machine.write8(Place::Port(base.wrapping_add(DATA)), byte);
}

/// Send a text as a terminal wants it.
pub(crate) fn send_text<M: Machine>(machine: &mut M, base: u16, text: &str)
    ensures
        final(machine).io() == sends_run(
            base,
            terminal_bytes(text.spec_bytes()),
            old(machine).io(),
        ),
{
    let bytes: &[u8] = text.as_bytes();
    let mut i: usize = 0;
    assert(bytes@.take(0) =~= Seq::<u8>::empty());
    while i < bytes.len()
        invariant
            i <= bytes@.len(),
            machine.io() == sends_run(
                base,
                terminal_bytes(bytes@.take(i as int)),
                old(machine).io(),
            ),
        decreases bytes@.len() - i,
    {
        let byte: u8 = bytes[i];
        let ghost before = terminal_bytes(bytes@.take(i as int));
        if byte == LINE_FEED {
            send_byte(machine, base, CARRIAGE_RETURN);
        }
        send_byte(machine, base, byte);
        proof {
            assert(bytes@.take(i + 1).drop_last() =~= bytes@.take(i as int));
            lemma_sends_push(base, before, CARRIAGE_RETURN, old(machine).io());
            lemma_sends_push(base, before.push(CARRIAGE_RETURN), byte, old(machine).io());
            lemma_sends_push(base, before, byte, old(machine).io());
        }
        i = i + 1;
    }
    assert(bytes@.take(i as int) =~= bytes@);
}

/// A serial port.
#[derive(Clone, Copy, Debug, PartialEq, Eq, Structural)]
pub struct SerialPort {
    pub base: u16,
}

impl SerialPort {
    pub fn new(base: u16) -> (port: Self)
        ensures
            port.base == base,
    {
        SerialPort { base }
    }

    pub open spec fn register(self, offset: u16) -> Place {
        Place::Port(self.base.wrapping_add(offset))
    }

    /// Interrupts off, 38400 baud, eight bits without parity, queues on.
    pub open spec fn init_run(self, io: Io) -> Io {
        let io = io.w8(self.register(IER), 0);
        let io = io.w8(self.register(LCR), LCR_DLAB);
        let io = io.w8(self.register(DATA), DIVISOR_38400);
        let io = io.w8(self.register(IER), 0);
        let io = io.w8(self.register(LCR), LCR_8N1);
        let io = io.w8(self.register(IIR_FCR), FCR_ENABLE);
        io.w8(self.register(MCR), MCR_DTR_RTS)
    }

    /// Set the port up.
    pub fn init<M: Machine>(&mut self, machine: &mut M)
        ensures
            *final(self) == *old(self),
            final(machine).io() == old(self).init_run(old(machine).io()),
    {
        self.write_reg(machine, IER, 0);
        self.write_reg(machine, LCR, LCR_DLAB);
        self.write_reg(machine, DATA, DIVISOR_38400);
        self.write_reg(machine, IER, 0);
        self.write_reg(machine, LCR, LCR_8N1);
        self.write_reg(machine, IIR_FCR, FCR_ENABLE);
        self.write_reg(machine, MCR, MCR_DTR_RTS);
    }

    /// Send a byte.
    pub fn send<M: Machine>(&mut self, machine: &mut M, byte: u8)
        ensures
            *final(self) == *old(self),
            final(machine).io() == send_run(old(self).base, byte, old(machine).io()),
    {
        send_byte(machine, self.base, byte);
    }

    /// Send a text; a carriage return goes before each line feed.
    pub fn send_str<M: Machine>(&mut self, machine: &mut M, s: &str)
        ensures
            *final(self) == *old(self),
            final(machine).io() == sends_run(
                old(self).base,
                terminal_bytes(s.spec_bytes()),
                old(machine).io(),
            ),
    {
        send_text(machine, self.base, s);
    }

    /// Read a byte once one is there.
    pub fn read_byte<M: Machine>(&mut self, machine: &mut M) -> (byte: u8)
        ensures
            *final(self) == *old(self),
            (byte, final(machine).io()) == receive_run(old(self).base, old(machine).io()),
    {
        wait_line(machine, self.base, LSR_DATA_READY);
        self.read_reg(machine, DATA)
    }

    /// Whether a byte can be read.
    pub fn data_ready<M: Machine>(&self, machine: &mut M) -> (ready: bool)
        ensures
            ready == (old(machine).io().r8(self.register(LSR)).0 & LSR_DATA_READY != 0),
            final(machine).io() == old(machine).io().r8(self.register(LSR)).1,
    {
        self.read_reg(machine, LSR) & LSR_DATA_READY != 0
    }

    /// Whether a byte can be sent.
    pub fn thr_empty<M: Machine>(&self, machine: &mut M) -> (empty: bool)
        ensures
            empty == (old(machine).io().r8(self.register(LSR)).0 & LSR_THR_EMPTY != 0),
            final(machine).io() == old(machine).io().r8(self.register(LSR)).1,
    {
        self.read_reg(machine, LSR) & LSR_THR_EMPTY != 0
    }

    fn read_reg<M: Machine>(&self, machine: &mut M, offset: u16) -> (value: u8)
        ensures
            (value, final(machine).io()) == old(machine).io().r8(self.register(offset)),
    {
        machine.read8(Place::Port(self.base.wrapping_add(offset)))
    }

    fn write_reg<M: Machine>(&self, machine: &mut M, offset: u16, value: u8)
        ensures
            final(machine).io() == old(machine).io().w8(self.register(offset), value),
    {
        machine.write8(Place::Port(self.base.wrapping_add(offset)), value);
    }
}

/// Send a byte to the emulator's console.
pub fn e9_write_char<M: Machine>(machine: &mut M, byte: u8)
    ensures
        final(machine).io() == old(machine).io().w8(Place::Port(DEBUG_CONSOLE), byte),
{
    machine.write8(Place::Port(DEBUG_CONSOLE), byte);
}

/// How many line feeds there are.
pub open spec fn line_feeds(bytes: Seq<u8>) -> nat
    decreases bytes.len(),
{
    if bytes.len() == 0 {
        0
    } else {
        line_feeds(bytes.drop_last()) + if bytes.last() == LINE_FEED {
            1nat
        } else {
            0nat
        }
    }
}

/// A terminal gets every byte, and one carriage return for each line feed.
pub proof fn lemma_terminal_bytes_count(bytes: Seq<u8>)
    ensures
        terminal_bytes(bytes).len() == bytes.len() + line_feeds(bytes),
        line_feeds(bytes) == 0 ==> terminal_bytes(bytes) =~= bytes,
    decreases bytes.len(),
{
    if bytes.len() > 0 {
        lemma_terminal_bytes_count(bytes.drop_last());
    }
}

} // verus!
