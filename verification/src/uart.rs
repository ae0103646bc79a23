//! What the other end of a serial line sees.
use vstd::prelude::*;
use crate::machine::{Access, Io, Place};
use crate::serial::{
    line_run, receive_run, send_run, sends_run, terminal_bytes, SerialPort, LINE_POLLS,
};
use crate::serial_ext::{BaudRate, SerialPortExt};
use crate::trace::{group_observed, last_answer, observed};

verus! {

/// A serial port: its divider, whether that is in front of the data, its registers,
/// and what was sent.
pub struct UartView {
    pub latch: bool,
    pub low: u8,
    pub high: u8,
    pub interrupts: u8,
    pub queue: u8,
    pub line: u8,
    pub modem: u8,
    pub sent: Seq<u8>,
}

/// The port at `base`: data, or the lower half of the divider; interrupts, or the
/// upper half; queue, line and modem.  The top bit of the line register chooses.
pub open spec fn uart_step(base: u16) -> spec_fn(UartView, Access, u64) -> UartView {
    |view: UartView, access: Access, reply: u64|
        match access {
            Access::Write8(Place::Port(at), value) => if at == base {
                if view.latch {
                    UartView { low: value, ..view }
                } else {
                    UartView { sent: view.sent.push(value), ..view }
                }
            } else if at == base + 1 {
                if view.latch {
                    UartView { high: value, ..view }
                } else {
                    UartView { interrupts: value, ..view }
                }
            } else if at == base + 2 {
                UartView { queue: value, ..view }
            } else if at == base + 3 {
                UartView { latch: value >= 0x80, line: value, ..view }
            } else if at == base + 4 {
                UartView { modem: value, ..view }
            } else {
                view
            },
            _ => view,
        }
}

pub open spec fn uart_view(base: u16, io: Io) -> UartView {
    observed(
        io,
        UartView {
            latch: false,
            low: 0,
            high: 0,
            interrupts: 0,
            queue: 0,
            line: 0,
            modem: 0,
            sent: Seq::empty(),
        },
        uart_step(base),
    )
}

/// A port that is set up divides 115200 down to 38400, sends eight bits without
/// parity and with one stop bit, has its queues on and empty and its interrupts off,
/// and shows the modem that it is there.  Nothing is sent meanwhile.
pub proof fn lemma_port_is_set_up(port: SerialPort, io: Io)
    requires
        port.base + 8 <= 0xFFFF,
        !uart_view(port.base, io).latch,
    ensures
        ({
            let after = uart_view(port.base, port.init_run(io));
            &&& (after.low + 256 * after.high) * 38400 == 115200
            &&& after.line == 0x03
            &&& !after.latch
            &&& after.interrupts == 0
            &&& after.queue == 0xC7
            &&& after.modem == 0x03
            &&& after.sent == uart_view(port.base, io).sent
        }),
{
    broadcast use group_observed;

}

proof fn lemma_halves(divider: u16)
    by (bit_vector)
    ensures
        (divider & 0xFF) as u8 == divider % 256,
        ((divider >> 8) & 0xFF) as u8 == divider / 256,
{
}

/// Setting a speed divides the clock of 115200 down to it, and changes nothing else.
pub proof fn lemma_speed_is_set(port: SerialPortExt, baud: BaudRate, io: Io)
    requires
        port.base + 8 <= 0xFFFF,
    ensures
        ({
            let before = uart_view(port.base, io);
            let after = uart_view(port.base, port.speed_run(baud, io));
            let divider = after.low + 256 * after.high;
            &&& divider == (match baud {
                BaudRate::Baud1200 => 96int,
                BaudRate::Baud2400 => 48,
                BaudRate::Baud4800 => 24,
                BaudRate::Baud9600 => 12,
                BaudRate::Baud19200 => 6,
                BaudRate::Baud38400 => 3,
                BaudRate::Baud57600 => 2,
                BaudRate::Baud115200 => 1,
            })
            &&& after.line == 0x03
            &&& !after.latch
            &&& after.sent == before.sent
            &&& after.queue == before.queue
            &&& after.modem == before.modem
            &&& after.interrupts == before.interrupts
        }),
{
    broadcast use group_observed;

    lemma_halves((115200int / baud.rate()) as u16);
}

proof fn lemma_line_view(base: u16, mask: u8, polls: nat, io: Io)
    ensures
        uart_view(base, line_run(base, mask, polls, io)) == uart_view(base, io),
    decreases polls,
{
    broadcast use group_observed;

    if polls > 0 {
        let next = io.r8(Place::Port(base.wrapping_add(5))).1;
        assert(uart_view(base, next) == uart_view(base, io));
        lemma_line_view(base, mask, (polls - 1) as nat, next);
    }
}

/// Bytes that are sent arrive in order.
pub proof fn lemma_bytes_arrive(base: u16, bytes: Seq<u8>, io: Io)
    requires
        base + 8 <= 0xFFFF,
        !uart_view(base, io).latch,
    ensures
        ({
            let after = uart_view(base, sends_run(base, bytes, io));
            &&& !after.latch
            &&& after.sent == uart_view(base, io).sent + bytes
        }),
    decreases bytes.len(),
{
    broadcast use group_observed;

    let before = uart_view(base, io);
    if bytes.len() == 0 {
        assert(before.sent + bytes =~= before.sent);
    } else {
        lemma_bytes_arrive(base, bytes.drop_last(), io);
        let most = sends_run(base, bytes.drop_last(), io);
        lemma_line_view(base, 0x20, LINE_POLLS as nat, most);
        assert(before.sent + bytes =~= (before.sent + bytes.drop_last()).push(bytes.last()));
    }
}

/// What a terminal gets of a text is what it gets of its parts, and of one byte the
/// byte itself, with a carriage return before a line feed.
pub proof fn lemma_terminal_gets_parts(first: Seq<u8>, second: Seq<u8>, byte: u8)
    ensures
        terminal_bytes(first + second) == terminal_bytes(first) + terminal_bytes(second),
        terminal_bytes(seq![byte]) == (if byte == 10 {
            seq![13u8, 10u8]
        } else {
            seq![byte]
        }),
        terminal_bytes(Seq::empty()) == Seq::<u8>::empty(),
    decreases second.len(),
{
    reveal_with_fuel(terminal_bytes, 2);
    assert(seq![byte].drop_last() =~= Seq::<u8>::empty());
    assert(terminal_bytes(seq![byte]) =~= (if byte == 10 {
        seq![13u8, 10u8]
    } else {
        seq![byte]
    }));
    if second.len() == 0 {
        assert(first + second =~= first);
        assert(terminal_bytes(first) + terminal_bytes(second) =~= terminal_bytes(first));
    } else {
        lemma_terminal_gets_parts(first, second.drop_last(), byte);
        assert((first + second).drop_last() =~= first + second.drop_last());
        assert((first + second).last() == second.last());
        assert(terminal_bytes(first + second) =~= terminal_bytes(first) + terminal_bytes(second));
    }
}

/// A byte is sent after the line, five behind the port, showed bit five, or the
/// patience with it is at its end.
pub proof fn lemma_line_was_free(base: u16, mask: u8, polls: nat, io: Io)
    requires
        base + 8 <= 0xFFFF,
        polls > 0,
    ensures
        ({
            let later = line_run(base, mask, polls, io);
            let status = last_answer(later, Access::Read8(Place::Port((base + 5) as u16)));
            &&& status is Some
            &&& status->0 as u8 & mask != 0 || later.reads == io.reads + polls
        }),
    decreases polls,
{
    broadcast use group_observed;

    reveal_with_fuel(line_run, 2);
    let (status, next) = io.r8(Place::Port(base.wrapping_add(5)));
    if status & mask == 0 && polls > 1 {
        lemma_line_was_free(base, mask, (polls - 1) as nat, next);
    }
}

/// Sending waits for a free transmitter, bit five of the line, and then writes the
/// byte; receiving waits for bit zero, and then reads it.
pub proof fn lemma_byte_goes_through(base: u16, byte: u8, io: Io)
    requires
        base + 8 <= 0xFFFF,
    ensures
        ({
            let later = send_run(base, byte, io);
            let free = last_answer(later, Access::Read8(Place::Port((base + 5) as u16)));
            &&& later.trace.last() == Access::Write8(Place::Port(base), byte)
            &&& free is Some
            &&& free->0 as u8 & 0x20 != 0 || later.reads == io.reads + LINE_POLLS
        }),
        ({
            let (received, later) = receive_run(base, io);
            let ready = last_answer(later, Access::Read8(Place::Port((base + 5) as u16)));
            &&& later.trace.last() == Access::Read8(Place::Port(base))
            &&& received == (later.replies)((later.reads - 1) as nat) as u8
            &&& ready is Some
            &&& ready->0 as u8 & 0x01 != 0 || later.reads == io.reads + LINE_POLLS + 1
        }),
{
    broadcast use group_observed;

    lemma_line_was_free(base, 0x20, LINE_POLLS as nat, io);
    lemma_line_was_free(base, 0x01, LINE_POLLS as nat, io);
}

/// A port is there where its idle register, seven behind it, gives back two patterns
/// one after the other; then it is set up with its queues on and its interrupts off.
pub proof fn lemma_extra_port_is_found(port: SerialPortExt, baud: BaudRate, io: Io)
    requires
        port.base + 8 <= 0xFFFF,
        !uart_view(port.base, io).latch,
    ensures
        ({
            let (after, later) = port.bring_up_run(baud, io);
            let idle = Place::Port((port.base + 7) as u16);
            let start = io.trace.len() as int;
            let view = uart_view(port.base, later);
            &&& later.trace[start] == Access::Write8(idle, 0x5A)
            &&& later.trace[start + 1] == Access::Read8(idle)
            &&& later.trace[start + 2] == Access::Write8(idle, 0xA5)
            &&& later.trace[start + 3] == Access::Read8(idle)
            &&& after.present <==> io.reply() as u8 == 0x5A && (io.replies)(io.reads + 1) as u8
                == 0xA5
            &&& after.base == port.base
            &&& !after.present ==> later.trace.len() == start + 4
            &&& after.present ==> view.interrupts == 0 && view.line == 0x03 && !view.latch
                && view.queue == 0x07u8 | 0xC0u8 && view.modem == 0x03 && view.sent == uart_view(
                port.base,
                io,
            ).sent
        }),
{
    broadcast use group_observed;

}

} // verus!
