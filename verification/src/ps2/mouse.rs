//! The mouse: packets of three or four bytes, and the queue of samples.
use vstd::prelude::*;
use std::collections::VecDeque;
use crate::machine::{Io, Machine, Place};
use crate::ps2::{
    get, get_run, in_empty_run, out_full_run, poll_in_empty, poll_out_full, put, put_run, Output,
    CMD_DISABLE_AUX, CMD_ENABLE_AUX, CMD_READ_CONFIG, CMD_WRITE_AUX, CMD_WRITE_CONFIG, DATA,
    STATUS_CMD, STS_FROM_AUX, STS_OUT_FULL,
};

verus! {

/// The bits of the configuration byte that are the mouse's.
pub const CFG_SECOND_INT: u8 = 0x02;
pub const CFG_DISABLE_SECOND: u8 = 0x20;

pub const MOUSE_RESET: u8 = 0xFF;
pub const MOUSE_SET_DEFAULTS: u8 = 0xF6;
pub const MOUSE_ENABLE_REPORTING: u8 = 0xF4;
pub const MOUSE_SET_SAMPLE_RATE: u8 = 0xF3;
pub const MOUSE_GET_ID: u8 = 0xF2;
pub const MOUSE_SET_RESOLUTION: u8 = 0xE8;
pub const MOUSE_SCALING_1_1: u8 = 0xE6;
pub const ACK: u8 = 0xFA;
pub const SELF_TEST_PASSED: u8 = 0xAA;
pub const ID_STANDARD: u8 = 0x00;
pub const ID_INTELLIMOUSE: u8 = 0x03;
/// Polls of the status port at most; a reset takes its time.
pub const POLL_LIMIT: u32 = 200_000;
/// Samples in a second.
pub const SAMPLE_RATE: u8 = 60;

pub const BTN_LEFT_BIT: u8 = 0x01;
pub const BTN_RIGHT_BIT: u8 = 0x02;
pub const BTN_MIDDLE_BIT: u8 = 0x04;
/// Set in the first byte of every packet.
pub const SYNC_BIT: u8 = 0x08;
pub const X_SIGN_BIT: u8 = 0x10;
pub const Y_SIGN_BIT: u8 = 0x20;
pub const X_OVERFLOW_BIT: u8 = 0x40;
pub const Y_OVERFLOW_BIT: u8 = 0x80;
pub const Z_MASK: u8 = 0x0F;
pub const Z_SIGN_BIT: u8 = 0x08;
pub const BTN_BACK_BIT: u8 = 0x10;
pub const BTN_FORWARD_BIT: u8 = 0x20;
/// Samples that are kept.
pub const EVENT_QUEUE_CAP: usize = 64;

#[derive(Debug, Clone, Copy, PartialEq, Eq, Structural)]
pub enum Ps2MouseError {
    Timeout,
    /// The mouse did not acknowledge a byte.
    BadAck,
    BusError,
    SelfTestFailed,
    ScrollUnsupported,
}

/// Buttons that are held.
#[derive(Debug, Clone, Copy, PartialEq, Eq, Structural)]
pub struct MouseButtons {
    pub bits: u8,
}

impl MouseButtons {
    pub const LEFT: u8 = 0x01;
    pub const RIGHT: u8 = 0x02;
    pub const MIDDLE: u8 = 0x04;
    pub const BACK: u8 = 0x10;
    pub const FORWARD: u8 = 0x20;
    /// Every bit that is defined.
    pub const ALL: u8 = 0x37;

    pub fn empty() -> (none: Self)
        ensures
            none.bits == 0,
    {
        MouseButtons { bits: 0 }
    }

    /// The defined bits of a byte.
    pub fn from_bits_truncate(bits: u8) -> (buttons: Self)
        ensures
            buttons.bits == bits & Self::ALL,
    {
        MouseButtons { bits: bits & Self::ALL }
    }

    pub fn bits(self) -> (bits: u8)
        ensures
            bits == self.bits,
    {
        self.bits
    }

    pub fn is_empty(self) -> (none: bool)
        ensures
            none == (self.bits == 0),
    {
        self.bits == 0
    }

    /// Whether every bit of `mask` is set.
    pub fn contains(self, mask: u8) -> (all: bool)
        ensures
            all == (self.bits & mask == mask),
    {
        self.bits & mask == mask
    }

    /// Set the bits of `mask` that are defined.
    pub fn insert(&mut self, mask: u8)
        ensures
            final(self).bits == old(self).bits | (mask & Self::ALL),
    {
        self.bits = self.bits | (mask & Self::ALL);
    }
}

impl Default for MouseButtons {
    fn default() -> (none: Self)
        ensures
            none.bits == 0,
    {
        MouseButtons { bits: 0 }
    }
}

/// One sample.
#[derive(Debug, Clone, Copy, PartialEq, Eq, Structural)]
pub struct MouseEvent {
    pub buttons: MouseButtons,
    /// Counts to the right.
    pub dx: i16,
    /// Counts downwards.
    pub dy: i16,
    /// Notches of the wheel, upwards.
    pub dz: i8,
}

impl Default for MouseEvent {
    fn default() -> (event: Self)
        ensures
            event == (MouseEvent { buttons: MouseButtons { bits: 0 }, dx: 0, dy: 0, dz: 0 }),
    {
        MouseEvent { buttons: MouseButtons { bits: 0 }, dx: 0, dy: 0, dz: 0 }
    }
}

/// A movement of nine bits.
pub open spec fn nine_bits(sign_set: bool, low: u8) -> int {
    low as int - if sign_set {
        256int
    } else {
        0int
    }
}

/// A movement of nine bits.
pub fn sign_extend_9(sign_set: bool, low: u8) -> (value: i16)
    ensures
        value == nine_bits(sign_set, low),
{
    let v: i16 = low as i16;
    if sign_set {
        v - 256
    } else {
        v
    }
}

/// A movement of four bits.
pub open spec fn four_bits(nibble: u8) -> int {
    nibble as int - if nibble & Z_SIGN_BIT != 0 {
        16int
    } else {
        0int
    }
}

/// A movement of four bits.
pub fn sign_extend_4(nibble: u8) -> (value: i8)
    requires
        nibble <= Z_MASK,
    ensures
        value == four_bits(nibble),
{
    let v: i8 = nibble as i8;
    if nibble & Z_SIGN_BIT != 0 {
        v - 16
    } else {
        v
    }
}

/// The buttons of a packet.
pub open spec fn packet_buttons(bytes: Seq<u8>, four_byte: bool) -> MouseButtons {
    let first = bytes[0] & (BTN_LEFT_BIT | BTN_RIGHT_BIT | BTN_MIDDLE_BIT) & MouseButtons::ALL;
    if four_byte {
        let back = if bytes[3] & BTN_BACK_BIT != 0 {
            first | (MouseButtons::BACK & MouseButtons::ALL)
        } else {
            first
        };
        MouseButtons {
            bits: if bytes[3] & BTN_FORWARD_BIT != 0 {
                back | (MouseButtons::FORWARD & MouseButtons::ALL)
            } else {
                back
            },
        }
    } else {
        MouseButtons { bits: first }
    }
}

/// The sample of a packet; none where a movement did not fit.  The mouse counts
/// upwards, the screen downwards.
pub open spec fn sample(bytes: Seq<u8>, four_byte: bool) -> Option<MouseEvent> {
    if bytes[0] & (X_OVERFLOW_BIT | Y_OVERFLOW_BIT) != 0 {
        None
    } else {
        Some(
            MouseEvent {
                buttons: packet_buttons(bytes, four_byte),
                dx: nine_bits(bytes[0] & X_SIGN_BIT != 0, bytes[1]) as i16,
                dy: (-nine_bits(bytes[0] & Y_SIGN_BIT != 0, bytes[2])) as i16,
                dz: if four_byte {
                    four_bits(bytes[3] & Z_MASK) as i8
                } else {
                    0
                },
            },
        )
    }
}

/// The sample of a packet; none where a movement did not fit.
pub fn decode_packet(bytes: &[u8], four_byte: bool) -> (event: Option<MouseEvent>)
    requires
        bytes@.len() >= 1,
        bytes@[0] & (X_OVERFLOW_BIT | Y_OVERFLOW_BIT) == 0 ==> bytes@.len() >= 3 && (four_byte
            ==> bytes@.len() >= 4),
    ensures
        event == sample(bytes@, four_byte),
{
    let flags: u8 = bytes[0];
    if flags & (X_OVERFLOW_BIT | Y_OVERFLOW_BIT) != 0 {
        return None;
    }
    let mut buttons: MouseButtons = MouseButtons::from_bits_truncate(
        flags & (BTN_LEFT_BIT | BTN_RIGHT_BIT | BTN_MIDDLE_BIT),
    );
    let dx: i16 = sign_extend_9(flags & X_SIGN_BIT != 0, bytes[1]);
    let dy: i16 = -sign_extend_9(flags & Y_SIGN_BIT != 0, bytes[2]);
    let mut dz: i8 = 0;
    if four_byte {
        let zbyte: u8 = bytes[3];
        proof {
            crate::bits::lemma_mask8(zbyte, Z_MASK);
        }
        dz = sign_extend_4(zbyte & Z_MASK);
        if zbyte & BTN_BACK_BIT != 0 {
            buttons.insert(MouseButtons::BACK);
        }
        if zbyte & BTN_FORWARD_BIT != 0 {
            buttons.insert(MouseButtons::FORWARD);
        }
    }
    Some(MouseEvent { buttons, dx, dy, dz })
}

proof fn lemma_nibble(z: u8)
    by (bit_vector)
    ensures
        (z & 0x0F) & 0x08 != 0 <==> z & 0x0F >= 8,
        z & 0x0F <= 15,
{
}

/// A sample says no more than nine bits of movement and four of the wheel.
pub proof fn lemma_sample_ranges(bytes: Seq<u8>, four_byte: bool)
    requires
        bytes.len() >= 4,
        sample(bytes, four_byte) is Some,
    ensures
        -256 <= sample(bytes, four_byte)->0.dx <= 255,
        -255 <= sample(bytes, four_byte)->0.dy <= 256,
        -8 <= sample(bytes, four_byte)->0.dz <= 7,
        !four_byte ==> sample(bytes, four_byte)->0.dz == 0,
{
    lemma_nibble(bytes[3]);
}

/// A packet under way.
#[derive(Debug)]
pub struct PacketDecoder {
    pub bytes: [u8; 4],
    pub index: usize,
    pub four_byte: bool,
}

/// The same, apart from how it is held.
#[verifier::ext_equal]
pub struct DecoderModel {
    pub bytes: Seq<u8>,
    pub index: usize,
    pub four_byte: bool,
}

impl View for PacketDecoder {
    type V = DecoderModel;

    open spec fn view(&self) -> DecoderModel {
        DecoderModel { bytes: self.bytes@, index: self.index, four_byte: self.four_byte }
    }
}

impl DecoderModel {
    /// Whether the next byte has a place.
    pub open spec fn wf(self) -> bool {
        self.index <= 3 && self.bytes.len() == 4
    }

    pub open spec fn length(self) -> int {
        if self.four_byte {
            4
        } else {
            3
        }
    }

    /// Take in a byte.  One that cannot be the first of a packet is dropped
    /// where a packet begins.
    pub open spec fn feed_run(self, byte: u8) -> (Option<MouseEvent>, DecoderModel) {
        let stored = DecoderModel { bytes: self.bytes.update(self.index as int, byte), ..self };
        if self.index == 0 {
            if byte & SYNC_BIT == 0 {
                (None, self)
            } else {
                (None, DecoderModel { index: 1, ..stored })
            }
        } else if self.index + 1 < self.length() {
            (None, DecoderModel { index: (self.index + 1) as usize, ..stored })
        } else {
            (sample(stored.bytes, self.four_byte), DecoderModel { index: 0, ..stored })
        }
    }
}

impl PacketDecoder {
    pub fn new() -> (decoder: Self)
        ensures
            decoder@ == (DecoderModel { bytes: seq![0u8, 0, 0, 0], index: 0, four_byte: false }),
            decoder@.wf(),
    {
        let decoder = PacketDecoder { bytes: [0, 0, 0, 0], index: 0, four_byte: false };
        assert(decoder.bytes@ =~= seq![0u8, 0, 0, 0]);
        decoder
    }

    /// Bytes of a packet.
    pub fn packet_len(&self) -> (length: usize)
        ensures
            length == self@.length(),
    {
        if self.four_byte {
            4
        } else {
            3
        }
    }

    /// Take in a byte, and give the sample that it completes.
    pub fn feed(&mut self, byte: u8) -> (event: Option<MouseEvent>)
        requires
            old(self)@.wf(),
        ensures
            (event, final(self)@) == old(self)@.feed_run(byte),
            final(self)@.wf(),
    {
        if self.index == 0 {
            if byte & SYNC_BIT == 0 {
                return None;
            }
            self.bytes[0] = byte;
            self.index = 1;
            return None;
        }
        self.bytes[self.index] = byte;
        self.index = self.index + 1;
        if self.index < self.packet_len() {
            return None;
        }
        self.index = 0;
        decode_packet(self.bytes.as_slice(), self.four_byte)
    }
}

/// From the start of a packet, whole packets give their samples one by one and
/// leave the decoder at the start again.
pub proof fn lemma_whole_packet(decoder: DecoderModel, a: u8, b: u8, c: u8, d: u8)
    requires
        decoder.wf(),
        decoder.index == 0,
        a & SYNC_BIT != 0,
    ensures
        !decoder.four_byte ==> {
            let (e1, s1) = decoder.feed_run(a);
            let (e2, s2) = s1.feed_run(b);
            let (e3, s3) = s2.feed_run(c);
            &&& e1 is None && e2 is None
            &&& e3 == sample(seq![a, b, c], false)
            &&& s3.index == 0
        },
        decoder.four_byte ==> {
            let (e1, s1) = decoder.feed_run(a);
            let (e2, s2) = s1.feed_run(b);
            let (e3, s3) = s2.feed_run(c);
            let (e4, s4) = s3.feed_run(d);
            &&& e1 is None && e2 is None && e3 is None
            &&& e4 == sample(seq![a, b, c, d], true)
            &&& s4.index == 0
        },
{
}

/// Send a command to the controller.
pub open spec fn controller_run(cmd: u8, io: Io) -> (Result<(), Ps2MouseError>, Io) {
    let (written, io) = put_run(POLL_LIMIT as nat, STATUS_CMD, cmd, io);
    (
        if written {
            Ok(())
        } else {
            Err(Ps2MouseError::Timeout)
        },
        io,
    )
}

/// Write a data byte.
pub open spec fn data_run(byte: u8, io: Io) -> (Result<(), Ps2MouseError>, Io) {
    let (written, io) = put_run(POLL_LIMIT as nat, DATA, byte, io);
    (
        if written {
            Ok(())
        } else {
            Err(Ps2MouseError::Timeout)
        },
        io,
    )
}

/// Read a data byte.
pub open spec fn read_run(io: Io) -> (Result<u8, Ps2MouseError>, Io) {
    let (output, byte, io) = get_run(POLL_LIMIT as nat, io);
    (
        match output {
            Output::Waiting => Ok(byte),
            Output::Faulty => Err(Ps2MouseError::BusError),
            Output::Missing => Err(Ps2MouseError::Timeout),
        },
        io,
    )
}

/// Send a byte to the mouse, which has to acknowledge it.
pub open spec fn mouse_run(byte: u8, io: Io) -> (Result<(), Ps2MouseError>, Io) {
    match controller_run(CMD_WRITE_AUX, io) {
        (Err(error), io) => (Err(error), io),
        (Ok(_), io) => match data_run(byte, io) {
            (Err(error), io) => (Err(error), io),
            (Ok(_), io) => match read_run(io) {
                (Err(error), io) => (Err(error), io),
                (Ok(answer), io) => if answer == ACK {
                    (Ok(()), io)
                } else {
                    (Err(Ps2MouseError::BadAck), io)
                },
            },
        },
    }
}

/// Send one byte after the other to the mouse.
pub open spec fn bytes_run(bytes: Seq<u8>, from: int, io: Io) -> (Result<(), Ps2MouseError>, Io)
    decreases bytes.len() - from,
{
    if from >= bytes.len() {
        (Ok(()), io)
    } else {
        match mouse_run(bytes[from], io) {
            (Err(error), io) => (Err(error), io),
            (Ok(_), io) => bytes_run(bytes, from + 1, io),
        }
    }
}

fn controller_cmd<M: Machine>(machine: &mut M, cmd: u8) -> (result: Result<(), Ps2MouseError>)
    ensures
        (result, final(machine).io()) == controller_run(cmd, old(machine).io()),
{
    if put(machine, POLL_LIMIT, STATUS_CMD, cmd) {
        Ok(())
    } else {
        Err(Ps2MouseError::Timeout)
    }
}

fn write_data<M: Machine>(machine: &mut M, byte: u8) -> (result: Result<(), Ps2MouseError>)
    ensures
        (result, final(machine).io()) == data_run(byte, old(machine).io()),
{
    if put(machine, POLL_LIMIT, DATA, byte) {
        Ok(())
    } else {
        Err(Ps2MouseError::Timeout)
    }
}

fn read_data<M: Machine>(machine: &mut M) -> (result: Result<u8, Ps2MouseError>)
    ensures
        (result, final(machine).io()) == read_run(old(machine).io()),
{
    match get(machine, POLL_LIMIT) {
        (Output::Waiting, byte) => Ok(byte),
        (Output::Faulty, _) => Err(Ps2MouseError::BusError),
        (Output::Missing, _) => Err(Ps2MouseError::Timeout),
    }
}

fn mouse_write<M: Machine>(machine: &mut M, byte: u8) -> (result: Result<(), Ps2MouseError>)
    ensures
        (result, final(machine).io()) == mouse_run(byte, old(machine).io()),
{
    match controller_cmd(machine, CMD_WRITE_AUX) {
        Ok(_) => {},
        Err(error) => {
            return Err(error);
        },
    }
    match write_data(machine, byte) {
        Ok(_) => {},
        Err(error) => {
            return Err(error);
        },
    }
    match read_data(machine) {
        Ok(answer) => if answer == ACK {
            Ok(())
        } else {
            Err(Ps2MouseError::BadAck)
        },
        Err(error) => Err(error),
    }
}

fn mouse_writes<M: Machine>(machine: &mut M, bytes: &[u8]) -> (result: Result<(), Ps2MouseError>)
    ensures
        (result, final(machine).io()) == bytes_run(bytes@, 0, old(machine).io()),
{
    let mut i: usize = 0;
    while i < bytes.len()
        invariant
            i <= bytes@.len(),
            bytes_run(bytes@, 0, old(machine).io()) == bytes_run(bytes@, i as int, machine.io()),
        decreases bytes@.len() - i,
    {
        match mouse_write(machine, bytes[i]) {
            Ok(_) => {},
            Err(error) => {
                return Err(error);
            },
        }
        i = i + 1;
    }
    Ok(())
}

/// The configuration with the mouse's interrupt on and its port enabled; every
/// other bit stays.
pub open spec fn mouse_config(bits: u8) -> u8 {
    (bits | CFG_SECOND_INT) & !CFG_DISABLE_SECOND
}

/// Let the controller pass the mouse on.
pub open spec fn attach_run(io: Io) -> (Result<(), Ps2MouseError>, Io) {
    match controller_run(CMD_DISABLE_AUX, io) {
        (Err(error), io) => (Err(error), io),
        (Ok(_), io) => match controller_run(CMD_READ_CONFIG, io) {
            (Err(error), io) => (Err(error), io),
            (Ok(_), io) => match read_run(io) {
                (Err(error), io) => (Err(error), io),
                (Ok(config), io) => match controller_run(CMD_WRITE_CONFIG, io) {
                    (Err(error), io) => (Err(error), io),
                    (Ok(_), io) => match data_run(mouse_config(config), io) {
                        (Err(error), io) => (Err(error), io),
                        (Ok(_), io) => controller_run(CMD_ENABLE_AUX, io),
                    },
                },
            },
        },
    }
}

/// Reset the mouse: it acknowledges, reports its self test and its number.
pub open spec fn reset_run(io: Io) -> (Result<(), Ps2MouseError>, Io) {
    match mouse_run(MOUSE_RESET, io) {
        (Err(error), io) => (Err(error), io),
        (Ok(_), io) => match read_run(io) {
            (Err(error), io) => (Err(error), io),
            (Ok(answer), io) => if answer != SELF_TEST_PASSED {
                (Err(Ps2MouseError::SelfTestFailed), io)
            } else {
                match read_run(io) {
                    (Err(error), io) => (Err(error), io),
                    (Ok(_), io) => (Ok(()), io),
                }
            },
        },
    }
}

/// Defaults, scaling and resolution, then the three rates behind which a mouse
/// with a wheel changes its number, then the question for the number.
pub open spec fn setup_bytes() -> Seq<u8> {
    seq![
        MOUSE_SET_DEFAULTS,
        MOUSE_SCALING_1_1,
        MOUSE_SET_RESOLUTION,
        0x00u8,
        MOUSE_SET_SAMPLE_RATE,
        200u8,
        MOUSE_SET_SAMPLE_RATE,
        100u8,
        MOUSE_SET_SAMPLE_RATE,
        80u8,
        MOUSE_GET_ID,
    ]
}

/// The rate it runs at, and go.
pub open spec fn start_bytes() -> Seq<u8> {
    seq![MOUSE_SET_SAMPLE_RATE, SAMPLE_RATE, MOUSE_ENABLE_REPORTING]
}

/// Set the mouse up; whether its packets have four bytes.
pub open spec fn setup_run(io: Io) -> (Result<bool, Ps2MouseError>, Io) {
    match bytes_run(setup_bytes(), 0, io) {
        (Err(error), io) => (Err(error), io),
        (Ok(_), io) => match read_run(io) {
            (Err(error), io) => (Err(error), io),
            (Ok(id), io) => match bytes_run(start_bytes(), 0, io) {
                (Err(error), io) => (Err(error), io),
                (Ok(_), io) => (Ok(id == ID_INTELLIMOUSE), io),
            },
        },
    }
}

/// Connect the mouse, reset it and set it up; whether its packets have four
/// bytes.
pub open spec fn bring_up_run(io: Io) -> (Result<bool, Ps2MouseError>, Io) {
    match attach_run(io) {
        (Err(error), io) => (Err(error), io),
        (Ok(_), io) => match reset_run(io) {
            (Err(error), io) => (Err(error), io),
            (Ok(_), io) => setup_run(io),
        },
    }
}

/// What is known of the mouse.
#[derive(Debug)]
pub struct MouseState {
    pub decoder: PacketDecoder,
    pub events: VecDeque<MouseEvent>,
    pub initialized: bool,
}

/// The same, apart from how it is held.
#[verifier::ext_equal]
pub struct MouseModel {
    pub decoder: DecoderModel,
    pub events: Seq<MouseEvent>,
    pub initialized: bool,
}

impl View for MouseState {
    type V = MouseModel;

    open spec fn view(&self) -> MouseModel {
        MouseModel {
            decoder: self.decoder@,
            events: self.events@,
            initialized: self.initialized,
        }
    }
}

impl MouseModel {
    /// Nothing is connected, and nothing waits.
    pub open spec fn fresh() -> MouseModel {
        MouseModel {
            decoder: DecoderModel { bytes: seq![0u8, 0, 0, 0], index: 0, four_byte: false },
            events: Seq::empty(),
            initialized: false,
        }
    }

    pub open spec fn wf(self) -> bool {
        self.decoder.wf() && self.events.len() <= EVENT_QUEUE_CAP
    }

    /// Bring the mouse up.  Where that fails, it stays off: its port is disabled,
    /// and what comes in is not looked at.
    pub open spec fn init_run(self, io: Io) -> (Result<(), Ps2MouseError>, MouseModel, Io) {
        match bring_up_run(io) {
            (Err(error), io) => (
                Err(error),
                MouseModel { initialized: false, ..self },
                controller_run(CMD_DISABLE_AUX, io).1,
            ),
            (Ok(four_byte), io) => (
                Ok(()),
                MouseModel {
                    decoder: DecoderModel { four_byte, ..self.decoder },
                    initialized: true,
                    ..self
                },
                io,
            ),
        }
    }

    /// Serve the mouse's interrupt.  A byte of the keyboard is left where it
    /// is; one that comes before the mouse is up is dropped.
    pub open spec fn irq_run(self, io: Io) -> (Option<MouseEvent>, MouseModel, Io) {
        let (status, io) = io.r8(Place::Port(STATUS_CMD));
        if status & STS_OUT_FULL == 0 || status & STS_FROM_AUX == 0 {
            (None, self, io)
        } else {
            let (byte, io) = io.r8(Place::Port(DATA));
            if !self.initialized {
                (None, self, io)
            } else {
                let (event, decoder) = self.decoder.feed_run(byte);
                (event, MouseModel { decoder, ..self }, io)
            }
        }
    }

    /// With one more sample; where there is no room, the oldest one goes.
    pub open spec fn queued(self, event: MouseEvent) -> MouseModel {
        if self.events.len() < EVENT_QUEUE_CAP {
            MouseModel { events: self.events.push(event), ..self }
        } else {
            MouseModel { events: self.events.skip(1).push(event), ..self }
        }
    }
}

impl MouseState {
    pub fn new() -> (state: Self)
        ensures
            state@ == MouseModel::fresh(),
            state@.wf(),
    {
        MouseState { decoder: PacketDecoder::new(), events: VecDeque::new(), initialized: false }
    }
}

fn attach_mouse<M: Machine>(machine: &mut M) -> (result: Result<(), Ps2MouseError>)
    ensures
        (result, final(machine).io()) == attach_run(old(machine).io()),
{
    match controller_cmd(machine, CMD_DISABLE_AUX) {
        Ok(_) => {},
        Err(error) => {
            return Err(error);
        },
    }
    match controller_cmd(machine, CMD_READ_CONFIG) {
        Ok(_) => {},
        Err(error) => {
            return Err(error);
        },
    }
    let config: u8 = match read_data(machine) {
        Ok(config) => config,
        Err(error) => {
            return Err(error);
        },
    };
    match controller_cmd(machine, CMD_WRITE_CONFIG) {
        Ok(_) => {},
        Err(error) => {
            return Err(error);
        },
    }
    match write_data(machine, (config | CFG_SECOND_INT) & !CFG_DISABLE_SECOND) {
        Ok(_) => controller_cmd(machine, CMD_ENABLE_AUX),
        Err(error) => Err(error),
    }
}

fn reset_mouse<M: Machine>(machine: &mut M) -> (result: Result<(), Ps2MouseError>)
    ensures
        (result, final(machine).io()) == reset_run(old(machine).io()),
{
    match mouse_write(machine, MOUSE_RESET) {
        Ok(_) => {},
        Err(error) => {
            return Err(error);
        },
    }
    match read_data(machine) {
        Ok(answer) => {
            if answer != SELF_TEST_PASSED {
                return Err(Ps2MouseError::SelfTestFailed);
            }
        },
        Err(error) => {
            return Err(error);
        },
    }
    match read_data(machine) {
        Ok(_) => Ok(()),
        Err(error) => Err(error),
    }
}

fn read_mouse_id<M: Machine>(machine: &mut M) -> (result: Result<u8, Ps2MouseError>)
    ensures
        (result, final(machine).io()) == read_run(old(machine).io()),
{
    read_data(machine)
}

fn set_up_mouse<M: Machine>(machine: &mut M) -> (result: Result<bool, Ps2MouseError>)
    ensures
        (result, final(machine).io()) == setup_run(old(machine).io()),
{
    let setup: [u8; 11] = [
        MOUSE_SET_DEFAULTS,
        MOUSE_SCALING_1_1,
        MOUSE_SET_RESOLUTION,
        0x00,
        MOUSE_SET_SAMPLE_RATE,
        200,
        MOUSE_SET_SAMPLE_RATE,
        100,
        MOUSE_SET_SAMPLE_RATE,
        80,
        MOUSE_GET_ID,
    ];
    assert(setup@ =~= setup_bytes());
    match mouse_writes(machine, setup.as_slice()) {
        Ok(_) => {},
        Err(error) => {
            return Err(error);
        },
    }
    let id: u8 = match read_mouse_id(machine) {
        Ok(id) => id,
        Err(error) => {
            return Err(error);
        },
    };
    let start: [u8; 3] = [MOUSE_SET_SAMPLE_RATE, SAMPLE_RATE, MOUSE_ENABLE_REPORTING];
    assert(start@ =~= start_bytes());
    match mouse_writes(machine, start.as_slice()) {
        Ok(_) => Ok(id == ID_INTELLIMOUSE),
        Err(error) => Err(error),
    }
}

fn bring_up<M: Machine>(machine: &mut M) -> (result: Result<bool, Ps2MouseError>)
    ensures
        (result, final(machine).io()) == bring_up_run(old(machine).io()),
{
    match attach_mouse(machine) {
        Ok(_) => {},
        Err(error) => {
            return Err(error);
        },
    }
    match reset_mouse(machine) {
        Ok(_) => {},
        Err(error) => {
            return Err(error);
        },
    }
    set_up_mouse(machine)
}

/// Bring the mouse up.  Where that fails, it stays off.
pub fn init<M: Machine>(state: &mut MouseState, machine: &mut M) -> (result: Result<
    (),
    Ps2MouseError,
>)
    ensures
        (result, final(state)@, final(machine).io()) == old(state)@.init_run(old(machine).io()),
{
    match bring_up(machine) {
        Ok(four_byte) => {
            state.decoder.four_byte = four_byte;
            state.initialized = true;
            Ok(())
        },
        Err(error) => {
            let _ = controller_cmd(machine, CMD_DISABLE_AUX);
            state.initialized = false;
            Err(error)
        },
    }
}

/// Serve the mouse's interrupt: take at most one byte, and give the sample that
/// it completes.
pub fn handle_interrupt<M: Machine>(state: &mut MouseState, machine: &mut M) -> (event: Option<
    MouseEvent,
>)
    requires
        old(state)@.wf(),
    ensures
        (event, final(state)@, final(machine).io()) == old(state)@.irq_run(old(machine).io()),
        final(state)@.wf(),
{
    let status: u8 = machine.read8(Place::Port(STATUS_CMD));
    if status & STS_OUT_FULL == 0 {
        return None;
    }
    if status & STS_FROM_AUX == 0 {
        return None;
    }
    let byte: u8 = machine.read8(Place::Port(DATA));
    if !state.initialized {
        return None;
    }
    state.decoder.feed(byte)
}

/// Queue a sample; where there is no room, the oldest one goes.
pub fn enqueue_device_event(state: &mut MouseState, event: MouseEvent)
    requires
        old(state)@.wf(),
    ensures
        final(state)@ == old(state)@.queued(event),
        final(state)@.wf(),
{
    if state.events.len() >= EVENT_QUEUE_CAP {
        let _ = state.events.pop_front();
    }
    state.events.push_back(event);
    assert(state.events@ =~= old(state)@.queued(event).events);
}

/// Take the oldest sample.
pub fn pop_event(state: &mut MouseState) -> (event: Option<MouseEvent>)
    ensures
        old(state)@.events.len() == 0 ==> event is None && final(state)@ == old(state)@,
        old(state)@.events.len() > 0 ==> event == Some(old(state)@.events[0]) && final(state)@
            =~= (MouseModel { events: old(state)@.events.skip(1), ..old(state)@ }),
{
    state.events.pop_front()
}

/// Drop all queued samples; a packet that is only half there stays.
pub fn clear_events(state: &mut MouseState)
    ensures
        final(state)@ == (MouseModel { events: Seq::empty(), ..old(state)@ }),
{
    state.events.clear();
}

/// Whether packets have four bytes.
pub fn is_four_byte(state: &MouseState) -> (four: bool)
    ensures
        four == state@.decoder.four_byte,
{
    state.decoder.four_byte
}

/// Whether the mouse came up.
pub fn is_initialized(state: &MouseState) -> (initialized: bool)
    ensures
        initialized == state@.initialized,
{
    state.initialized
}

/// Begin a new packet with the next byte that can be a first one.
pub fn resync(state: &mut MouseState)
    ensures
        final(state)@ == (MouseModel {
            decoder: DecoderModel { index: 0, ..old(state)@.decoder },
            ..old(state)@
        }),
{
    state.decoder.index = 0;
}

proof fn lemma_config_parts(bits: u8)
    by (bit_vector)
    ensures
        ({
            let c = (bits | 0x02u8) & !0x20u8;
            &&& c & 0x02 != 0
            &&& c & 0x20 == 0
            &&& c & 0xDD == bits & 0xDD
        }),
{
}

/// A mouse counts as up exactly where bringing it up went well; else its bytes
/// make no samples.
pub proof fn lemma_failed_mouse_is_off(mouse: MouseModel, io: Io, later: Io)
    ensures
        ({
            let (result, after, _) = mouse.init_run(io);
            &&& after.initialized == (result is Ok)
            &&& after.events == mouse.events
            &&& result is Err ==> after.irq_run(later).0 is None && after.irq_run(later).1
                == after
        }),
{
}

/// Bringing the mouse up leaves the keyboard's bits alone.
pub proof fn lemma_mouse_config_spares_keyboard(bits: u8)
    ensures
        mouse_config(bits) & CFG_SECOND_INT != 0,
        mouse_config(bits) & CFG_DISABLE_SECOND == 0,
        mouse_config(bits) & 0xDD == bits & 0xDD,
{
    lemma_config_parts(bits);
}

/// A full queue keeps the newest samples, in order.
pub proof fn lemma_queue_keeps_newest(state: MouseModel, event: MouseEvent)
    requires
        state.wf(),
    ensures
        state.queued(event).wf(),
        state.queued(event).events.last() == event,
        state.events.len() == EVENT_QUEUE_CAP ==> state.queued(event).events.drop_last()
            =~= state.events.skip(1),
        state.events.len() < EVENT_QUEUE_CAP ==> state.queued(event).events.drop_last()
            =~= state.events,
{
}

} // verus!
