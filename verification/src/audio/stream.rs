//! Sample formats, buffer descriptors and the stream engines.
use vstd::prelude::*;
use crate::audio::registers::StreamRegisters;
use crate::audio::wait::{until, until_run, Ready, HARDWARE_TIMEOUT_MS};
use crate::machine::{Io, Machine};

verus! {

pub const STREAM_CTL_RESET: u32 = 0x0000_0001;
pub const STREAM_CTL_RUN: u32 = 0x0000_0002;
pub const STREAM_CTL_IOCE: u32 = 0x0000_0004;
pub const STREAM_CTL_FEIE: u32 = 0x0000_0008;
pub const STREAM_CTL_DEIE: u32 = 0x0000_0010;
pub const STREAM_CTL_TAG_MASK: u32 = 0x00f0_0000;
/// Everything that programming a stream clears: the tag, the three interrupt
/// enables and the run bit.
pub const STREAM_CTL_PROGRAM_CLEAR: u32 = 0x00f0_001e;
pub const STREAM_STATUS_CLEAR: u8 = 0x1c;
/// The first physical address that does not exist.
pub const PHYSICAL_LIMIT: u64 = 0x10_0000_0000_0000;

#[derive(Clone, Copy, Debug, Eq, PartialEq, Structural)]
pub enum SampleBits {
    Bits8,
    Bits16,
    Bits20,
    Bits24,
    Bits32,
}

impl SampleBits {
    pub open spec fn code(self) -> u16 {
        match self {
            SampleBits::Bits8 => 0,
            SampleBits::Bits16 => 1,
            SampleBits::Bits20 => 2,
            SampleBits::Bits24 => 3,
            SampleBits::Bits32 => 4,
        }
    }

    /// Bytes that one sample takes in memory.
    pub open spec fn container(self) -> u8 {
        match self {
            SampleBits::Bits8 => 1,
            SampleBits::Bits16 => 2,
            _ => 4,
        }
    }

    pub fn encoding(self) -> (code: u16)
        ensures
            code == self.code(),
    {
        match self {
            SampleBits::Bits8 => 0,
            SampleBits::Bits16 => 1,
            SampleBits::Bits20 => 2,
            SampleBits::Bits24 => 3,
            SampleBits::Bits32 => 4,
        }
    }

    /// Bytes that one sample takes in memory.
    pub fn bytes_per_sample(self) -> (bytes: u8)
        ensures
            bytes == self.container(),
    {
        match self {
            SampleBits::Bits8 => 1,
            SampleBits::Bits16 => 2,
            SampleBits::Bits20 | SampleBits::Bits24 | SampleBits::Bits32 => 4,
        }
    }
}

/// One way to make a rate: a base rate, a factor and a divisor, numbered in
/// the order in which they are tried.
pub open spec fn base_rate(way: int) -> int {
    if way < 32 {
        48_000
    } else {
        44_100
    }
}

pub open spec fn factor(way: int) -> int {
    way / 8 % 4 + 1
}

pub open spec fn divisor(way: int) -> int {
    way % 8 + 1
}

/// The first way from `from` on that makes a rate exactly.
pub open spec fn way_for(rate_hz: u32, from: int) -> Option<int>
    decreases 64 - from,
{
    if from >= 64 {
        None
    } else if base_rate(from) * factor(from) == rate_hz * divisor(from) {
        Some(from)
    } else {
        way_for(rate_hz, from + 1)
    }
}

/// The rate fields of the format word.
pub open spec fn rate_fields(way: int) -> u16 {
    ((if way < 32 {
        0u16
    } else {
        1u16
    }) << 14) | (((factor(way) - 1) as u16) << 11) | (((divisor(way) - 1) as u16) << 8)
}

/// The format word.
pub open spec fn format_word(way: int, bits: SampleBits, channels: u8) -> u16 {
    rate_fields(way) | (bits.code() << 4) | ((channels - 1) as u16)
}

/// A sample format.
#[derive(Clone, Copy, Debug, Eq, PartialEq, Structural)]
pub struct PcmFormat {
    raw: u16,
    rate_hz: u32,
    bits: SampleBits,
    channels: u8,
}

impl PcmFormat {
    #[verifier::type_invariant]
    spec fn valid(self) -> bool {
        1 <= self.channels <= 16
    }

    pub closed spec fn word(self) -> u16 {
        self.raw
    }

    pub closed spec fn rate(self) -> u32 {
        self.rate_hz
    }

    pub closed spec fn sample(self) -> SampleBits {
        self.bits
    }

    pub closed spec fn lanes(self) -> u8 {
        self.channels
    }

    /// Bytes of one sample of all channels.
    pub open spec fn frame(self) -> int {
        self.sample().container() * self.lanes()
    }

    /// A format, where the rate can be made and the channels can be carried.
    pub fn new(rate_hz: u32, bits: SampleBits, channels: u8) -> (format: Option<Self>)
        ensures
            format is Some <==> 1 <= channels <= 16 && way_for(rate_hz, 0) is Some,
            format is Some ==> format->0.word() == format_word(
                way_for(rate_hz, 0)->0,
                bits,
                channels,
            ) && format->0.rate() == rate_hz && format->0.sample() == bits && format->0.lanes()
                == channels,
    {
        if channels < 1 || channels > 16 {
            return None;
        }
        let mut way: u32 = 0;
        while way < 64
            invariant
                way <= 64,
                1 <= channels <= 16,
                way_for(rate_hz, 0) == way_for(rate_hz, way as int),
            decreases 64 - way,
        {
            let (base, base_bit): (u32, u16) = if way < 32 {
                (48_000, 0)
            } else {
                (44_100, 1)
            };
            let multiplier: u32 = way / 8 % 4 + 1;
            let divisor: u32 = way % 8 + 1;
            assert(base * multiplier <= 192_000) by (nonlinear_arith)
                requires
                    base <= 48_000,
                    multiplier <= 4,
            ;
            let product: u32 = base * multiplier;
            proof {
                lemma_exact(product as int, divisor as int, rate_hz as int);
            }
            if product / divisor == rate_hz && product % divisor == 0 {
                let fields: u16 = (base_bit << 14) | (((multiplier - 1) as u16) << 11) | (((divisor
                    - 1) as u16) << 8);
                let raw: u16 = fields | (bits.encoding() << 4) | ((channels - 1) as u16);
                return Some(PcmFormat { raw, rate_hz, bits, channels });
            }
            way = way + 1;
        }
        None
    }

    pub fn raw(self) -> (word: u16)
        ensures
            word == self.word(),
    {
        self.raw
    }

    pub fn rate_hz(self) -> (rate: u32)
        ensures
            rate == self.rate(),
    {
        self.rate_hz
    }

    pub fn bits(self) -> (bits: SampleBits)
        ensures
            bits == self.sample(),
    {
        self.bits
    }

    pub fn channels(self) -> (channels: u8)
        ensures
            channels == self.lanes(),
            1 <= channels <= 16,
    {
        proof {
            use_type_invariant(self);
        }
        self.channels
    }

    /// Bytes of one sample of all channels.
    pub fn frame_bytes(self) -> (bytes: u32)
        ensures
            bytes == self.frame(),
            1 <= bytes <= 64,
    {
        proof {
            use_type_invariant(self);
            assert(1 <= self.bits.container() * self.channels <= 64) by (nonlinear_arith)
                requires
                    1 <= self.bits.container() <= 4,
                    1 <= self.channels <= 16,
            ;
        }
        self.bits.bytes_per_sample() as u32 * self.channels as u32
    }
}

proof fn lemma_exact(product: int, divisor: int, rate: int)
    requires
        divisor > 0,
    ensures
        (product / divisor == rate && product % divisor == 0) <==> product == rate * divisor,
{
    vstd::arithmetic::div_mod::lemma_fundamental_div_mod(product, divisor);
    vstd::arithmetic::mul::lemma_mul_is_commutative(divisor, product / divisor);
    if product == rate * divisor {
        vstd::arithmetic::div_mod::lemma_fundamental_div_mod_converse(product, divisor, rate, 0);
    }
}

proof fn lemma_word_fields(base: u16, m: u16, d: u16, code: u16, lanes: u16)
    by (bit_vector)
    requires
        base <= 1,
        m <= 3,
        d <= 7,
        code <= 4,
        lanes <= 15,
    ensures
        ({
            let w = ((base << 14) | (m << 11) | (d << 8)) | (code << 4) | lanes;
            &&& (w >> 14) & 1 == base
            &&& (w >> 11) & 7 == m
            &&& (w >> 8) & 7 == d
            &&& (w >> 4) & 7 == code
            &&& w & 15 == lanes
            &&& w & 0x8000 == 0
        }),
{
}

proof fn lemma_way_found(rate_hz: u32, from: int)
    requires
        0 <= from,
        way_for(rate_hz, from) is Some,
    ensures
        ({
            let way = way_for(rate_hz, from)->0;
            &&& from <= way < 64
            &&& base_rate(way) * factor(way) == rate_hz * divisor(way)
        }),
    decreases 64 - from,
{
    if base_rate(from) * factor(from) != rate_hz * divisor(from) {
        lemma_way_found(rate_hz, from + 1);
    }
}

/// The format word says the rate exactly, and every other field as it was
/// asked for.
pub proof fn lemma_format_word_is_exact(rate_hz: u32, bits: SampleBits, channels: u8)
    requires
        1 <= channels <= 16,
        way_for(rate_hz, 0) is Some,
    ensures
        ({
            let w = format_word(way_for(rate_hz, 0)->0, bits, channels);
            let base = if (w >> 14) & 1 == 0 {
                48_000int
            } else {
                44_100int
            };
            &&& base * (((w >> 11) & 7) + 1) == rate_hz * (((w >> 8) & 7) + 1)
            &&& (w >> 4) & 7 == bits.code()
            &&& (w & 15) + 1 == channels
            &&& w & 0x8000 == 0
        }),
{
    lemma_way_found(rate_hz, 0);
    let way = way_for(rate_hz, 0)->0;
    lemma_word_fields(
        if way < 32 {
            0
        } else {
            1
        },
        (factor(way) - 1) as u16,
        (divisor(way) - 1) as u16,
        bits.code(),
        (channels - 1) as u16,
    );
}

/// One piece of a sample buffer.
#[derive(Clone, Copy, Debug, Eq, PartialEq, Structural)]
pub struct BufferDescriptor {
    address: u64,
    length: u32,
    flags: u32,
}

/// Whether the controller can fetch a piece of a buffer.
pub open spec fn piece_is_valid(address: u64, length: u32, format: PcmFormat, wide: bool) -> bool {
    &&& address != 0
    &&& address & 0x7f == 0
    &&& length >= 2
    &&& length & 1 == 0
    &&& length % (format.sample().container() as u32) == 0
    &&& address + length <= PHYSICAL_LIMIT
    &&& wide || address + length - 1 <= u32::MAX
}

impl BufferDescriptor {
    pub closed spec fn start(self) -> u64 {
        self.address
    }

    pub closed spec fn bytes(self) -> u32 {
        self.length
    }

    pub closed spec fn signals(self) -> bool {
        self.flags & 1 != 0
    }

    pub fn new(
        address: u64,
        length: u32,
        interrupt_on_completion: bool,
        format: PcmFormat,
        supports_64bit_dma: bool,
    ) -> (descriptor: Option<Self>)
        ensures
            descriptor is Some <==> piece_is_valid(address, length, format, supports_64bit_dma),
            descriptor is Some ==> descriptor->0.start() == address && descriptor->0.bytes()
                == length && descriptor->0.signals() == interrupt_on_completion,
    {
        let end: u64 = match address.checked_add(length.saturating_sub(1) as u64) {
            Some(end) => end,
            None => {
                return None;
            },
        };
        if address == 0 || address & 0x7f != 0 || length < 2 || length & 1 != 0 || length
            % format.bits().bytes_per_sample() as u32 != 0 || end >= PHYSICAL_LIMIT || (
        !supports_64bit_dma && end > u32::MAX as u64) {
            return None;
        }
        proof {
            lemma_flag();
        }
        Some(
            BufferDescriptor {
                address,
                length,
                flags: if interrupt_on_completion {
                    1
                } else {
                    0
                },
            },
        )
    }

    pub fn interrupt_on_completion(self) -> (signals: bool)
        ensures
            signals == self.signals(),
    {
        self.flags & 1 != 0
    }

    pub fn address(self) -> (address: u64)
        ensures
            address == self.start(),
    {
        self.address
    }

    pub fn length(self) -> (length: u32)
        ensures
            length == self.bytes(),
    {
        self.length
    }
}

proof fn lemma_flag()
    by (bit_vector)
    ensures
        1u32 & 1 == 1,
        0u32 & 1 == 0,
{
}

/// How a stream is to run.
#[derive(Clone, Copy, Debug, Eq, PartialEq, Structural)]
pub struct StreamConfig {
    pub bdl_address: u64,
    pub cyclic_buffer_bytes: u32,
    pub descriptor_count: u16,
    pub stream_tag: u8,
    pub format: PcmFormat,
}

impl StreamConfig {
    /// Whether the controller can run it.
    pub open spec fn is_valid(self, wide: bool) -> bool {
        &&& self.bdl_address != 0
        &&& self.bdl_address & 0x7f == 0
        &&& 2 <= self.descriptor_count <= 256
        &&& self.bdl_address + self.descriptor_count * 16 <= PHYSICAL_LIMIT
        &&& wide || self.bdl_address + self.descriptor_count * 16 - 1 <= u32::MAX
        &&& self.cyclic_buffer_bytes != 0
        &&& self.cyclic_buffer_bytes as int % self.format.frame() == 0
        &&& 1 <= self.stream_tag <= 15
    }

    pub fn validate(self, supports_64bit_dma: bool) -> (valid: bool)
        ensures
            valid == self.is_valid(supports_64bit_dma),
    {
        let bdl_bytes: u64 = self.descriptor_count as u64 * 16;
        let bdl_end: u64 = match self.bdl_address.checked_add(bdl_bytes.saturating_sub(1)) {
            Some(end) => end,
            None => {
                return false;
            },
        };
        let frame: u32 = self.format.frame_bytes();
        self.bdl_address != 0 && self.bdl_address & 0x7f == 0 && bdl_end < PHYSICAL_LIMIT && (
        supports_64bit_dma || bdl_end <= u32::MAX as u64) && self.cyclic_buffer_bytes != 0
            && self.cyclic_buffer_bytes % frame == 0 && self.descriptor_count >= 2
            && self.descriptor_count <= 256 && self.stream_tag >= 1 && self.stream_tag <= 15
    }
}

#[derive(Clone, Copy, Debug, Eq, PartialEq, Structural)]
pub enum StreamError {
    InvalidConfiguration,
    StopTimeout,
    ResetAssertTimeout,
    ResetClearTimeout,
}

/// A bit of a stream's control register is set, or is clear.
#[derive(Clone, Copy, Debug, Eq, PartialEq, Structural)]
pub struct ControlBit {
    pub registers: StreamRegisters,
    pub mask: u32,
    pub set: bool,
}

impl Ready for ControlBit {
    open spec fn ready_run(&self, io: Io) -> (bool, Io) {
        let (control, io) = self.registers.control_run(io);
        ((control & self.mask != 0) == self.set, io)
    }

    fn ready<M: Machine>(&self, machine: &mut M) -> (ready: bool) {
        (self.registers.control(machine) & self.mask != 0) == self.set
    }
}

/// Wait for a bit of a stream's control register.
pub open spec fn control_wait_run(
    registers: StreamRegisters,
    mask: u32,
    set: bool,
    timeout: StreamError,
    io: Io,
) -> (Result<(), StreamError>, Io) {
    let (came, io) = until_run(HARDWARE_TIMEOUT_MS, ControlBit { registers, mask, set }, io);
    (
        if came {
            Ok(())
        } else {
            Err(timeout)
        },
        io,
    )
}

fn wait_control<M: Machine>(
    machine: &mut M,
    registers: StreamRegisters,
    mask: u32,
    set: bool,
    timeout: StreamError,
) -> (result: Result<(), StreamError>)
    ensures
        (result, final(machine).io()) == control_wait_run(
            registers,
            mask,
            set,
            timeout,
            old(machine).io(),
        ),
{
    if until(machine, HARDWARE_TIMEOUT_MS, ControlBit { registers, mask, set }) {
        Ok(())
    } else {
        Err(timeout)
    }
}

/// One stream engine.
#[derive(Clone, Copy, Debug, Eq, PartialEq, Structural)]
pub struct StreamDescriptor {
    pub registers: StreamRegisters,
    pub supports_64bit_dma: bool,
}

impl StreamDescriptor {
    pub fn new(registers: StreamRegisters, supports_64bit_dma: bool) -> (stream: Self)
        ensures
            stream == (StreamDescriptor { registers, supports_64bit_dma }),
    {
        StreamDescriptor { registers, supports_64bit_dma }
    }

    pub fn index(&self) -> (index: usize)
        ensures
            index == self.registers.index,
    {
        self.registers.index()
    }

    /// Whether the engine runs.
    pub fn running<M: Machine>(&self, machine: &mut M) -> (running: bool)
        ensures
            running == (self.registers.control_run(old(machine).io()).0 & STREAM_CTL_RUN != 0),
            final(machine).io() == self.registers.control_run(old(machine).io()).1,
    {
        self.registers.control(machine) & STREAM_CTL_RUN != 0
    }

    /// The byte of the buffer that the engine is at.
    pub fn position<M: Machine>(&self, machine: &mut M) -> (bytes: u32)
        ensures
            (bytes, final(machine).io()) == old(machine).io().r32(self.registers.register(4)),
    {
        self.registers.position(machine)
    }

    pub open spec fn stop_run(self, io: Io) -> (Result<(), StreamError>, Io) {
        let (control, io) = self.registers.control_run(io);
        let io = self.registers.write_control_run(control & !STREAM_CTL_RUN, io);
        control_wait_run(self.registers, STREAM_CTL_RUN, false, StreamError::StopTimeout, io)
    }

    pub open spec fn reset_run(self, io: Io) -> (Result<(), StreamError>, Io) {
        match self.stop_run(io) {
            (Err(error), io) => (Err(error), io),
            (Ok(_), io) => {
                let (control, io) = self.registers.control_run(io);
                let io = self.registers.write_control_run(control | STREAM_CTL_RESET, io);
                match control_wait_run(
                    self.registers,
                    STREAM_CTL_RESET,
                    true,
                    StreamError::ResetAssertTimeout,
                    io,
                ) {
                    (Err(error), io) => (Err(error), io),
                    (Ok(_), io) => {
                        let (control, io) = self.registers.control_run(io);
                        let io = self.registers.write_control_run(control & !STREAM_CTL_RESET, io);
                        control_wait_run(
                            self.registers,
                            STREAM_CTL_RESET,
                            false,
                            StreamError::ResetClearTimeout,
                            io,
                        )
                    },
                }
            },
        }
    }

    /// Check, reset, and write the whole configuration; the stream is left
    /// stopped with its interrupts off.
    pub open spec fn program_run(self, config: StreamConfig, io: Io) -> (Result<
        (),
        StreamError,
    >, Io) {
        if !config.is_valid(self.supports_64bit_dma) {
            (Err(StreamError::InvalidConfiguration), io)
        } else {
            match self.reset_run(io) {
                (Err(error), io) => (Err(error), io),
                (Ok(_), io) => {
                    let r = self.registers;
                    let io = io.w8(r.register(3), STREAM_STATUS_CLEAR);
                    let io = io.w32(r.register(8), config.cyclic_buffer_bytes);
                    let io = io.w16(r.register(0x0c), (config.descriptor_count - 1) as u16);
                    let io = io.w16(r.register(0x12), config.format.word());
                    let io = r.write_bdl_run(config.bdl_address, io);
                    let (control, io) = r.control_run(io);
                    (
                        Ok(()),
                        r.write_control_run(
                            (control & !STREAM_CTL_PROGRAM_CLEAR) | ((config.stream_tag as u32)
                                << 20),
                            io,
                        ),
                    )
                },
            }
        }
    }

    /// Stop the engine.
    pub fn stop<M: Machine>(&self, machine: &mut M) -> (result: Result<(), StreamError>)
        ensures
            (result, final(machine).io()) == self.stop_run(old(machine).io()),
    {
        let control: u32 = self.registers.control(machine);
        self.registers.write_control(machine, control & !STREAM_CTL_RUN);
        wait_control(machine, self.registers, STREAM_CTL_RUN, false, StreamError::StopTimeout)
    }

    /// Stop and reset the engine.
    pub fn reset<M: Machine>(&self, machine: &mut M) -> (result: Result<(), StreamError>)
        ensures
            (result, final(machine).io()) == self.reset_run(old(machine).io()),
    {
        match self.stop(machine) {
            Ok(_) => {},
            Err(error) => {
                return Err(error);
            },
        }
        let control: u32 = self.registers.control(machine);
        self.registers.write_control(machine, control | STREAM_CTL_RESET);
        match wait_control(
            machine,
            self.registers,
            STREAM_CTL_RESET,
            true,
            StreamError::ResetAssertTimeout,
        ) {
            Ok(_) => {},
            Err(error) => {
                return Err(error);
            },
        }
        let control: u32 = self.registers.control(machine);
        self.registers.write_control(machine, control & !STREAM_CTL_RESET);
        wait_control(
            machine,
            self.registers,
            STREAM_CTL_RESET,
            false,
            StreamError::ResetClearTimeout,
        )
    }

    /// Set the engine up to run a configuration.
    pub fn program<M: Machine>(&self, machine: &mut M, config: StreamConfig) -> (result: Result<
        (),
        StreamError,
    >)
        ensures
            (result, final(machine).io()) == self.program_run(config, old(machine).io()),
    {
        if !config.validate(self.supports_64bit_dma) {
            return Err(StreamError::InvalidConfiguration);
        }
        match self.reset(machine) {
            Ok(_) => {},
            Err(error) => {
                return Err(error);
            },
        }
        self.registers.clear_status(machine, STREAM_STATUS_CLEAR);
        self.registers.write_cyclic_buffer_length(machine, config.cyclic_buffer_bytes);
        self.registers.write_last_valid_index(machine, config.descriptor_count - 1);
        self.registers.write_format(machine, config.format.raw());
        self.registers.write_bdl_address(machine, config.bdl_address);
        let control: u32 = self.registers.control(machine);
        self.registers.write_control(
            machine,
            (control & !STREAM_CTL_PROGRAM_CLEAR) | ((config.stream_tag as u32) << 20),
        );
        Ok(())
    }

    pub open spec fn start_run(self, io: Io) -> Io {
        let (control, io) = self.registers.control_run(io);
        self.registers.write_control_run(control | STREAM_CTL_RUN, io)
    }

    /// Let the engine run without interrupts.
    pub fn start_polling<M: Machine>(&self, machine: &mut M)
        ensures
            final(machine).io() == self.start_run(old(machine).io()),
    {
        let control: u32 = self.registers.control(machine);
        self.registers.write_control(machine, control | STREAM_CTL_RUN);
    }
}

pub(crate) proof fn lemma_program_bits(control: u32, tag: u8)
    by (bit_vector)
    requires
        1 <= tag <= 15,
    ensures
        ({
            let w = (control & !0x00f0_001e) | ((tag as u32) << 20);
            &&& w & 0x0000_0002 == 0
            &&& w & 0x0000_001c == 0
            &&& (w >> 20) & 15 == tag
            &&& (w as u16) & 0x1e == 0
            &&& ((w >> 16) as u8) / 16 == tag
        }),
{
}

/// A programmed stream is stopped, raises no interrupt and carries its tag.
pub proof fn lemma_programmed_stream_is_quiet(control: u32, tag: u8)
    requires
        1 <= tag <= 15,
    ensures
        ({
            let w = (control & !STREAM_CTL_PROGRAM_CLEAR) | ((tag as u32) << 20);
            &&& w & STREAM_CTL_RUN == 0
            &&& w & 0x0000_001c == 0
            &&& (w >> 20) & 15 == tag
        }),
{
    lemma_program_bits(control, tag);
}

} // verus!
