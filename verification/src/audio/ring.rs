//! The two rings by which the driver talks to codecs: commands go out through
//! one, responses come in through the other.
use vstd::prelude::*;
use crate::audio::codec::Verb;
use crate::audio::dma::{DmaError, DmaRegion};
use crate::audio::registers::{
    Mmio, CORBCTL, CORBCTL_RUN, CORBLBASE, CORBRP, CORBRP_RESET, CORBSIZE, CORBSTS,
    CORBSTS_MEMORY_ERROR, CORBUBASE, CORBWP, RINTCNT, RIRBCTL, RIRBCTL_DMA_ENABLE, RIRBLBASE,
    RIRBSIZE, RIRBSTS, RIRBSTS_OVERRUN, RIRBSTS_RESPONSE, RIRBUBASE, RIRBWP, RIRBWP_RESET,
};
use crate::audio::wait::{
    delay_run, one_millisecond, until, until_run, Bits, Ready, HARDWARE_TIMEOUT_MS,
};
use crate::bits::lemma_mask16;
use crate::machine::{cell, cell_at, Io, Machine, Order, Place};

verus! {

pub const CORB_OFFSET: usize = 0;
pub const RIRB_OFFSET: usize = 0x800;
pub const RING_ARENA_BYTES: usize = 0x1000;
pub const FAST_POLL_COUNT: usize = 1024;
pub const COMMAND_TIMEOUT_MS: u16 = 100;

/// Entries of a ring.
#[derive(Clone, Copy, Debug, Eq, PartialEq, Structural)]
pub enum RingSize {
    Entries2,
    Entries16,
    Entries256,
}

impl RingSize {
    pub open spec fn count(self) -> u16 {
        match self {
            RingSize::Entries2 => 2,
            RingSize::Entries16 => 16,
            RingSize::Entries256 => 256,
        }
    }

    pub open spec fn code(self) -> u8 {
        match self {
            RingSize::Entries2 => 0,
            RingSize::Entries16 => 1,
            RingSize::Entries256 => 2,
        }
    }

    /// The bits of a pointer into the ring.
    pub open spec fn mask(self) -> u16 {
        (self.count() - 1) as u16
    }

    /// The largest size a size register offers.
    pub open spec fn largest(size_register: u8) -> Option<RingSize> {
        let offered = size_register >> 4;
        if offered & 0b0100 != 0 {
            Some(RingSize::Entries256)
        } else if offered & 0b0010 != 0 {
            Some(RingSize::Entries16)
        } else if offered & 0b0001 != 0 {
            Some(RingSize::Entries2)
        } else {
            None
        }
    }

    pub fn entries(self) -> (count: u16)
        ensures
            count == self.count(),
    {
        match self {
            RingSize::Entries2 => 2,
            RingSize::Entries16 => 16,
            RingSize::Entries256 => 256,
        }
    }

    pub fn encoding(self) -> (code: u8)
        ensures
            code == self.code(),
    {
        match self {
            RingSize::Entries2 => 0,
            RingSize::Entries16 => 1,
            RingSize::Entries256 => 2,
        }
    }

    pub fn largest_supported(size_register: u8) -> (size: Option<Self>)
        ensures
            size == Self::largest(size_register),
    {
        let capabilities: u8 = size_register >> 4;
        if capabilities & 0b0100 != 0 {
            Some(RingSize::Entries256)
        } else if capabilities & 0b0010 != 0 {
            Some(RingSize::Entries16)
        } else if capabilities & 0b0001 != 0 {
            Some(RingSize::Entries2)
        } else {
            None
        }
    }
}

/// What came back from a codec.
#[derive(Clone, Copy, Debug, Eq, PartialEq, Structural)]
pub struct Response {
    pub data: u32,
    pub codec: u8,
    pub unsolicited: bool,
}

impl Response {
    pub open spec fn of(raw: u64) -> Response {
        let extension = (raw >> 32) as u32;
        Response {
            data: raw as u32,
            codec: (extension & 0x0f) as u8,
            unsolicited: extension & 0x10 != 0,
        }
    }

    pub fn decode(raw: u64) -> (response: Self)
        ensures
            response == Self::of(raw),
    {
        let extension: u32 = (raw >> 32) as u32;
        Response {
            data: raw as u32,
            codec: (extension & 0x0f) as u8,
            unsolicited: extension & 0x10 != 0,
        }
    }
}

#[derive(Clone, Copy, Debug, Eq, PartialEq, Structural)]
pub enum RingError {
    Dma(DmaError),
    UnsupportedCorbSize,
    UnsupportedRirbSize,
    CorbStopTimeout,
    RirbStopTimeout,
    CorbResetClearTimeout,
    RirbResetTimeout,
    CorbStartTimeout,
    RirbStartTimeout,
    CorbSizeRejected,
    RirbSizeRejected,
    DmaAddressRejected,
    CorbFull,
    ResponseTimeout,
    CorbMemoryError,
    RirbOverrun,
    ResponseFromWrongCodec,
}

impl From<DmaError> for RingError {
    fn from(value: DmaError) -> (error: Self) {
        RingError::Dma(value)
    }
}

impl vstd::std_specs::convert::FromSpecImpl<DmaError> for RingError {
    open spec fn obeys_from_spec() -> bool {
        true
    }

    open spec fn from_spec(value: DmaError) -> RingError {
        RingError::Dma(value)
    }
}

impl RingError {
    /// The name of the error.
    pub open spec fn text(self) -> Seq<char> {
        match self {
            RingError::Dma(error) => "Dma("@ + error.text() + ")"@,
            RingError::UnsupportedCorbSize => "UnsupportedCorbSize"@,
            RingError::UnsupportedRirbSize => "UnsupportedRirbSize"@,
            RingError::CorbStopTimeout => "CorbStopTimeout"@,
            RingError::RirbStopTimeout => "RirbStopTimeout"@,
            RingError::CorbResetClearTimeout => "CorbResetClearTimeout"@,
            RingError::RirbResetTimeout => "RirbResetTimeout"@,
            RingError::CorbStartTimeout => "CorbStartTimeout"@,
            RingError::RirbStartTimeout => "RirbStartTimeout"@,
            RingError::CorbSizeRejected => "CorbSizeRejected"@,
            RingError::RirbSizeRejected => "RirbSizeRejected"@,
            RingError::DmaAddressRejected => "DmaAddressRejected"@,
            RingError::CorbFull => "CorbFull"@,
            RingError::ResponseTimeout => "ResponseTimeout"@,
            RingError::CorbMemoryError => "CorbMemoryError"@,
            RingError::RirbOverrun => "RirbOverrun"@,
            RingError::ResponseFromWrongCodec => "ResponseFromWrongCodec"@,
        }
    }

    /// Append the name of the error to a text.
    pub fn push_name(self, text: &mut String)
        ensures
            final(text)@ == old(text)@ + self.text(),
    {
        match self {
            RingError::Dma(error) => {
                text.append("Dma(");
                text.append(error.name());
                text.append(")");
                assert(text@ == old(text)@ + self.text());
            },
            RingError::UnsupportedCorbSize => text.append("UnsupportedCorbSize"),
            RingError::UnsupportedRirbSize => text.append("UnsupportedRirbSize"),
            RingError::CorbStopTimeout => text.append("CorbStopTimeout"),
            RingError::RirbStopTimeout => text.append("RirbStopTimeout"),
            RingError::CorbResetClearTimeout => text.append("CorbResetClearTimeout"),
            RingError::RirbResetTimeout => text.append("RirbResetTimeout"),
            RingError::CorbStartTimeout => text.append("CorbStartTimeout"),
            RingError::RirbStartTimeout => text.append("RirbStartTimeout"),
            RingError::CorbSizeRejected => text.append("CorbSizeRejected"),
            RingError::RirbSizeRejected => text.append("RirbSizeRejected"),
            RingError::DmaAddressRejected => text.append("DmaAddressRejected"),
            RingError::CorbFull => text.append("CorbFull"),
            RingError::ResponseTimeout => text.append("ResponseTimeout"),
            RingError::CorbMemoryError => text.append("CorbMemoryError"),
            RingError::RirbOverrun => text.append("RirbOverrun"),
            RingError::ResponseFromWrongCodec => text.append("ResponseFromWrongCodec"),
        }
    }
}

/// Both ring engines have stopped.
#[derive(Clone, Copy, Debug, Eq, PartialEq, Structural)]
pub struct EnginesIdle {
    pub registers: Mmio,
}

impl Ready for EnginesIdle {
    open spec fn ready_run(&self, io: Io) -> (bool, Io) {
        let (corb, io) = io.r8(self.registers.register(CORBCTL));
        if corb & CORBCTL_RUN != 0 {
            (false, io)
        } else {
            let (rirb, io) = io.r8(self.registers.register(RIRBCTL));
            (rirb & RIRBCTL_DMA_ENABLE == 0, io)
        }
    }

    fn ready<M: Machine>(&self, machine: &mut M) -> (ready: bool) {
        self.registers.read8(machine, CORBCTL) & CORBCTL_RUN == 0 && self.registers.read8(
            machine,
            RIRBCTL,
        ) & RIRBCTL_DMA_ENABLE == 0
    }
}

/// Clear the run bits of both engines and wait for them.
pub open spec fn stop_both_run(registers: Mmio, io: Io) -> (bool, Io) {
    let (corb, io) = io.r8(registers.register(CORBCTL));
    let io = io.w8(registers.register(CORBCTL), corb & !CORBCTL_RUN);
    let (rirb, io) = io.r8(registers.register(RIRBCTL));
    let io = io.w8(registers.register(RIRBCTL), rirb & !RIRBCTL_DMA_ENABLE);
    until_run(HARDWARE_TIMEOUT_MS, EnginesIdle { registers }, io)
}

fn stop_command_engines<M: Machine>(machine: &mut M, registers: Mmio) -> (stopped: bool)
    ensures
        (stopped, final(machine).io()) == stop_both_run(registers, old(machine).io()),
{
    let corb: u8 = registers.read8(machine, CORBCTL);
    registers.write8(machine, CORBCTL, corb & !CORBCTL_RUN);
    let rirb: u8 = registers.read8(machine, RIRBCTL);
    registers.write8(machine, RIRBCTL, rirb & !RIRBCTL_DMA_ENABLE);
    until(machine, HARDWARE_TIMEOUT_MS, EnginesIdle { registers })
}

/// Stop both engines and give the memory back; memory that an engine may still
/// write is kept for good.
pub open spec fn abandon_run(registers: Mmio, dma: DmaRegion, io: Io) -> Io {
    let (stopped, io) = stop_both_run(registers, io);
    if stopped {
        dma.release_run(io)
    } else {
        io
    }
}

fn abandon<M: Machine>(machine: &mut M, registers: Mmio, dma: DmaRegion)
    ensures
        final(machine).io() == abandon_run(registers, dma, old(machine).io()),
{
    if stop_command_engines(machine, registers) {
        dma.release(machine);
    }
}

pub open spec fn bit_wait_run(
    registers: Mmio,
    offset: usize,
    mask: u8,
    set: bool,
    timeout: RingError,
    io: Io,
) -> (Result<(), RingError>, Io) {
    let (came, io) = until_run(
        HARDWARE_TIMEOUT_MS,
        Bits::Byte(registers.register(offset), mask, set),
        io,
    );
    (
        if came {
            Ok(())
        } else {
            Err(timeout)
        },
        io,
    )
}

fn wait8<M: Machine>(
    machine: &mut M,
    registers: Mmio,
    offset: usize,
    mask: u8,
    set: bool,
    timeout: RingError,
) -> (result: Result<(), RingError>)
    ensures
        (result, final(machine).io()) == bit_wait_run(
            registers,
            offset,
            mask,
            set,
            timeout,
            old(machine).io(),
        ),
{
    if until(
        machine,
        HARDWARE_TIMEOUT_MS,
        Bits::Byte(cell_at(registers.base, offset as u64), mask, set),
    ) {
        Ok(())
    } else {
        Err(timeout)
    }
}

pub open spec fn stop_run(
    registers: Mmio,
    register: usize,
    run_bit: u8,
    timeout: RingError,
    io: Io,
) -> (Result<(), RingError>, Io) {
    let (value, io) = io.r8(registers.register(register));
    let io = io.w8(registers.register(register), value & !run_bit);
    bit_wait_run(registers, register, run_bit, false, timeout, io)
}

fn stop_engine<M: Machine>(
    machine: &mut M,
    registers: Mmio,
    register: usize,
    run_bit: u8,
    timeout: RingError,
) -> (result: Result<(), RingError>)
    ensures
        (result, final(machine).io()) == stop_run(
            registers,
            register,
            run_bit,
            timeout,
            old(machine).io(),
        ),
{
    let value: u8 = registers.read8(machine, register);
    registers.write8(machine, register, value & !run_bit);
    wait8(machine, registers, register, run_bit, false, timeout)
}

/// Reset the read pointer of the command ring.  That the reset was seen is
/// told, but only that it went away again is asked for.
pub open spec fn pointer_reset_run(registers: Mmio, io: Io) -> (Result<bool, RingError>, Io) {
    let place = registers.register(CORBRP);
    let io = io.w16(place, CORBRP_RESET);
    let (seen, io) = until_run(HARDWARE_TIMEOUT_MS, Bits::Word(place, CORBRP_RESET, true), io);
    let io = io.w16(place, 0);
    let (gone, io) = until_run(HARDWARE_TIMEOUT_MS, Bits::Word(place, 0xffff, false), io);
    (
        if gone {
            Ok(seen)
        } else {
            Err(RingError::CorbResetClearTimeout)
        },
        io,
    )
}

fn reset_corb_read_pointer<M: Machine>(machine: &mut M, registers: Mmio) -> (result: Result<
    bool,
    RingError,
>)
    ensures
        (result, final(machine).io()) == pointer_reset_run(registers, old(machine).io()),
{
    let place: Place = cell_at(registers.base, CORBRP as u64);
    registers.write16(machine, CORBRP, CORBRP_RESET);
    let assertion_observed: bool = until(
        machine,
        HARDWARE_TIMEOUT_MS,
        Bits::Word(place, CORBRP_RESET, true),
    );
    registers.write16(machine, CORBRP, 0);
    if until(machine, HARDWARE_TIMEOUT_MS, Bits::Word(place, 0xffff, false)) {
        Ok(assertion_observed)
    } else {
        Err(RingError::CorbResetClearTimeout)
    }
}

/// The rings and where the driver is in them.
#[derive(Debug, Eq, PartialEq, Structural)]
pub struct CommandRings {
    pub registers: Mmio,
    pub dma: DmaRegion,
    pub corb_size: RingSize,
    pub rirb_size: RingSize,
    pub corb_write_pointer: u16,
    pub rirb_read_pointer: u16,
    pub unsolicited_dropped: u64,
}

/// Stop both engines and find out how large the rings can be.
pub open spec fn sizes_run(registers: Mmio, io: Io) -> (Result<(RingSize, RingSize), RingError>, Io) {
    match stop_run(registers, CORBCTL, CORBCTL_RUN, RingError::CorbStopTimeout, io) {
        (Err(error), io) => (Err(error), io),
        (Ok(_), io) => match stop_run(
            registers,
            RIRBCTL,
            RIRBCTL_DMA_ENABLE,
            RingError::RirbStopTimeout,
            io,
        ) {
            (Err(error), io) => (Err(error), io),
            (Ok(_), io) => {
                let (corb, io) = io.r8(registers.register(CORBSIZE));
                match RingSize::largest(corb) {
                    None => (Err(RingError::UnsupportedCorbSize), io),
                    Some(corb_size) => {
                        let (rirb, io) = io.r8(registers.register(RIRBSIZE));
                        match RingSize::largest(rirb) {
                            None => (Err(RingError::UnsupportedRirbSize), io),
                            Some(rirb_size) => (Ok((corb_size, rirb_size)), io),
                        }
                    },
                }
            },
        },
    }
}

/// Write a ring's size and base address, and check that both were taken.
pub open spec fn place_run(
    registers: Mmio,
    size_register: usize,
    size: RingSize,
    rejected: RingError,
    low_register: usize,
    high_register: usize,
    address: u64,
    io: Io,
) -> (Result<(), RingError>, Io) {
    let io = io.w8(registers.register(size_register), size.code());
    let (taken, io) = io.r8(registers.register(size_register));
    if taken & 0x03 != size.code() {
        (Err(rejected), io)
    } else {
        let io = io.w32(registers.register(low_register), address as u32);
        let io = io.w32(registers.register(high_register), (address >> 32) as u32);
        let (low, io) = io.r32(registers.register(low_register));
        if low != address as u32 {
            (Err(RingError::DmaAddressRejected), io)
        } else {
            let (high, io) = io.r32(registers.register(high_register));
            if high != (address >> 32) as u32 {
                (Err(RingError::DmaAddressRejected), io)
            } else {
                (Ok(()), io)
            }
        }
    }
}

/// Set both rings up in their memory, engines stopped.
pub open spec fn layout_run(
    registers: Mmio,
    corb_size: RingSize,
    rirb_size: RingSize,
    corb_address: u64,
    rirb_address: u64,
    io: Io,
) -> (Result<(), RingError>, Io) {
    match place_run(
        registers,
        CORBSIZE,
        corb_size,
        RingError::CorbSizeRejected,
        CORBLBASE,
        CORBUBASE,
        corb_address,
        io,
    ) {
        (Err(error), io) => (Err(error), io),
        (Ok(_), io) => match pointer_reset_run(registers, io) {
            (Err(error), io) => (Err(error), io),
            (Ok(_), io) => {
                let io = io.w16(registers.register(CORBWP), 0);
                let io = io.w8(registers.register(CORBSTS), CORBSTS_MEMORY_ERROR);
                match place_run(
                    registers,
                    RIRBSIZE,
                    rirb_size,
                    RingError::RirbSizeRejected,
                    RIRBLBASE,
                    RIRBUBASE,
                    rirb_address,
                    io,
                ) {
                    (Err(error), io) => (Err(error), io),
                    (Ok(_), io) => {
                        let io = io.w16(registers.register(RIRBWP), RIRBWP_RESET);
                        let (reset, io) = until_run(
                            HARDWARE_TIMEOUT_MS,
                            Bits::Word(registers.register(RIRBWP), 0xff, false),
                            io,
                        );
                        if !reset {
                            (Err(RingError::RirbResetTimeout), io)
                        } else {
                            let io = io.w16(registers.register(RINTCNT), 1);
                            let io = io.w8(
                                registers.register(RIRBSTS),
                                RIRBSTS_RESPONSE | RIRBSTS_OVERRUN,
                            );
                            (Ok(()), io)
                        }
                    },
                }
            },
        },
    }
}

/// Start the engines, the one for responses first.
pub open spec fn start_run(registers: Mmio, io: Io) -> (Result<(), RingError>, Io) {
    let io = io.tell(Order::Fence).w8(registers.register(RIRBCTL), RIRBCTL_DMA_ENABLE);
    match bit_wait_run(
        registers,
        RIRBCTL,
        RIRBCTL_DMA_ENABLE,
        true,
        RingError::RirbStartTimeout,
        io,
    ) {
        (Err(error), io) => (Err(error), io),
        (Ok(_), io) => {
            let io = io.w8(registers.register(CORBCTL), CORBCTL_RUN);
            bit_wait_run(
                registers,
                CORBCTL,
                CORBCTL_RUN,
                true,
                RingError::CorbStartTimeout,
                io,
            )
        },
    }
}

fn place_ring<M: Machine>(
    machine: &mut M,
    registers: Mmio,
    size_register: usize,
    size: RingSize,
    rejected: RingError,
    low_register: usize,
    high_register: usize,
    address: u64,
) -> (result: Result<(), RingError>)
    ensures
        (result, final(machine).io()) == place_run(
            registers,
            size_register,
            size,
            rejected,
            low_register,
            high_register,
            address,
            old(machine).io(),
        ),
{
    registers.write8(machine, size_register, size.encoding());
    if registers.read8(machine, size_register) & 0x03 != size.encoding() {
        return Err(rejected);
    }
    registers.write32(machine, low_register, address as u32);
    registers.write32(machine, high_register, (address >> 32) as u32);
    if registers.read32(machine, low_register) != address as u32 || registers.read32(
        machine,
        high_register,
    ) != (address >> 32) as u32 {
        return Err(RingError::DmaAddressRejected);
    }
    Ok(())
}

fn lay_out_rings<M: Machine>(
    machine: &mut M,
    registers: Mmio,
    corb_size: RingSize,
    rirb_size: RingSize,
    corb_address: u64,
    rirb_address: u64,
) -> (result: Result<(), RingError>)
    ensures
        (result, final(machine).io()) == layout_run(
            registers,
            corb_size,
            rirb_size,
            corb_address,
            rirb_address,
            old(machine).io(),
        ),
{
    match place_ring(
        machine,
        registers,
        CORBSIZE,
        corb_size,
        RingError::CorbSizeRejected,
        CORBLBASE,
        CORBUBASE,
        corb_address,
    ) {
        Ok(_) => {},
        Err(error) => {
            return Err(error);
        },
    }
    match reset_corb_read_pointer(machine, registers) {
        Ok(_) => {},
        Err(error) => {
            return Err(error);
        },
    }
    registers.write16(machine, CORBWP, 0);
    registers.write8(machine, CORBSTS, CORBSTS_MEMORY_ERROR);
    match place_ring(
        machine,
        registers,
        RIRBSIZE,
        rirb_size,
        RingError::RirbSizeRejected,
        RIRBLBASE,
        RIRBUBASE,
        rirb_address,
    ) {
        Ok(_) => {},
        Err(error) => {
            return Err(error);
        },
    }
    registers.write16(machine, RIRBWP, RIRBWP_RESET);
    if !until(
        machine,
        HARDWARE_TIMEOUT_MS,
        Bits::Word(cell_at(registers.base, RIRBWP as u64), 0xff, false),
    ) {
        return Err(RingError::RirbResetTimeout);
    }
    registers.write16(machine, RINTCNT, 1);
    registers.write8(machine, RIRBSTS, RIRBSTS_RESPONSE | RIRBSTS_OVERRUN);
    Ok(())
}

fn start_engines<M: Machine>(machine: &mut M, registers: Mmio) -> (result: Result<(), RingError>)
    ensures
        (result, final(machine).io()) == start_run(registers, old(machine).io()),
{
    machine.tell(Order::Fence);
    registers.write8(machine, RIRBCTL, RIRBCTL_DMA_ENABLE);
    match wait8(
        machine,
        registers,
        RIRBCTL,
        RIRBCTL_DMA_ENABLE,
        true,
        RingError::RirbStartTimeout,
    ) {
        Ok(_) => {},
        Err(error) => {
            return Err(error);
        },
    }
    registers.write8(machine, CORBCTL, CORBCTL_RUN);
    wait8(machine, registers, CORBCTL, CORBCTL_RUN, true, RingError::CorbStartTimeout)
}

impl CommandRings {
    /// Fresh rings in some memory.
    pub open spec fn fresh(
        registers: Mmio,
        dma: DmaRegion,
        corb_size: RingSize,
        rirb_size: RingSize,
    ) -> CommandRings {
        CommandRings {
            registers,
            dma,
            corb_size,
            rirb_size,
            corb_write_pointer: 0,
            rirb_read_pointer: 0,
            unsolicited_dropped: 0,
        }
    }

    pub open spec fn initialize_run(registers: Mmio, wide: bool, io: Io) -> (Result<
        CommandRings,
        RingError,
    >, Io) {
        match sizes_run(registers, io) {
            (Err(error), io) => (Err(error), io),
            (Ok((corb_size, rirb_size)), io) => match DmaRegion::allocate_run(
                RING_ARENA_BYTES,
                if wide {
                    None
                } else {
                    Some(u32::MAX as u64)
                },
                io,
            ) {
                (Err(error), io) => (Err(RingError::Dma(error)), io),
                (Ok(dma), io) => match layout_run(
                    registers,
                    corb_size,
                    rirb_size,
                    dma.physical(CORB_OFFSET as int)->0,
                    dma.physical(RIRB_OFFSET as int)->0,
                    io,
                ) {
                    (Err(error), io) => (
                        Err(error),
                        dma.release_run(io),
                    ),
                    (Ok(_), io) => match start_run(registers, io) {
                        (Err(error), io) => (Err(error), abandon_run(registers, dma, io)),
                        (Ok(_), io) => (
                            Ok(Self::fresh(registers, dma, corb_size, rirb_size)),
                            io,
                        ),
                    },
                },
            },
        }
    }

    fn stop_and_size<M: Machine>(machine: &mut M, registers: Mmio) -> (result: Result<
        (RingSize, RingSize),
        RingError,
    >)
        ensures
            (result, final(machine).io()) == sizes_run(registers, old(machine).io()),
    {
        match stop_engine(machine, registers, CORBCTL, CORBCTL_RUN, RingError::CorbStopTimeout) {
            Ok(_) => {},
            Err(error) => {
                return Err(error);
            },
        }
        match stop_engine(
            machine,
            registers,
            RIRBCTL,
            RIRBCTL_DMA_ENABLE,
            RingError::RirbStopTimeout,
        ) {
            Ok(_) => {},
            Err(error) => {
                return Err(error);
            },
        }
        let corb_size: RingSize = match RingSize::largest_supported(
            registers.read8(machine, CORBSIZE),
        ) {
            Some(size) => size,
            None => {
                return Err(RingError::UnsupportedCorbSize);
            },
        };
        let rirb_size: RingSize = match RingSize::largest_supported(
            registers.read8(machine, RIRBSIZE),
        ) {
            Some(size) => size,
            None => {
                return Err(RingError::UnsupportedRirbSize);
            },
        };
        Ok((corb_size, rirb_size))
    }

    /// Set the rings up and start them.
    pub fn initialize<M: Machine>(machine: &mut M, registers: Mmio, supports_64bit: bool) -> (result:
        Result<Self, RingError>)
        ensures
            (result, final(machine).io()) == Self::initialize_run(
                registers,
                supports_64bit,
                old(machine).io(),
            ),
    {
        let (corb_size, rirb_size): (RingSize, RingSize) = match Self::stop_and_size(
            machine,
            registers,
        ) {
            Ok(sizes) => sizes,
            Err(error) => {
                return Err(error);
            },
        };
        let max_address: Option<u64> = if supports_64bit {
            None
        } else {
            Some(u32::MAX as u64)
        };
        let dma: DmaRegion = match DmaRegion::allocate(machine, RING_ARENA_BYTES, max_address) {
            Ok(dma) => dma,
            Err(error) => {
                return Err(RingError::Dma(error));
            },
        };
        let corb_address: u64 = match dma.physical_at(CORB_OFFSET) {
            Some(address) => address,
            None => {
                return Err(RingError::Dma(DmaError::SizeOverflow));
            },
        };
        let rirb_address: u64 = match dma.physical_at(RIRB_OFFSET) {
            Some(address) => address,
            None => {
                return Err(RingError::Dma(DmaError::SizeOverflow));
            },
        };
        match lay_out_rings(machine, registers, corb_size, rirb_size, corb_address, rirb_address) {
            Ok(_) => {},
            Err(error) => {
                dma.release(machine);
                return Err(error);
            },
        }
        match start_engines(machine, registers) {
            Ok(_) => {},
            Err(error) => {
                abandon(machine, registers, dma);
                return Err(error);
            },
        }
        Ok(
            CommandRings {
                registers,
                dma,
                corb_size,
                rirb_size,
                corb_write_pointer: 0,
                rirb_read_pointer: 0,
                unsolicited_dropped: 0,
            },
        )
    }

    /// Stop the rings and give their memory back.
    pub fn release<M: Machine>(self, machine: &mut M)
        ensures
            final(machine).io() == abandon_run(self.registers, self.dma, old(machine).io()),
    {
        abandon(machine, self.registers, self.dma);
    }

    pub fn corb_size(&self) -> (size: RingSize)
        ensures
            size == self.corb_size,
    {
        self.corb_size
    }

    pub fn rirb_size(&self) -> (size: RingSize)
        ensures
            size == self.rirb_size,
    {
        self.rirb_size
    }

    /// Responses that nobody asked for.
    pub fn unsolicited_dropped(&self) -> (count: u64)
        ensures
            count == self.unsolicited_dropped,
    {
        self.unsolicited_dropped
    }

    /// What is wrong with the rings.
    pub open spec fn status_run(registers: Mmio, io: Io) -> (Result<(), RingError>, Io) {
        let (corb, io) = io.r8(registers.register(CORBSTS));
        if corb & CORBSTS_MEMORY_ERROR != 0 {
            (Err(RingError::CorbMemoryError), io)
        } else {
            let (rirb, io) = io.r8(registers.register(RIRBSTS));
            if rirb & RIRBSTS_OVERRUN != 0 {
                (Err(RingError::RirbOverrun), io)
            } else {
                (Ok(()), io)
            }
        }
    }

    /// Whether the entry `next` of the command ring is free.
    pub open spec fn space_run(registers: Mmio, next: u16, mask: u16, io: Io) -> (Result<
        bool,
        RingError,
    >, Io) {
        match Self::status_run(registers, io) {
            (Err(error), io) => (Err(error), io),
            (Ok(_), io) => {
                let (read, io) = io.r16(registers.register(CORBRP));
                (Ok(next != read & mask), io)
            },
        }
    }

    /// Wait for the entry `next` to become free: `fast` looks in a row, then
    /// `slow` ones a millisecond apart.
    pub open spec fn room_run(
        registers: Mmio,
        next: u16,
        mask: u16,
        fast: nat,
        slow: nat,
        io: Io,
    ) -> (Result<(), RingError>, Io)
        decreases fast + slow,
    {
        match Self::space_run(registers, next, mask, io) {
            (Err(error), io) => (Err(error), io),
            (Ok(free), io) => if free {
                (Ok(()), io)
            } else if fast > 0 {
                Self::room_run(registers, next, mask, (fast - 1) as nat, slow, io)
            } else if slow > 0 {
                Self::room_run(registers, next, mask, 0, (slow - 1) as nat, delay_run(1, io))
            } else {
                (Err(RingError::CorbFull), io)
            },
        }
    }

    /// Look once for the response to a command.  A response that nobody asked
    /// for is counted and dropped.
    pub open spec fn response_run(self, registers: Mmio, verb: Verb, io: Io) -> (Result<
        Option<Response>,
        RingError,
    >, CommandRings, Io) {
        match Self::status_run(registers, io) {
            (Err(error), io) => (Err(error), self, io),
            (Ok(_), io) => {
                let (pointer, io) = io.r16(registers.register(RIRBWP));
                if pointer & self.rirb_size.mask() == self.rirb_read_pointer {
                    (Ok(None), self, io)
                } else {
                    let read = self.rirb_read_pointer.wrapping_add(1) & self.rirb_size.mask();
                    let after = CommandRings { rirb_read_pointer: read, ..self };
                    let io = io.tell(Order::Fence);
                    let (raw, io) = io.r64(
                        cell(self.dma.address, (RIRB_OFFSET + 8 * read) as u64),
                    );
                    let response = Response::of(raw);
                    if response.unsolicited {
                        (
                            Ok(None),
                            CommandRings {
                                unsolicited_dropped: if self.unsolicited_dropped == u64::MAX {
                                    u64::MAX
                                } else {
                                    (self.unsolicited_dropped + 1) as u64
                                },
                                ..after
                            },
                            io,
                        )
                    } else if response.codec != verb.target() {
                        (Err(RingError::ResponseFromWrongCodec), after, io)
                    } else {
                        let (status, io) = io.r8(registers.register(RIRBSTS));
                        let io = if status & RIRBSTS_RESPONSE != 0 {
                            io.w8(registers.register(RIRBSTS), RIRBSTS_RESPONSE)
                        } else {
                            io
                        };
                        (Ok(Some(response)), after, io)
                    }
                }
            },
        }
    }

    /// Wait for the response to a command: `fast` looks in a row, then `slow`
    /// ones a millisecond apart.
    pub open spec fn answer_run(
        self,
        registers: Mmio,
        verb: Verb,
        fast: nat,
        slow: nat,
        io: Io,
    ) -> (Result<Response, RingError>, CommandRings, Io)
        decreases fast + slow,
    {
        if fast == 0 && slow == 0 {
            (Err(RingError::ResponseTimeout), self, io)
        } else {
            let io = if fast > 0 {
                io
            } else {
                delay_run(1, io)
            };
            match self.response_run(registers, verb, io) {
                (Err(error), rings, io) => (Err(error), rings, io),
                (Ok(Some(response)), rings, io) => (Ok(response), rings, io),
                (Ok(None), rings, io) => if fast > 0 {
                    rings.answer_run(registers, verb, (fast - 1) as nat, slow, io)
                } else {
                    rings.answer_run(registers, verb, 0, (slow - 1) as nat, io)
                },
            }
        }
    }

    /// Send a command and wait for its response.
    pub open spec fn command_run(self, registers: Mmio, verb: Verb, io: Io) -> (Result<
        Response,
        RingError,
    >, CommandRings, Io) {
        match Self::status_run(registers, io) {
            (Err(error), io) => (Err(error), self, io),
            (Ok(_), io) => {
                let mask = self.corb_size.mask();
                let next = self.corb_write_pointer.wrapping_add(1) & mask;
                match Self::room_run(
                    registers,
                    next,
                    mask,
                    FAST_POLL_COUNT as nat,
                    COMMAND_TIMEOUT_MS as nat,
                    io,
                ) {
                    (Err(error), io) => (Err(error), self, io),
                    (Ok(_), io) => {
                        let io = io.w32(
                            cell(self.dma.address, (CORB_OFFSET + 4 * next) as u64),
                            verb.sent(),
                        );
                        let io = io.tell(Order::Fence);
                        let io = io.w16(registers.register(CORBWP), next);
                        CommandRings { corb_write_pointer: next, ..self }.answer_run(
                            registers,
                            verb,
                            FAST_POLL_COUNT as nat,
                            COMMAND_TIMEOUT_MS as nat,
                            io,
                        )
                    },
                }
            },
        }
    }

    fn check_status<M: Machine>(&self, machine: &mut M, registers: Mmio) -> (result: Result<
        (),
        RingError,
    >)
        ensures
            (result, final(machine).io()) == Self::status_run(registers, old(machine).io()),
    {
        if registers.read8(machine, CORBSTS) & CORBSTS_MEMORY_ERROR != 0 {
            return Err(RingError::CorbMemoryError);
        }
        if registers.read8(machine, RIRBSTS) & RIRBSTS_OVERRUN != 0 {
            return Err(RingError::RirbOverrun);
        }
        Ok(())
    }

    fn corb_has_space<M: Machine>(
        &self,
        machine: &mut M,
        registers: Mmio,
        next: u16,
        corb_mask: u16,
    ) -> (result: Result<bool, RingError>)
        ensures
            (result, final(machine).io()) == Self::space_run(
                registers,
                next,
                corb_mask,
                old(machine).io(),
            ),
    {
        match self.check_status(machine, registers) {
            Ok(_) => {},
            Err(error) => {
                return Err(error);
            },
        }
        Ok(next != registers.read16(machine, CORBRP) & corb_mask)
    }

    fn wait_for_space<M: Machine>(
        &self,
        machine: &mut M,
        registers: Mmio,
        next: u16,
        corb_mask: u16,
    ) -> (result: Result<(), RingError>)
        ensures
            (result, final(machine).io()) == Self::room_run(
                registers,
                next,
                corb_mask,
                FAST_POLL_COUNT as nat,
                COMMAND_TIMEOUT_MS as nat,
                old(machine).io(),
            ),
    {
        let mut fast: usize = FAST_POLL_COUNT;
        let mut slow: u16 = COMMAND_TIMEOUT_MS;
        loop
            invariant
                Self::room_run(
                    registers,
                    next,
                    corb_mask,
                    FAST_POLL_COUNT as nat,
                    COMMAND_TIMEOUT_MS as nat,
                    old(machine).io(),
                ) == Self::room_run(
                    registers,
                    next,
                    corb_mask,
                    fast as nat,
                    slow as nat,
                    machine.io(),
                ),
            decreases fast + slow,
        {
            match self.corb_has_space(machine, registers, next, corb_mask) {
                Err(error) => {
                    return Err(error);
                },
                Ok(free) => {
                    if free {
                        return Ok(());
                    }
                },
            }
            if fast > 0 {
                fast = fast - 1;
            } else if slow > 0 {
                one_millisecond(machine);
                slow = slow - 1;
            } else {
                return Err(RingError::CorbFull);
            }
        }
    }

    /// Send a command and wait for its response.
    pub fn command<M: Machine>(&mut self, machine: &mut M, registers: Mmio, verb: Verb) -> (result:
        Result<Response, RingError>)
        ensures
            (result, *final(self), final(machine).io()) == old(self).command_run(
                registers,
                verb,
                old(machine).io(),
            ),
    {
        match self.check_status(machine, registers) {
            Ok(_) => {},
            Err(error) => {
                return Err(error);
            },
        }
        let corb_mask: u16 = self.corb_size.entries() - 1;
        let next: u16 = self.corb_write_pointer.wrapping_add(1) & corb_mask;
        match self.wait_for_space(machine, registers, next, corb_mask) {
            Ok(_) => {},
            Err(error) => {
                return Err(error);
            },
        }
        machine.write32(
            cell_at(self.dma.as_ptr(), CORB_OFFSET as u64 + 4 * next as u64),
            verb.raw(),
        );
        self.dma.sync_for_device(machine);
        self.corb_write_pointer = next;
        registers.write16(machine, CORBWP, next);
        self.wait_for_answer(machine, registers, verb)
    }

    fn wait_for_answer<M: Machine>(&mut self, machine: &mut M, registers: Mmio, verb: Verb) -> (result:
        Result<Response, RingError>)
        ensures
            (result, *final(self), final(machine).io()) == old(self).answer_run(
                registers,
                verb,
                FAST_POLL_COUNT as nat,
                COMMAND_TIMEOUT_MS as nat,
                old(machine).io(),
            ),
    {
        let mut fast: usize = FAST_POLL_COUNT;
        let mut slow: u16 = COMMAND_TIMEOUT_MS;
        while fast > 0 || slow > 0
            invariant
                old(self).answer_run(
                    registers,
                    verb,
                    FAST_POLL_COUNT as nat,
                    COMMAND_TIMEOUT_MS as nat,
                    old(machine).io(),
                ) == self.answer_run(registers, verb, fast as nat, slow as nat, machine.io()),
            decreases fast + slow,
        {
            if fast == 0 {
                one_millisecond(machine);
            }
            match self.poll_response(machine, registers, verb) {
                Err(error) => {
                    return Err(error);
                },
                Ok(Some(response)) => {
                    return Ok(response);
                },
                Ok(None) => {},
            }
            if fast > 0 {
                fast = fast - 1;
            } else {
                slow = slow - 1;
            }
        }
        Err(RingError::ResponseTimeout)
    }

    fn poll_response<M: Machine>(&mut self, machine: &mut M, registers: Mmio, verb: Verb) -> (result:
        Result<Option<Response>, RingError>)
        ensures
            (result, *final(self), final(machine).io()) == old(self).response_run(
                registers,
                verb,
                old(machine).io(),
            ),
    {
        match self.check_status(machine, registers) {
            Ok(_) => {},
            Err(error) => {
                return Err(error);
            },
        }
        let rirb_mask: u16 = self.rirb_size.entries() - 1;
        let hardware_write: u16 = registers.read16(machine, RIRBWP) & rirb_mask;
        if hardware_write == self.rirb_read_pointer {
            return Ok(None);
        }
        self.rirb_read_pointer = self.rirb_read_pointer.wrapping_add(1) & rirb_mask;
        self.dma.sync_for_cpu(machine);
        let raw: u64 = machine.read64(
            cell_at(self.dma.as_ptr(), RIRB_OFFSET as u64 + 8 * self.rirb_read_pointer as u64),
        );
        let response: Response = Response::decode(raw);
        if response.unsolicited {
            self.unsolicited_dropped = self.unsolicited_dropped.saturating_add(1);
            return Ok(None);
        }
        if response.codec != verb.codec() {
            return Err(RingError::ResponseFromWrongCodec);
        }
        if registers.read8(machine, RIRBSTS) & RIRBSTS_RESPONSE != 0 {
            registers.write8(machine, RIRBSTS, RIRBSTS_RESPONSE);
        }
        Ok(Some(response))
    }
}

proof fn lemma_next_pointer(pointer: u16)
    by (bit_vector)
    ensures
        pointer < 2 ==> (pointer + 1) as u16 & 1 == (if pointer == 1 { 0 } else { pointer + 1 }),
        pointer < 16 ==> (pointer + 1) as u16 & 15 == (if pointer == 15 { 0 } else { pointer + 1 }),
        pointer < 256 ==> (pointer + 1) as u16 & 255 == (if pointer == 255 { 0 } else { pointer + 1
        }),
{
}

/// A pointer into a ring steps to the next entry, and from the last to the
/// first.
pub proof fn lemma_pointer_wraps(size: RingSize, pointer: u16)
    requires
        pointer < size.count(),
    ensures
        pointer.wrapping_add(1) & size.mask() == (if pointer + 1 == size.count() {
            0
        } else {
            pointer + 1
        }),
        pointer.wrapping_add(1) & size.mask() < size.count(),
{
    lemma_next_pointer(pointer);
}

/// Whatever is in a pointer, the entry it leads to lies in the ring's memory,
/// and the two rings do not overlap.
pub proof fn lemma_entries_lie_in_arena(size: RingSize, pointer: u16)
    ensures
        CORB_OFFSET + 4 * (pointer & size.mask()) + 4 <= RIRB_OFFSET,
        RIRB_OFFSET + 8 * (pointer & size.mask()) + 8 <= RING_ARENA_BYTES,
{
    lemma_mask16(pointer, size.mask());
}

/// Both rings start at a multiple of the largest ring's size, whichever frames
/// were handed out for them.
pub proof fn lemma_rings_are_aligned(max_address: Option<u64>, io: Io)
    requires
        DmaRegion::allocate_run(RING_ARENA_BYTES, max_address, io).0 is Ok,
    ensures
        ({
            let dma = DmaRegion::allocate_run(RING_ARENA_BYTES, max_address, io).0->Ok_0;
            &&& dma.physical(CORB_OFFSET as int) == Some(dma.first)
            &&& dma.first as int % RIRB_OFFSET as int == 0
            &&& dma.physical(RIRB_OFFSET as int) == Some((dma.first + RIRB_OFFSET) as u64)
            &&& (dma.first + RIRB_OFFSET) % RIRB_OFFSET as int == 0
        }),
{
    crate::audio::dma::lemma_region_holds_request(RING_ARENA_BYTES, max_address, io);
}

/// A response that is delivered came from the codec that was asked, and was
/// asked for.
pub proof fn lemma_answer_is_from_target(
    rings: CommandRings,
    registers: Mmio,
    verb: Verb,
    fast: nat,
    slow: nat,
    io: Io,
)
    ensures
        rings.answer_run(registers, verb, fast, slow, io).0 is Ok ==> {
            let response = rings.answer_run(registers, verb, fast, slow, io).0->Ok_0;
            response.codec == verb.target() && !response.unsolicited
        },
    decreases fast + slow,
{
    if fast > 0 || slow > 0 {
        let waited = if fast > 0 {
            io
        } else {
            delay_run(1, io)
        };
        let (outcome, after, next) = rings.response_run(registers, verb, waited);
        if outcome == Ok::<Option<Response>, RingError>(None) {
            if fast > 0 {
                lemma_answer_is_from_target(after, registers, verb, (fast - 1) as nat, slow, next);
            } else {
                lemma_answer_is_from_target(after, registers, verb, 0, (slow - 1) as nat, next);
            }
        }
    }
}

} // verus!
