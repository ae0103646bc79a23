//! The driver of the adapter: finding its registers and memory, setting up the
//! command ring, and sending commands through it.
use vstd::prelude::*;
use crate::display::protocol;
use crate::display::protocol::{
    copy_words, fence_passed, fence_words, lemma_moved_stays_in_ring, lemma_moves_add_up,
    next_fence, update_words, CopyRect, DeviceCapabilities, FenceCommand, FenceSequence,
    FifoCapabilities, FifoLayout, Mode, ModeLimits, ProtocolError, Rect, RectCopyCommand,
    UpdateCommand,
};
use crate::driver::{AnyDriver, Devices, KEY_SVGA2};
use crate::machine::{cell, cell_at, Io, Machine, Order, Place, Query};
use crate::pci::config::PciAddress;
use crate::pci::enumerate::{
    decoded_bar, is_high_half, register_driver, DriverRegistry, PciBarInfo, PciBarKind, PciDevice,
    PciDriver, PciDriverError, enrolled,
};
use crate::pci::PciCommand;
use crate::text::{padded, push_number, push_text};

verus! {

/// Polls of the busy register at most, where the caller names no number.
pub const DEFAULT_SYNC_POLL_LIMIT: usize = 1_000_000;
/// The last port at which both registers fit.
pub const MAX_IO_PORT_BASE: u64 = 0xfffe;
pub const PAGE_MASK: u64 = 4095;
pub const PHYSICAL_ADDRESS_LIMIT: u64 = 0x10_0000_0000_0000;

#[derive(Clone, Copy, Debug, Eq, PartialEq, Structural)]
pub enum SvgaError {
    UnsupportedDevice,
    MissingResource,
    InvalidIoBar,
    InvalidMemoryBar,
    ResourceMismatch,
    AddressOutOfRange,
    MemoryManagerUnavailable,
    UnsupportedVersion(u32),
    DeviceDisabled,
    InvalidFifoSize,
    InvalidVramSize,
    Protocol(ProtocolError),
    UnsupportedCapability,
    TooManyRectangles,
    SyncTimeout,
    FenceTimeout,
    AlreadyAttached,
    NotAttached,
}

impl From<ProtocolError> for SvgaError {
    fn from(error: ProtocolError) -> (wrapped: Self) {
        SvgaError::Protocol(error)
    }
}

impl vstd::std_specs::convert::FromSpecImpl<ProtocolError> for SvgaError {
    open spec fn obeys_from_spec() -> bool {
        true
    }

    open spec fn from_spec(error: ProtocolError) -> SvgaError {
        SvgaError::Protocol(error)
    }
}

impl SvgaError {
    /// The error in words.
    pub open spec fn text(self) -> Seq<char> {
        match self {
            SvgaError::UnsupportedDevice => "not a VMware SVGA II PCI function"@,
            SvgaError::MissingResource => "required SVGA BAR is absent"@,
            SvgaError::InvalidIoBar => "SVGA BAR0 is not a usable I/O BAR"@,
            SvgaError::InvalidMemoryBar => "SVGA BAR1/BAR2 is not aligned 32-bit memory"@,
            SvgaError::ResourceMismatch =>
                "SVGA register-reported address does not match PCI BAR"@,
            SvgaError::AddressOutOfRange => "SVGA physical range is invalid"@,
            SvgaError::MemoryManagerUnavailable => "HHDM is not initialized"@,
            SvgaError::UnsupportedVersion(id) => "unsupported SVGA ID 0x"@ + padded(
                id as nat,
                16,
                8,
            ),
            SvgaError::DeviceDisabled => "SVGA scanout is not enabled"@,
            SvgaError::InvalidFifoSize => "SVGA FIFO size/header is invalid"@,
            SvgaError::InvalidVramSize => "SVGA VRAM size is invalid"@,
            SvgaError::Protocol(error) => "SVGA protocol validation failed: "@ + error.text(),
            SvgaError::UnsupportedCapability => "SVGA capability is unavailable"@,
            SvgaError::TooManyRectangles => "too many SVGA update rectangles"@,
            SvgaError::SyncTimeout => "SVGA busy register did not clear"@,
            SvgaError::FenceTimeout => "SVGA fence did not complete"@,
            SvgaError::AlreadyAttached => "an SVGA II adapter is already attached"@,
            SvgaError::NotAttached => "no SVGA II adapter is attached"@,
        }
    }

    /// The error in words.
    pub fn to_string(&self) -> (text: String)
        ensures
            text@ == self.text(),
    {
        let mut text: String = String::new();
        match self {
            SvgaError::UnsupportedDevice => push_text(
                &mut text,
                "not a VMware SVGA II PCI function",
            ),
            SvgaError::MissingResource => push_text(&mut text, "required SVGA BAR is absent"),
            SvgaError::InvalidIoBar => push_text(&mut text, "SVGA BAR0 is not a usable I/O BAR"),
            SvgaError::InvalidMemoryBar => push_text(
                &mut text,
                "SVGA BAR1/BAR2 is not aligned 32-bit memory",
            ),
            SvgaError::ResourceMismatch => push_text(
                &mut text,
                "SVGA register-reported address does not match PCI BAR",
            ),
            SvgaError::AddressOutOfRange => push_text(&mut text, "SVGA physical range is invalid"),
            SvgaError::MemoryManagerUnavailable => push_text(&mut text, "HHDM is not initialized"),
            SvgaError::UnsupportedVersion(id) => {
                push_text(&mut text, "unsupported SVGA ID 0x");
                push_number(&mut text, *id, 16, 8);
            },
            SvgaError::DeviceDisabled => push_text(&mut text, "SVGA scanout is not enabled"),
            SvgaError::InvalidFifoSize => push_text(&mut text, "SVGA FIFO size/header is invalid"),
            SvgaError::InvalidVramSize => push_text(&mut text, "SVGA VRAM size is invalid"),
            SvgaError::Protocol(error) => {
                push_text(&mut text, "SVGA protocol validation failed: ");
                push_text(&mut text, error.name());
            },
            SvgaError::UnsupportedCapability => push_text(
                &mut text,
                "SVGA capability is unavailable",
            ),
            SvgaError::TooManyRectangles => push_text(
                &mut text,
                "too many SVGA update rectangles",
            ),
            SvgaError::SyncTimeout => push_text(&mut text, "SVGA busy register did not clear"),
            SvgaError::FenceTimeout => push_text(&mut text, "SVGA fence did not complete"),
            SvgaError::AlreadyAttached => push_text(
                &mut text,
                "an SVGA II adapter is already attached",
            ),
            SvgaError::NotAttached => push_text(&mut text, "no SVGA II adapter is attached"),
        }
        assert(text@ == self.text());
        text
    }
}

/// Where the adapter's registers and memories are.
#[derive(Clone, Copy, Debug, Eq, PartialEq, Structural)]
pub struct Resources {
    pub io_base: u16,
    pub framebuffer_physical: u64,
    pub fifo_physical: u64,
}

/// How much the adapter's three windows span.
#[derive(Clone, Copy, Debug, Eq, PartialEq, Structural)]
pub struct ResourceApertures {
    pub io_bytes: u64,
    pub framebuffer_bytes: u64,
    pub fifo_bytes: u64,
}

/// What is known of the attached adapter.
#[derive(Clone, Copy, Debug, Eq, PartialEq, Structural)]
pub struct DeviceInfo {
    pub bus: u8,
    pub device: u8,
    pub function: u8,
    pub svga_id: u32,
    pub capabilities: DeviceCapabilities,
    pub fifo_capabilities: FifoCapabilities,
    pub mode_limits: ModeLimits,
    pub mode: Mode,
    pub framebuffer_physical: u64,
    pub framebuffer_virtual: u64,
    pub framebuffer_aperture_bytes: u64,
    pub fifo_physical: u64,
    pub fifo_bytes: u32,
    pub fifo_aperture_bytes: u64,
}

impl DeviceInfo {
    /// The physical address of the first visible pixel.
    pub fn visible_framebuffer_physical(self) -> (address: u64)
        requires
            self.framebuffer_physical + self.mode.framebuffer_offset <= u64::MAX,
        ensures
            address == self.framebuffer_physical + self.mode.framebuffer_offset,
    {
        self.framebuffer_physical + self.mode.framebuffer_offset as u64
    }

    /// The kernel address of the first visible pixel.
    pub fn visible_framebuffer_virtual(self) -> (address: u64)
        requires
            self.framebuffer_virtual + self.mode.framebuffer_offset <= u64::MAX,
        ensures
            address == self.framebuffer_virtual + self.mode.framebuffer_offset,
    {
        self.framebuffer_virtual + self.mode.framebuffer_offset as u64
    }

    /// Whether a frame buffer that the boot loader described is the one this
    /// adapter shows.
    pub fn matches_boot_framebuffer(
        self,
        physical_start: u64,
        width: u32,
        height: u32,
        pitch: u32,
        bits_per_pixel: u32,
    ) -> (same: bool)
        requires
            self.framebuffer_physical + self.mode.framebuffer_offset <= u64::MAX,
        ensures
            same == (physical_start == self.framebuffer_physical + self.mode.framebuffer_offset
                && width == self.mode.width && height == self.mode.height && pitch
                == self.mode.pitch && bits_per_pixel == self.mode.bits_per_pixel),
    {
        physical_start == self.visible_framebuffer_physical() && width == self.mode.width && height
            == self.mode.height && pitch == self.mode.pitch && bits_per_pixel
            == self.mode.bits_per_pixel
    }
}

/// The adapter's registers behind an index and a value port.
#[derive(Clone, Copy, Debug, Eq, PartialEq, Structural)]
pub struct Registers {
    pub index: u16,
    pub value: u16,
}

impl Registers {
    pub open spec fn at(io_base: u16) -> Registers {
        Registers { index: io_base, value: io_base.wrapping_add(1) }
    }

    pub open spec fn read_run(self, register: u32, io: Io) -> (u32, Io) {
        io.w32(Place::Port(self.index), register).r32(Place::Port(self.value))
    }

    pub open spec fn write_run(self, register: u32, value: u32, io: Io) -> Io {
        io.w32(Place::Port(self.index), register).w32(Place::Port(self.value), value)
    }

    pub fn new(io_base: u16) -> (registers: Self)
        ensures
            registers == Self::at(io_base),
    {
        Registers {
            index: io_base.wrapping_add(protocol::INDEX_PORT_OFFSET),
            value: io_base.wrapping_add(protocol::VALUE_PORT_OFFSET),
        }
    }

    pub fn read<M: Machine>(self, machine: &mut M, register: u32) -> (value: u32)
        ensures
            (value, final(machine).io()) == self.read_run(register, old(machine).io()),
    {
        machine.write32(Place::Port(self.index), register);
        machine.read32(Place::Port(self.value))
    }

    pub fn write<M: Machine>(self, machine: &mut M, register: u32, value: u32)
        ensures
            final(machine).io() == self.write_run(register, value, old(machine).io()),
    {
        machine.write32(Place::Port(self.index), register);
        machine.write32(Place::Port(self.value), value);
    }
}

/// The command ring.
#[derive(Clone, Copy, Debug, Eq, PartialEq, Structural)]
pub struct Fifo {
    pub virtual_base: u64,
    pub mapped_bytes: u32,
    pub layout: FifoLayout,
    pub capabilities: FifoCapabilities,
    pub fences: FenceSequence,
}

/// A word of the ring's memory.
pub open spec fn ring_word(base: u64, index: u32) -> Place {
    cell(base, (index * 4) as u64)
}

/// Write words into the ring from `cursor` on.  Without a reservation each
/// word is made known to the reader by itself.
pub open spec fn words_run(
    base: u64,
    layout: FifoLayout,
    words: Seq<u32>,
    from: int,
    cursor: u32,
    reserve: bool,
    io: Io,
) -> (u32, Io)
    decreases words.len() - from,
{
    if from >= words.len() {
        (cursor, io)
    } else {
        let io = io.w32(ring_word(base, cursor / 4), words[from]);
        let cursor = layout.moved(cursor, 4);
        let io = if reserve {
            io
        } else {
            io.tell(Order::Fence).w32(ring_word(base, protocol::fifo::NEXT_CMD), cursor).tell(
                Order::Fence,
            )
        };
        words_run(base, layout, words, from + 1, cursor, reserve, io)
    }
}

/// The writer ends where its reservation ends.
pub proof fn lemma_words_end_at_reservation(
    base: u64,
    layout: FifoLayout,
    words: Seq<u32>,
    from: int,
    cursor: u32,
    reserve: bool,
    io: Io,
)
    requires
        layout.is_valid(),
        layout.holds(cursor),
        0 <= from <= words.len(),
        4 * (words.len() - from) < layout.size(),
    ensures
        words_run(base, layout, words, from, cursor, reserve, io).0 == layout.moved(
            cursor,
            4 * (words.len() - from),
        ),
    decreases words.len() - from,
{
    if from < words.len() {
        lemma_moved_stays_in_ring(layout, cursor, 4);
        lemma_moves_add_up(layout, cursor, 4, 4 * (words.len() - from - 1));
        let next = layout.moved(cursor, 4);
        let written = io.w32(ring_word(base, cursor / 4), words[from]);
        let known = if reserve {
            written
        } else {
            written.tell(Order::Fence).w32(ring_word(base, protocol::fifo::NEXT_CMD), next).tell(
                Order::Fence,
            )
        };
        lemma_words_end_at_reservation(base, layout, words, from + 1, next, reserve, known);
    } else {
        vstd::arithmetic::div_mod::lemma_small_mod(
            (cursor - layout.lower()) as nat,
            layout.size() as nat,
        );
    }
}

impl Fifo {
    /// Whether the memory in front of the ring holds a word.
    pub open spec fn has_word(self, index: u32) -> bool {
        (index + 1) * 4 <= self.layout.lower() && (index + 1) * 4 <= self.mapped_bytes
    }

    pub open spec fn read_cell_run(self, index: u32, io: Io) -> (u32, Io) {
        io.r32(ring_word(self.virtual_base, index))
    }

    pub open spec fn write_cell_run(self, index: u32, value: u32, io: Io) -> Io {
        io.w32(ring_word(self.virtual_base, index), value)
    }

    /// Set the ring up, and check that the adapter took it.
    pub open spec fn initialize_run(
        registers: Registers,
        virtual_base: u64,
        mapped_bytes: u32,
        layout: FifoLayout,
        io: Io,
    ) -> (Result<Fifo, SvgaError>, Io) {
        let fresh = Fifo {
            virtual_base,
            mapped_bytes,
            layout,
            capabilities: FifoCapabilities { bits: 0 },
            fences: FenceSequence { next: 1 },
        };
        let io = registers.write_run(protocol::register::CONFIG_DONE, 0, io);
        let io = fresh.write_cell_run(protocol::fifo::MIN, layout.lower() as u32, io);
        let io = fresh.write_cell_run(protocol::fifo::MAX, layout.upper() as u32, io);
        let io = io.tell(Order::Fence);
        let io = fresh.write_cell_run(protocol::fifo::NEXT_CMD, layout.lower() as u32, io);
        let io = fresh.write_cell_run(protocol::fifo::STOP, layout.lower() as u32, io);
        let io = if fresh.has_word(protocol::fifo::BUSY) {
            fresh.write_cell_run(protocol::fifo::BUSY, 0, io)
        } else {
            io
        };
        let io = io.tell(Order::Fence);
        let io = registers.write_run(protocol::register::CONFIG_DONE, 1, io);
        let (done, io) = registers.read_run(protocol::register::CONFIG_DONE, io);
        let refused = |io: Io|
            (
                Err::<Fifo, SvgaError>(SvgaError::InvalidFifoSize),
                registers.write_run(protocol::register::CONFIG_DONE, 0, io),
            );
        if done != 1 {
            refused(io)
        } else {
            let (min, io) = fresh.read_cell_run(protocol::fifo::MIN, io);
            if min != layout.lower() {
                refused(io)
            } else {
                let (max, io) = fresh.read_cell_run(protocol::fifo::MAX, io);
                if max != layout.upper() {
                    refused(io)
                } else if fresh.has_word(protocol::fifo::CAPABILITIES) {
                    let (bits, io) = fresh.read_cell_run(protocol::fifo::CAPABILITIES, io);
                    (Ok(Fifo { capabilities: FifoCapabilities { bits }, ..fresh }), io)
                } else {
                    (Ok(fresh), io)
                }
            }
        }
    }

    pub fn initialize<M: Machine>(
        machine: &mut M,
        registers: Registers,
        virtual_base: u64,
        mapped_bytes: u32,
        minimum: u32,
    ) -> (result: Result<Self, SvgaError>)
        ensures
            !(16 <= minimum && minimum % 4 == 0 && mapped_bytes % 4 == 0 && minimum + 8
                <= mapped_bytes) ==> result == Err::<Fifo, SvgaError>(
                SvgaError::Protocol(ProtocolError::InvalidFifoLayout),
            ) && final(machine).io() == old(machine).io(),
            (16 <= minimum && minimum % 4 == 0 && mapped_bytes % 4 == 0 && minimum + 8
                <= mapped_bytes) ==> exists|layout: FifoLayout|
                #![trigger layout.lower()]
                layout.lower() == minimum && layout.upper() == mapped_bytes && (
                    result,
                    final(machine).io(),
                ) == Self::initialize_run(
                    registers,
                    virtual_base,
                    mapped_bytes,
                    layout,
                    old(machine).io(),
                ),
    {
        let layout: FifoLayout = match FifoLayout::new(minimum, mapped_bytes, mapped_bytes) {
            Ok(layout) => layout,
            Err(error) => {
                return Err(SvgaError::Protocol(error));
            },
        };
        assert(layout.lower() == minimum);
        let mut fifo = Fifo {
            virtual_base,
            mapped_bytes,
            layout,
            capabilities: FifoCapabilities::from_bits(0),
            fences: FenceSequence::new(),
        };
        registers.write(machine, protocol::register::CONFIG_DONE, 0);
        fifo.write_cell(machine, protocol::fifo::MIN, layout.min());
        fifo.write_cell(machine, protocol::fifo::MAX, layout.max());
        machine.tell(Order::Fence);
        fifo.write_cell(machine, protocol::fifo::NEXT_CMD, layout.min());
        fifo.write_cell(machine, protocol::fifo::STOP, layout.min());
        if fifo.header_contains(protocol::fifo::BUSY) {
            fifo.write_cell(machine, protocol::fifo::BUSY, 0);
        }
        machine.tell(Order::Fence);
        registers.write(machine, protocol::register::CONFIG_DONE, 1);
        if registers.read(machine, protocol::register::CONFIG_DONE) != 1 || fifo.read_cell(
            machine,
            protocol::fifo::MIN,
        ) != layout.min() || fifo.read_cell(machine, protocol::fifo::MAX) != layout.max() {
            registers.write(machine, protocol::register::CONFIG_DONE, 0);
            return Err(SvgaError::InvalidFifoSize);
        }
        if fifo.header_contains(protocol::fifo::CAPABILITIES) {
            fifo.capabilities = FifoCapabilities::from_bits(
                fifo.read_cell(machine, protocol::fifo::CAPABILITIES),
            );
        }
        Ok(fifo)
    }

    /// Whether the memory in front of the ring holds a word.
    pub fn header_contains(&self, index: u32) -> (contained: bool)
        ensures
            contained == self.has_word(index),
    {
        let end: u64 = (index as u64 + 1) * 4;
        end <= self.layout.min() as u64 && end <= self.mapped_bytes as u64
    }

    fn read_cell<M: Machine>(&self, machine: &mut M, index: u32) -> (value: u32)
        ensures
            (value, final(machine).io()) == self.read_cell_run(index, old(machine).io()),
    {
        machine.read32(cell_at(self.virtual_base, index as u64 * 4))
    }

    fn write_cell<M: Machine>(&self, machine: &mut M, index: u32, value: u32)
        ensures
            final(machine).io() == self.write_cell_run(index, value, old(machine).io()),
    {
        machine.write32(cell_at(self.virtual_base, index as u64 * 4), value);
    }

    /// Whether a command can be claimed in the ring as its words of state say.
    pub open spec fn claim_run(self, bytes: int, io: Io) -> (Result<(u32, u32), SvgaError>, Io) {
        let (min, io) = self.read_cell_run(protocol::fifo::MIN, io);
        if min != self.layout.lower() {
            (Err(SvgaError::Protocol(ProtocolError::InvalidFifoLayout)), io)
        } else {
            let (max, io) = self.read_cell_run(protocol::fifo::MAX, io);
            if max != self.layout.upper() {
                (Err(SvgaError::Protocol(ProtocolError::InvalidFifoLayout)), io)
            } else {
                let (cursor, io) = self.read_cell_run(protocol::fifo::NEXT_CMD, io);
                let (stop, io) = self.read_cell_run(protocol::fifo::STOP, io);
                match self.layout.reserved(cursor, stop, bytes) {
                    Err(error) => (Err(SvgaError::Protocol(error)), io),
                    Ok(end) => (Ok((cursor, end)), io),
                }
            }
        }
    }

    /// Put a command into the ring.
    pub open spec fn enqueue_run(self, words: Seq<u32>, io: Io) -> (Result<(), SvgaError>, Io) {
        let bytes = 4 * words.len();
        if bytes > u32::MAX || words.len() == 0 {
            (Err(SvgaError::Protocol(ProtocolError::InvalidCommand)), io)
        } else {
            match self.claim_run(bytes as int, io) {
                (Err(error), io) => (Err(error), io),
                (Ok((cursor, end)), io) => {
                    let reserve = self.capabilities.has_reserve() && self.has_word(
                        protocol::fifo::RESERVED,
                    );
                    let io = if reserve {
                        self.write_cell_run(protocol::fifo::RESERVED, bytes as u32, io).tell(
                            Order::Fence,
                        )
                    } else {
                        io
                    };
                    let (_, io) = words_run(
                        self.virtual_base,
                        self.layout,
                        words,
                        0,
                        cursor,
                        reserve,
                        io,
                    );
                    if reserve {
                        let io = io.tell(Order::Fence);
                        let io = self.write_cell_run(protocol::fifo::NEXT_CMD, end, io);
                        let io = io.tell(Order::Fence);
                        let io = self.write_cell_run(protocol::fifo::RESERVED, 0, io);
                        (Ok(()), io.tell(Order::Fence))
                    } else {
                        (Ok(()), io)
                    }
                },
            }
        }
    }

    fn claim<M: Machine>(&self, machine: &mut M, bytes: u32) -> (result: Result<
        (u32, u32),
        SvgaError,
    >)
        ensures
            (result, final(machine).io()) == self.claim_run(bytes as int, old(machine).io()),
    {
        if self.read_cell(machine, protocol::fifo::MIN) != self.layout.min() || self.read_cell(
            machine,
            protocol::fifo::MAX,
        ) != self.layout.max() {
            return Err(SvgaError::Protocol(ProtocolError::InvalidFifoLayout));
        }
        let cursor: u32 = self.read_cell(machine, protocol::fifo::NEXT_CMD);
        let stop: u32 = self.read_cell(machine, protocol::fifo::STOP);
        match self.layout.reserve(cursor, stop, bytes) {
            Ok(end) => Ok((cursor, end)),
            Err(error) => Err(SvgaError::Protocol(error)),
        }
    }

    /// Put a command into the ring.
    pub fn enqueue<M: Machine>(&self, machine: &mut M, words: &[u32]) -> (result: Result<
        (),
        SvgaError,
    >)
        ensures
            (result, final(machine).io()) == self.enqueue_run(words@, old(machine).io()),
    {
        if words.len() > 0x3fff_ffff || words.len() == 0 {
            return Err(SvgaError::Protocol(ProtocolError::InvalidCommand));
        }
        let bytes: u32 = words.len() as u32 * 4;
        let size: u32 = self.layout.capacity();
        let (start, final_cursor): (u32, u32) = match self.claim(machine, bytes) {
            Ok(pair) => pair,
            Err(error) => {
                return Err(error);
            },
        };
        let mut cursor: u32 = start;
        let reserve: bool = self.capabilities.reserve() && self.header_contains(
            protocol::fifo::RESERVED,
        );
        if reserve {
            self.write_cell(machine, protocol::fifo::RESERVED, bytes);
            machine.tell(Order::Fence);
        }
        let ghost before = machine.io();
        let mut i: usize = 0;
        while i < words.len()
            invariant
                i <= words@.len(),
                self.layout.is_valid(),
                self.layout.holds(cursor),
                words_run(self.virtual_base, self.layout, words@, 0, start, reserve, before)
                    == words_run(
                    self.virtual_base,
                    self.layout,
                    words@,
                    i as int,
                    cursor,
                    reserve,
                    machine.io(),
                ),
            decreases words@.len() - i,
        {
            self.write_cell(machine, cursor / 4, words[i]);
            proof {
                lemma_moved_stays_in_ring(self.layout, cursor, 4);
            }
            cursor = match self.layout.advance(cursor, 4) {
                Ok(next) => next,
                Err(error) => {
                    return Err(SvgaError::Protocol(error));
                },
            };
            if !reserve {
                machine.tell(Order::Fence);
                self.write_cell(machine, protocol::fifo::NEXT_CMD, cursor);
                machine.tell(Order::Fence);
            }
            i = i + 1;
        }
        if reserve {
            machine.tell(Order::Fence);
            self.write_cell(machine, protocol::fifo::NEXT_CMD, final_cursor);
            machine.tell(Order::Fence);
            self.write_cell(machine, protocol::fifo::RESERVED, 0);
            machine.tell(Order::Fence);
        }
        Ok(())
    }

    /// Whether fences can be used.
    pub open spec fn supports_fences(self) -> bool {
        self.capabilities.has_fence() && self.has_word(protocol::fifo::FENCE)
    }

    /// A number for the next fence.
    pub fn allocate_fence(&mut self) -> (result: Result<u32, SvgaError>)
        ensures
            if old(self).supports_fences() {
                &&& result == Ok::<u32, SvgaError>(old(self).fences.next)
                &&& *final(self) == (Fifo {
                    fences: FenceSequence { next: next_fence(old(self).fences.next) },
                    ..*old(self)
                })
            } else {
                &&& result == Err::<u32, SvgaError>(SvgaError::UnsupportedCapability)
                &&& *final(self) == *old(self)
            },
    {
        if !self.capabilities.fence() || !self.header_contains(protocol::fifo::FENCE) {
            return Err(SvgaError::UnsupportedCapability);
        }
        Ok(self.fences.allocate())
    }

    /// The last fence that was reached.
    pub fn completed_fence<M: Machine>(&self, machine: &mut M) -> (result: Result<u32, SvgaError>)
        ensures
            !self.supports_fences() ==> result == Err::<u32, SvgaError>(
                SvgaError::UnsupportedCapability,
            ) && final(machine).io() == old(machine).io(),
            self.supports_fences() ==> result is Ok && (result->Ok_0, final(machine).io())
                == self.read_cell_run(protocol::fifo::FENCE, old(machine).io()),
    {
        if !self.capabilities.fence() || !self.header_contains(protocol::fifo::FENCE) {
            return Err(SvgaError::UnsupportedCapability);
        }
        Ok(self.read_cell(machine, protocol::fifo::FENCE))
    }
}

/// An attached adapter.
#[derive(Clone, Copy, Debug, Eq, PartialEq, Structural)]
pub struct Svga2 {
    pub registers: Registers,
    pub fifo: Fifo,
    pub info: DeviceInfo,
}

/// The resources the base address registers name.
pub open spec fn resources_of(device: PciDevice) -> Result<Resources, SvgaError> {
    let io = decoded_bar(device.bars@, 0);
    let framebuffer = decoded_bar(device.bars@, 1);
    let fifo = decoded_bar(device.bars@, 2);
    if io.kind != PciBarKind::Io || io.address == 0 || io.address > MAX_IO_PORT_BASE {
        Err(SvgaError::InvalidIoBar)
    } else if is_high_half(device.bars@, 1) || is_high_half(device.bars@, 2) || framebuffer.kind
        != PciBarKind::Mem32 || fifo.kind != PciBarKind::Mem32 || framebuffer.address == 0
        || fifo.address == 0 || framebuffer.address & PAGE_MASK != 0 || fifo.address & PAGE_MASK
        != 0 || framebuffer.address == fifo.address {
        Err(SvgaError::InvalidMemoryBar)
    } else {
        Ok(
            Resources {
                io_base: io.address as u16,
                framebuffer_physical: framebuffer.address,
                fifo_physical: fifo.address,
            },
        )
    }
}

/// The resources the base address registers name.
pub fn decode_resources(device: &PciDevice) -> (result: Result<Resources, SvgaError>)
    ensures
        result == resources_of(*device),
{
    let io: PciBarInfo = match device.bar(0) {
        Some(bar) => bar,
        None => {
            return Err(SvgaError::MissingResource);
        },
    };
    if io.kind != PciBarKind::Io || io.address == 0 || io.address > MAX_IO_PORT_BASE {
        return Err(SvgaError::InvalidIoBar);
    }
    let framebuffer: PciBarInfo = match device.bar(1) {
        Some(bar) => bar,
        None => {
            return Err(SvgaError::MissingResource);
        },
    };
    let fifo: PciBarInfo = match device.bar(2) {
        Some(bar) => bar,
        None => {
            return Err(SvgaError::MissingResource);
        },
    };
    if device.bar_is_high_half(1) || device.bar_is_high_half(2) || framebuffer.kind
        != PciBarKind::Mem32 || fifo.kind != PciBarKind::Mem32 || framebuffer.address == 0
        || fifo.address == 0 || framebuffer.address & PAGE_MASK != 0 || fifo.address & PAGE_MASK
        != 0 || framebuffer.address == fifo.address {
        return Err(SvgaError::InvalidMemoryBar);
    }
    Ok(
        Resources {
            io_base: io.address as u16,
            framebuffer_physical: framebuffer.address,
            fifo_physical: fifo.address,
        },
    )
}

/// The bytes a window spans, from the mask that its register reads after all
/// its bits were written.
pub open spec fn aperture_size(kind: PciBarKind, probe_mask: u32) -> Result<u64, SvgaError> {
    let mask = match kind {
        PciBarKind::Io => probe_mask & 0xffff_fffc,
        _ => probe_mask & 0xffff_fff0,
    };
    let size = 0x1_0000_0000 - mask;
    if kind != PciBarKind::Io && kind != PciBarKind::Mem32 {
        Err(SvgaError::InvalidMemoryBar)
    } else if mask == 0 {
        Err(SvgaError::MissingResource)
    } else if !is_power(size as u32) {
        Err(SvgaError::InvalidMemoryBar)
    } else {
        Ok(size as u64)
    }
}

/// Whether a number has exactly one bit.
pub open spec fn is_power(value: u32) -> bool {
    value != 0 && value & ((value - 1) as u32) == 0
}

proof fn lemma_negated(mask: u32)
    by (bit_vector)
    requires
        mask != 0,
    ensures
        !mask == 0xffff_ffff - mask,
        !mask < 0xffff_ffff,
{
}

/// The bytes a window spans.
pub fn decode_aperture_size(kind: PciBarKind, probe_mask: u32) -> (result: Result<u64, SvgaError>)
    ensures
        result == aperture_size(kind, probe_mask),
{
    let address_mask: u32 = match kind {
        PciBarKind::Io => probe_mask & 0xffff_fffc,
        PciBarKind::Mem32 => probe_mask & 0xffff_fff0,
        _ => {
            return Err(SvgaError::InvalidMemoryBar);
        },
    };
    if address_mask == 0 {
        return Err(SvgaError::MissingResource);
    }
    proof {
        lemma_negated(address_mask);
    }
    let size: u32 = (!address_mask).wrapping_add(1);
    if size == 0 || size & (size - 1) != 0 {
        return Err(SvgaError::InvalidMemoryBar);
    }
    Ok(size as u64)
}

/// Size one window: write all bits, read the mask, restore the register.
pub open spec fn aperture_run(device: PciDevice, index: u8, kind: PciBarKind, io: Io) -> (Result<
    u64,
    SvgaError,
>, Io) {
    let offset = (0x10 + index * 4) as u8;
    let io = device.address.write32_run(offset, u32::MAX, io);
    let (mask, io) = device.address.read32_run(offset, io);
    let io = device.address.write32_run(offset, device.bars@[index as int], io);
    (aperture_size(kind, mask), io)
}

fn probe_bar_aperture<M: Machine>(
    machine: &mut M,
    device: &PciDevice,
    index: u8,
    expected_kind: PciBarKind,
) -> (result: Result<u64, SvgaError>)
    requires
        index < 6,
    ensures
        (result, final(machine).io()) == aperture_run(
            *device,
            index,
            expected_kind,
            old(machine).io(),
        ),
{
    let original: u32 = device.bars[index as usize];
    let offset: u8 = 0x10 + index * 4;
    device.address.write32(machine, offset, u32::MAX);
    let mask: u32 = device.address.read32(machine, offset);
    device.address.write32(machine, offset, original);
    decode_aperture_size(expected_kind, mask)
}

/// Size the windows while the function decodes none of them; the first one
/// that cannot be sized ends it.
pub open spec fn sizes_run(device: PciDevice, io: Io) -> (Result<ResourceApertures, SvgaError>, Io) {
    match aperture_run(device, 0, PciBarKind::Io, io) {
        (Err(error), io) => (Err(error), io),
        (Ok(io_bytes), io) => match aperture_run(device, 1, PciBarKind::Mem32, io) {
            (Err(error), io) => (Err(error), io),
            (Ok(framebuffer_bytes), io) => match aperture_run(device, 2, PciBarKind::Mem32, io) {
                (Err(error), io) => (Err(error), io),
                (Ok(fifo_bytes), io) => (
                    Ok(ResourceApertures { io_bytes, framebuffer_bytes, fifo_bytes }),
                    io,
                ),
            },
        },
    }
}

/// Size the windows: decoding is switched off before and the command word
/// restored behind it.
pub open spec fn apertures_run(device: PciDevice, io: Io) -> (Result<
    ResourceApertures,
    SvgaError,
>, Io) {
    let (original, io) = device.address.command_run(io);
    let io = device.address.write_command_run(original & !0x0003, io);
    let (result, io) = sizes_run(device, io);
    (result, device.address.write_command_run(original, io))
}

fn probe_sizes<M: Machine>(machine: &mut M, device: &PciDevice) -> (result: Result<
    ResourceApertures,
    SvgaError,
>)
    ensures
        (result, final(machine).io()) == sizes_run(*device, old(machine).io()),
{
    let io_bytes: u64 = match probe_bar_aperture(machine, device, 0, PciBarKind::Io) {
        Ok(bytes) => bytes,
        Err(error) => {
            return Err(error);
        },
    };
    let framebuffer_bytes: u64 = match probe_bar_aperture(machine, device, 1, PciBarKind::Mem32) {
        Ok(bytes) => bytes,
        Err(error) => {
            return Err(error);
        },
    };
    let fifo_bytes: u64 = match probe_bar_aperture(machine, device, 2, PciBarKind::Mem32) {
        Ok(bytes) => bytes,
        Err(error) => {
            return Err(error);
        },
    };
    Ok(ResourceApertures { io_bytes, framebuffer_bytes, fifo_bytes })
}

/// Size the three windows of the adapter.
pub fn probe_resource_apertures<M: Machine>(machine: &mut M, device: &PciDevice) -> (result: Result<
    ResourceApertures,
    SvgaError,
>)
    ensures
        (result, final(machine).io()) == apertures_run(*device, old(machine).io()),
{
    let original_command: u16 = device.address.read_command(machine);
    device.address.write_command(machine, original_command & !0x0003);
    let result: Result<ResourceApertures, SvgaError> = probe_sizes(machine, device);
    device.address.write_command(machine, original_command);
    result
}

/// Sizing a window leaves its register as it was, and sizing all of them
/// leaves the command word as it was: whatever the sizes, those are the last
/// values written.
pub proof fn lemma_sizing_restores_registers(
    device: PciDevice,
    index: u8,
    kind: PciBarKind,
    io: Io,
)
    requires
        index < 6,
    ensures
        exists|before: Io| #[trigger]
            device.address.write32_run(
                (0x10 + index * 4) as u8,
                device.bars@[index as int],
                before,
            ) == aperture_run(device, index, kind, io).1,
        exists|before: Io| #[trigger]
            device.address.write_command_run(
                device.address.command_run(io).0,
                before,
            ) == apertures_run(device, io).1,
{
    let offset = (0x10 + index * 4) as u8;
    let a = device.address.write32_run(offset, u32::MAX, io);
    let b = device.address.read32_run(offset, a).1;
    assert(device.address.write32_run(offset, device.bars@[index as int], b) == aperture_run(
        device,
        index,
        kind,
        io,
    ).1);
    let (original, c) = device.address.command_run(io);
    let d = device.address.write_command_run(original & !0x0003, c);
    let e = sizes_run(device, d).1;
    assert(device.address.write_command_run(original, e) == apertures_run(device, io).1);
}

/// Hold the adapter's own idea of its memories against the windows.
pub open spec fn memory_run(
    registers: Registers,
    resources: Resources,
    apertures: ResourceApertures,
    limits: ModeLimits,
    fifo_bytes: u32,
    io: Io,
) -> (Result<(), SvgaError>, Io) {
    let (fb_start, io) = registers.read_run(protocol::register::FB_START, io);
    if fb_start != resources.framebuffer_physical {
        (Err(SvgaError::ResourceMismatch), io)
    } else {
        let (mem_start, io) = registers.read_run(protocol::register::MEM_START, io);
        if mem_start != resources.fifo_physical {
            (Err(SvgaError::ResourceMismatch), io)
        } else if limits.vram_bytes == 0 || limits.vram_bytes > protocol::MAX_VRAM_BYTES {
            (Err(SvgaError::InvalidVramSize), io)
        } else if apertures.io_bytes < 2 || apertures.framebuffer_bytes < limits.vram_bytes
            || apertures.fifo_bytes < fifo_bytes {
            (Err(SvgaError::ResourceMismatch), io)
        } else if fifo_bytes < protocol::MIN_FIFO_BYTES || fifo_bytes > protocol::MAX_FIFO_BYTES
            || fifo_bytes % 4 != 0 {
            (Err(SvgaError::InvalidFifoSize), io)
        } else {
            (Ok(()), io)
        }
    }
}

/// Hold the adapter's own idea of its memories against the windows.
pub fn validate_memory_resources<M: Machine>(
    machine: &mut M,
    registers: Registers,
    resources: Resources,
    apertures: ResourceApertures,
    limits: ModeLimits,
    fifo_bytes: u32,
) -> (result: Result<(), SvgaError>)
    ensures
        (result, final(machine).io()) == memory_run(
            registers,
            resources,
            apertures,
            limits,
            fifo_bytes,
            old(machine).io(),
        ),
{
    if registers.read(machine, protocol::register::FB_START) as u64
        != resources.framebuffer_physical || registers.read(
        machine,
        protocol::register::MEM_START,
    ) as u64 != resources.fifo_physical {
        return Err(SvgaError::ResourceMismatch);
    }
    if limits.vram_bytes == 0 || limits.vram_bytes > protocol::MAX_VRAM_BYTES {
        return Err(SvgaError::InvalidVramSize);
    }
    if apertures.io_bytes < 2 || apertures.framebuffer_bytes < limits.vram_bytes as u64
        || apertures.fifo_bytes < fifo_bytes as u64 {
        return Err(SvgaError::ResourceMismatch);
    }
    if fifo_bytes < protocol::MIN_FIFO_BYTES || fifo_bytes > protocol::MAX_FIFO_BYTES || fifo_bytes
        % 4 != 0 {
        return Err(SvgaError::InvalidFifoSize);
    }
    Ok(())
}

/// Whether a range of physical addresses exists.
pub open spec fn range_exists(start: u64, length: u64) -> bool {
    start > 0 && length > 0 && start + length <= PHYSICAL_ADDRESS_LIMIT
}

pub fn validate_physical_range(start: u64, length: u64) -> (result: Result<(), SvgaError>)
    ensures
        result == (if range_exists(start, length) {
            Ok(())
        } else {
            Err(SvgaError::AddressOutOfRange)
        }),
{
    if start == 0 || length == 0 {
        return Err(SvgaError::AddressOutOfRange);
    }
    match start.checked_add(length - 1) {
        Some(last) => {
            if start >= PHYSICAL_ADDRESS_LIMIT || last >= PHYSICAL_ADDRESS_LIMIT {
                return Err(SvgaError::AddressOutOfRange);
            }
            Ok(())
        },
        None => Err(SvgaError::AddressOutOfRange),
    }
}

/// Where the ring begins: behind its words of state and behind a page.
pub open spec fn minimum_run(
    registers: Registers,
    capabilities: DeviceCapabilities,
    fifo_bytes: u32,
    io: Io,
) -> (Result<u32, SvgaError>, Io) {
    let (words, io) = if capabilities.bits & DeviceCapabilities::EXTENDED_FIFO
        == DeviceCapabilities::EXTENDED_FIFO {
        registers.read_run(protocol::register::MEM_REGS, io)
    } else {
        (4, io)
    };
    let minimum = if words * 4 < protocol::FIFO_PAGE_BYTES {
        protocol::FIFO_PAGE_BYTES as int
    } else {
        words * 4
    };
    if minimum + 2 * protocol::FIFO_GUARD_BYTES > fifo_bytes {
        (Err(SvgaError::InvalidFifoSize), io)
    } else {
        (Ok(minimum as u32), io)
    }
}

pub fn fifo_minimum<M: Machine>(
    machine: &mut M,
    registers: Registers,
    capabilities: DeviceCapabilities,
    fifo_bytes: u32,
) -> (result: Result<u32, SvgaError>)
    ensures
        (result, final(machine).io()) == minimum_run(
            registers,
            capabilities,
            fifo_bytes,
            old(machine).io(),
        ),
{
    let register_bytes: u32 = if capabilities.extended_fifo() {
        match registers.read(machine, protocol::register::MEM_REGS).checked_mul(4) {
            Some(bytes) => bytes,
            None => {
                return Err(SvgaError::InvalidFifoSize);
            },
        }
    } else {
        4 * (protocol::fifo::STOP + 1)
    };
    let minimum: u32 = if register_bytes < protocol::FIFO_PAGE_BYTES {
        protocol::FIFO_PAGE_BYTES
    } else {
        register_bytes
    };
    match minimum.checked_add(2 * protocol::FIFO_GUARD_BYTES) {
        Some(needed) => {
            if minimum % 4 != 0 || needed > fifo_bytes {
                return Err(SvgaError::InvalidFifoSize);
            }
            Ok(minimum)
        },
        None => Err(SvgaError::InvalidFifoSize),
    }
}

/// Read the current mode.
pub open spec fn mode_run(registers: Registers, limits: ModeLimits, io: Io) -> (Result<
    Mode,
    SvgaError,
>, Io) {
    let (width, io) = registers.read_run(protocol::register::WIDTH, io);
    let (height, io) = registers.read_run(protocol::register::HEIGHT, io);
    let (bits_per_pixel, io) = registers.read_run(protocol::register::BITS_PER_PIXEL, io);
    let (depth, io) = registers.read_run(protocol::register::DEPTH, io);
    let (pitch, io) = registers.read_run(protocol::register::BYTES_PER_LINE, io);
    let (framebuffer_offset, io) = registers.read_run(protocol::register::FB_OFFSET, io);
    let (framebuffer_bytes, io) = registers.read_run(protocol::register::FB_SIZE, io);
    let (red_mask, io) = registers.read_run(protocol::register::RED_MASK, io);
    let (green_mask, io) = registers.read_run(protocol::register::GREEN_MASK, io);
    let (blue_mask, io) = registers.read_run(protocol::register::BLUE_MASK, io);
    let mode = Mode {
        width,
        height,
        bits_per_pixel,
        depth,
        pitch,
        framebuffer_offset,
        framebuffer_bytes,
        red_mask,
        green_mask,
        blue_mask,
    };
    (
        match mode.fault(limits) {
            None => Ok(mode),
            Some(error) => Err(SvgaError::Protocol(error)),
        },
        io,
    )
}

/// Read the current mode.
pub fn read_mode<M: Machine>(machine: &mut M, registers: Registers, limits: ModeLimits) -> (result:
    Result<Mode, SvgaError>)
    ensures
        (result, final(machine).io()) == mode_run(registers, limits, old(machine).io()),
{
    let mode = Mode {
        width: registers.read(machine, protocol::register::WIDTH),
        height: registers.read(machine, protocol::register::HEIGHT),
        bits_per_pixel: registers.read(machine, protocol::register::BITS_PER_PIXEL),
        depth: registers.read(machine, protocol::register::DEPTH),
        pitch: registers.read(machine, protocol::register::BYTES_PER_LINE),
        framebuffer_offset: registers.read(machine, protocol::register::FB_OFFSET),
        framebuffer_bytes: registers.read(machine, protocol::register::FB_SIZE),
        red_mask: registers.read(machine, protocol::register::RED_MASK),
        green_mask: registers.read(machine, protocol::register::GREEN_MASK),
        blue_mask: registers.read(machine, protocol::register::BLUE_MASK),
    };
    match mode.validate(limits) {
        Ok(mode) => Ok(mode),
        Err(error) => Err(SvgaError::from(error)),
    }
}

/// What was learnt of the adapter before its ring is set up.
#[derive(Clone, Copy, Debug, Eq, PartialEq, Structural)]
pub struct Survey {
    pub registers: Registers,
    pub info: DeviceInfo,
    pub fifo_virtual: u64,
    pub minimum: u32,
}

/// Whether a function is the adapter.
pub open spec fn is_svga2(device: PciDevice) -> bool {
    &&& device.vendor_id == protocol::PCI_VENDOR_VMWARE
    &&& device.device_id == protocol::PCI_DEVICE_SVGA2
    &&& device.base_class == 0x03
}

/// Find and check everything that the ring needs.
pub open spec fn survey_run(device: PciDevice, io: Io) -> (Result<Survey, SvgaError>, Io) {
    if !is_svga2(device) {
        (Err(SvgaError::UnsupportedDevice), io)
    } else if resources_of(device) is Err {
        (Err(resources_of(device)->Err_0), io)
    } else {
        let resources = resources_of(device)->Ok_0;
        match apertures_run(device, io) {
            (Err(error), io) => (Err(error), io),
            (Ok(apertures), io) => {
                let (command, io) = device.address.command_run(io);
                let io = device.address.write_command_run(
                    (command & PciCommand::ALL) | (PciCommand::IO_SPACE | PciCommand::MEMORY_SPACE),
                    io,
                );
                identify_run(device, Registers::at(resources.io_base), resources, apertures, io)
            },
        }
    }
}

/// Ask the adapter for its version, its limits and its mode.
pub open spec fn identify_run(
    device: PciDevice,
    registers: Registers,
    resources: Resources,
    apertures: ResourceApertures,
    io: Io,
) -> (Result<Survey, SvgaError>, Io) {
    let io = registers.write_run(protocol::register::ID, protocol::SVGA_ID_2, io);
    let (svga_id, io) = registers.read_run(protocol::register::ID, io);
    if svga_id != protocol::SVGA_ID_2 {
        (Err(SvgaError::UnsupportedVersion(svga_id)), io)
    } else {
        let (bits, io) = registers.read_run(protocol::register::CAPABILITIES, io);
        let capabilities = DeviceCapabilities { bits };
        let (max_width, io) = registers.read_run(protocol::register::MAX_WIDTH, io);
        let (max_height, io) = registers.read_run(protocol::register::MAX_HEIGHT, io);
        let (vram_bytes, io) = registers.read_run(protocol::register::VRAM_SIZE, io);
        let (framebuffer_bytes, io) = registers.read_run(protocol::register::FB_SIZE, io);
        let limits = ModeLimits { max_width, max_height, vram_bytes, framebuffer_bytes };
        if !limits.is_valid() {
            (Err(SvgaError::InvalidVramSize), io)
        } else {
            let (fifo_bytes, io) = registers.read_run(protocol::register::MEM_SIZE, io);
            match memory_run(registers, resources, apertures, limits, fifo_bytes, io) {
                (Err(error), io) => (Err(error), io),
                (Ok(_), io) => {
                    let (enable, io) = registers.read_run(protocol::register::ENABLE, io);
                    if enable & protocol::ENABLE_ENABLE == 0 {
                        (Err(SvgaError::DeviceDisabled), io)
                    } else {
                        match mode_run(registers, limits, io) {
                            (Err(error), io) => (Err(error), io),
                            (Ok(mode), io) => map_run(
                                registers,
                                DeviceInfo {
                                    bus: device.address.bus,
                                    device: device.address.dev,
                                    function: device.address.func,
                                    svga_id,
                                    capabilities,
                                    fifo_capabilities: FifoCapabilities { bits: 0 },
                                    mode_limits: limits,
                                    mode,
                                    framebuffer_physical: resources.framebuffer_physical,
                                    framebuffer_virtual: 0,
                                    framebuffer_aperture_bytes: apertures.framebuffer_bytes,
                                    fifo_physical: resources.fifo_physical,
                                    fifo_bytes,
                                    fifo_aperture_bytes: apertures.fifo_bytes,
                                },
                                io,
                            ),
                        }
                    }
                },
            }
        }
    }
}

/// Find the memories in the kernel's address space, and the ring in its
/// memory.
pub open spec fn map_run(registers: Registers, info: DeviceInfo, io: Io) -> (Result<
    Survey,
    SvgaError,
>, Io) {
    if !range_exists(info.framebuffer_physical, info.framebuffer_aperture_bytes) || !range_exists(
        info.fifo_physical,
        info.fifo_aperture_bytes,
    ) {
        (Err(SvgaError::AddressOutOfRange), io)
    } else {
        let (ready, io) = io.ask(Query::MemoryReady);
        if ready == 0 {
            (Err(SvgaError::MemoryManagerUnavailable), io)
        } else {
            let (framebuffer_virtual, io) = io.ask(Query::PhysToVirt(info.framebuffer_physical));
            let (fifo_virtual, io) = io.ask(Query::PhysToVirt(info.fifo_physical));
            match minimum_run(registers, info.capabilities, info.fifo_bytes, io) {
                (Err(error), io) => (Err(error), io),
                (Ok(minimum), io) => (
                    Ok(
                        Survey {
                            registers,
                            info: DeviceInfo { framebuffer_virtual, ..info },
                            fifo_virtual,
                            minimum,
                        },
                    ),
                    io,
                ),
            }
        }
    }
}

/// The adapter behind a survey and a ring.
pub open spec fn adapter_of(survey: Survey, fifo: Fifo) -> Svga2 {
    Svga2 {
        registers: survey.registers,
        fifo,
        info: DeviceInfo { fifo_capabilities: fifo.capabilities, ..survey.info },
    }
}

/// Bring the adapter up: the survey, then the ring.
pub open spec fn attach_run(device: PciDevice, layout: FifoLayout, io: Io) -> (Result<
    Svga2,
    SvgaError,
>, Io) {
    match survey_run(device, io) {
        (Err(error), io) => (Err(error), io),
        (Ok(survey), io) => match Fifo::initialize_run(
            survey.registers,
            survey.fifo_virtual,
            survey.info.fifo_bytes,
            layout,
            io,
        ) {
            (Err(error), io) => (Err(error), io),
            (Ok(fifo), io) => (Ok(adapter_of(survey, fifo)), io),
        },
    }
}

/// Whether a layout is the one that a survey asks for.
pub open spec fn fits_survey(device: PciDevice, layout: FifoLayout, io: Io) -> bool {
    survey_run(device, io).0 is Ok ==> layout.lower() == survey_run(device, io).0->Ok_0.minimum
        && layout.upper() == survey_run(device, io).0->Ok_0.info.fifo_bytes
}

proof fn lemma_decode_bits()
    by (bit_vector)
    ensures
        (0x0001u16 | 0x0002u16) & 0x07FFu16 == 0x0001u16 | 0x0002u16,
{
}

/// Poll the busy register until it clears.
pub open spec fn idle_run(registers: Registers, limit: nat, io: Io) -> (Result<(), SvgaError>, Io)
    decreases limit,
{
    if limit == 0 {
        (Err(SvgaError::SyncTimeout), io)
    } else {
        let (busy, io) = registers.read_run(protocol::register::BUSY, io);
        if busy == 0 {
            (Ok(()), io)
        } else {
            idle_run(registers, (limit - 1) as nat, io)
        }
    }
}

/// Poll the reported fence until a fence is reached.
pub open spec fn fence_run(fifo: Fifo, sequence: u32, limit: nat, io: Io) -> (Result<
    (),
    SvgaError,
>, Io)
    decreases limit,
{
    if limit == 0 {
        (Err(SvgaError::FenceTimeout), io)
    } else if !fifo.supports_fences() {
        (Err(SvgaError::UnsupportedCapability), io)
    } else {
        let (completed, io) = fifo.read_cell_run(protocol::fifo::FENCE, io);
        if fence_passed(completed, sequence) {
            (Ok(()), io)
        } else {
            fence_run(fifo, sequence, (limit - 1) as nat, io)
        }
    }
}

impl Svga2 {
    fn survey<M: Machine>(machine: &mut M, device: &PciDevice) -> (result: Result<
        Survey,
        SvgaError,
    >)
        ensures
            (result, final(machine).io()) == survey_run(*device, old(machine).io()),
    {
        if device.vendor_id != protocol::PCI_VENDOR_VMWARE || device.device_id
            != protocol::PCI_DEVICE_SVGA2 || device.base_class != 0x03 {
            return Err(SvgaError::UnsupportedDevice);
        }
        let resources: Resources = match decode_resources(device) {
            Ok(resources) => resources,
            Err(error) => {
                return Err(error);
            },
        };
        let apertures: ResourceApertures = match probe_resource_apertures(machine, device) {
            Ok(apertures) => apertures,
            Err(error) => {
                return Err(error);
            },
        };
        let mut command = PciCommand::from_bits_truncate(device.address.read_command(machine));
        command.insert(PciCommand::IO_SPACE | PciCommand::MEMORY_SPACE);
        proof {
            lemma_decode_bits();
        }
        device.address.write_command(machine, command.bits());
        let registers = Registers::new(resources.io_base);
        Self::identify(machine, device, registers, resources, apertures)
    }

    fn identify<M: Machine>(
        machine: &mut M,
        device: &PciDevice,
        registers: Registers,
        resources: Resources,
        apertures: ResourceApertures,
    ) -> (result: Result<Survey, SvgaError>)
        ensures
            (result, final(machine).io()) == identify_run(
                *device,
                registers,
                resources,
                apertures,
                old(machine).io(),
            ),
    {
        registers.write(machine, protocol::register::ID, protocol::SVGA_ID_2);
        let svga_id: u32 = registers.read(machine, protocol::register::ID);
        if svga_id != protocol::SVGA_ID_2 {
            return Err(SvgaError::UnsupportedVersion(svga_id));
        }
        let capabilities = DeviceCapabilities::from_bits(
            registers.read(machine, protocol::register::CAPABILITIES),
        );
        let limits = ModeLimits {
            max_width: registers.read(machine, protocol::register::MAX_WIDTH),
            max_height: registers.read(machine, protocol::register::MAX_HEIGHT),
            vram_bytes: registers.read(machine, protocol::register::VRAM_SIZE),
            framebuffer_bytes: registers.read(machine, protocol::register::FB_SIZE),
        };
        if limits.validate().is_err() {
            return Err(SvgaError::InvalidVramSize);
        }
        let fifo_bytes: u32 = registers.read(machine, protocol::register::MEM_SIZE);
        match validate_memory_resources(
            machine,
            registers,
            resources,
            apertures,
            limits,
            fifo_bytes,
        ) {
            Ok(_) => {},
            Err(error) => {
                return Err(error);
            },
        }
        if registers.read(machine, protocol::register::ENABLE) & protocol::ENABLE_ENABLE == 0 {
            return Err(SvgaError::DeviceDisabled);
        }
        let mode: Mode = match read_mode(machine, registers, limits) {
            Ok(mode) => mode,
            Err(error) => {
                return Err(error);
            },
        };
        let info = DeviceInfo {
            bus: device.address.bus(),
            device: device.address.device(),
            function: device.address.function(),
            svga_id,
            capabilities,
            fifo_capabilities: FifoCapabilities::from_bits(0),
            mode_limits: limits,
            mode,
            framebuffer_physical: resources.framebuffer_physical,
            framebuffer_virtual: 0,
            framebuffer_aperture_bytes: apertures.framebuffer_bytes,
            fifo_physical: resources.fifo_physical,
            fifo_bytes,
            fifo_aperture_bytes: apertures.fifo_bytes,
        };
        Self::map(machine, registers, info)
    }

    fn map<M: Machine>(machine: &mut M, registers: Registers, info: DeviceInfo) -> (result: Result<
        Survey,
        SvgaError,
    >)
        ensures
            (result, final(machine).io()) == map_run(registers, info, old(machine).io()),
    {
        match validate_physical_range(info.framebuffer_physical, info.framebuffer_aperture_bytes) {
            Ok(_) => {},
            Err(error) => {
                return Err(error);
            },
        }
        match validate_physical_range(info.fifo_physical, info.fifo_aperture_bytes) {
            Ok(_) => {},
            Err(error) => {
                return Err(error);
            },
        }
        if machine.ask(Query::MemoryReady) == 0 {
            return Err(SvgaError::MemoryManagerUnavailable);
        }
        let framebuffer_virtual: u64 = machine.ask(Query::PhysToVirt(info.framebuffer_physical));
        let fifo_virtual: u64 = machine.ask(Query::PhysToVirt(info.fifo_physical));
        let minimum: u32 = match fifo_minimum(
            machine,
            registers,
            info.capabilities,
            info.fifo_bytes,
        ) {
            Ok(minimum) => minimum,
            Err(error) => {
                return Err(error);
            },
        };
        Ok(
            Survey {
                registers,
                info: DeviceInfo { framebuffer_virtual, ..info },
                fifo_virtual,
                minimum,
            },
        )
    }

    /// Bring an adapter up.
    pub fn attach<M: Machine>(machine: &mut M, device: &PciDevice) -> (result: Result<
        Self,
        SvgaError,
    >)
        ensures
            exists|layout: FifoLayout|
                #![trigger attach_run(*device, layout, old(machine).io())]
                fits_survey(*device, layout, old(machine).io()) && (result, final(machine).io())
                    == attach_run(*device, layout, old(machine).io()),
    {
        match Self::survey(machine, device) {
            Err(error) => {
                proof {
                    let layout: FifoLayout = arbitrary();
                    assert(attach_run(*device, layout, old(machine).io()).0 is Err);
                }
                Err(error)
            },
            Ok(survey) => {
                let ghost before = machine.io();
                proof {
                    lemma_survey_leaves_room(*device, old(machine).io());
                }
                let outcome = Fifo::initialize(
                    machine,
                    survey.registers,
                    survey.fifo_virtual,
                    survey.info.fifo_bytes,
                    survey.minimum,
                );
                proof {
                    let layout = choose|layout: FifoLayout|
                        #![trigger layout.lower()]
                        layout.lower() == survey.minimum && layout.upper()
                            == survey.info.fifo_bytes && (outcome, machine.io())
                            == Fifo::initialize_run(
                            survey.registers,
                            survey.fifo_virtual,
                            survey.info.fifo_bytes,
                            layout,
                            before,
                        );
                    assert(attach_run(*device, layout, old(machine).io()).1 == machine.io());
                }
                match outcome {
                    Err(error) => Err(error),
                    Ok(fifo) => Ok(
                        Svga2 {
                            registers: survey.registers,
                            fifo,
                            info: DeviceInfo {
                                fifo_capabilities: fifo.capabilities,
                                ..survey.info
                            },
                        },
                    ),
                }
            },
        }
    }

    /// Tell the adapter that there is work.
    pub open spec fn kick_run(self, io: Io) -> Io {
        self.registers.write_run(
            protocol::register::SYNC,
            protocol::SYNC_GENERIC,
            io.tell(Order::Fence),
        )
    }

    pub open spec fn sync_run(self, limit: nat, io: Io) -> (Result<(), SvgaError>, Io) {
        idle_run(self.registers, limit, self.kick_run(io))
    }

    /// Put a command into the ring; where it is full, wait once until the
    /// adapter is idle.
    pub open spec fn send_run(self, words: Seq<u32>, io: Io) -> (Result<(), SvgaError>, Io) {
        match self.fifo.enqueue_run(words, io) {
            (Ok(_), io) => (Ok(()), io),
            (Err(error), io) => if error == SvgaError::Protocol(ProtocolError::FifoFull) {
                match self.sync_run(DEFAULT_SYNC_POLL_LIMIT as nat, io) {
                    (Err(error), io) => (Err(error), io),
                    (Ok(_), io) => self.fifo.enqueue_run(words, io),
                }
            } else {
                (Err(error), io)
            },
        }
    }

    /// Send the updates from number `from` on.
    pub open spec fn updates_run(self, rectangles: Seq<Rect>, from: int, io: Io) -> (Result<
        (),
        SvgaError,
    >, Io)
        decreases rectangles.len() - from,
    {
        if from >= rectangles.len() {
            (Ok(()), io)
        } else {
            match self.send_run(update_words(rectangles[from]), io) {
                (Err(error), io) => (Err(error), io),
                (Ok(_), io) => self.updates_run(rectangles, from + 1, io),
            }
        }
    }

    /// The rectangles that an update is about: without any, the whole screen.
    pub open spec fn shown(self, rectangles: Seq<Rect>) -> Seq<Rect> {
        if rectangles.len() == 0 {
            seq![
                Rect { x: 0, y: 0, width: self.info.mode.width, height: self.info.mode.height },
            ]
        } else {
            rectangles
        }
    }

    /// Whether every rectangle is on the screen.
    pub open spec fn all_on(self, rectangles: Seq<Rect>) -> bool {
        forall|i: int| 0 <= i < rectangles.len() ==> (#[trigger] rectangles[i]).is_on(self.info.mode)
    }

    /// Kick, and where asked wait until the adapter is idle.
    pub open spec fn finish_run(self, wait: bool, io: Io) -> (Result<(), SvgaError>, Io) {
        let io = self.kick_run(io);
        if wait {
            self.sync_run(DEFAULT_SYNC_POLL_LIMIT as nat, io)
        } else {
            (Ok(()), io)
        }
    }

    /// Show parts of the screen.  Nothing is sent unless all of them are on it.
    pub open spec fn present_run(self, rectangles: Seq<Rect>, wait: bool, io: Io) -> (Result<
        (),
        SvgaError,
    >, Io) {
        if rectangles.len() > protocol::MAX_PRESENT_RECTS {
            (Err(SvgaError::TooManyRectangles), io)
        } else if !self.all_on(self.shown(rectangles)) {
            (Err(SvgaError::Protocol(ProtocolError::InvalidRectangle)), io)
        } else {
            match self.updates_run(self.shown(rectangles), 0, io.tell(Order::Fence)) {
                (Err(error), io) => (Err(error), io),
                (Ok(_), io) => self.finish_run(wait, io),
            }
        }
    }

    /// Copy a part of the screen.
    pub open spec fn copy_run(self, copy: CopyRect, wait: bool, io: Io) -> (Result<
        (),
        SvgaError,
    >, Io) {
        if self.info.capabilities.bits & DeviceCapabilities::RECT_COPY
            != DeviceCapabilities::RECT_COPY {
            (Err(SvgaError::UnsupportedCapability), io)
        } else if !copy.is_on(self.info.mode) {
            (Err(SvgaError::Protocol(ProtocolError::InvalidRectangle)), io)
        } else {
            match self.send_run(copy_words(copy), io.tell(Order::Fence)) {
                (Err(error), io) => (Err(error), io),
                (Ok(_), io) => self.finish_run(wait, io),
            }
        }
    }

    /// Send a fence: its number, the adapter behind it, and the state.  The
    /// number is used up where the command could not be sent.
    pub open spec fn insert_run(self, io: Io) -> (Result<u32, SvgaError>, Svga2, Io) {
        if !self.fifo.supports_fences() {
            (Err(SvgaError::UnsupportedCapability), self, io)
        } else {
            let number = self.fifo.fences.next;
            let after = Svga2 {
                fifo: Fifo {
                    fences: FenceSequence { next: next_fence(number) },
                    ..self.fifo
                },
                ..self
            };
            if number == 0 {
                (Err(SvgaError::Protocol(ProtocolError::InvalidCommand)), after, io)
            } else {
                match after.send_run(fence_words(number), io) {
                    (Err(error), io) => (Err(error), after, io),
                    (Ok(_), io) => (Ok(number), after, after.kick_run(io)),
                }
            }
        }
    }

    pub open spec fn wait_run(self, sequence: u32, limit: nat, io: Io) -> (Result<
        (),
        SvgaError,
    >, Io) {
        if sequence == 0 {
            (Err(SvgaError::Protocol(ProtocolError::InvalidCommand)), io)
        } else {
            fence_run(self.fifo, sequence, limit, self.kick_run(io))
        }
    }

    fn enqueue_with_progress<M: Machine>(&self, machine: &mut M, words: &[u32]) -> (result: Result<
        (),
        SvgaError,
    >)
        ensures
            (result, final(machine).io()) == self.send_run(words@, old(machine).io()),
    {
        match self.fifo.enqueue(machine, words) {
            Ok(_) => Ok(()),
            Err(SvgaError::Protocol(ProtocolError::FifoFull)) => {
                match self.sync(machine, DEFAULT_SYNC_POLL_LIMIT) {
                    Ok(_) => self.fifo.enqueue(machine, words),
                    Err(error) => Err(error),
                }
            },
            Err(error) => Err(error),
        }
    }

    /// Show parts of the screen; without any, all of it.
    pub fn present<M: Machine>(&self, machine: &mut M, rectangles: &[Rect], wait: bool) -> (result:
        Result<(), SvgaError>)
        ensures
            (result, final(machine).io()) == self.present_run(
                rectangles@,
                wait,
                old(machine).io(),
            ),
    {
        if rectangles.len() > protocol::MAX_PRESENT_RECTS {
            return Err(SvgaError::TooManyRectangles);
        }
        if rectangles.len() == 0 {
            let whole: [Rect; 1] = [Rect::full(self.info.mode)];
            assert(whole@ == self.shown(rectangles@));
            self.send_updates(machine, whole.as_slice(), wait)
        } else {
            self.send_updates(machine, rectangles, wait)
        }
    }

    fn send_updates<M: Machine>(&self, machine: &mut M, rectangles: &[Rect], wait: bool) -> (result:
        Result<(), SvgaError>)
        ensures
            (result, final(machine).io()) == (if !self.all_on(rectangles@) {
                (Err(SvgaError::Protocol(ProtocolError::InvalidRectangle)), old(machine).io())
            } else {
                match self.updates_run(rectangles@, 0, old(machine).io().tell(Order::Fence)) {
                    (Err(error), io) => (Err(error), io),
                    (Ok(_), io) => self.finish_run(wait, io),
                }
            }),
    {
        let mut i: usize = 0;
        while i < rectangles.len()
            invariant
                i <= rectangles@.len(),
                machine.io() == old(machine).io(),
                forall|j: int|
                    0 <= j < i ==> (#[trigger] rectangles@[j]).is_on(self.info.mode),
            decreases rectangles@.len() - i,
        {
            match rectangles[i].validate(self.info.mode) {
                Ok(_) => {},
                Err(error) => {
                    assert(!rectangles@[i as int].is_on(self.info.mode));
                    return Err(SvgaError::Protocol(error));
                },
            }
            i = i + 1;
        }
        assert(self.all_on(rectangles@));
        machine.tell(Order::Fence);
        let ghost before = machine.io();
        let mut k: usize = 0;
        while k < rectangles.len()
            invariant
                k <= rectangles@.len(),
                self.all_on(rectangles@),
                before == old(machine).io().tell(Order::Fence),
                self.updates_run(rectangles@, 0, before) == self.updates_run(
                    rectangles@,
                    k as int,
                    machine.io(),
                ),
            decreases rectangles@.len() - k,
        {
            assert(rectangles@[k as int].is_on(self.info.mode));
            let command: UpdateCommand = match UpdateCommand::new(rectangles[k], self.info.mode) {
                Ok(command) => command,
                Err(error) => {
                    return Err(SvgaError::Protocol(error));
                },
            };
            match self.enqueue_with_progress(machine, command.words().as_slice()) {
                Ok(_) => {},
                Err(error) => {
                    return Err(error);
                },
            }
            k = k + 1;
        }
        self.finish(machine, wait)
    }

    fn finish<M: Machine>(&self, machine: &mut M, wait: bool) -> (result: Result<(), SvgaError>)
        ensures
            (result, final(machine).io()) == self.finish_run(wait, old(machine).io()),
    {
        self.kick(machine);
        if wait {
            return self.sync(machine, DEFAULT_SYNC_POLL_LIMIT);
        }
        Ok(())
    }

    /// Copy a part of the screen.
    pub fn rectangle_copy<M: Machine>(&self, machine: &mut M, copy: CopyRect, wait: bool) -> (result:
        Result<(), SvgaError>)
        ensures
            (result, final(machine).io()) == self.copy_run(copy, wait, old(machine).io()),
    {
        if !self.info.capabilities.rect_copy() {
            return Err(SvgaError::UnsupportedCapability);
        }
        let command: RectCopyCommand = match RectCopyCommand::new(copy, self.info.mode) {
            Ok(command) => command,
            Err(error) => {
                return Err(SvgaError::Protocol(error));
            },
        };
        machine.tell(Order::Fence);
        match self.enqueue_with_progress(machine, command.words().as_slice()) {
            Ok(_) => self.finish(machine, wait),
            Err(error) => Err(error),
        }
    }

    /// Send a fence, and give its number.
    pub fn insert_fence<M: Machine>(&mut self, machine: &mut M) -> (result: Result<u32, SvgaError>)
        ensures
            (result, *final(self), final(machine).io()) == old(self).insert_run(
                old(machine).io(),
            ),
    {
        let sequence: u32 = match self.fifo.allocate_fence() {
            Ok(sequence) => sequence,
            Err(error) => {
                return Err(error);
            },
        };
        let command: FenceCommand = match FenceCommand::new(sequence) {
            Ok(command) => command,
            Err(error) => {
                return Err(SvgaError::Protocol(error));
            },
        };
        match self.enqueue_with_progress(machine, command.words().as_slice()) {
            Ok(_) => {},
            Err(error) => {
                return Err(error);
            },
        }
        self.kick(machine);
        Ok(sequence)
    }

    /// Wait until a fence is reached, for a number of polls at most.
    pub fn wait_fence<M: Machine>(&self, machine: &mut M, sequence: u32, poll_limit: usize) -> (result:
        Result<(), SvgaError>)
        ensures
            (result, final(machine).io()) == self.wait_run(
                sequence,
                poll_limit as nat,
                old(machine).io(),
            ),
    {
        if sequence == 0 {
            return Err(SvgaError::Protocol(ProtocolError::InvalidCommand));
        }
        self.kick(machine);
        let ghost before = machine.io();
        let mut left: usize = poll_limit;
        while left > 0
            invariant
                sequence != 0,
                before == self.kick_run(old(machine).io()),
                fence_run(self.fifo, sequence, poll_limit as nat, before) == fence_run(
                    self.fifo,
                    sequence,
                    left as nat,
                    machine.io(),
                ),
            decreases left,
        {
            match self.fifo.completed_fence(machine) {
                Ok(completed) => {
                    if FenceSequence::passed(completed, sequence) {
                        return Ok(());
                    }
                },
                Err(error) => {
                    return Err(error);
                },
            }
            left = left - 1;
        }
        Err(SvgaError::FenceTimeout)
    }

    fn kick<M: Machine>(&self, machine: &mut M)
        ensures
            final(machine).io() == self.kick_run(old(machine).io()),
    {
        machine.tell(Order::Fence);
        self.registers.write(machine, protocol::register::SYNC, protocol::SYNC_GENERIC);
    }

    /// Kick, and wait until the adapter is idle, for a number of polls at most.
    pub fn sync<M: Machine>(&self, machine: &mut M, poll_limit: usize) -> (result: Result<
        (),
        SvgaError,
    >)
        ensures
            (result, final(machine).io()) == self.sync_run(poll_limit as nat, old(machine).io()),
    {
        self.kick(machine);
        let ghost before = machine.io();
        let mut left: usize = poll_limit;
        while left > 0
            invariant
                before == self.kick_run(old(machine).io()),
                idle_run(self.registers, poll_limit as nat, before) == idle_run(
                    self.registers,
                    left as nat,
                    machine.io(),
                ),
            decreases left,
        {
            if self.registers.read(machine, protocol::register::BUSY) == 0 {
                return Ok(());
            }
            left = left - 1;
        }
        Err(SvgaError::SyncTimeout)
    }
}

/// A survey that succeeds found a ring that can be set up, and a mode whose
/// every pixel lies in the window.
pub proof fn lemma_survey_leaves_room(device: PciDevice, io: Io)
    requires
        survey_run(device, io).0 is Ok,
    ensures
        ({
            let survey = survey_run(device, io).0->Ok_0;
            &&& 4096 <= survey.minimum
            &&& survey.minimum % 4 == 0
            &&& survey.info.fifo_bytes % 4 == 0
            &&& survey.minimum + 8 <= survey.info.fifo_bytes <= survey.info.fifo_aperture_bytes
            &&& survey.info.mode.fault(survey.info.mode_limits) is None
            &&& survey.info.mode_limits.vram_bytes <= survey.info.framebuffer_aperture_bytes
        }),
{
}

/// The adapter that is attached, where one is.
#[derive(Debug)]
pub struct ActiveAdapter {
    pub active: Option<Svga2>,
}

/// What a failed bring-up is reported as.
pub open spec fn driver_error(error: SvgaError) -> PciDriverError {
    match error {
        SvgaError::MissingResource | SvgaError::InvalidIoBar | SvgaError::InvalidMemoryBar
        | SvgaError::ResourceMismatch => PciDriverError::BarUnreadable,
        _ => PciDriverError::ProbeFailed("SVGA II initialization failed"),
    }
}

impl ActiveAdapter {
    pub fn new() -> (display: Self)
        ensures
            display.active is None,
    {
        ActiveAdapter { active: None }
    }
}

/// What binding a device does: it is refused where an adapter is attached, else
/// the adapter is brought up and kept where that succeeded.
pub open spec fn bound(
    before: Option<Svga2>,
    after: Option<Svga2>,
    device: PciDevice,
    io: Io,
    result: Result<(), PciDriverError>,
    later: Io,
) -> bool {
    if before is Some {
        &&& result == Err::<(), _>(
            PciDriverError::ProbeFailed("an SVGA II adapter is already attached"),
        )
        &&& after == before
        &&& later == io
    } else {
        exists|layout: FifoLayout|
            #![trigger attach_run(device, layout, io)]
            {
                let (outcome, reached) = attach_run(device, layout, io);
                &&& fits_survey(device, layout, io)
                &&& later == reached
                &&& match outcome {
                    Ok(adapter) => result is Ok && after == Some(adapter),
                    Err(error) => result == Err::<(), _>(driver_error(error)) && after is None,
                }
            }
    }
}

impl ActiveAdapter {
    /// Attach an adapter, where none is attached yet.
    pub fn attach<M: Machine>(&mut self, machine: &mut M, device: &PciDevice) -> (result: Result<
        (),
        PciDriverError,
    >)
        ensures
            bound(
                old(self).active,
                final(self).active,
                *device,
                old(machine).io(),
                result,
                final(machine).io(),
            ),
    {
        if self.active.is_some() {
            return Err(PciDriverError::ProbeFailed("an SVGA II adapter is already attached"));
        }
        match Svga2::attach(machine, device) {
            Ok(adapter) => {
                self.active = Some(adapter);
                Ok(())
            },
            Err(error) => match error {
                SvgaError::MissingResource
                | SvgaError::InvalidIoBar
                | SvgaError::InvalidMemoryBar
                | SvgaError::ResourceMismatch => Err(PciDriverError::BarUnreadable),
                _ => Err(PciDriverError::ProbeFailed("SVGA II initialization failed")),
            },
        }
    }
}

/// The driver of the adapter.
#[derive(Clone, Copy, Debug)]
pub struct Svga2PciDriver {}

impl PciDriver for Svga2PciDriver {
    open spec fn claims(&self, device: PciDevice) -> bool {
        is_svga2(device)
    }

    open spec fn brings_up(
        &self,
        device: PciDevice,
        before: Devices,
        io: Io,
        result: Result<(), PciDriverError>,
        after: Devices,
        later: Io,
    ) -> bool {
        &&& bound(before.display.active, after.display.active, device, io, result, later)
        &&& after == (Devices { display: after.display, ..before })
    }

    fn name(&self) -> (name: &'static str)
        ensures
            name@ == "vmware-svga2"@,
    {
        "vmware-svga2"
    }

    fn matches(&self, device: &PciDevice) -> (claimed: bool) {
        device.vendor_id == protocol::PCI_VENDOR_VMWARE && device.device_id
            == protocol::PCI_DEVICE_SVGA2 && device.base_class == 0x03
    }

    fn probe<M: Machine>(&self, machine: &mut M, devices: &mut Devices, device: &PciDevice) -> (result:
        Result<(), PciDriverError>) {
        devices.display.attach(machine, device)
    }
}

/// Register the driver.
pub fn register_pci_driver(registry: &mut DriverRegistry<AnyDriver>)
    requires
        old(registry).wf(),
    ensures
        final(registry).wf(),
        final(registry).drivers@ == enrolled(
            old(registry).drivers@,
            KEY_SVGA2,
            AnyDriver::Svga2(Svga2PciDriver {}),
        ),
{
    register_driver(registry, KEY_SVGA2, AnyDriver::Svga2(Svga2PciDriver {}));
}

/// Whether an adapter is attached.
pub fn is_attached(display: &ActiveAdapter) -> (attached: bool)
    ensures
        attached == display.active is Some,
{
    display.active.is_some()
}

/// What is known of the attached adapter.
pub fn device_info(display: &ActiveAdapter) -> (info: Option<DeviceInfo>)
    ensures
        info == (match display.active {
            Some(adapter) => Some(adapter.info),
            None => None,
        }),
{
    match &display.active {
        Some(adapter) => Some(adapter.info),
        None => None,
    }
}

/// Show parts of the screen and return once the commands are sent.
pub fn present<M: Machine>(display: &ActiveAdapter, machine: &mut M, rectangles: &[Rect]) -> (result:
    Result<(), SvgaError>)
    ensures
        (result, final(machine).io()) == (match display.active {
            Some(adapter) => adapter.present_run(rectangles@, false, old(machine).io()),
            None => (Err(SvgaError::NotAttached), old(machine).io()),
        }),
{
    match &display.active {
        Some(adapter) => adapter.present(machine, rectangles, false),
        None => Err(SvgaError::NotAttached),
    }
}

/// Show parts of the screen and wait until the adapter is idle.
pub fn present_and_wait<M: Machine>(
    display: &ActiveAdapter,
    machine: &mut M,
    rectangles: &[Rect],
) -> (result: Result<(), SvgaError>)
    ensures
        (result, final(machine).io()) == (match display.active {
            Some(adapter) => adapter.present_run(rectangles@, true, old(machine).io()),
            None => (Err(SvgaError::NotAttached), old(machine).io()),
        }),
{
    match &display.active {
        Some(adapter) => adapter.present(machine, rectangles, true),
        None => Err(SvgaError::NotAttached),
    }
}

/// Copy a part of the screen and return once the command is sent.
pub fn rectangle_copy<M: Machine>(display: &ActiveAdapter, machine: &mut M, copy: CopyRect) -> (result:
    Result<(), SvgaError>)
    ensures
        (result, final(machine).io()) == (match display.active {
            Some(adapter) => adapter.copy_run(copy, false, old(machine).io()),
            None => (Err(SvgaError::NotAttached), old(machine).io()),
        }),
{
    match &display.active {
        Some(adapter) => adapter.rectangle_copy(machine, copy, false),
        None => Err(SvgaError::NotAttached),
    }
}

/// Copy a part of the screen and wait until the adapter is idle.
pub fn rectangle_copy_and_wait<M: Machine>(
    display: &ActiveAdapter,
    machine: &mut M,
    copy: CopyRect,
) -> (result: Result<(), SvgaError>)
    ensures
        (result, final(machine).io()) == (match display.active {
            Some(adapter) => adapter.copy_run(copy, true, old(machine).io()),
            None => (Err(SvgaError::NotAttached), old(machine).io()),
        }),
{
    match &display.active {
        Some(adapter) => adapter.rectangle_copy(machine, copy, true),
        None => Err(SvgaError::NotAttached),
    }
}

/// Send a fence, and give its number.
pub fn insert_fence<M: Machine>(display: &mut ActiveAdapter, machine: &mut M) -> (result: Result<
    u32,
    SvgaError,
>)
    ensures
        match old(display).active {
            Some(adapter) => {
                let (outcome, after, io) = adapter.insert_run(old(machine).io());
                result == outcome && final(display).active == Some(after) && final(machine).io()
                    == io
            },
            None => result == Err::<u32, SvgaError>(SvgaError::NotAttached) && final(
                display).active is None && final(machine).io() == old(machine).io(),
        },
{
    match &mut display.active {
        Some(adapter) => adapter.insert_fence(machine),
        None => Err(SvgaError::NotAttached),
    }
}

/// Wait until a fence is reached, for a number of polls at most.
pub fn wait_fence<M: Machine>(
    display: &ActiveAdapter,
    machine: &mut M,
    sequence: u32,
    poll_limit: usize,
) -> (result: Result<(), SvgaError>)
    ensures
        (result, final(machine).io()) == (match display.active {
            Some(adapter) => adapter.wait_run(sequence, poll_limit as nat, old(machine).io()),
            None => (Err(SvgaError::NotAttached), old(machine).io()),
        }),
{
    match &display.active {
        Some(adapter) => adapter.wait_fence(machine, sequence, poll_limit),
        None => Err(SvgaError::NotAttached),
    }
}

/// Wait until the adapter is idle, for a number of polls at most.
pub fn synchronize<M: Machine>(display: &ActiveAdapter, machine: &mut M, poll_limit: usize) -> (result:
    Result<(), SvgaError>)
    ensures
        (result, final(machine).io()) == (match display.active {
            Some(adapter) => adapter.sync_run(poll_limit as nat, old(machine).io()),
            None => (Err(SvgaError::NotAttached), old(machine).io()),
        }),
{
    match &display.active {
        Some(adapter) => adapter.sync(machine, poll_limit),
        None => Err(SvgaError::NotAttached),
    }
}

} // verus!
