//! The register file of the controller.
use vstd::prelude::*;
use crate::machine::{cell, cell_at, Io, Machine, Place};

verus! {

pub const GLOBAL_REGISTER_BYTES: usize = 0x80;
pub const STREAM_BASE: usize = 0x80;
pub const STREAM_STRIDE: usize = 0x20;
/// As many streams as the interrupt register has bits for.
pub const MAX_STREAMS: usize = 30;
pub const GCAP: usize = 0x00;
pub const VMIN: usize = 0x02;
pub const VMAJ: usize = 0x03;
pub const GCTL: usize = 0x08;
pub const WAKEEN: usize = 0x0c;
pub const STATESTS: usize = 0x0e;
pub const INTCTL: usize = 0x20;
pub const INTSTS: usize = 0x24;
pub const WALCLK: usize = 0x30;
pub const SSYNC: usize = 0x38;
pub const CORBLBASE: usize = 0x40;
pub const CORBUBASE: usize = 0x44;
pub const CORBWP: usize = 0x48;
pub const CORBRP: usize = 0x4a;
pub const CORBCTL: usize = 0x4c;
pub const CORBSTS: usize = 0x4d;
pub const CORBSIZE: usize = 0x4e;
pub const RIRBLBASE: usize = 0x50;
pub const RIRBUBASE: usize = 0x54;
pub const RIRBWP: usize = 0x58;
pub const RINTCNT: usize = 0x5a;
pub const RIRBCTL: usize = 0x5c;
pub const RIRBSTS: usize = 0x5d;
pub const RIRBSIZE: usize = 0x5e;
pub const DPLBASE: usize = 0x70;
pub const DPUBASE: usize = 0x74;
pub const GCTL_CRST: u32 = 0x0000_0001;
pub const GCTL_UNSOL: u32 = 0x0000_0100;
pub const INTCTL_GIE: u32 = 0x8000_0000;
pub const INTCTL_CIE: u32 = 0x4000_0000;
pub const CORBCTL_RUN: u8 = 0x02;
pub const CORBSTS_MEMORY_ERROR: u8 = 0x01;
pub const CORBRP_RESET: u16 = 0x8000;
pub const RIRBCTL_DMA_ENABLE: u8 = 0x02;
pub const RIRBSTS_RESPONSE: u8 = 0x01;
pub const RIRBSTS_OVERRUN: u8 = 0x04;
pub const RIRBWP_RESET: u16 = 0x8000;

/// What the controller can do.
#[derive(Clone, Copy, Debug, Eq, PartialEq, Structural)]
pub struct Capabilities {
    pub output_streams: u8,
    pub input_streams: u8,
    pub bidirectional_streams: u8,
    /// None for the encoding that is not defined.
    pub serial_data_outputs: Option<u8>,
    pub supports_64bit_dma: bool,
}

impl Capabilities {
    /// What the capability register says.
    pub open spec fn of(raw: u16) -> Capabilities {
        Capabilities {
            output_streams: ((raw >> 12) & 0x0f) as u8,
            input_streams: ((raw >> 8) & 0x0f) as u8,
            bidirectional_streams: ((raw >> 3) & 0x1f) as u8,
            serial_data_outputs: match (raw >> 1) & 0x03 {
                0 => Some(1u8),
                1 => Some(2u8),
                2 => Some(4u8),
                _ => None,
            },
            supports_64bit_dma: raw & 1 != 0,
        }
    }

    pub open spec fn streams(self) -> int {
        self.output_streams + self.input_streams + self.bidirectional_streams
    }

    /// The stream behind an output: outputs come after inputs.
    pub open spec fn output_index(self, ordinal: int) -> Option<int> {
        if ordinal < self.output_streams {
            Some(self.input_streams + ordinal)
        } else {
            None
        }
    }

    pub fn decode(raw: u16) -> (capabilities: Self)
        ensures
            capabilities == Self::of(raw),
    {
        Capabilities {
            output_streams: ((raw >> 12) & 0x0f) as u8,
            input_streams: ((raw >> 8) & 0x0f) as u8,
            bidirectional_streams: ((raw >> 3) & 0x1f) as u8,
            serial_data_outputs: match (raw >> 1) & 0x03 {
                0 => Some(1),
                1 => Some(2),
                2 => Some(4),
                _ => None,
            },
            supports_64bit_dma: raw & 1 != 0,
        }
    }

    pub fn total_streams(self) -> (count: usize)
        ensures
            count == self.streams(),
    {
        self.output_streams as usize + self.input_streams as usize
            + self.bidirectional_streams as usize
    }

    /// The stream behind an output.
    pub fn output_stream_index(self, ordinal: usize) -> (index: Option<usize>)
        ensures
            match index {
                Some(index) => self.output_index(ordinal as int) == Some(index as int),
                None => self.output_index(ordinal as int) is None,
            },
    {
        if ordinal < self.output_streams as usize {
            Some(self.input_streams as usize + ordinal)
        } else {
            None
        }
    }
}

/// An output never lies outside the streams of the controller.
pub proof fn lemma_outputs_are_streams(capabilities: Capabilities, ordinal: int)
    requires
        0 <= ordinal,
        capabilities.output_index(ordinal) is Some,
    ensures
        0 <= capabilities.output_index(ordinal)->0 < capabilities.streams(),
{
}

#[derive(Clone, Copy, Debug, Eq, PartialEq, Structural)]
pub struct Version {
    pub major: u8,
    pub minor: u8,
}

/// The registers behind an address.
#[derive(Clone, Copy, Debug, Eq, PartialEq, Structural)]
pub struct Mmio {
    pub base: u64,
}

impl Mmio {
    pub fn new(base: u64) -> (registers: Self)
        ensures
            registers.base == base,
    {
        Mmio { base }
    }

    pub open spec fn register(self, offset: usize) -> Place {
        cell(self.base, offset as u64)
    }

    pub fn read8<M: Machine>(self, machine: &mut M, offset: usize) -> (value: u8)
        ensures
            (value, final(machine).io()) == old(machine).io().r8(self.register(offset)),
    {
        machine.read8(cell_at(self.base, offset as u64))
    }

    pub fn read16<M: Machine>(self, machine: &mut M, offset: usize) -> (value: u16)
        ensures
            (value, final(machine).io()) == old(machine).io().r16(self.register(offset)),
    {
        machine.read16(cell_at(self.base, offset as u64))
    }

    pub fn read32<M: Machine>(self, machine: &mut M, offset: usize) -> (value: u32)
        ensures
            (value, final(machine).io()) == old(machine).io().r32(self.register(offset)),
    {
        machine.read32(cell_at(self.base, offset as u64))
    }

    pub fn write8<M: Machine>(self, machine: &mut M, offset: usize, value: u8)
        ensures
            final(machine).io() == old(machine).io().w8(self.register(offset), value),
    {
        machine.write8(cell_at(self.base, offset as u64), value);
    }

    pub fn write16<M: Machine>(self, machine: &mut M, offset: usize, value: u16)
        ensures
            final(machine).io() == old(machine).io().w16(self.register(offset), value),
    {
        machine.write16(cell_at(self.base, offset as u64), value);
    }

    pub fn write32<M: Machine>(self, machine: &mut M, offset: usize, value: u32)
        ensures
            final(machine).io() == old(machine).io().w32(self.register(offset), value),
    {
        machine.write32(cell_at(self.base, offset as u64), value);
    }

    pub open spec fn capabilities_run(self, io: Io) -> (Capabilities, Io) {
        let (raw, io) = io.r16(self.register(GCAP));
        (Capabilities::of(raw), io)
    }

    pub fn capabilities<M: Machine>(self, machine: &mut M) -> (capabilities: Capabilities)
        ensures
            (capabilities, final(machine).io()) == self.capabilities_run(old(machine).io()),
    {
        Capabilities::decode(self.read16(machine, GCAP))
    }

    pub open spec fn version_run(self, io: Io) -> (Version, Io) {
        let (major, io) = io.r8(self.register(VMAJ));
        let (minor, io) = io.r8(self.register(VMIN));
        (Version { major, minor }, io)
    }

    pub fn version<M: Machine>(self, machine: &mut M) -> (version: Version)
        ensures
            (version, final(machine).io()) == self.version_run(old(machine).io()),
    {
        let major: u8 = self.read8(machine, VMAJ);
        let minor: u8 = self.read8(machine, VMIN);
        Version { major, minor }
    }

    /// The registers of a stream.
    pub open spec fn stream_registers(self, index: int) -> StreamRegisters {
        StreamRegisters {
            mmio: self,
            offset: (STREAM_BASE + index * STREAM_STRIDE) as usize,
            index: index as usize,
        }
    }

    /// The registers of a stream.
    pub fn stream(self, index: usize) -> (stream: Option<StreamRegisters>)
        ensures
            stream == (if index < MAX_STREAMS {
                Some(self.stream_registers(index as int))
            } else {
                None
            }),
    {
        if index < MAX_STREAMS {
            Some(
                StreamRegisters {
                    mmio: self,
                    offset: STREAM_BASE + index * STREAM_STRIDE,
                    index,
                },
            )
        } else {
            None
        }
    }
}

/// The registers of one stream.
#[derive(Clone, Copy, Debug, Eq, PartialEq, Structural)]
pub struct StreamRegisters {
    pub mmio: Mmio,
    pub offset: usize,
    pub index: usize,
}

impl StreamRegisters {
    pub open spec fn register(self, offset: u64) -> Place {
        cell(self.mmio.base, (self.offset as u64).wrapping_add(offset))
    }

    fn place(self, offset: u64) -> (place: Place)
        ensures
            place == self.register(offset),
    {
        cell_at(self.mmio.base, (self.offset as u64).wrapping_add(offset))
    }

    pub fn index(self) -> (index: usize)
        ensures
            index == self.index,
    {
        self.index
    }

    /// The 24-bit control register, read in two parts.
    pub open spec fn control_run(self, io: Io) -> (u32, Io) {
        let (low, io) = io.r16(self.register(0));
        let (high, io) = io.r8(self.register(2));
        ((low as u32) | ((high as u32) << 16), io)
    }

    /// Write the control register, in two parts.
    pub open spec fn write_control_run(self, value: u32, io: Io) -> Io {
        io.w16(self.register(0), value as u16).w8(self.register(2), (value >> 16) as u8)
    }

    pub fn control<M: Machine>(self, machine: &mut M) -> (value: u32)
        ensures
            (value, final(machine).io()) == self.control_run(old(machine).io()),
    {
        let low: u16 = machine.read16(self.place(0));
        let high: u8 = machine.read8(self.place(2));
        (low as u32) | ((high as u32) << 16)
    }

    pub fn write_control<M: Machine>(self, machine: &mut M, value: u32)
        ensures
            final(machine).io() == self.write_control_run(value, old(machine).io()),
    {
        machine.write16(self.place(0), value as u16);
        machine.write8(self.place(2), (value >> 16) as u8);
    }

    pub fn clear_status<M: Machine>(self, machine: &mut M, mask: u8)
        ensures
            final(machine).io() == old(machine).io().w8(self.register(3), mask),
    {
        machine.write8(self.place(3), mask);
    }

    pub fn position<M: Machine>(self, machine: &mut M) -> (bytes: u32)
        ensures
            (bytes, final(machine).io()) == old(machine).io().r32(self.register(4)),
    {
        machine.read32(self.place(4))
    }

    pub fn write_cyclic_buffer_length<M: Machine>(self, machine: &mut M, bytes: u32)
        ensures
            final(machine).io() == old(machine).io().w32(self.register(8), bytes),
    {
        machine.write32(self.place(8), bytes);
    }

    pub fn write_last_valid_index<M: Machine>(self, machine: &mut M, index: u16)
        ensures
            final(machine).io() == old(machine).io().w16(self.register(0x0c), index),
    {
        machine.write16(self.place(0x0c), index);
    }

    pub fn write_format<M: Machine>(self, machine: &mut M, format: u16)
        ensures
            final(machine).io() == old(machine).io().w16(self.register(0x12), format),
    {
        machine.write16(self.place(0x12), format);
    }

    pub open spec fn write_bdl_run(self, address: u64, io: Io) -> Io {
        io.w32(self.register(0x18), address as u32).w32(
            self.register(0x1c),
            (address >> 32) as u32,
        )
    }

    pub fn write_bdl_address<M: Machine>(self, machine: &mut M, address: u64)
        ensures
            final(machine).io() == self.write_bdl_run(address, old(machine).io()),
    {
        machine.write32(self.place(0x18), address as u32);
        machine.write32(self.place(0x1c), (address >> 32) as u32);
    }
}

} // verus!
