//! PCI configuration space: addressing, discovery, capabilities and interrupt
//! routing.
use vstd::prelude::*;
use crate::bits::lemma_mask8;
use crate::machine::{Io, Machine};
use crate::text::{padded, push_number, push_text};

pub mod capability;
pub mod config;
pub mod coverage;
pub mod enumerate;
pub mod routing;
pub mod space;
pub mod wiring;

pub use self::config::{PciAddress, PciHeaderType};
use self::config::{MAX_DEVICES_PER_BUS, MAX_FUNCTIONS_PER_DEVICE, NUM_BARS, VENDOR_NONE};

verus! {

/// A set of command register bits.
#[derive(Copy, Clone, Debug, Eq, PartialEq, Hash, Structural)]
pub struct PciCommand {
    pub bits: u16,
}

impl PciCommand {
    pub const IO_SPACE: u16 = 0x0001;
    pub const MEMORY_SPACE: u16 = 0x0002;
    pub const BUS_MASTER: u16 = 0x0004;
    pub const SPECIAL_CYCLES: u16 = 0x0008;
    pub const MEMORY_WRITE_INVALIDATE: u16 = 0x0010;
    pub const VGA_PALETTE_SNOOP: u16 = 0x0020;
    pub const PARITY_ERROR_RESPONSE: u16 = 0x0040;
    pub const ADDRESS_DATA_STEPPING: u16 = 0x0080;
    pub const SERR_ENABLE: u16 = 0x0100;
    pub const FAST_BACK_TO_BACK: u16 = 0x0200;
    pub const INTERRUPT_DISABLE: u16 = 0x0400;
    /// Every bit that is defined.
    pub const ALL: u16 = 0x07FF;

    /// The defined bits of a register value.
    pub fn from_bits_truncate(bits: u16) -> (flags: Self)
        ensures
            flags.bits == bits & Self::ALL,
    {
        PciCommand { bits: bits & Self::ALL }
    }

    pub fn bits(self) -> (bits: u16)
        ensures
            bits == self.bits,
    {
        self.bits
    }

    /// Whether every bit of `mask` is set.
    pub fn contains(self, mask: u16) -> (all: bool)
        ensures
            all == (self.bits & mask == mask),
    {
        self.bits & mask == mask
    }

    /// Set the bits of `mask` that are defined.
    pub fn insert(&mut self, mask: u16)
        ensures
            final(self).bits == old(self).bits | (mask & Self::ALL),
    {
        self.bits = self.bits | (mask & Self::ALL);
    }

    /// Clear the bits of `mask`.
    pub fn remove(&mut self, mask: u16)
        ensures
            final(self).bits == old(self).bits & !mask,
    {
        self.bits = self.bits & !mask;
    }
}

/// What the header of one function says, in short.
#[derive(Copy, Clone, Debug, Eq, PartialEq, Hash)]
pub struct PciDevice {
    pub bus: u8,
    pub dev: u8,
    pub func: u8,
    pub vendor: u16,
    pub device: u16,
    /// Class, subclass and programming interface, 24 bits.
    pub class: u32,
    pub bars: [u32; NUM_BARS],
    pub irq: u8,
}

/// The first base address register, from `from` on, that is in use and whose
/// lowest bit is `space`.
pub open spec fn first_bar(bars: Seq<u32>, space: u32, from: int) -> Option<u32>
    decreases bars.len() - from,
{
    if from >= bars.len() {
        None
    } else if bars[from] != 0 && bars[from] & 0x1 == space {
        Some(bars[from])
    } else {
        first_bar(bars, space, from + 1)
    }
}

impl PciDevice {
    /// What a probe of `address` finds: the vendor first, and where it answers
    /// the device, the class, the six base address registers and the line, in
    /// this order, each by a read of its own.
    pub open spec fn probe_run(address: PciAddress, io: Io) -> (Option<PciDevice>, Io) {
        let (vendor, io) = address.vendor_run(io);
        if vendor == VENDOR_NONE {
            (None, io)
        } else {
            let (device, io) = address.device_run(io);
            let (class, io) = address.class_run(io);
            let (b0, io) = address.bar_run(0, io);
            let (b1, io) = address.bar_run(1, io);
            let (b2, io) = address.bar_run(2, io);
            let (b3, io) = address.bar_run(3, io);
            let (b4, io) = address.bar_run(4, io);
            let (b5, io) = address.bar_run(5, io);
            let (irq, io) = address.interrupt_line_run(io);
            (
                Some(
                    PciDevice {
                        bus: address.bus,
                        dev: address.dev,
                        func: address.func,
                        vendor,
                        device,
                        class,
                        bars: [b0, b1, b2, b3, b4, b5],
                        irq,
                    },
                ),
                io,
            )
        }
    }

    /// The address the device was found at.
    pub open spec fn location(self) -> PciAddress {
        if self.dev < MAX_DEVICES_PER_BUS && self.func < MAX_FUNCTIONS_PER_DEVICE {
            PciAddress { bus: self.bus, dev: self.dev, func: self.func }
        } else {
            PciAddress { bus: self.bus, dev: self.dev & 31, func: self.func & 7 }
        }
    }

    /// Read the header of the function at `address`, where there is one.
    pub fn probe<M: Machine>(machine: &mut M, address: PciAddress) -> (found: Option<Self>)
        ensures
            (found, final(machine).io()) == Self::probe_run(address, old(machine).io()),
    {
        let vendor: u16 = address.read_vendor(machine);
        if vendor == VENDOR_NONE {
            return None;
        }
        let device: u16 = address.read_device(machine);
        let class: u32 = address.read_class(machine);
        let b0: u32 = address.read_bar(machine, 0).unwrap_or(0);
        let b1: u32 = address.read_bar(machine, 1).unwrap_or(0);
        let b2: u32 = address.read_bar(machine, 2).unwrap_or(0);
        let b3: u32 = address.read_bar(machine, 3).unwrap_or(0);
        let b4: u32 = address.read_bar(machine, 4).unwrap_or(0);
        let b5: u32 = address.read_bar(machine, 5).unwrap_or(0);
        let irq: u8 = address.read_interrupt_line(machine);
        Some(
            PciDevice {
                bus: address.bus(),
                dev: address.dev(),
                func: address.func(),
                vendor,
                device,
                class,
                bars: [b0, b1, b2, b3, b4, b5],
                irq,
            },
        )
    }

    /// The address of the device; stray high bits of device and function are
    /// dropped.
    pub fn address(self) -> (address: PciAddress)
        ensures
            address == self.location(),
            address.is_valid(),
    {
        proof {
            lemma_mask8(self.dev, 31);
            lemma_mask8(self.func, 7);
        }
        match PciAddress::new(self.bus, self.dev, self.func) {
            Some(address) => address,
            None => PciAddress {
                bus: self.bus,
                dev: self.dev & (MAX_DEVICES_PER_BUS - 1),
                func: self.func & (MAX_FUNCTIONS_PER_DEVICE - 1),
            },
        }
    }

    pub fn is_present(self) -> (present: bool)
        ensures
            present == (self.vendor != VENDOR_NONE),
    {
        self.vendor != VENDOR_NONE
    }

    /// Read the header layout again.
    pub fn header_type<M: Machine>(self, machine: &mut M) -> (layout: PciHeaderType)
        ensures
            layout == PciHeaderType::of_byte(
                self.location().header_byte_run(old(machine).io()).0,
            ),
            final(machine).io() == self.location().header_byte_run(old(machine).io()).1,
    {
        self.address().read_header_type(machine)
    }

    /// Read again whether the device has more than one function.
    pub fn is_multifunction<M: Machine>(self, machine: &mut M) -> (multi: bool)
        ensures
            multi == (self.location().header_byte_run(old(machine).io()).0 & 0x80 != 0),
            final(machine).io() == self.location().header_byte_run(old(machine).io()).1,
    {
        self.address().is_multifunction(machine)
    }

    pub fn base_class(self) -> (base: u8)
        ensures
            base == (self.class >> 16) as u8,
    {
        (self.class >> 16) as u8
    }

    pub fn subclass(self) -> (sub: u8)
        ensures
            sub == (self.class >> 8) as u8,
    {
        (self.class >> 8) as u8
    }

    pub fn prog_if(self) -> (interface: u8)
        ensures
            interface == self.class as u8,
    {
        self.class as u8
    }

    /// Base address register `index`; zero where there is none.
    pub fn bar(self, index: usize) -> (value: u32)
        ensures
            value == (if index < NUM_BARS {
                self.bars@[index as int]
            } else {
                0
            }),
    {
        if index < NUM_BARS {
            self.bars[index]
        } else {
            0
        }
    }

    fn find_bar(self, space: u32) -> (found: Option<u32>)
        ensures
            found == first_bar(self.bars@, space, 0),
    {
        let mut i: usize = 0;
        while i < NUM_BARS
            invariant
                i <= NUM_BARS,
                first_bar(self.bars@, space, 0) == first_bar(self.bars@, space, i as int),
            decreases NUM_BARS - i,
        {
            let bar: u32 = self.bars[i];
            if bar != 0 && bar & 0x1 == space {
                return Some(bar);
            }
            i = i + 1;
        }
        None
    }

    /// The first memory register in use.
    pub fn first_memory_bar(self) -> (found: Option<u32>)
        ensures
            found == first_bar(self.bars@, 0, 0),
    {
        self.find_bar(0)
    }

    /// The first port register in use.
    pub fn first_io_bar(self) -> (found: Option<u32>)
        ensures
            found == first_bar(self.bars@, 1, 0),
    {
        self.find_bar(1)
    }

    /// Address, identity and class in one line.
    pub open spec fn text(self) -> Seq<char> {
        PciAddress { bus: self.bus, dev: self.dev, func: self.func }.text() + " "@ + padded(
            self.vendor as nat,
            16,
            4,
        ) + ":"@ + padded(self.device as nat, 16, 4) + " "@ + class_text((self.class >> 16) as u8)
    }

    /// Address, identity and class in one line.
    pub fn to_string(self) -> (text: String)
        ensures
            text@ == self.text(),
    {
        let address = PciAddress { bus: self.bus, dev: self.dev, func: self.func };
        let mut text: String = address.to_string();
        push_text(&mut text, " ");
        push_number(&mut text, self.vendor as u32, 16, 4);
        push_text(&mut text, ":");
        push_number(&mut text, self.device as u32, 16, 4);
        push_text(&mut text, " ");
        push_text(&mut text, base_class_name(self.base_class()));
        assert(text@ == self.text());
        text
    }
}

/// The name of a base class.
pub open spec fn class_text(base: u8) -> Seq<char> {
    match base {
        0x00 => "legacy"@,
        0x01 => "mass-storage"@,
        0x02 => "network"@,
        0x03 => "display"@,
        0x04 => "multimedia"@,
        0x05 => "memory"@,
        0x06 => "bridge"@,
        0x07 => "simple-comm"@,
        0x08 => "base-peripheral"@,
        0x09 => "input"@,
        0x0A => "docking-station"@,
        0x0B => "processor"@,
        0x0C => "serial-bus"@,
        0x0D => "wireless"@,
        0x0E => "intelligent-io"@,
        0x0F => "satellite-comm"@,
        0x10 => "encryption"@,
        0x11 => "signal-processing"@,
        0x12 => "processing-accelerator"@,
        0x13 => "non-essential-instrumentation"@,
        _ => "other"@,
    }
}

/// The name of a base class.
pub fn base_class_name(base: u8) -> (name: &'static str)
    ensures
        name@ == class_text(base),
{
    match base {
        0x00 => "legacy",
        0x01 => "mass-storage",
        0x02 => "network",
        0x03 => "display",
        0x04 => "multimedia",
        0x05 => "memory",
        0x06 => "bridge",
        0x07 => "simple-comm",
        0x08 => "base-peripheral",
        0x09 => "input",
        0x0A => "docking-station",
        0x0B => "processor",
        0x0C => "serial-bus",
        0x0D => "wireless",
        0x0E => "intelligent-io",
        0x0F => "satellite-comm",
        0x10 => "encryption",
        0x11 => "signal-processing",
        0x12 => "processing-accelerator",
        0x13 => "non-essential-instrumentation",
        _ => "other",
    }
}

/// A device that a probe found lies at the address that was probed.
pub proof fn lemma_probe_keeps_address(address: PciAddress, io: Io)
    requires
        address.is_valid(),
        PciDevice::probe_run(address, io).0 is Some,
    ensures
        PciDevice::probe_run(address, io).0->0.location() == address,
        PciDevice::probe_run(address, io).0->0.vendor != VENDOR_NONE,
{
}

} // verus!
