//! Configuration-space access through the two legacy ports.
//!
//! The address port selects a function and a dword; the data port, at one of
//! its four byte lanes, then reads or writes it.
use vstd::prelude::*;
use crate::bits::lemma_mask8;
use crate::machine::{Io, Machine, Place};
use crate::text::{padded, push_number, push_text};

verus! {

pub const CONFIG_ADDRESS: u16 = 0xCF8;
pub const CONFIG_DATA: u16 = 0xCFC;
pub const CONFIG_ENABLE: u32 = 0x8000_0000;
pub const OFFSET_MASK: u32 = 0xFC;

/// Device numbers on one bus.
pub const MAX_DEVICES_PER_BUS: u8 = 32;
/// Functions of one device.
pub const MAX_FUNCTIONS_PER_DEVICE: u8 = 8;
/// Base address registers of a general header.
pub const NUM_BARS: usize = 6;

pub const REG_VENDOR_DEVICE: u8 = 0x00;
pub const REG_COMMAND_STATUS: u8 = 0x04;
pub const REG_CLASS_REVISION: u8 = 0x08;
pub const REG_HEADER_BIST: u8 = 0x0C;
pub const REG_BAR0: u8 = 0x10;
pub const REG_INTERRUPT: u8 = 0x3C;

/// The vendor word read where no function answers.
pub const VENDOR_NONE: u16 = 0xFFFF;

/// Bus, device and function of one PCI function.
#[derive(Copy, Clone, Debug, Eq, PartialEq, Hash, Structural)]
pub struct PciAddress {
    pub bus: u8,
    pub dev: u8,
    pub func: u8,
}

/// The data port lane of an offset.
pub open spec fn data_lane(offset: u8) -> Place {
    Place::Port((CONFIG_DATA + (offset & 3)) as u16)
}

impl PciAddress {
    /// Whether device and function are within what a bus can hold.
    pub open spec fn is_valid(self) -> bool {
        self.dev < MAX_DEVICES_PER_BUS && self.func < MAX_FUNCTIONS_PER_DEVICE
    }

    /// The word that selects the dword at `offset`.
    pub open spec fn select_word(self, offset: u8) -> u32 {
        CONFIG_ENABLE | ((self.bus as u32) << 16) | ((self.dev as u32) << 11) | ((self.func as u32)
            << 8) | ((offset as u32) & OFFSET_MASK)
    }

    /// The state after the dword at `offset` was selected.
    pub open spec fn selected(self, offset: u8, io: Io) -> Io {
        io.w32(Place::Port(CONFIG_ADDRESS), self.select_word(offset))
    }

    pub open spec fn read32_run(self, offset: u8, io: Io) -> (u32, Io) {
        self.selected(offset, io).r32(Place::Port(CONFIG_DATA))
    }

    pub open spec fn write32_run(self, offset: u8, value: u32, io: Io) -> Io {
        self.selected(offset, io).w32(Place::Port(CONFIG_DATA), value)
    }

    pub open spec fn read8_run(self, offset: u8, io: Io) -> (u8, Io) {
        self.selected(offset, io).r8(data_lane(offset))
    }

    pub open spec fn read16_run(self, offset: u8, io: Io) -> (u16, Io) {
        self.selected(offset, io).r16(data_lane(offset))
    }

    pub open spec fn write8_run(self, offset: u8, value: u8, io: Io) -> Io {
        self.selected(offset, io).w8(data_lane(offset), value)
    }

    pub open spec fn write16_run(self, offset: u8, value: u16, io: Io) -> Io {
        self.selected(offset, io).w16(data_lane(offset), value)
    }

    /// The vendor word, out of the first dword.
    pub open spec fn vendor_run(self, io: Io) -> (u16, Io) {
        let (word, io) = self.read32_run(REG_VENDOR_DEVICE, io);
        (word as u16, io)
    }

    /// The device word, out of the first dword.
    pub open spec fn device_run(self, io: Io) -> (u16, Io) {
        let (word, io) = self.read32_run(REG_VENDOR_DEVICE, io);
        ((word >> 16) as u16, io)
    }

    /// Class, subclass and programming interface as one 24-bit number.
    pub open spec fn class_run(self, io: Io) -> (u32, Io) {
        let (word, io) = self.read32_run(REG_CLASS_REVISION, io);
        ((word >> 8) & 0x00FF_FFFF, io)
    }

    /// The header byte.
    pub open spec fn header_byte_run(self, io: Io) -> (u8, Io) {
        let (word, io) = self.read32_run(REG_HEADER_BIST, io);
        (((word >> 16) & 0xFF) as u8, io)
    }

    /// Base address register `index`.
    pub open spec fn bar_run(self, index: int, io: Io) -> (u32, Io) {
        self.read32_run((REG_BAR0 + 4 * index) as u8, io)
    }

    /// The command word.
    pub open spec fn command_run(self, io: Io) -> (u16, Io) {
        let (word, io) = self.read32_run(REG_COMMAND_STATUS, io);
        (word as u16, io)
    }

    /// The status word.
    pub open spec fn status_run(self, io: Io) -> (u16, Io) {
        let (word, io) = self.read32_run(REG_COMMAND_STATUS, io);
        ((word >> 16) as u16, io)
    }

    /// Write the command word beside the status word that was read.
    pub open spec fn write_command_run(self, command: u16, io: Io) -> Io {
        let (status, io) = self.status_run(io);
        self.write32_run(REG_COMMAND_STATUS, ((status as u32) << 16) | (command as u32), io)
    }

    /// The interrupt line byte.
    pub open spec fn interrupt_line_run(self, io: Io) -> (u8, Io) {
        let (word, io) = self.read32_run(REG_INTERRUPT, io);
        (word as u8, io)
    }

    /// The interrupt pin byte.
    pub open spec fn interrupt_pin_run(self, io: Io) -> (u8, Io) {
        let (word, io) = self.read32_run(REG_INTERRUPT, io);
        (((word >> 8) & 0xFF) as u8, io)
    }

    /// The address in the usual notation, such as `00:1f.0`.
    pub open spec fn text(self) -> Seq<char> {
        padded(self.bus as nat, 16, 2) + ":"@ + padded(self.dev as nat, 16, 2) + "."@ + padded(
            self.func as nat,
            16,
            1,
        )
    }

    /// An address, where device and function are in range.
    pub fn new(bus: u8, dev: u8, func: u8) -> (address: Option<Self>)
        ensures
            address == (if dev < MAX_DEVICES_PER_BUS && func < MAX_FUNCTIONS_PER_DEVICE {
                Some(PciAddress { bus, dev, func })
            } else {
                None
            }),
    {
        if dev < MAX_DEVICES_PER_BUS && func < MAX_FUNCTIONS_PER_DEVICE {
            Some(PciAddress { bus, dev, func })
        } else {
            None
        }
    }

    pub fn bus(self) -> (bus: u8)
        ensures
            bus == self.bus,
    {
        self.bus
    }

    pub fn dev(self) -> (dev: u8)
        ensures
            dev == self.dev,
    {
        self.dev
    }

    pub fn device(self) -> (dev: u8)
        ensures
            dev == self.dev,
    {
        self.dev
    }

    pub fn func(self) -> (func: u8)
        ensures
            func == self.func,
    {
        self.func
    }

    pub fn function(self) -> (func: u8)
        ensures
            func == self.func,
    {
        self.func
    }

    /// The word that selects the dword at `offset`.
    pub fn make_address(self, offset: u8) -> (word: u32)
        ensures
            word == self.select_word(offset),
    {
        CONFIG_ENABLE | ((self.bus as u32) << 16) | ((self.dev as u32) << 11) | ((self.func as u32)
            << 8) | ((offset as u32) & OFFSET_MASK)
    }

    /// Read the dword at `offset`.
    pub fn read32<M: Machine>(self, machine: &mut M, offset: u8) -> (value: u32)
        ensures
            (value, final(machine).io()) == self.read32_run(offset, old(machine).io()),
    {
        machine.write32(Place::Port(CONFIG_ADDRESS), self.make_address(offset));
        machine.read32(Place::Port(CONFIG_DATA))
    }

    /// Write the dword at `offset`.
    pub fn write32<M: Machine>(self, machine: &mut M, offset: u8, value: u32)
        ensures
            final(machine).io() == self.write32_run(offset, value, old(machine).io()),
    {
        machine.write32(Place::Port(CONFIG_ADDRESS), self.make_address(offset));
        machine.write32(Place::Port(CONFIG_DATA), value);
    }

    /// Read the byte at `offset`.
    pub fn read8<M: Machine>(self, machine: &mut M, offset: u8) -> (value: u8)
        ensures
            (value, final(machine).io()) == self.read8_run(offset, old(machine).io()),
    {
        machine.write32(Place::Port(CONFIG_ADDRESS), self.make_address(offset));
        proof {
            lemma_mask8(offset, 3);
        }
        machine.read8(Place::Port(CONFIG_DATA + (offset & 3) as u16))
    }

    /// Read the word at `offset`, which must not cross a dword.
    pub fn read16<M: Machine>(self, machine: &mut M, offset: u8) -> (value: u16)
        requires
            offset & 3 <= 2,
        ensures
            (value, final(machine).io()) == self.read16_run(offset, old(machine).io()),
    {
        machine.write32(Place::Port(CONFIG_ADDRESS), self.make_address(offset));
        machine.read16(Place::Port(CONFIG_DATA + (offset & 3) as u16))
    }

    /// Write the byte at `offset`.
    pub fn write8<M: Machine>(self, machine: &mut M, offset: u8, value: u8)
        ensures
            final(machine).io() == self.write8_run(offset, value, old(machine).io()),
    {
        machine.write32(Place::Port(CONFIG_ADDRESS), self.make_address(offset));
        proof {
            lemma_mask8(offset, 3);
        }
        machine.write8(Place::Port(CONFIG_DATA + (offset & 3) as u16), value);
    }

    /// Write the word at `offset`, which must not cross a dword.
    pub fn write16<M: Machine>(self, machine: &mut M, offset: u8, value: u16)
        requires
            offset & 3 <= 2,
        ensures
            final(machine).io() == self.write16_run(offset, value, old(machine).io()),
    {
        machine.write32(Place::Port(CONFIG_ADDRESS), self.make_address(offset));
        machine.write16(Place::Port(CONFIG_DATA + (offset & 3) as u16), value);
    }

    /// The vendor word.
    pub fn read_vendor<M: Machine>(self, machine: &mut M) -> (value: u16)
        ensures
            (value, final(machine).io()) == self.vendor_run(old(machine).io()),
    {
        self.read32(machine, REG_VENDOR_DEVICE) as u16
    }

    /// The device word.
    pub fn read_device<M: Machine>(self, machine: &mut M) -> (value: u16)
        ensures
            (value, final(machine).io()) == self.device_run(old(machine).io()),
    {
        (self.read32(machine, REG_VENDOR_DEVICE) >> 16) as u16
    }

    /// Class, subclass and programming interface.
    pub fn read_class<M: Machine>(self, machine: &mut M) -> (value: u32)
        ensures
            (value, final(machine).io()) == self.class_run(old(machine).io()),
    {
        (self.read32(machine, REG_CLASS_REVISION) >> 8) & 0x00FF_FFFF
    }

    /// The header byte, multi-function bit included.
    pub fn read_header_type_byte<M: Machine>(self, machine: &mut M) -> (value: u8)
        ensures
            (value, final(machine).io()) == self.header_byte_run(old(machine).io()),
    {
        let dword: u32 = self.read32(machine, REG_HEADER_BIST);
        ((dword >> 16) & 0xFF) as u8
    }

    /// The header layout.
    pub fn read_header_type<M: Machine>(self, machine: &mut M) -> (value: PciHeaderType)
        ensures
            value == PciHeaderType::of_byte(self.header_byte_run(old(machine).io()).0),
            final(machine).io() == self.header_byte_run(old(machine).io()).1,
    {
        PciHeaderType::from_byte(self.read_header_type_byte(machine))
    }

    /// Whether the device has more than one function.
    pub fn is_multifunction<M: Machine>(self, machine: &mut M) -> (value: bool)
        ensures
            value == (self.header_byte_run(old(machine).io()).0 & 0x80 != 0),
            final(machine).io() == self.header_byte_run(old(machine).io()).1,
    {
        self.read_header_type_byte(machine) & 0x80 != 0
    }

    /// Base address register `index`; nothing is read where there is none.
    pub fn read_bar<M: Machine>(self, machine: &mut M, index: usize) -> (value: Option<u32>)
        ensures
            index >= NUM_BARS ==> value is None && final(machine).io() == old(machine).io(),
            index < NUM_BARS ==> value is Some && (value->0, final(machine).io()) == self.bar_run(
                index as int,
                old(machine).io(),
            ),
    {
        if index >= NUM_BARS {
            return None;
        }
        let offset: u8 = REG_BAR0 + (index as u8) * 4;
        Some(self.read32(machine, offset))
    }

    /// The interrupt line that firmware programmed.
    pub fn read_interrupt_line<M: Machine>(self, machine: &mut M) -> (value: u8)
        ensures
            (value, final(machine).io()) == self.interrupt_line_run(old(machine).io()),
    {
        self.read32(machine, REG_INTERRUPT) as u8
    }

    /// The interrupt pin: zero for none, one to four for A to D.
    pub fn read_interrupt_pin<M: Machine>(self, machine: &mut M) -> (value: u8)
        ensures
            (value, final(machine).io()) == self.interrupt_pin_run(old(machine).io()),
    {
        ((self.read32(machine, REG_INTERRUPT) >> 8) & 0xFF) as u8
    }

    /// The command word.
    pub fn read_command<M: Machine>(self, machine: &mut M) -> (value: u16)
        ensures
            (value, final(machine).io()) == self.command_run(old(machine).io()),
    {
        self.read32(machine, REG_COMMAND_STATUS) as u16
    }

    /// The status word.
    pub fn read_status<M: Machine>(self, machine: &mut M) -> (value: u16)
        ensures
            (value, final(machine).io()) == self.status_run(old(machine).io()),
    {
        (self.read32(machine, REG_COMMAND_STATUS) >> 16) as u16
    }

    /// Write the command word and keep the status word as it reads.
    pub fn write_command<M: Machine>(self, machine: &mut M, command: u16)
        ensures
            final(machine).io() == self.write_command_run(command, old(machine).io()),
    {
        let status: u16 = self.read_status(machine);
        let packed: u32 = ((status as u32) << 16) | (command as u32);
        self.write32(machine, REG_COMMAND_STATUS, packed);
    }

    /// Whether a function answers at this address.
    pub fn is_present<M: Machine>(self, machine: &mut M) -> (present: bool)
        ensures
            present == (self.vendor_run(old(machine).io()).0 != VENDOR_NONE),
            final(machine).io() == self.vendor_run(old(machine).io()).1,
    {
        self.read_vendor(machine) != VENDOR_NONE
    }

    /// The address in the usual notation, such as `00:1f.0`.
    pub fn to_string(self) -> (text: String)
        ensures
            text@ == self.text(),
    {
        let mut text: String = String::new();
        push_number(&mut text, self.bus as u32, 16, 2);
        push_text(&mut text, ":");
        push_number(&mut text, self.dev as u32, 16, 2);
        push_text(&mut text, ".");
        push_number(&mut text, self.func as u32, 16, 1);
        assert(text@ == self.text());
        text
    }
}

/// The layout of the header beyond its common part.
#[derive(Copy, Clone, Debug, Eq, PartialEq, Hash, Structural)]
pub enum PciHeaderType {
    General,
    PciBridge,
    CardbusBridge,
    Unknown(u8),
}

impl PciHeaderType {
    /// The layout a header byte names; its top bit says something else.
    pub open spec fn of_byte(byte: u8) -> Self {
        let layout = byte & 0x7F;
        if layout == 0 {
            PciHeaderType::General
        } else if layout == 1 {
            PciHeaderType::PciBridge
        } else if layout == 2 {
            PciHeaderType::CardbusBridge
        } else {
            PciHeaderType::Unknown(layout)
        }
    }

    /// The layout number.
    pub open spec fn number(self) -> u8 {
        match self {
            PciHeaderType::General => 0,
            PciHeaderType::PciBridge => 1,
            PciHeaderType::CardbusBridge => 2,
            PciHeaderType::Unknown(other) => other,
        }
    }

    pub fn from_byte(byte: u8) -> (layout: Self)
        ensures
            layout == Self::of_byte(byte),
    {
        match byte & 0x7F {
            0 => PciHeaderType::General,
            1 => PciHeaderType::PciBridge,
            2 => PciHeaderType::CardbusBridge,
            other => PciHeaderType::Unknown(other),
        }
    }

    pub fn raw(self) -> (byte: u8)
        ensures
            byte == self.number(),
    {
        match self {
            PciHeaderType::General => 0,
            PciHeaderType::PciBridge => 1,
            PciHeaderType::CardbusBridge => 2,
            PciHeaderType::Unknown(other) => other,
        }
    }

    pub fn is_general(self) -> (general: bool)
        ensures
            general == (self == PciHeaderType::General),
    {
        matches!(self, PciHeaderType::General)
    }

    pub fn is_bridge(self) -> (bridge: bool)
        ensures
            bridge == (self == PciHeaderType::PciBridge),
    {
        matches!(self, PciHeaderType::PciBridge)
    }

    /// The layout in words.
    pub open spec fn text(self) -> Seq<char> {
        match self {
            PciHeaderType::General => "general"@,
            PciHeaderType::PciBridge => "pci-bridge"@,
            PciHeaderType::CardbusBridge => "cardbus-bridge"@,
            PciHeaderType::Unknown(other) => "header-"@ + padded(other as nat, 10, 1),
        }
    }

    /// The layout in words.
    pub fn to_string(self) -> (text: String)
        ensures
            text@ == self.text(),
    {
        let mut text: String = String::new();
        match self {
            PciHeaderType::General => push_text(&mut text, "general"),
            PciHeaderType::PciBridge => push_text(&mut text, "pci-bridge"),
            PciHeaderType::CardbusBridge => push_text(&mut text, "cardbus-bridge"),
            PciHeaderType::Unknown(other) => {
                push_text(&mut text, "header-");
                push_number(&mut text, other as u32, 10, 1);
            },
        }
        assert(text@ == self.text());
        text
    }
}

proof fn lemma_select_word_fields(bus: u8, dev: u8, func: u8, offset: u8)
    by (bit_vector)
    requires
        dev < 32,
        func < 8,
    ensures
        (0x8000_0000u32 | ((bus as u32) << 16) | ((dev as u32) << 11) | ((func as u32) << 8) | ((
        offset as u32) & 0xFC)) == 0x8000_0000 + bus * 65536 + dev * 2048 + func * 256 + offset / 4
            * 4,
{
}

/// The selecting word of a valid address holds each field in its own place.
pub proof fn lemma_select_word_is_packed(address: PciAddress, offset: u8)
    requires
        address.is_valid(),
    ensures
        address.select_word(offset) == 0x8000_0000 + address.bus * 65536 + address.dev * 2048
            + address.func * 256 + offset / 4 * 4,
{
    lemma_select_word_fields(address.bus, address.dev, address.func, offset);
}

/// Two valid addresses select the same dword only where they name the same
/// function, and the offsets lie in the same dword.
pub proof fn lemma_select_word_is_injective(a: PciAddress, x: u8, b: PciAddress, y: u8)
    requires
        a.is_valid(),
        b.is_valid(),
    ensures
        a.select_word(x) == b.select_word(y) <==> a == b && x / 4 == y / 4,
{
    lemma_select_word_is_packed(a, x);
    lemma_select_word_is_packed(b, y);
    lemma_digits(
        a.bus as int,
        a.dev as int,
        a.func as int,
        x as int / 4,
        b.bus as int,
        b.dev as int,
        b.func as int,
        y as int / 4,
    );
}

proof fn lemma_place_value(high: int, low: int, high2: int, low2: int, unit: int)
    requires
        0 <= low < unit,
        0 <= low2 < unit,
        high * unit + low == high2 * unit + low2,
    ensures
        high == high2,
        low == low2,
{
    vstd::arithmetic::div_mod::lemma_fundamental_div_mod_converse(
        high * unit + low,
        unit,
        high,
        low,
    );
    vstd::arithmetic::div_mod::lemma_fundamental_div_mod_converse(
        high2 * unit + low2,
        unit,
        high2,
        low2,
    );
}

proof fn lemma_digits(
    bus: int,
    dev: int,
    func: int,
    word: int,
    bus2: int,
    dev2: int,
    func2: int,
    word2: int,
)
    requires
        0 <= dev < 32,
        0 <= func < 8,
        0 <= word < 64,
        0 <= dev2 < 32,
        0 <= func2 < 8,
        0 <= word2 < 64,
    ensures
        bus * 65536 + dev * 2048 + func * 256 + word * 4 == bus2 * 65536 + dev2 * 2048 + func2 * 256
            + word2 * 4 ==> bus == bus2 && dev == dev2 && func == func2 && word == word2,
{
    if bus * 65536 + dev * 2048 + func * 256 + word * 4 == bus2 * 65536 + dev2 * 2048 + func2 * 256
        + word2 * 4 {
        lemma_place_value(
            bus,
            dev * 2048 + func * 256 + word * 4,
            bus2,
            dev2 * 2048 + func2 * 256 + word2 * 4,
            65536,
        );
        lemma_place_value(
            dev,
            func * 256 + word * 4,
            dev2,
            func2 * 256 + word2 * 4,
            2048,
        );
        lemma_place_value(func, word * 4, func2, word2 * 4, 256);
    }
}

proof fn lemma_seven_bits(byte: u8)
    by (bit_vector)
    ensures
        (byte & 0x7F) & 0x7F == byte & 0x7F,
        (byte | 0x80) & 0x7F == byte & 0x7F,
        0u8 & 0x7F == 0,
        1u8 & 0x7F == 1,
        2u8 & 0x7F == 2,
{
}

/// The multi-function bit has no part in the layout, and the layout number
/// leads back to the layout.
pub proof fn lemma_header_type_round_trip(byte: u8)
    ensures
        PciHeaderType::of_byte(byte | 0x80) == PciHeaderType::of_byte(byte),
        PciHeaderType::of_byte(byte).number() == byte & 0x7F,
        PciHeaderType::of_byte(PciHeaderType::of_byte(byte).number()) == PciHeaderType::of_byte(
            byte,
        ),
{
    lemma_seven_bits(byte);
}

} // verus!
