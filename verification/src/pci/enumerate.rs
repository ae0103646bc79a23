//! Discovery of every function behind the host bridge, and the binding of
//! drivers to what was found.
use vstd::prelude::*;
use crate::bits::no_flags;
use crate::driver::Devices;
use crate::machine::{Io, Machine};
use crate::pci::config::{PciAddress, REG_CLASS_REVISION, REG_INTERRUPT, VENDOR_NONE};
use crate::pci::routing;
use crate::pci::routing::{RouteTable, RoutingDatabase};
use crate::text::{padded, push_number, push_text};

verus! {

pub const HEADER_TYPE_MULTIFUNCTION: u8 = 0x80;
pub const HEADER_TYPE_MASK: u8 = 0x7F;
pub const BASE_CLASS_BRIDGE: u8 = 0x06;
/// The register that holds the number of the bus behind a bridge.
pub const REG_SECONDARY_BUS: u8 = 0x19;
/// Drivers offered to one device at most.
pub const MAX_CLAIMANTS: usize = 8;

/// The layout of a header.
#[derive(Clone, Copy, Debug, PartialEq, Eq, Structural)]
pub enum PciHeaderKind {
    Device,
    Bridge,
    CardBus,
    /// Any other layout, with the whole header byte.
    Other(u8),
}

impl PciHeaderKind {
    /// The layout a header byte names.
    pub open spec fn of_raw(raw: u8) -> Self {
        match raw & HEADER_TYPE_MASK {
            0 => PciHeaderKind::Device,
            1 => PciHeaderKind::Bridge,
            2 => PciHeaderKind::CardBus,
            _ => PciHeaderKind::Other(raw),
        }
    }

    pub fn from_raw(raw: u8) -> (kind: Self)
        ensures
            kind == Self::of_raw(raw),
    {
        match raw & HEADER_TYPE_MASK {
            0 => PciHeaderKind::Device,
            1 => PciHeaderKind::Bridge,
            2 => PciHeaderKind::CardBus,
            _ => PciHeaderKind::Other(raw),
        }
    }

    /// Whether a header byte announces more than one function.
    pub fn is_multifunction(raw: u8) -> (multi: bool)
        ensures
            multi == (raw & HEADER_TYPE_MULTIFUNCTION != 0),
    {
        raw & HEADER_TYPE_MULTIFUNCTION != 0
    }
}

/// The base classes.
#[derive(Clone, Copy, Debug, PartialEq, Eq, Structural)]
pub enum PciClassCode {
    Unclassified,
    MassStorageController,
    NetworkController,
    DisplayController,
    MultimediaController,
    MemoryController,
    BridgeDevice,
    CommunicationController,
    GenericSystemPeripheral,
    InputDeviceController,
    DockingStation,
    Processor,
    SerialBusController,
    WirelessController,
    IntelligentController,
    SatelliteCommunicationController,
    EncryptionController,
    SignalProcessingController,
    ProcessingAccelerator,
    Other(u8),
}

impl PciClassCode {
    /// The class with a given number.
    pub open spec fn of_base(base: u8) -> Self {
        match base {
            0x00 => PciClassCode::Unclassified,
            0x01 => PciClassCode::MassStorageController,
            0x02 => PciClassCode::NetworkController,
            0x03 => PciClassCode::DisplayController,
            0x04 => PciClassCode::MultimediaController,
            0x05 => PciClassCode::MemoryController,
            0x06 => PciClassCode::BridgeDevice,
            0x07 => PciClassCode::CommunicationController,
            0x08 => PciClassCode::GenericSystemPeripheral,
            0x09 => PciClassCode::InputDeviceController,
            0x0A => PciClassCode::DockingStation,
            0x0B => PciClassCode::Processor,
            0x0C => PciClassCode::SerialBusController,
            0x0D => PciClassCode::WirelessController,
            0x0E => PciClassCode::IntelligentController,
            0x0F => PciClassCode::SatelliteCommunicationController,
            0x10 => PciClassCode::EncryptionController,
            0x11 => PciClassCode::SignalProcessingController,
            0x12 => PciClassCode::ProcessingAccelerator,
            other => PciClassCode::Other(other),
        }
    }

    pub fn from_base_class(base: u8) -> (class: Self)
        ensures
            class == Self::of_base(base),
    {
        match base {
            0x00 => PciClassCode::Unclassified,
            0x01 => PciClassCode::MassStorageController,
            0x02 => PciClassCode::NetworkController,
            0x03 => PciClassCode::DisplayController,
            0x04 => PciClassCode::MultimediaController,
            0x05 => PciClassCode::MemoryController,
            0x06 => PciClassCode::BridgeDevice,
            0x07 => PciClassCode::CommunicationController,
            0x08 => PciClassCode::GenericSystemPeripheral,
            0x09 => PciClassCode::InputDeviceController,
            0x0A => PciClassCode::DockingStation,
            0x0B => PciClassCode::Processor,
            0x0C => PciClassCode::SerialBusController,
            0x0D => PciClassCode::WirelessController,
            0x0E => PciClassCode::IntelligentController,
            0x0F => PciClassCode::SatelliteCommunicationController,
            0x10 => PciClassCode::EncryptionController,
            0x11 => PciClassCode::SignalProcessingController,
            0x12 => PciClassCode::ProcessingAccelerator,
            other => PciClassCode::Other(other),
        }
    }

    /// The class in words.
    pub open spec fn text(self) -> Seq<char> {
        match self {
            PciClassCode::Unclassified => "unclassified"@,
            PciClassCode::MassStorageController => "mass storage controller"@,
            PciClassCode::NetworkController => "network controller"@,
            PciClassCode::DisplayController => "display controller"@,
            PciClassCode::MultimediaController => "multimedia controller"@,
            PciClassCode::MemoryController => "memory controller"@,
            PciClassCode::BridgeDevice => "bridge"@,
            PciClassCode::CommunicationController => "communication controller"@,
            PciClassCode::GenericSystemPeripheral => "generic system peripheral"@,
            PciClassCode::InputDeviceController => "input device controller"@,
            PciClassCode::DockingStation => "docking station"@,
            PciClassCode::Processor => "processor"@,
            PciClassCode::SerialBusController => "serial bus controller"@,
            PciClassCode::WirelessController => "wireless controller"@,
            PciClassCode::IntelligentController => "intelligent controller"@,
            PciClassCode::SatelliteCommunicationController => "satellite comm controller"@,
            PciClassCode::EncryptionController => "encryption controller"@,
            PciClassCode::SignalProcessingController => "signal processing controller"@,
            PciClassCode::ProcessingAccelerator => "processing accelerator"@,
            PciClassCode::Other(_) => "other"@,
        }
    }

    pub fn name(&self) -> (name: &'static str)
        ensures
            name@ == self.text(),
    {
        match self {
            PciClassCode::Unclassified => "unclassified",
            PciClassCode::MassStorageController => "mass storage controller",
            PciClassCode::NetworkController => "network controller",
            PciClassCode::DisplayController => "display controller",
            PciClassCode::MultimediaController => "multimedia controller",
            PciClassCode::MemoryController => "memory controller",
            PciClassCode::BridgeDevice => "bridge",
            PciClassCode::CommunicationController => "communication controller",
            PciClassCode::GenericSystemPeripheral => "generic system peripheral",
            PciClassCode::InputDeviceController => "input device controller",
            PciClassCode::DockingStation => "docking station",
            PciClassCode::Processor => "processor",
            PciClassCode::SerialBusController => "serial bus controller",
            PciClassCode::WirelessController => "wireless controller",
            PciClassCode::IntelligentController => "intelligent controller",
            PciClassCode::SatelliteCommunicationController => "satellite comm controller",
            PciClassCode::EncryptionController => "encryption controller",
            PciClassCode::SignalProcessingController => "signal processing controller",
            PciClassCode::ProcessingAccelerator => "processing accelerator",
            PciClassCode::Other(_) => "other",
        }
    }
}

/// The subclass in words.
pub open spec fn subclass_text(base: u8, sub: u8) -> Seq<char> {
    match (base, sub) {
        (0x01, 0x00) => "SCSI storage"@,
        (0x01, 0x01) => "IDE storage"@,
        (0x01, 0x02) => "floppy controller"@,
        (0x01, 0x04) => "RAID controller"@,
        (0x01, 0x05) => "ATA controller"@,
        (0x01, 0x06) => "SATA controller"@,
        (0x01, 0x07) => "SAS controller"@,
        (0x01, 0x08) => "NVMe controller"@,
        (0x02, 0x00) => "ethernet controller"@,
        (0x02, 0x01) => "token-ring controller"@,
        (0x02, 0x07) => "infiniband controller"@,
        (0x03, 0x00) => "VGA display"@,
        (0x03, 0x01) => "XGA display"@,
        (0x03, 0x02) => "3D controller"@,
        (0x06, 0x00) => "host bridge"@,
        (0x06, 0x01) => "ISA bridge"@,
        (0x06, 0x04) => "PCI-to-PCI bridge"@,
        (0x06, 0x07) => "CardBus bridge"@,
        (0x06, 0x09) => "PCI-to-PCI bridge (semi-transparent)"@,
        (0x0C, 0x03) => "USB controller"@,
        _ => "other"@,
    }
}

/// Whether a subclass has a name of its own.
pub open spec fn subclass_is_named(base: u8, sub: u8) -> bool {
    match (base, sub) {
        (0x01, 0x00) => true,
        (0x01, 0x01) => true,
        (0x01, 0x02) => true,
        (0x01, 0x04) => true,
        (0x01, 0x05) => true,
        (0x01, 0x06) => true,
        (0x01, 0x07) => true,
        (0x01, 0x08) => true,
        (0x02, 0x00) => true,
        (0x02, 0x01) => true,
        (0x02, 0x07) => true,
        (0x03, 0x00) => true,
        (0x03, 0x01) => true,
        (0x03, 0x02) => true,
        (0x06, 0x00) => true,
        (0x06, 0x01) => true,
        (0x06, 0x04) => true,
        (0x06, 0x07) => true,
        (0x06, 0x09) => true,
        (0x0C, 0x03) => true,
        _ => false,
    }
}

fn named_subclass(base: u8, sub: u8) -> (name: Option<&'static str>)
    ensures
        name is Some <==> subclass_is_named(base, sub),
        name is Some ==> name->0@ == subclass_text(base, sub),
{
    match (base, sub) {
        (0x01, 0x00) => Some("SCSI storage"),
        (0x01, 0x01) => Some("IDE storage"),
        (0x01, 0x02) => Some("floppy controller"),
        (0x01, 0x04) => Some("RAID controller"),
        (0x01, 0x05) => Some("ATA controller"),
        (0x01, 0x06) => Some("SATA controller"),
        (0x01, 0x07) => Some("SAS controller"),
        (0x01, 0x08) => Some("NVMe controller"),
        (0x02, 0x00) => Some("ethernet controller"),
        (0x02, 0x01) => Some("token-ring controller"),
        (0x02, 0x07) => Some("infiniband controller"),
        (0x03, 0x00) => Some("VGA display"),
        (0x03, 0x01) => Some("XGA display"),
        (0x03, 0x02) => Some("3D controller"),
        (0x06, 0x00) => Some("host bridge"),
        (0x06, 0x01) => Some("ISA bridge"),
        (0x06, 0x04) => Some("PCI-to-PCI bridge"),
        (0x06, 0x07) => Some("CardBus bridge"),
        (0x06, 0x09) => Some("PCI-to-PCI bridge (semi-transparent)"),
        (0x0C, 0x03) => Some("USB controller"),
        _ => None,
    }
}

/// The subclass in words.
pub fn subclass_name(base: u8, sub: u8) -> (name: &'static str)
    ensures
        name@ == subclass_text(base, sub),
{
    match named_subclass(base, sub) {
        Some(name) => name,
        None => "other",
    }
}
/// What a base address register maps.
#[derive(Clone, Copy, Debug, PartialEq, Eq, Structural)]
pub enum PciBarKind {
    Io,
    Mem32,
    Mem64,
    /// Memory below one mebibyte.
    Mem16,
    Reserved,
}

/// One decoded base address register.
#[derive(Clone, Copy, Debug, PartialEq, Eq, Structural)]
pub struct PciBarInfo {
    pub index: u8,
    pub kind: PciBarKind,
    pub prefetchable: bool,
    pub address: u64,
}

/// What the header of one function says.
#[derive(Clone, Copy, Debug)]
pub struct PciDevice {
    pub address: PciAddress,
    pub vendor_id: u16,
    pub device_id: u16,
    pub revision: u8,
    pub prog_if: u8,
    pub subclass: u8,
    pub base_class: u8,
    pub header_kind: PciHeaderKind,
    pub multifunction: bool,
    pub bars: [u32; 6],
    pub interrupt_line: u8,
    pub interrupt_pin: u8,
}

/// Whether a register value asks for the next register too: a memory
/// register of type two.
pub open spec fn is_wide(raw: u32) -> bool {
    raw & 0x1 == 0 && (raw >> 1) & 0b11 == 0b10
}

/// Whether register `index` holds the upper half of the one before it.
///
/// A register that is an upper half itself starts no address, whatever its
/// bits look like.
pub open spec fn is_high_half(bars: Seq<u32>, index: int) -> bool
    decreases index,
{
    0 < index < 6 && !is_high_half(bars, index - 1) && is_wide(bars[index - 1])
}

/// The decoded register `index` of six.
pub open spec fn decoded_bar(bars: Seq<u32>, index: u8) -> PciBarInfo {
    let raw = bars[index as int];
    if is_high_half(bars, index as int) {
        PciBarInfo { index, kind: PciBarKind::Reserved, prefetchable: false, address: 0 }
    } else if raw == 0 {
        PciBarInfo { index, kind: PciBarKind::Mem32, prefetchable: false, address: 0 }
    } else if raw & 0x1 != 0 {
        PciBarInfo {
            index,
            kind: PciBarKind::Io,
            prefetchable: false,
            address: (raw & 0xFFFF_FFFC) as u64,
        }
    } else {
        let prefetchable = raw & 0x8 != 0;
        let low = (raw & 0xFFFF_FFF0) as u64;
        match (raw >> 1) & 0b11 {
            0b00 => PciBarInfo { index, kind: PciBarKind::Mem32, prefetchable, address: low },
            0b01 => PciBarInfo { index, kind: PciBarKind::Mem16, prefetchable, address: low },
            0b10 => if index < 5 {
                PciBarInfo {
                    index,
                    kind: PciBarKind::Mem64,
                    prefetchable,
                    address: low | ((bars[index + 1] as u64) << 32),
                }
            } else {
                PciBarInfo { index, kind: PciBarKind::Reserved, prefetchable, address: low }
            },
            _ => PciBarInfo { index, kind: PciBarKind::Reserved, prefetchable, address: low },
        }
    }
}

/// Two neighbouring registers are never both upper halves.
pub proof fn lemma_high_halves_are_apart(bars: Seq<u32>, index: int)
    ensures
        !(is_high_half(bars, index) && is_high_half(bars, index + 1)),
{
}

/// Revision, programming interface, subclass and base class.
pub open spec fn class_code_run(address: PciAddress, io: Io) -> ((u8, u8, u8, u8), Io) {
    let (d, io) = address.read32_run(REG_CLASS_REVISION, io);
    (
        (
            (d & 0xFF) as u8,
            ((d >> 8) & 0xFF) as u8,
            ((d >> 16) & 0xFF) as u8,
            ((d >> 24) & 0xFF) as u8,
        ),
        io,
    )
}

/// Interrupt line and pin.
pub open spec fn interrupt_run(address: PciAddress, io: Io) -> ((u8, u8), Io) {
    let (d, io) = address.read32_run(REG_INTERRUPT, io);
    (((d & 0xFF) as u8, ((d >> 8) & 0xFF) as u8), io)
}

fn read_class_code<M: Machine>(machine: &mut M, address: PciAddress) -> (code: (u8, u8, u8, u8))
    ensures
        (code, final(machine).io()) == class_code_run(address, old(machine).io()),
{
    let d: u32 = address.read32(machine, REG_CLASS_REVISION);
    (
        (d & 0xFF) as u8,
        ((d >> 8) & 0xFF) as u8,
        ((d >> 16) & 0xFF) as u8,
        ((d >> 24) & 0xFF) as u8,
    )
}

fn read_interrupt<M: Machine>(machine: &mut M, address: PciAddress) -> (wiring: (u8, u8))
    ensures
        (wiring, final(machine).io()) == interrupt_run(address, old(machine).io()),
{
    let d: u32 = address.read32(machine, REG_INTERRUPT);
    ((d & 0xFF) as u8, ((d >> 8) & 0xFF) as u8)
}

impl PciDevice {
    /// What a probe of `address` finds.
    pub open spec fn probe_run(address: PciAddress, io: Io) -> (Option<PciDevice>, Io) {
        let (vendor_id, io) = address.vendor_run(io);
        if vendor_id == VENDOR_NONE {
            (None, io)
        } else {
            let (device_id, io) = address.device_run(io);
            let (class, io) = class_code_run(address, io);
            let (header, io) = address.header_byte_run(io);
            let (b0, io) = address.bar_run(0, io);
            let (b1, io) = address.bar_run(1, io);
            let (b2, io) = address.bar_run(2, io);
            let (b3, io) = address.bar_run(3, io);
            let (b4, io) = address.bar_run(4, io);
            let (b5, io) = address.bar_run(5, io);
            let (wiring, io) = interrupt_run(address, io);
            (
                Some(
                    PciDevice {
                        address,
                        vendor_id,
                        device_id,
                        revision: class.0,
                        prog_if: class.1,
                        subclass: class.2,
                        base_class: class.3,
                        header_kind: PciHeaderKind::of_raw(header),
                        multifunction: header & HEADER_TYPE_MULTIFUNCTION != 0,
                        bars: [b0, b1, b2, b3, b4, b5],
                        interrupt_line: wiring.0,
                        interrupt_pin: wiring.1,
                    },
                ),
                io,
            )
        }
    }

    /// Read the header of the function at `address`, where there is one.
    pub fn probe<M: Machine>(machine: &mut M, address: PciAddress) -> (found: Option<Self>)
        ensures
            (found, final(machine).io()) == Self::probe_run(address, old(machine).io()),
    {
        let vendor_id: u16 = address.read_vendor(machine);
        if vendor_id == VENDOR_NONE {
            return None;
        }
        let device_id: u16 = address.read_device(machine);
        let class: (u8, u8, u8, u8) = read_class_code(machine, address);
        let header: u8 = address.read_header_type_byte(machine);
        let b0: u32 = address.read_bar(machine, 0).unwrap_or(0);
        let b1: u32 = address.read_bar(machine, 1).unwrap_or(0);
        let b2: u32 = address.read_bar(machine, 2).unwrap_or(0);
        let b3: u32 = address.read_bar(machine, 3).unwrap_or(0);
        let b4: u32 = address.read_bar(machine, 4).unwrap_or(0);
        let b5: u32 = address.read_bar(machine, 5).unwrap_or(0);
        let wiring: (u8, u8) = read_interrupt(machine, address);
        Some(
            PciDevice {
                address,
                vendor_id,
                device_id,
                revision: class.0,
                prog_if: class.1,
                subclass: class.2,
                base_class: class.3,
                header_kind: PciHeaderKind::from_raw(header),
                multifunction: PciHeaderKind::is_multifunction(header),
                bars: [b0, b1, b2, b3, b4, b5],
                interrupt_line: wiring.0,
                interrupt_pin: wiring.1,
            },
        )
    }

    pub fn class_code(&self) -> (class: PciClassCode)
        ensures
            class == PciClassCode::of_base(self.base_class),
    {
        PciClassCode::from_base_class(self.base_class)
    }

    /// Vendor, device and address.
    pub open spec fn id_text(self) -> Seq<char> {
        padded(self.vendor_id as nat, 16, 4) + ":"@ + padded(self.device_id as nat, 16, 4)
            + " @ "@ + self.address.text()
    }

    /// Vendor, device and address, such as `8086:100e @ 00:03.0`.
    pub fn describe_id(&self) -> (text: String)
        ensures
            text@ == self.id_text(),
    {
        let mut text: String = String::new();
        push_number(&mut text, self.vendor_id as u32, 16, 4);
        push_text(&mut text, ":");
        push_number(&mut text, self.device_id as u32, 16, 4);
        push_text(&mut text, " @ ");
        let address: String = self.address.to_string();
        push_text(&mut text, address.as_str());
        assert(text@ == self.id_text());
        text
    }

    /// The subclass where it has a name, else the class.
    pub open spec fn label(self) -> Seq<char> {
        if subclass_is_named(self.base_class, self.subclass) {
            subclass_text(self.base_class, self.subclass)
        } else {
            PciClassCode::of_base(self.base_class).text()
        }
    }

    /// The identity, the class and the revision in one line.
    pub open spec fn text(self) -> Seq<char> {
        self.id_text() + " ["@ + self.label() + " rev "@ + padded(self.revision as nat, 16, 2)
            + "]"@
    }

    /// The identity, the class and the revision in one line.
    pub fn describe(&self) -> (text: String)
        ensures
            text@ == self.text(),
    {
        let mut text: String = self.describe_id();
        push_text(&mut text, " [");
        match named_subclass(self.base_class, self.subclass) {
            Some(name) => push_text(&mut text, name),
            None => push_text(&mut text, self.class_code().name()),
        }
        push_text(&mut text, " rev ");
        push_number(&mut text, self.revision as u32, 16, 2);
        push_text(&mut text, "]");
        assert(text@ == self.text());
        text
    }

    /// The decoded register `index`.
    pub fn bar(&self, index: u8) -> (info: Option<PciBarInfo>)
        ensures
            info == (if index < 6 {
                Some(decoded_bar(self.bars@, index))
            } else {
                None
            }),
    {
        if index >= 6 {
            return None;
        }
        if self.bar_is_high_half(index) {
            return Some(
                PciBarInfo { index, kind: PciBarKind::Reserved, prefetchable: false, address: 0 },
            );
        }
        let raw: u32 = self.bars[index as usize];
        if raw == 0 {
            return Some(
                PciBarInfo { index, kind: PciBarKind::Mem32, prefetchable: false, address: 0 },
            );
        }
        if raw & 0x1 != 0 {
            return Some(
                PciBarInfo {
                    index,
                    kind: PciBarKind::Io,
                    prefetchable: false,
                    address: (raw & 0xFFFF_FFFC) as u64,
                },
            );
        }
        let prefetchable: bool = raw & 0x8 != 0;
        let low: u64 = (raw & 0xFFFF_FFF0) as u64;
        let (kind, address): (PciBarKind, u64) = match (raw >> 1) & 0b11 {
            0b00 => (PciBarKind::Mem32, low),
            0b01 => (PciBarKind::Mem16, low),
            0b10 => if index < 5 {
                (PciBarKind::Mem64, low | ((self.bars[index as usize + 1] as u64) << 32))
            } else {
                (PciBarKind::Reserved, low)
            },
            _ => (PciBarKind::Reserved, low),
        };
        Some(PciBarInfo { index, kind, prefetchable, address })
    }

    /// Whether register `index` holds the upper half of the one before it.
    pub fn bar_is_high_half(&self, index: u8) -> (high: bool)
        ensures
            high == is_high_half(self.bars@, index as int),
    {
        if index == 0 || index >= 6 {
            return false;
        }
        let mut slot: u8 = 0;
        while slot < 6
            invariant
                0 < index < 6,
                slot <= 7,
                !is_high_half(self.bars@, slot as int),
                slot <= index || !is_high_half(self.bars@, index as int),
            decreases 8 - slot,
        {
            let raw: u32 = self.bars[slot as usize];
            let consumes_next: bool = raw & 0x1 == 0 && (raw >> 1) & 0b11 == 0b10 && slot < 5;
            if consumes_next {
                if slot + 1 == index {
                    return true;
                }
                assert(is_high_half(self.bars@, slot + 1));
                slot = slot + 2;
            } else {
                if slot >= index {
                    return false;
                }
                slot = slot + 1;
            }
        }
        false
    }
}

impl PciDevice {
    /// Whether the device is a bridge to another bus.
    pub open spec fn leads_on(self) -> bool {
        self.base_class == BASE_CLASS_BRIDGE && (self.subclass == 0x04 || self.subclass == 0x07
            || self.subclass == 0x09)
    }
}

/// The number of the bus behind a bridge; nothing is read for another device.
pub open spec fn bridge_bus_run(device: PciDevice, io: Io) -> (Option<u8>, Io) {
    if device.leads_on() {
        let (bus, io) = device.address.read8_run(REG_SECONDARY_BUS, io);
        (Some(bus), io)
    } else {
        (None, io)
    }
}

fn bridge_secondary_bus<M: Machine>(machine: &mut M, device: &PciDevice) -> (bus: Option<u8>)
    ensures
        (bus, final(machine).io()) == bridge_bus_run(*device, old(machine).io()),
{
    if device.base_class != BASE_CLASS_BRIDGE {
        return None;
    }
    match device.subclass {
        0x04 | 0x07 | 0x09 => Some(device.address.read8(machine, REG_SECONDARY_BUS)),
        _ => None,
    }
}

/// A scan under way: what was found, and the buses that were entered.
pub struct Scan {
    pub found: Seq<PciDevice>,
    pub visited: Seq<bool>,
    pub io: Io,
}

/// Scan a bus and every bus behind its bridges; a bus that was entered before
/// is left alone.  No more than `depth` buses are nested.
pub open spec fn scan_bus_run(depth: nat, bus: u8, scan: Scan) -> Scan
    decreases depth, 0nat,
{
    if depth == 0 || scan.visited[bus as int] {
        scan
    } else {
        scan_slots_run(
            (depth - 1) as nat,
            bus,
            0,
            false,
            Scan { visited: scan.visited.update(bus as int, true), ..scan },
        )
    }
}

/// Scan the functions of a bus from number `slot` on, counted over all
/// devices.  Functions behind the first are probed only where the first one
/// announced them.
pub open spec fn scan_slots_run(depth: nat, bus: u8, slot: nat, multi: bool, scan: Scan) -> Scan
    decreases depth, (258 - slot) as nat,
    when slot <= 256
{
    if slot >= 256 {
        scan
    } else if slot % 8 != 0 && !multi {
        scan_slots_run(depth, bus, slot + 1, multi, scan)
    } else {
        let address = PciAddress { bus, dev: (slot / 8) as u8, func: (slot % 8) as u8 };
        let (found, io) = PciDevice::probe_run(address, scan.io);
        let scan = Scan { io, ..scan };
        match found {
            None => scan_slots_run(depth, bus, slot + 1, slot % 8 != 0 && multi, scan),
            Some(device) => scan_slots_run(
                depth,
                bus,
                slot + 1,
                if slot % 8 == 0 {
                    device.multifunction
                } else {
                    multi
                },
                emit_run(depth, device, scan),
            ),
        }
    }
}

/// Add a device, and where it is a bridge scan the bus behind it.
pub open spec fn emit_run(depth: nat, device: PciDevice, scan: Scan) -> Scan
    decreases depth, 1nat,
{
    let (secondary, io) = bridge_bus_run(device, scan.io);
    let scan = Scan { found: scan.found.push(device), io, ..scan };
    match secondary {
        Some(bus) => if bus != device.address.bus {
            scan_bus_run(depth, bus, scan)
        } else {
            scan
        },
        None => scan,
    }
}

/// The scan of everything behind bus zero.
pub open spec fn enumerate_run(io: Io) -> Scan {
    scan_bus_run(
        256,
        0,
        Scan {
            found: Seq::<PciDevice>::empty(),
            visited: Seq::new(256, |i: int| false),
            io,
        },
    )
}

/// How many buses were not entered yet.
pub open spec fn unvisited(visited: Seq<bool>) -> nat
    decreases visited.len(),
{
    if visited.len() == 0 {
        0
    } else {
        unvisited(visited.drop_last()) + if visited.last() {
            0nat
        } else {
            1nat
        }
    }
}

pub(crate) proof fn lemma_unvisited_bound(visited: Seq<bool>)
    ensures
        unvisited(visited) <= visited.len(),
    decreases visited.len(),
{
    if visited.len() > 0 {
        lemma_unvisited_bound(visited.drop_last());
    }
}

pub(crate) proof fn lemma_unvisited_enter(visited: Seq<bool>, bus: int)
    requires
        0 <= bus < visited.len(),
        !visited[bus],
    ensures
        unvisited(visited) > 0,
        unvisited(visited.update(bus, true)) == unvisited(visited) - 1,
    decreases visited.len(),
{
    if bus == visited.len() - 1 {
        assert(visited.update(bus, true).drop_last() == visited.drop_last());
    } else {
        lemma_unvisited_enter(visited.drop_last(), bus);
        assert(visited.update(bus, true).drop_last() == visited.drop_last().update(bus, true));
    }
}

fn scan_bus<M: Machine>(
    machine: &mut M,
    bus: u8,
    out: &mut Vec<PciDevice>,
    visited: &mut [bool; 256],
    Ghost(depth): Ghost<nat>,
)
    requires
        unvisited(old(visited)@) <= depth,
    ensures
        (Scan { found: final(out)@, visited: final(visited)@, io: final(machine).io() })
            == scan_bus_run(
            depth,
            bus,
            Scan { found: old(out)@, visited: old(visited)@, io: old(machine).io() },
        ),
        unvisited(final(visited)@) <= unvisited(old(visited)@),
    decreases depth, 0nat,
{
    if visited[bus as usize] {
        return ;
    }
    proof {
        lemma_unvisited_enter(visited@, bus as int);
    }
    let ghost start = Scan { found: out@, visited: visited@, io: machine.io() };
    visited[bus as usize] = true;
    let ghost inner = (depth - 1) as nat;
    let mut slot: u16 = 0;
    let mut multifunction: bool = false;
    while slot < 256
        invariant
            slot <= 256,
            depth > 0,
            inner == depth - 1,
            unvisited(visited@) <= inner,
            unvisited(visited@) <= unvisited(old(visited)@),
            scan_bus_run(depth, bus, start) == scan_slots_run(
                inner,
                bus,
                slot as nat,
                multifunction,
                Scan { found: out@, visited: visited@, io: machine.io() },
            ),
            start == (Scan { found: old(out)@, visited: old(visited)@, io: old(machine).io() }),
        decreases 256 - slot,
    {
        let function: u8 = (slot % 8) as u8;
        if function == 0 || multifunction {
            let address = PciAddress { bus, dev: (slot / 8) as u8, func: function };
            match PciDevice::probe(machine, address) {
                None => {
                    if function == 0 {
                        multifunction = false;
                    }
                },
                Some(device) => {
                    if function == 0 {
                        multifunction = device.multifunction;
                    }
                    emit_function(machine, device, out, visited, Ghost(inner));
                },
            }
        }
        slot = slot + 1;
    }
}

fn emit_function<M: Machine>(
    machine: &mut M,
    device: PciDevice,
    out: &mut Vec<PciDevice>,
    visited: &mut [bool; 256],
    Ghost(depth): Ghost<nat>,
)
    requires
        unvisited(old(visited)@) <= depth,
    ensures
        (Scan { found: final(out)@, visited: final(visited)@, io: final(machine).io() })
            == emit_run(
            depth,
            device,
            Scan { found: old(out)@, visited: old(visited)@, io: old(machine).io() },
        ),
        unvisited(final(visited)@) <= unvisited(old(visited)@),
    decreases depth, 1nat,
{
    out.push(device);
    if let Some(secondary) = bridge_secondary_bus(machine, &device) {
        if secondary != device.address.bus() {
            scan_bus(machine, secondary, out, visited, Ghost(depth));
        }
    }
}

/// Every function that can be reached from bus zero, in the order in which it
/// was found.
pub fn enumerate_bus<M: Machine>(machine: &mut M) -> (found: Vec<PciDevice>)
    ensures
        found@ == enumerate_run(old(machine).io()).found,
        final(machine).io() == enumerate_run(old(machine).io()).io,
{
    let mut found: Vec<PciDevice> = Vec::new();
    let mut visited: [bool; 256] = no_flags();
    proof {
        lemma_unvisited_bound(visited@);
    }
    scan_bus(machine, 0, &mut found, &mut visited, Ghost(256));
    found
}

/// Where a function stands among all functions of its bus.
pub open spec fn slot_of(address: PciAddress) -> int {
    address.dev * 8 + address.func
}

/// Whether a scan is sound: valid addresses on buses that were entered, each
/// address at most once.
pub open spec fn scan_is_sound(scan: Scan) -> bool {
    &&& scan.visited.len() == 256
    &&& forall|i: int|
        0 <= i < scan.found.len() ==> (#[trigger] scan.found[i]).address.is_valid()
            && scan.visited[scan.found[i].address.bus as int]
    &&& forall|i: int, j: int|
        0 <= i < j < scan.found.len() ==> (#[trigger] scan.found[i]).address != (
        #[trigger] scan.found[j]).address
}

/// Whether `later` only added to `scan`, and only on buses that had not been
/// entered, or on `bus`.
spec fn scan_grows(scan: Scan, later: Scan, bus: Option<u8>) -> bool {
    &&& scan.found.len() <= later.found.len()
    &&& forall|i: int| 0 <= i < scan.found.len() ==> (#[trigger] later.found[i]) == scan.found[i]
    &&& forall|b: int| 0 <= b < 256 && scan.visited[b] ==> #[trigger] later.visited[b]
    &&& forall|i: int|
        scan.found.len() <= i < later.found.len() ==> (!scan.visited[(
        #[trigger] later.found[i]).address.bus as int] || bus == Some(later.found[i].address.bus))
}

proof fn lemma_scan_bus_sound(depth: nat, bus: u8, scan: Scan)
    requires
        scan_is_sound(scan),
    ensures
        scan_is_sound(scan_bus_run(depth, bus, scan)),
        scan_grows(scan, scan_bus_run(depth, bus, scan), None),
    decreases depth, 0nat,
{
    if depth != 0 && !scan.visited[bus as int] {
        let entered = Scan { visited: scan.visited.update(bus as int, true), ..scan };
        assert(scan_is_sound(entered));
        assert forall|i: int| 0 <= i < entered.found.len() implies (
        #[trigger] entered.found[i]).address.bus != bus by {
            assert(scan.visited[scan.found[i].address.bus as int]);
        }
        lemma_scan_slots_sound((depth - 1) as nat, bus, 0, false, entered);
    }
}

proof fn lemma_scan_slots_sound(depth: nat, bus: u8, slot: nat, multi: bool, scan: Scan)
    requires
        slot <= 256,
        scan_is_sound(scan),
        scan.visited[bus as int],
        forall|i: int|
            0 <= i < scan.found.len() && (#[trigger] scan.found[i]).address.bus == bus ==> slot_of(
                scan.found[i].address,
            ) < slot,
    ensures
        scan_is_sound(scan_slots_run(depth, bus, slot, multi, scan)),
        scan_grows(scan, scan_slots_run(depth, bus, slot, multi, scan), Some(bus)),
    decreases depth, (258 - slot) as nat,
{
    if slot >= 256 {
    } else if slot % 8 != 0 && !multi {
        lemma_scan_slots_sound(depth, bus, slot + 1, multi, scan);
    } else {
        let address = PciAddress { bus, dev: (slot / 8) as u8, func: (slot % 8) as u8 };
        let (found, io) = PciDevice::probe_run(address, scan.io);
        let next = Scan { io, ..scan };
        assert(slot_of(address) == slot);
        match found {
            None => {
                lemma_scan_slots_sound(depth, bus, slot + 1, slot % 8 != 0 && multi, next);
            },
            Some(device) => {
                assert(device.address == address);
                lemma_emit_sound(depth, device, next);
                let emitted = emit_run(depth, device, next);
                let still = if slot % 8 == 0 {
                    device.multifunction
                } else {
                    multi
                };
                assert forall|i: int|
                    0 <= i < emitted.found.len() && (#[trigger] emitted.found[i]).address.bus
                        == bus implies slot_of(emitted.found[i].address) < slot + 1 by {
                    if i < scan.found.len() {
                        assert(emitted.found[i] == scan.found[i]);
                    }
                }
                lemma_scan_slots_sound(depth, bus, slot + 1, still, emitted);
                let last = scan_slots_run(depth, bus, slot + 1, still, emitted);
                assert forall|i: int| 0 <= i < scan.found.len() implies (#[trigger] last.found[i])
                    == scan.found[i] by {
                    assert(emitted.found[i] == scan.found[i]);
                }
                assert forall|i: int| scan.found.len() <= i < last.found.len() implies (
                !scan.visited[(#[trigger] last.found[i]).address.bus as int] || Some(bus) == Some(
                    last.found[i].address.bus,
                )) by {
                    if i < emitted.found.len() {
                        assert(last.found[i] == emitted.found[i]);
                    }
                }
            },
        }
    }
}

proof fn lemma_emit_sound(depth: nat, device: PciDevice, scan: Scan)
    requires
        scan_is_sound(scan),
        device.address.is_valid(),
        scan.visited[device.address.bus as int],
        forall|i: int|
            0 <= i < scan.found.len() ==> (#[trigger] scan.found[i]).address != device.address,
    ensures
        scan_is_sound(emit_run(depth, device, scan)),
        scan.found.len() < emit_run(depth, device, scan).found.len(),
        emit_run(depth, device, scan).found[scan.found.len() as int] == device,
        forall|i: int|
            0 <= i < scan.found.len() ==> (#[trigger] emit_run(depth, device, scan).found[i])
                == scan.found[i],
        forall|b: int|
            0 <= b < 256 && scan.visited[b] ==> #[trigger] emit_run(
                depth,
                device,
                scan,
            ).visited[b],
        forall|i: int|
            scan.found.len() < i < emit_run(depth, device, scan).found.len() ==> !scan.visited[(
            #[trigger] emit_run(depth, device, scan).found[i]).address.bus as int],
    decreases depth, 1nat,
{
    let (secondary, io) = bridge_bus_run(device, scan.io);
    let pushed = Scan { found: scan.found.push(device), io, ..scan };
    assert(scan_is_sound(pushed));
    assert(pushed.found[scan.found.len() as int] == device);
    match secondary {
        Some(bus) => {
            if bus != device.address.bus {
                lemma_scan_bus_sound(depth, bus, pushed);
                let last = scan_bus_run(depth, bus, pushed);
                assert forall|i: int| 0 <= i < scan.found.len() implies (#[trigger] last.found[i])
                    == scan.found[i] by {
                    assert(pushed.found[i] == scan.found[i]);
                }
                assert(last.found[scan.found.len() as int] == pushed.found[scan.found.len() as int]);
            }
        },
        None => {},
    }
}

/// Whether the first function of a device was found, and announced more.
pub open spec fn is_announced(found: Seq<PciDevice>, bus: u8, dev: u8) -> bool {
    exists|j: int|
        0 <= j < found.len() && (#[trigger] found[j]).address == (PciAddress { bus, dev, func: 0 })
            && found[j].multifunction
}

/// Whether a bridge on another bus was found that can lead to a bus; bus zero
/// needs none.
pub open spec fn is_reached(found: Seq<PciDevice>, bus: u8) -> bool {
    bus == 0 || exists|j: int|
        0 <= j < found.len() && (#[trigger] found[j]).leads_on() && found[j].address.bus != bus
}

/// Whether every function has a reason to be found: one behind the first comes
/// after the first, which announced it, and one on another bus than zero comes
/// after a bridge on another bus than its own.
pub open spec fn scan_is_led(found: Seq<PciDevice>) -> bool {
    &&& forall|i: int|
        0 <= i < found.len() && (#[trigger] found[i]).address.func != 0 ==> is_announced(
            found.take(i),
            found[i].address.bus,
            found[i].address.dev,
        )
    &&& forall|i: int|
        0 <= i < found.len() ==> is_reached(found.take(i), (#[trigger] found[i]).address.bus)
}

/// Whether a list starts with another one.
spec fn starts_with(longer: Seq<PciDevice>, found: Seq<PciDevice>) -> bool {
    found.len() <= longer.len() && longer.take(found.len() as int) == found
}

proof fn lemma_starts_with(longer: Seq<PciDevice>, middle: Seq<PciDevice>, found: Seq<PciDevice>)
    requires
        starts_with(longer, middle),
        starts_with(middle, found),
    ensures
        starts_with(longer, found),
{
    assert(longer.take(found.len() as int) =~= longer.take(middle.len() as int).take(
        found.len() as int,
    ));
}

proof fn lemma_reasons_last(longer: Seq<PciDevice>, found: Seq<PciDevice>, bus: u8, dev: u8)
    requires
        starts_with(longer, found),
    ensures
        is_reached(found, bus) ==> is_reached(longer, bus),
        is_announced(found, bus, dev) ==> is_announced(longer, bus, dev),
{
    assert forall|j: int| 0 <= j < found.len() implies #[trigger] found[j] == longer[j] by {
        assert(longer.take(found.len() as int)[j] == longer[j]);
    }
    if is_reached(found, bus) && bus != 0 {
        let j = choose|j: int|
            0 <= j < found.len() && (#[trigger] found[j]).leads_on() && found[j].address.bus
                != bus;
        assert(longer[j].leads_on());
    }
    if is_announced(found, bus, dev) {
        let j = choose|j: int|
            0 <= j < found.len() && (#[trigger] found[j]).address == (PciAddress {
                bus,
                dev,
                func: 0,
            }) && found[j].multifunction;
        assert(longer[j].multifunction);
    }
}

proof fn lemma_one_more_is_led(found: Seq<PciDevice>, device: PciDevice)
    requires
        scan_is_led(found),
        is_reached(found, device.address.bus),
        device.address.func != 0 ==> is_announced(found, device.address.bus, device.address.dev),
    ensures
        scan_is_led(found.push(device)),
        starts_with(found.push(device), found),
{
    let more = found.push(device);
    assert(more.take(found.len() as int) =~= found);
    assert forall|i: int| 0 <= i < found.len() implies #[trigger] more.take(i) == found.take(
        i,
    ) by {
        assert(more.take(i) =~= found.take(i));
    }
    assert forall|i: int| 0 <= i < more.len() && (#[trigger] more[i]).address.func
        != 0 implies is_announced(more.take(i), more[i].address.bus, more[i].address.dev) by {
        if i < found.len() {
            assert(more[i] == found[i]);
            assert(more.take(i) == found.take(i));
        }
    }
    assert forall|i: int| 0 <= i < more.len() implies is_reached(
        more.take(i),
        (#[trigger] more[i]).address.bus,
    ) by {
        if i < found.len() {
            assert(more[i] == found[i]);
            assert(more.take(i) == found.take(i));
        }
    }
}

proof fn lemma_scan_bus_led(depth: nat, bus: u8, scan: Scan)
    requires
        scan_is_led(scan.found),
        is_reached(scan.found, bus),
    ensures
        scan_is_led(scan_bus_run(depth, bus, scan).found),
        starts_with(scan_bus_run(depth, bus, scan).found, scan.found),
    decreases depth, 0nat,
{
    assert(scan.found.take(scan.found.len() as int) =~= scan.found);
    if depth != 0 && !scan.visited[bus as int] {
        let entered = Scan { visited: scan.visited.update(bus as int, true), ..scan };
        lemma_scan_slots_led((depth - 1) as nat, bus, 0, false, entered);
    }
}

proof fn lemma_scan_slots_led(depth: nat, bus: u8, slot: nat, multi: bool, scan: Scan)
    requires
        slot <= 256,
        scan_is_led(scan.found),
        is_reached(scan.found, bus),
        multi && slot % 8 != 0 ==> is_announced(scan.found, bus, (slot / 8) as u8),
    ensures
        scan_is_led(scan_slots_run(depth, bus, slot, multi, scan).found),
        starts_with(scan_slots_run(depth, bus, slot, multi, scan).found, scan.found),
    decreases depth, (258 - slot) as nat,
{
    assert(scan.found.take(scan.found.len() as int) =~= scan.found);
    if slot >= 256 {
    } else if slot % 8 != 0 && !multi {
        lemma_scan_slots_led(depth, bus, slot + 1, multi, scan);
    } else {
        let address = PciAddress { bus, dev: (slot / 8) as u8, func: (slot % 8) as u8 };
        let (found, io) = PciDevice::probe_run(address, scan.io);
        let next = Scan { io, ..scan };
        match found {
            None => {
                lemma_scan_slots_led(depth, bus, slot + 1, slot % 8 != 0 && multi, next);
            },
            Some(device) => {
                assert(device.address == address);
                lemma_emit_led(depth, device, next);
                let emitted = emit_run(depth, device, next);
                let still = if slot % 8 == 0 {
                    device.multifunction
                } else {
                    multi
                };
                lemma_reasons_last(emitted.found, scan.found, bus, (slot / 8) as u8);
                if slot % 8 == 0 && still {
                    assert(emitted.found[scan.found.len() as int].address == address);
                }
                lemma_scan_slots_led(depth, bus, slot + 1, still, emitted);
                lemma_starts_with(
                    scan_slots_run(depth, bus, slot + 1, still, emitted).found,
                    emitted.found,
                    scan.found,
                );
            },
        }
    }
}

proof fn lemma_emit_led(depth: nat, device: PciDevice, scan: Scan)
    requires
        scan_is_led(scan.found),
        is_reached(scan.found, device.address.bus),
        device.address.func != 0 ==> is_announced(
            scan.found,
            device.address.bus,
            device.address.dev,
        ),
    ensures
        scan_is_led(emit_run(depth, device, scan).found),
        starts_with(emit_run(depth, device, scan).found, scan.found),
        scan.found.len() < emit_run(depth, device, scan).found.len(),
        emit_run(depth, device, scan).found[scan.found.len() as int] == device,
    decreases depth, 1nat,
{
    let (secondary, io) = bridge_bus_run(device, scan.io);
    let pushed = Scan { found: scan.found.push(device), io, ..scan };
    lemma_one_more_is_led(scan.found, device);
    let last = scan.found.len() as int;
    assert(pushed.found[last] == device);
    if let Some(bus) = secondary {
        if bus != device.address.bus {
            assert(is_reached(pushed.found, bus));
            lemma_scan_bus_led(depth, bus, pushed);
            let behind = scan_bus_run(depth, bus, pushed).found;
            lemma_starts_with(behind, pushed.found, scan.found);
            assert(behind.take(pushed.found.len() as int)[last] == behind[last]);
        }
    }
}

/// However bridges are programmed, discovery ends, and it reports no function
/// twice.  A function behind the first of its device comes after the first,
/// which announced it; a function on another bus than zero comes after a bridge
/// on another bus.
pub proof fn lemma_enumeration_is_sound(io: Io)
    ensures
        scan_is_sound(enumerate_run(io)),
        scan_is_led(enumerate_run(io).found),
{
    let start = Scan {
        found: Seq::<PciDevice>::empty(),
        visited: Seq::new(256, |i: int| false),
        io,
    };
    lemma_scan_bus_sound(256, 0, start);
    lemma_scan_bus_led(256, 0, start);
}

/// Why a driver did not take a device.
#[derive(Debug)]
pub enum PciDriverError {
    BarUnreadable,
    NoInterrupt,
    ProbeFailed(&'static str),
}

impl PciDriverError {
    /// The reason in words.
    pub open spec fn text(self) -> Seq<char> {
        match self {
            PciDriverError::BarUnreadable => "BAR unreadable"@,
            PciDriverError::NoInterrupt => "no interrupt pin"@,
            PciDriverError::ProbeFailed(reason) => "probe failed: "@ + reason@,
        }
    }

    /// The reason in words.
    pub fn to_string(&self) -> (text: String)
        ensures
            text@ == self.text(),
    {
        let mut text: String = String::new();
        match self {
            PciDriverError::BarUnreadable => push_text(&mut text, "BAR unreadable"),
            PciDriverError::NoInterrupt => push_text(&mut text, "no interrupt pin"),
            PciDriverError::ProbeFailed(reason) => {
                push_text(&mut text, "probe failed: ");
                push_text(&mut text, reason);
            },
        }
        assert(text@ == self.text());
        text
    }
}

/// A driver for some PCI devices.
pub trait PciDriver {
    /// Whether the driver claims a device.
    spec fn claims(&self, device: PciDevice) -> bool;

    /// A short, stable name.
    fn name(&self) -> (name: &'static str);

    /// Whether the driver claims a device.
    fn matches(&self, device: &PciDevice) -> (claimed: bool)
        ensures
            claimed == self.claims(*device),
    ;

    /// Whether bringing a device up may turn one state into another, with a
    /// certain outcome.
    spec fn brings_up(
        &self,
        device: PciDevice,
        before: Devices,
        io: Io,
        result: Result<(), PciDriverError>,
        after: Devices,
        later: Io,
    ) -> bool;

    /// Bring a device up.
    fn probe<M: Machine>(&self, machine: &mut M, devices: &mut Devices, device: &PciDevice) -> (result:
        Result<(), PciDriverError>)
        ensures
            self.brings_up(
                *device,
                *old(devices),
                old(machine).io(),
                result,
                *final(devices),
                final(machine).io(),
            ),
    ;
}

/// A registered driver, and the key that tells it from every other.
pub struct RegisteredDriver<D> {
    pub key: usize,
    pub driver: D,
}

/// Whether a key is taken.
pub open spec fn is_taken<D>(drivers: Seq<RegisteredDriver<D>>, key: usize) -> bool {
    exists|i: int| 0 <= i < drivers.len() && (#[trigger] drivers[i]).key == key
}

/// The drivers with one more, unless its key is taken.
pub open spec fn enrolled<D>(drivers: Seq<RegisteredDriver<D>>, key: usize, driver: D) -> Seq<
    RegisteredDriver<D>,
> {
    if is_taken(drivers, key) {
        drivers
    } else {
        drivers.push(RegisteredDriver { key, driver })
    }
}

/// The registered drivers, in order of registration.
pub struct DriverRegistry<D> {
    pub drivers: Vec<RegisteredDriver<D>>,
}

impl<D> DriverRegistry<D> {
    /// Whether no key is taken twice.
    pub open spec fn wf(self) -> bool {
        forall|i: int, j: int|
            0 <= i < j < self.drivers@.len() ==> (#[trigger] self.drivers@[i]).key != (
            #[trigger] self.drivers@[j]).key
    }

    pub fn new() -> (registry: Self)
        ensures
            registry.drivers@.len() == 0,
            registry.wf(),
    {
        DriverRegistry { drivers: Vec::new() }
    }
}

/// Register a driver.  A key that is registered already stays as it is.
pub fn register_driver<D>(registry: &mut DriverRegistry<D>, key: usize, driver: D)
    requires
        old(registry).wf(),
    ensures
        final(registry).wf(),
        final(registry).drivers@ == enrolled(
            old(registry).drivers@,
            key,
            driver,
        ),
{
    let mut i: usize = 0;
    while i < registry.drivers.len()
        invariant
            registry.drivers@ == old(registry).drivers@,
            old(registry).wf(),
            i <= registry.drivers@.len(),
            forall|j: int| 0 <= j < i ==> (#[trigger] registry.drivers@[j]).key != key,
        decreases registry.drivers@.len() - i,
    {
        if registry.drivers[i].key == key {
            assert(registry.drivers@[i as int].key == key);
            return ;
        }
        i = i + 1;
    }
    registry.drivers.push(RegisteredDriver { key, driver });
}

/// The first drivers, from number `from` on, that claim a device: as many as
/// there is room for.
pub open spec fn claimants<D: PciDriver>(
    drivers: Seq<RegisteredDriver<D>>,
    device: PciDevice,
    from: int,
    room: nat,
) -> Seq<int>
    decreases drivers.len() - from,
{
    if from >= drivers.len() || room == 0 {
        Seq::empty()
    } else if drivers[from].driver.claims(device) {
        seq![from] + claimants(drivers, device, from + 1, (room - 1) as nat)
    } else {
        claimants(drivers, device, from + 1, room)
    }
}

/// One driver that was offered one device, both by number, and what came of it.
pub struct Binding {
    pub device: usize,
    pub driver: usize,
    pub outcome: Result<(), PciDriverError>,
}

/// The pairs of device and driver that a pass over `devices` offers, in order.
pub open spec fn offers<D: PciDriver>(
    drivers: Seq<RegisteredDriver<D>>,
    devices: Seq<PciDevice>,
) -> Seq<(int, int)>
    decreases devices.len(),
{
    if devices.len() == 0 {
        Seq::empty()
    } else {
        let last = devices.len() - 1;
        let chosen = claimants(drivers, devices[last], 0, MAX_CLAIMANTS as nat);
        offers(drivers, devices.drop_last()) + Seq::new(
            chosen.len(),
            |k: int| (last as int, chosen[k]),
        )
    }
}

/// The pairs a list of bindings speaks of.
pub open spec fn offered(bindings: Seq<Binding>) -> Seq<(int, int)> {
    Seq::new(bindings.len(), |i: int| (bindings[i].device as int, bindings[i].driver as int))
}

/// Whether a list of bindings, made one after the other, may turn one state into
/// another.
pub open spec fn bindings_lead<D: PciDriver>(
    drivers: Seq<RegisteredDriver<D>>,
    found: Seq<PciDevice>,
    bindings: Seq<Binding>,
    before: Devices,
    io: Io,
    after: Devices,
    later: Io,
) -> bool
    decreases bindings.len(),
{
    if bindings.len() == 0 {
        after == before && later == io
    } else {
        let binding = bindings.last();
        exists|middle: Devices, reached: Io|
            {
                &&& bindings_lead(
                    drivers,
                    found,
                    bindings.drop_last(),
                    before,
                    io,
                    middle,
                    reached,
                )
                &&& #[trigger] drivers[binding.driver as int].driver.brings_up(
                    found[binding.device as int],
                    middle,
                    reached,
                    binding.outcome,
                    after,
                    later,
                )
            }
    }
}

proof fn lemma_one_more_binding<D: PciDriver>(
    drivers: Seq<RegisteredDriver<D>>,
    found: Seq<PciDevice>,
    bindings: Seq<Binding>,
    binding: Binding,
    before: Devices,
    io: Io,
    middle: Devices,
    reached: Io,
    after: Devices,
    later: Io,
)
    requires
        bindings_lead(drivers, found, bindings, before, io, middle, reached),
        drivers[binding.driver as int].driver.brings_up(
            found[binding.device as int],
            middle,
            reached,
            binding.outcome,
            after,
            later,
        ),
    ensures
        bindings_lead(drivers, found, bindings.push(binding), before, io, after, later),
{
    assert(bindings.push(binding).drop_last() =~= bindings);
}

fn collect_claimants<D: PciDriver>(registry: &DriverRegistry<D>, device: &PciDevice) -> (chosen: Vec<
    usize,
>)
    ensures
        Seq::new(chosen@.len(), |k: int| chosen@[k] as int) == claimants(
            registry.drivers@,
            *device,
            0,
            MAX_CLAIMANTS as nat,
        ),
        forall|k: int| 0 <= k < chosen@.len() ==> #[trigger] chosen@[k] < registry.drivers@.len(),
{
    let ghost all = claimants(registry.drivers@, *device, 0, MAX_CLAIMANTS as nat);
    let mut chosen: Vec<usize> = Vec::new();
    let mut i: usize = 0;
    while i < registry.drivers.len() && chosen.len() < MAX_CLAIMANTS
        invariant
            i <= registry.drivers@.len(),
            chosen@.len() <= MAX_CLAIMANTS,
            forall|k: int| 0 <= k < chosen@.len() ==> #[trigger] chosen@[k]
                < registry.drivers@.len(),
            all == Seq::new(chosen@.len(), |k: int| chosen@[k] as int) + claimants(
                registry.drivers@,
                *device,
                i as int,
                (MAX_CLAIMANTS - chosen@.len()) as nat,
            ),
        decreases registry.drivers@.len() - i,
    {
        let ghost before = chosen@;
        if registry.drivers[i].driver.matches(device) {
            chosen.push(i);
            proof {
                assert(Seq::new(chosen@.len(), |k: int| chosen@[k] as int) == Seq::new(
                    before.len(),
                    |k: int| before[k] as int,
                ) + seq![i as int]);
            }
        }
        i = i + 1;
    }
    assert(all == Seq::new(chosen@.len(), |k: int| chosen@[k] as int));
    chosen
}

/// Offer every device to the drivers that claim it, in order of registration.
///
/// A driver that fails does not keep the device from the next one.
pub fn probe_devices<D: PciDriver, M: Machine>(
    registry: &DriverRegistry<D>,
    machine: &mut M,
    devices: &mut Devices,
    found: &[PciDevice],
) -> (bindings: Vec<Binding>)
    ensures
        offered(bindings@) == offers(registry.drivers@, found@),
        bindings_lead(
            registry.drivers@,
            found@,
            bindings@,
            *old(devices),
            old(machine).io(),
            *final(devices),
            final(machine).io(),
        ),
{
    let mut bindings: Vec<Binding> = Vec::new();
    let mut d: usize = 0;
    assert(offered(bindings@) == offers(registry.drivers@, found@.take(0)));
    while d < found.len()
        invariant
            d <= found@.len(),
            offered(bindings@) == offers(registry.drivers@, found@.take(d as int)),
            bindings_lead(
                registry.drivers@,
                found@,
                bindings@,
                *old(devices),
                old(machine).io(),
                *devices,
                machine.io(),
            ),
        decreases found@.len() - d,
    {
        let ghost before = offered(bindings@);
        let ghost all = claimants(registry.drivers@, found@[d as int], 0, MAX_CLAIMANTS as nat);
        let snapshot: Vec<usize> = collect_claimants(registry, &found[d]);
        assert forall|j: int| 0 <= j < snapshot@.len() implies all[j] == #[trigger] snapshot@[j] by {
            assert(Seq::new(snapshot@.len(), |k: int| snapshot@[k] as int)[j] == snapshot@[j]);
        }
        let mut k: usize = 0;
        while k < snapshot.len()
            invariant
                k <= snapshot@.len(),
                d < found@.len(),
                all.len() == snapshot@.len(),
                forall|j: int|
                    0 <= j < snapshot@.len() ==> all[j] == #[trigger] snapshot@[j]
                        && snapshot@[j] < registry.drivers@.len(),
                offered(bindings@) == before + Seq::new(k as nat, |j: int| (d as int, all[j])),
                bindings_lead(
                    registry.drivers@,
                    found@,
                    bindings@,
                    *old(devices),
                    old(machine).io(),
                    *devices,
                    machine.io(),
                ),
            decreases snapshot@.len() - k,
        {
            let driver: usize = snapshot[k];
            let ghost middle = *devices;
            let ghost reached = machine.io();
            let ghost made = bindings@;
            let outcome = registry.drivers[driver].driver.probe(machine, devices, &found[d]);
            let ghost earlier = offered(bindings@);
            bindings.push(Binding { device: d, driver, outcome });
            proof {
                lemma_one_more_binding(
                    registry.drivers@,
                    found@,
                    made,
                    Binding { device: d, driver, outcome },
                    *old(devices),
                    old(machine).io(),
                    middle,
                    reached,
                    *devices,
                    machine.io(),
                );
            }
            assert(offered(bindings@) == earlier.push((d as int, driver as int)));
            k = k + 1;
        }
        proof {
            assert(found@.take(d + 1).drop_last() == found@.take(d as int));
            assert(found@.take(d + 1)[d as int] == found@[d as int]);
        }
        d = d + 1;
    }
    assert(found@.take(d as int) == found@);
    bindings
}

/// What discovery and binding came to.
pub struct Discovery {
    pub found: Vec<PciDevice>,
    pub routes: usize,
    pub bindings: Vec<Binding>,
}

/// Whether the functions of a bus, found and wired, may have been offered to
/// drivers with a certain result.
pub open spec fn discovered<D: PciDriver>(
    drivers: Seq<RegisteredDriver<D>>,
    tables: Option<Seq<RouteTable>>,
    before: Devices,
    io: Io,
    discovery: Discovery,
    after: Devices,
    later: Io,
) -> bool {
    let scan = enumerate_run(io);
    let (routes, parents, wired_io) = routing::init_run(scan.found, tables, scan.io);
    &&& discovery.found@ == scan.found
    &&& discovery.routes == routes.len()
    &&& offered(discovery.bindings@) == offers(drivers, scan.found)
    &&& exists|wired: Devices|
        {
            &&& wired.routing.routes@ == routes
            &&& wired.routing.parents@ == parents
            &&& wired == (Devices { routing: wired.routing, ..before })
            &&& #[trigger] bindings_lead(
                drivers,
                scan.found,
                discovery.bindings@,
                wired,
                wired_io,
                after,
                later,
            )
        }
}

/// Find every function, build the routing database and offer each function to
/// the registered drivers.
pub fn enumerate_and_bind<D: PciDriver, M: Machine>(
    registry: &DriverRegistry<D>,
    devices: &mut Devices,
    machine: &mut M,
    tables: Option<&Vec<RouteTable>>,
) -> (discovery: Discovery)
    ensures
        discovered(
            registry.drivers@,
            match tables {
                Some(list) => Some(list@),
                None => None,
            },
            *old(devices),
            old(machine).io(),
            discovery,
            *final(devices),
            final(machine).io(),
        ),
{
    let found: Vec<PciDevice> = enumerate_bus(machine);
    let routes: usize = routing::init(&mut devices.routing, machine, found.as_slice(), tables);
    let ghost wired = *devices;
    let bindings: Vec<Binding> = probe_devices(registry, machine, devices, found.as_slice());
    let discovery = Discovery { found, routes, bindings };
    proof {
        let list = match tables {
            Some(list) => Some(list@),
            None => None,
        };
        let scan = enumerate_run(old(machine).io());
        let reached = routing::init_run(scan.found, list, scan.io);
        assert(bindings_lead(
            registry.drivers@,
            scan.found,
            discovery.bindings@,
            wired,
            reached.2,
            *devices,
            machine.io(),
        ));
        assert(wired == (Devices { routing: wired.routing, ..*old(devices) }));
    }
    discovery
}

} // verus!
