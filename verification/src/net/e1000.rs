//! Intel gigabit adapters with legacy descriptors.
use vstd::prelude::*;
use crate::driver::{AnyDriver, Devices, KEY_E1000};
use crate::machine::{
    bytes_answered, bytes_loaded, bytes_stored, cell, cell_at, overlaid, overlay, poll_clear,
    wait_clear, Io, Machine, Order, Place, Query,
};
use crate::net::dma::{DmaError, DmaRegion};
use crate::net::{
    dma_fault, frame_padded, is_usable_mac, pad_frame, Adapter, DriverError, IrqDevice, MacAddress,
    NetworkAdapter, MAX_FRAME_LEN, MIN_FRAME_LEN, MTU,
};
use crate::pci::config::PciAddress;
use crate::pci::enumerate::{
    decoded_bar, is_high_half, register_driver, DriverRegistry, PciBarInfo, PciBarKind, PciDevice,
    PciDriver, PciDriverError, enrolled,
};
use crate::pci::PciCommand;

verus! {

pub const VENDOR_INTEL: u16 = 0x8086;

pub const CTRL: u64 = 0x0000;
pub const STATUS: u64 = 0x0008;
pub const EERD: u64 = 0x0014;
pub const ICR: u64 = 0x00c0;
pub const IMS: u64 = 0x00d0;
pub const IMC: u64 = 0x00d8;
pub const RCTL: u64 = 0x0100;
pub const TCTL: u64 = 0x0400;
pub const TIPG: u64 = 0x0410;
pub const RDBAL: u64 = 0x2800;
pub const RDBAH: u64 = 0x2804;
pub const RDLEN: u64 = 0x2808;
pub const RDH: u64 = 0x2810;
pub const RDT: u64 = 0x2818;
pub const TDBAL: u64 = 0x3800;
pub const TDBAH: u64 = 0x3804;
pub const TDLEN: u64 = 0x3808;
pub const TDH: u64 = 0x3810;
pub const TDT: u64 = 0x3818;
pub const RAL0: u64 = 0x5400;
pub const RAH0: u64 = 0x5404;
pub const CTRL_SLU: u32 = 0x0000_0040;
pub const CTRL_RST: u32 = 0x0400_0000;
pub const STATUS_LU: u32 = 0x0000_0002;
/// Receiver on, broadcasts taken, checksums stripped.
pub const RCTL_SETUP: u32 = 0x0400_8002;
/// Transmitter on, short frames padded, the usual collision parameters.
pub const TCTL_SETUP: u32 = 0x0004_010a;
pub const TIPG_SETUP: u32 = 0x0060_200a;
/// The receive address is valid.
pub const RAH_VALID: u32 = 0x8000_0000;
pub const EERD_START: u32 = 0x01;
pub const EERD_DONE: u32 = 0x10;
pub const RX_STATUS_DD: u8 = 0x01;
pub const RX_STATUS_EOP: u8 = 0x02;
pub const TX_STATUS_DD: u8 = 0x01;
/// End of frame, insert the checksum, report.
pub const TX_CMD_SETUP: u8 = 0x0b;
pub const INTERRUPT_TX_DESCRIPTOR_WRITTEN: u32 = 0x01;
pub const INTERRUPT_LINK_STATUS_CHANGE: u32 = 0x04;
pub const INTERRUPT_RX_SEQUENCE_ERROR: u32 = 0x08;
pub const INTERRUPT_RX_DESCRIPTOR_MINIMUM: u32 = 0x10;
pub const INTERRUPT_RX_OVERRUN: u32 = 0x40;
pub const INTERRUPT_RX_TIMER: u32 = 0x80;
pub const INTERRUPT_MASK: u32 = 0xdd;
pub const RING_COUNT: u16 = 32;
pub const BUFFER_LEN: usize = 2048;
pub const DESCRIPTOR_LEN: usize = 16;
pub const RING_BYTES: usize = 512;
pub const BUFFER_BYTES: usize = 65536;
pub const RESET_POLL_LIMIT: u32 = 2_000_000;
pub const EEPROM_POLL_LIMIT: u32 = 100_000;
/// The bits of a physical address.
pub const PHYSICAL_MASK: u64 = 0x000f_ffff_ffff_ffff;

/// A receive descriptor behind its address.
#[derive(Clone, Copy, Debug, PartialEq, Eq, Structural)]
pub struct RxDescriptor {
    pub address: u64,
    pub length: u16,
    pub checksum: u16,
    pub status: u8,
    pub errors: u8,
    pub special: u16,
}

/// A transmit descriptor.
#[derive(Clone, Copy, Debug, PartialEq, Eq, Structural)]
pub struct TxDescriptor {
    pub address: u64,
    pub length: u16,
    pub checksum_offset: u8,
    pub command: u8,
    pub status: u8,
    pub checksum_start: u8,
    pub special: u16,
}

impl RxDescriptor {
    /// The descriptor whose two words are given.
    pub open spec fn of(address: u64, word: u64) -> RxDescriptor {
        RxDescriptor {
            address,
            length: word as u16,
            checksum: (word >> 16) as u16,
            status: (word >> 32) as u8,
            errors: (word >> 40) as u8,
            special: (word >> 48) as u16,
        }
    }

    /// The word behind the address.
    pub open spec fn word(self) -> u64 {
        (self.length as u64) | ((self.checksum as u64) << 16) | ((self.status as u64) << 32) | ((
        self.errors as u64) << 40) | ((self.special as u64) << 48)
    }

    fn decode(address: u64, word: u64) -> (descriptor: Self)
        ensures
            descriptor == Self::of(address, word),
    {
        RxDescriptor {
            address,
            length: word as u16,
            checksum: (word >> 16) as u16,
            status: (word >> 32) as u8,
            errors: (word >> 40) as u8,
            special: (word >> 48) as u16,
        }
    }

    fn encode(self) -> (word: u64)
        ensures
            word == self.word(),
    {
        (self.length as u64) | ((self.checksum as u64) << 16) | ((self.status as u64) << 32) | ((
        self.errors as u64) << 40) | ((self.special as u64) << 48)
    }
}

impl TxDescriptor {
    /// The descriptor whose two words are given.
    pub open spec fn of(address: u64, word: u64) -> TxDescriptor {
        TxDescriptor {
            address,
            length: word as u16,
            checksum_offset: (word >> 16) as u8,
            command: (word >> 24) as u8,
            status: (word >> 32) as u8,
            checksum_start: (word >> 40) as u8,
            special: (word >> 48) as u16,
        }
    }

    /// The word behind the address.
    pub open spec fn word(self) -> u64 {
        (self.length as u64) | ((self.checksum_offset as u64) << 16) | ((self.command as u64) << 24)
            | ((self.status as u64) << 32) | ((self.checksum_start as u64) << 40) | ((
        self.special as u64) << 48)
    }

    fn decode(address: u64, word: u64) -> (descriptor: Self)
        ensures
            descriptor == Self::of(address, word),
    {
        TxDescriptor {
            address,
            length: word as u16,
            checksum_offset: (word >> 16) as u8,
            command: (word >> 24) as u8,
            status: (word >> 32) as u8,
            checksum_start: (word >> 40) as u8,
            special: (word >> 48) as u16,
        }
    }

    fn encode(self) -> (word: u64)
        ensures
            word == self.word(),
    {
        (self.length as u64) | ((self.checksum_offset as u64) << 16) | ((self.command as u64) << 24)
            | ((self.status as u64) << 32) | ((self.checksum_start as u64) << 40) | ((
        self.special as u64) << 48)
    }
}

proof fn lemma_rx_bits(length: u16, checksum: u16, status: u8, errors: u8, special: u16)
    by (bit_vector)
    ensures
        ({
            let w = (length as u64) | ((checksum as u64) << 16) | ((status as u64) << 32) | ((
            errors as u64) << 40) | ((special as u64) << 48);
            &&& w as u16 == length
            &&& (w >> 16) as u16 == checksum
            &&& (w >> 32) as u8 == status
            &&& (w >> 40) as u8 == errors
            &&& (w >> 48) as u16 == special
        }),
{
}

proof fn lemma_tx_bits(length: u16, offset: u8, command: u8, status: u8, start: u8, special: u16)
    by (bit_vector)
    ensures
        ({
            let w = (length as u64) | ((offset as u64) << 16) | ((command as u64) << 24) | ((
            status as u64) << 32) | ((start as u64) << 40) | ((special as u64) << 48);
            &&& w as u16 == length
            &&& (w >> 16) as u8 == offset
            &&& (w >> 24) as u8 == command
            &&& (w >> 32) as u8 == status
            &&& (w >> 40) as u8 == start
            &&& (w >> 48) as u16 == special
        }),
{
}

/// A descriptor that is written is the one that is read back.
pub proof fn lemma_descriptor_round_trip(rx: RxDescriptor, tx: TxDescriptor)
    ensures
        RxDescriptor::of(rx.address, rx.word()) == rx,
        TxDescriptor::of(tx.address, tx.word()) == tx,
{
    lemma_rx_bits(rx.length, rx.checksum, rx.status, rx.errors, rx.special);
    lemma_tx_bits(
        tx.length,
        tx.checksum_offset,
        tx.command,
        tx.status,
        tx.checksum_start,
        tx.special,
    );
}

/// The registers behind an address.
#[derive(Clone, Copy, Debug, PartialEq, Eq, Structural)]
pub struct Mmio {
    pub base: u64,
}

impl Mmio {
    pub open spec fn register(self, offset: u64) -> Place {
        cell(self.base, offset)
    }

    fn read32<M: Machine>(self, machine: &mut M, offset: u64) -> (value: u32)
        ensures
            (value, final(machine).io()) == old(machine).io().r32(self.register(offset)),
    {
        machine.read32(cell_at(self.base, offset))
    }

    fn write32<M: Machine>(self, machine: &mut M, offset: u64, value: u32)
        ensures
            final(machine).io() == old(machine).io().w32(self.register(offset), value),
    {
        machine.write32(cell_at(self.base, offset), value);
    }
}

/// What the interrupt path needs of an adapter.
#[derive(Clone, Copy, Debug, PartialEq, Eq, Structural)]
pub struct InterruptHandle {
    pub registers: Mmio,
}

impl InterruptHandle {
    /// Read the causes; where one is ours, mask them all.
    pub open spec fn acknowledge_run(self, io: Io) -> (u32, Io) {
        let (status, io) = io.r32(self.registers.register(ICR));
        if status == u32::MAX {
            (0, io)
        } else {
            let causes = status & INTERRUPT_MASK;
            if causes != 0 {
                (causes, io.w32(self.registers.register(IMC), INTERRUPT_MASK))
            } else {
                (causes, io)
            }
        }
    }

    pub open spec fn enable_run(self, io: Io) -> Io {
        io.w32(self.registers.register(IMS), INTERRUPT_MASK)
    }

    pub fn acknowledge_and_mask<M: Machine>(self, machine: &mut M) -> (causes: u32)
        ensures
            (causes, final(machine).io()) == self.acknowledge_run(old(machine).io()),
    {
        let status: u32 = self.registers.read32(machine, ICR);
        if status == u32::MAX {
            return 0;
        }
        let causes: u32 = status & INTERRUPT_MASK;
        if causes != 0 {
            self.registers.write32(machine, IMC, INTERRUPT_MASK);
        }
        causes
    }

    pub fn enable<M: Machine>(self, machine: &mut M)
        ensures
            final(machine).io() == self.enable_run(old(machine).io()),
    {
        self.registers.write32(machine, IMS, INTERRUPT_MASK);
    }
}

/// One adapter.
#[derive(Debug)]
pub struct E1000 {
    pub bdf: (u8, u8, u8),
    pub registers: Mmio,
    pub mac: MacAddress,
    pub rx_descriptors: DmaRegion,
    pub tx_descriptors: DmaRegion,
    pub rx_buffers: DmaRegion,
    pub tx_buffers: DmaRegion,
    pub rx_index: u16,
    pub tx_index: u16,
}

/// The first register window in memory, from register `from` on.
pub open spec fn window_run(device: PciDevice, from: int, io: Io) -> (Result<Mmio, DriverError>, Io)
    decreases 6 - from,
{
    if from >= 6 {
        (Err(DriverError::UnsupportedBar), io)
    } else {
        let bar = decoded_bar(device.bars@, from as u8);
        if !is_high_half(device.bars@, from) && bar.address != 0 && (bar.kind == PciBarKind::Mem32
            || bar.kind == PciBarKind::Mem64) {
            let (base, io) = io.ask(Query::PhysToVirt(bar.address & PHYSICAL_MASK));
            (Ok(Mmio { base }), io)
        } else {
            window_run(device, from + 1, io)
        }
    }
}

fn select_bar<M: Machine>(machine: &mut M, device: &PciDevice) -> (result: Result<Mmio, DriverError>)
    ensures
        (result, final(machine).io()) == window_run(*device, 0, old(machine).io()),
{
    let mut index: u8 = 0;
    while index < 6
        invariant
            index <= 6,
            window_run(*device, 0, old(machine).io()) == window_run(
                *device,
                index as int,
                machine.io(),
            ),
        decreases 6 - index,
    {
        if !device.bar_is_high_half(index) {
            if let Some(bar) = device.bar(index) {
                if bar.address != 0 {
                    match bar.kind {
                        PciBarKind::Mem32 | PciBarKind::Mem64 => {
                            let base: u64 = machine.ask(
                                Query::PhysToVirt(bar.address & PHYSICAL_MASK),
                            );
                            return Ok(Mmio { base });
                        },
                        _ => {},
                    }
                }
            }
        }
        index = index + 1;
    }
    Err(DriverError::UnsupportedBar)
}

/// Poll until a word of the configuration memory has arrived.
pub open spec fn eeprom_poll_run(registers: Mmio, limit: nat, io: Io) -> (Result<
    u16,
    DriverError,
>, Io)
    decreases limit,
{
    if limit == 0 {
        (Err(DriverError::DeviceFault), io)
    } else {
        let (value, io) = io.r32(registers.register(EERD));
        if value & EERD_DONE != 0 {
            (Ok((value >> 16) as u16), io)
        } else {
            eeprom_poll_run(registers, (limit - 1) as nat, io)
        }
    }
}

/// Read a word of the configuration memory.
pub open spec fn eeprom_run(registers: Mmio, address: u16, io: Io) -> (Result<
    u16,
    DriverError,
>, Io) {
    let io = io.w32(registers.register(EERD), ((address as u32) << 8) | EERD_START);
    eeprom_poll_run(registers, EEPROM_POLL_LIMIT as nat, io)
}

fn read_eeprom_word<M: Machine>(machine: &mut M, registers: Mmio, address: u16) -> (result: Result<
    u16,
    DriverError,
>)
    ensures
        (result, final(machine).io()) == eeprom_run(registers, address, old(machine).io()),
{
    registers.write32(machine, EERD, ((address as u32) << 8) | EERD_START);
    let ghost start = machine.io();
    let mut left: u32 = EEPROM_POLL_LIMIT;
    while left > 0
        invariant
            eeprom_run(registers, address, old(machine).io()) == eeprom_poll_run(
                registers,
                EEPROM_POLL_LIMIT as nat,
                start,
            ),
            eeprom_poll_run(registers, EEPROM_POLL_LIMIT as nat, start) == eeprom_poll_run(
                registers,
                left as nat,
                machine.io(),
            ),
        decreases left,
    {
        let value: u32 = registers.read32(machine, EERD);
        if value & EERD_DONE != 0 {
            return Ok((value >> 16) as u16);
        }
        left = left - 1;
    }
    Err(DriverError::DeviceFault)
}

/// The address that the receive address registers hold.
pub open spec fn register_mac(low: u32, high: u32) -> MacAddress {
    MacAddress {
        bytes: [
            low as u8,
            (low >> 8) as u8,
            (low >> 16) as u8,
            (low >> 24) as u8,
            high as u8,
            (high >> 8) as u8,
        ],
    }
}

/// The address that three words of the configuration memory hold.
pub open spec fn eeprom_mac(a: u16, b: u16, c: u16) -> MacAddress {
    MacAddress {
        bytes: [
            a as u8,
            (a >> 8) as u8,
            b as u8,
            (b >> 8) as u8,
            c as u8,
            (c >> 8) as u8,
        ],
    }
}

/// Find the address: in the registers, else in the configuration memory.
pub open spec fn find_mac_run(registers: Mmio, io: Io) -> (Result<MacAddress, DriverError>, Io) {
    let (low, io) = io.r32(registers.register(RAL0));
    let (high, io) = io.r32(registers.register(RAH0));
    let mac = register_mac(low, high);
    if is_usable_mac(mac.bytes@) {
        (Ok(mac), io)
    } else {
        match eeprom_run(registers, 0, io) {
            (Err(error), io) => (Err(error), io),
            (Ok(a), io) => match eeprom_run(registers, 1, io) {
                (Err(error), io) => (Err(error), io),
                (Ok(b), io) => match eeprom_run(registers, 2, io) {
                    (Err(error), io) => (Err(error), io),
                    (Ok(c), io) => if is_usable_mac(eeprom_mac(a, b, c).bytes@) {
                        (Ok(eeprom_mac(a, b, c)), io)
                    } else {
                        (Err(DriverError::InvalidMac), io)
                    },
                },
            },
        }
    }
}

/// The two register words of an address.
pub open spec fn mac_low(mac: MacAddress) -> u32 {
    (mac.bytes@[0] as u32) | ((mac.bytes@[1] as u32) << 8) | ((mac.bytes@[2] as u32) << 16) | ((
    mac.bytes@[3] as u32) << 24)
}

pub open spec fn mac_high(mac: MacAddress) -> u32 {
    ((mac.bytes@[4] as u32) | ((mac.bytes@[5] as u32) << 8)) | RAH_VALID
}

/// Find the address and write it into the registers.
pub open spec fn mac_run(registers: Mmio, io: Io) -> (Result<MacAddress, DriverError>, Io) {
    match find_mac_run(registers, io) {
        (Err(error), io) => (Err(error), io),
        (Ok(mac), io) => {
            let io = io.w32(registers.register(RAL0), mac_low(mac));
            (Ok(mac), io.w32(registers.register(RAH0), mac_high(mac)))
        },
    }
}

fn find_mac<M: Machine>(machine: &mut M, registers: Mmio) -> (result: Result<
    MacAddress,
    DriverError,
>)
    ensures
        (result, final(machine).io()) == find_mac_run(registers, old(machine).io()),
{
    let low: u32 = registers.read32(machine, RAL0);
    let high: u32 = registers.read32(machine, RAH0);
    let mac = MacAddress {
        bytes: [
            low as u8,
            (low >> 8) as u8,
            (low >> 16) as u8,
            (low >> 24) as u8,
            high as u8,
            (high >> 8) as u8,
        ],
    };
    if mac.is_usable() {
        return Ok(mac);
    }
    let a: u16 = match read_eeprom_word(machine, registers, 0) {
        Ok(word) => word,
        Err(error) => {
            return Err(error);
        },
    };
    let b: u16 = match read_eeprom_word(machine, registers, 1) {
        Ok(word) => word,
        Err(error) => {
            return Err(error);
        },
    };
    let c: u16 = match read_eeprom_word(machine, registers, 2) {
        Ok(word) => word,
        Err(error) => {
            return Err(error);
        },
    };
    let mac = MacAddress {
        bytes: [
            a as u8,
            (a >> 8) as u8,
            b as u8,
            (b >> 8) as u8,
            c as u8,
            (c >> 8) as u8,
        ],
    };
    if mac.is_usable() {
        Ok(mac)
    } else {
        Err(DriverError::InvalidMac)
    }
}

fn read_mac<M: Machine>(machine: &mut M, registers: Mmio) -> (result: Result<
    MacAddress,
    DriverError,
>)
    ensures
        (result, final(machine).io()) == mac_run(registers, old(machine).io()),
{
    let mac: MacAddress = match find_mac(machine, registers) {
        Ok(mac) => mac,
        Err(error) => {
            return Err(error);
        },
    };
    let low: u32 = (mac.bytes[0] as u32) | ((mac.bytes[1] as u32) << 8) | ((mac.bytes[2] as u32)
        << 16) | ((mac.bytes[3] as u32) << 24);
    let high: u32 = ((mac.bytes[4] as u32) | ((mac.bytes[5] as u32) << 8)) | RAH_VALID;
    registers.write32(machine, RAL0, low);
    registers.write32(machine, RAH0, high);
    Ok(mac)
}

/// Where a ring lies and how long it is.
pub open spec fn ring_run(
    registers: Mmio,
    low: u64,
    high: u64,
    length: u64,
    address: u64,
    io: Io,
) -> Io {
    let io = io.w32(registers.register(low), address as u32);
    let io = io.w32(registers.register(high), (address >> 32) as u32);
    io.w32(registers.register(length), RING_BYTES as u32)
}

fn program_ring<M: Machine>(
    machine: &mut M,
    registers: Mmio,
    low_register: u64,
    high_register: u64,
    length_register: u64,
    address: u64,
)
    ensures
        final(machine).io() == ring_run(
            registers,
            low_register,
            high_register,
            length_register,
            address,
            old(machine).io(),
        ),
{
    registers.write32(machine, low_register, address as u32);
    registers.write32(machine, high_register, (address >> 32) as u32);
    registers.write32(machine, length_register, RING_BYTES as u32);
}

/// The four pieces of memory of an adapter.
#[derive(Debug)]
pub struct Memory {
    pub rx_descriptors: DmaRegion,
    pub tx_descriptors: DmaRegion,
    pub rx_buffers: DmaRegion,
    pub tx_buffers: DmaRegion,
}

/// Take the four pieces; what was taken is given back, last first, where one
/// cannot be had.
pub open spec fn memory_run(io: Io) -> (Result<Memory, DriverError>, Io) {
    match DmaRegion::allocate_run(RING_BYTES, None, io) {
        (Err(error), io) => (Err(dma_fault(error)), io),
        (Ok(rx_descriptors), io) => match DmaRegion::allocate_run(RING_BYTES, None, io) {
            (Err(error), io) => (Err(dma_fault(error)), rx_descriptors.release_run(io)),
            (Ok(tx_descriptors), io) => match DmaRegion::allocate_run(BUFFER_BYTES, None, io) {
                (Err(error), io) => (
                    Err(dma_fault(error)),
                    rx_descriptors.release_run(tx_descriptors.release_run(io)),
                ),
                (Ok(rx_buffers), io) => match DmaRegion::allocate_run(BUFFER_BYTES, None, io) {
                    (Err(error), io) => (
                        Err(dma_fault(error)),
                        rx_descriptors.release_run(
                            tx_descriptors.release_run(rx_buffers.release_run(io)),
                        ),
                    ),
                    (Ok(tx_buffers), io) => (
                        Ok(Memory { rx_descriptors, tx_descriptors, rx_buffers, tx_buffers }),
                        io,
                    ),
                },
            },
        },
    }
}

fn take_memory<M: Machine>(machine: &mut M) -> (result: Result<Memory, DriverError>)
    ensures
        (result, final(machine).io()) == memory_run(old(machine).io()),
{
    let rx_descriptors: DmaRegion = match DmaRegion::allocate(machine, RING_BYTES, None) {
        Ok(region) => region,
        Err(error) => {
            return Err(DriverError::from_dma(error));
        },
    };
    let tx_descriptors: DmaRegion = match DmaRegion::allocate(machine, RING_BYTES, None) {
        Ok(region) => region,
        Err(error) => {
            rx_descriptors.release(machine);
            return Err(DriverError::from_dma(error));
        },
    };
    let rx_buffers: DmaRegion = match DmaRegion::allocate(machine, BUFFER_BYTES, None) {
        Ok(region) => region,
        Err(error) => {
            tx_descriptors.release(machine);
            rx_descriptors.release(machine);
            return Err(DriverError::from_dma(error));
        },
    };
    let tx_buffers: DmaRegion = match DmaRegion::allocate(machine, BUFFER_BYTES, None) {
        Ok(region) => region,
        Err(error) => {
            rx_buffers.release(machine);
            tx_descriptors.release(machine);
            rx_descriptors.release(machine);
            return Err(DriverError::from_dma(error));
        },
    };
    Ok(Memory { rx_descriptors, tx_descriptors, rx_buffers, tx_buffers })
}

/// The receive descriptor that hands a buffer to the adapter.
pub open spec fn fresh_rx(address: u64) -> RxDescriptor {
    RxDescriptor { address, length: 0, checksum: 0, status: 0, errors: 0, special: 0 }
}

/// The transmit descriptor of a buffer that is free.
pub open spec fn fresh_tx(address: u64) -> TxDescriptor {
    TxDescriptor {
        address,
        length: 0,
        checksum_offset: 0,
        command: 0,
        status: TX_STATUS_DD,
        checksum_start: 0,
        special: 0,
    }
}

/// Write a receive descriptor.
pub open spec fn put_rx(ring: u64, index: int, descriptor: RxDescriptor, io: Io) -> Io {
    io.w64(cell(ring, (16 * index) as u64), descriptor.address).w64(
        cell(ring, (16 * index + 8) as u64),
        descriptor.word(),
    )
}

/// Write a transmit descriptor.
pub open spec fn put_tx(ring: u64, index: int, descriptor: TxDescriptor, io: Io) -> Io {
    io.w64(cell(ring, (16 * index) as u64), descriptor.address).w64(
        cell(ring, (16 * index + 8) as u64),
        descriptor.word(),
    )
}

/// Read the two words of a descriptor.
pub open spec fn get_words(ring: u64, index: int, io: Io) -> (u64, u64, Io) {
    let (address, io) = io.r64(cell(ring, (16 * index) as u64));
    let (word, io) = io.r64(cell(ring, (16 * index + 8) as u64));
    (address, word, io)
}

/// Write the descriptors from number `from` on.
pub open spec fn descriptors_run(memory: Memory, from: int, io: Io) -> Io
    decreases RING_COUNT - from,
{
    if from >= RING_COUNT {
        io
    } else {
        let rx = fresh_rx(memory.rx_buffers.physical(from * BUFFER_LEN)->0);
        let tx = fresh_tx(memory.tx_buffers.physical(from * BUFFER_LEN)->0);
        let io = put_rx(memory.rx_descriptors.address, from, rx, io);
        let io = put_tx(memory.tx_descriptors.address, from, tx, io);
        descriptors_run(memory, from + 1, io)
    }
}

fn write_rx<M: Machine>(machine: &mut M, ring: u64, index: u16, descriptor: RxDescriptor)
    ensures
        final(machine).io() == put_rx(ring, index as int, descriptor, old(machine).io()),
{
    machine.write64(cell_at(ring, 16 * index as u64), descriptor.address);
    machine.write64(cell_at(ring, 16 * index as u64 + 8), descriptor.encode());
}

fn write_tx<M: Machine>(machine: &mut M, ring: u64, index: u16, descriptor: TxDescriptor)
    ensures
        final(machine).io() == put_tx(ring, index as int, descriptor, old(machine).io()),
{
    machine.write64(cell_at(ring, 16 * index as u64), descriptor.address);
    machine.write64(cell_at(ring, 16 * index as u64 + 8), descriptor.encode());
}

fn fill_rings<M: Machine>(machine: &mut M, memory: &Memory)
    requires
        memory.rx_buffers.len == BUFFER_BYTES,
        memory.tx_buffers.len == BUFFER_BYTES,
    ensures
        final(machine).io() == descriptors_run(*memory, 0, old(machine).io()),
{
    let mut index: u16 = 0;
    while index < RING_COUNT
        invariant
            index <= RING_COUNT,
            memory.rx_buffers.len == BUFFER_BYTES,
            memory.tx_buffers.len == BUFFER_BYTES,
            descriptors_run(*memory, 0, old(machine).io()) == descriptors_run(
                *memory,
                index as int,
                machine.io(),
            ),
        decreases RING_COUNT - index,
    {
        let offset: usize = index as usize * BUFFER_LEN;
        let rx_address: u64 = memory.rx_buffers.physical_at(offset).unwrap_or(0);
        let tx_address: u64 = memory.tx_buffers.physical_at(offset).unwrap_or(0);
        let rx = RxDescriptor {
            address: rx_address,
            length: 0,
            checksum: 0,
            status: 0,
            errors: 0,
            special: 0,
        };
        let tx = TxDescriptor {
            address: tx_address,
            length: 0,
            checksum_offset: 0,
            command: 0,
            status: TX_STATUS_DD,
            checksum_start: 0,
            special: 0,
        };
        write_rx(machine, memory.rx_descriptors.as_ptr(), index, rx);
        write_tx(machine, memory.tx_descriptors.as_ptr(), index, tx);
        index = index + 1;
    }
}

/// Let the function decode memory and fetch by itself.
pub open spec fn enable_run(address: PciAddress, io: Io) -> Io {
    let (command, io) = address.command_run(io);
    address.write_command_run(
        (command & PciCommand::ALL) | (PciCommand::MEMORY_SPACE | PciCommand::BUS_MASTER),
        io,
    )
}

/// Reset the adapter with its interrupts masked, and force its link up.
pub open spec fn reset_run(registers: Mmio, io: Io) -> (Result<(), DriverError>, Io) {
    let io = io.w32(registers.register(IMC), u32::MAX);
    let (control, io) = io.r32(registers.register(CTRL));
    let io = io.w32(registers.register(CTRL), control | CTRL_RST);
    let (done, io) = poll_clear(
        registers.register(CTRL),
        CTRL_RST,
        RESET_POLL_LIMIT as nat,
        io,
    );
    if !done {
        (Err(DriverError::ResetTimeout), io)
    } else {
        let io = io.w32(registers.register(IMC), u32::MAX);
        let (_, io) = io.r32(registers.register(ICR));
        let (control, io) = io.r32(registers.register(CTRL));
        (Ok(()), io.w32(registers.register(CTRL), control | CTRL_SLU))
    }
}

/// Tell the adapter where its rings are and start it.
pub open spec fn start_run(registers: Mmio, memory: Memory, io: Io) -> Io {
    let io = descriptors_run(memory, 0, io);
    let io = io.tell(Order::Fence).tell(Order::Fence);
    let io = ring_run(registers, RDBAL, RDBAH, RDLEN, memory.rx_descriptors.first, io);
    let io = io.w32(registers.register(RDH), 0);
    let io = io.w32(registers.register(RDT), (RING_COUNT - 1) as u32);
    let io = ring_run(registers, TDBAL, TDBAH, TDLEN, memory.tx_descriptors.first, io);
    let io = io.w32(registers.register(TDH), 0);
    let io = io.w32(registers.register(TDT), 0);
    let io = io.w32(registers.register(RCTL), RCTL_SETUP);
    let io = io.w32(registers.register(TCTL), TCTL_SETUP);
    io.w32(registers.register(TIPG), TIPG_SETUP)
}

/// Bring an adapter up.
pub open spec fn new_run(device: PciDevice, io: Io) -> (Result<E1000, DriverError>, Io) {
    match window_run(device, 0, io) {
        (Err(error), io) => (Err(error), io),
        (Ok(registers), io) => if !device.address.is_valid() {
            (Err(DriverError::UnsupportedBar), io)
        } else {
            match reset_run(registers, enable_run(device.address, io)) {
                (Err(error), io) => (Err(error), io),
                (Ok(_), io) => match mac_run(registers, io) {
                    (Err(error), io) => (Err(error), io),
                    (Ok(mac), io) => match memory_run(io) {
                        (Err(error), io) => (Err(error), io),
                        (Ok(memory), io) => (
                            Ok(
                                E1000 {
                                    bdf: (
                                        device.address.bus,
                                        device.address.dev,
                                        device.address.func,
                                    ),
                                    registers,
                                    mac,
                                    rx_descriptors: memory.rx_descriptors,
                                    tx_descriptors: memory.tx_descriptors,
                                    rx_buffers: memory.rx_buffers,
                                    tx_buffers: memory.tx_buffers,
                                    rx_index: 0,
                                    tx_index: 0,
                                },
                            ),
                            start_run(registers, memory, io),
                        ),
                    },
                },
            }
        },
    }
}

proof fn lemma_enable_bits()
    by (bit_vector)
    ensures
        (0x0002u16 | 0x0004u16) & 0x07FFu16 == 0x0002u16 | 0x0004u16,
{
}

/// The index behind another in the ring.
pub open spec fn next_index(index: u16) -> u16 {
    (index.wrapping_add(1) % RING_COUNT) as u16
}

impl E1000 {
    fn reset<M: Machine>(machine: &mut M, registers: Mmio) -> (result: Result<(), DriverError>)
        ensures
            (result, final(machine).io()) == reset_run(registers, old(machine).io()),
    {
        registers.write32(machine, IMC, u32::MAX);
        let control: u32 = registers.read32(machine, CTRL);
        registers.write32(machine, CTRL, control | CTRL_RST);
        if !wait_clear(machine, cell_at(registers.base, CTRL), CTRL_RST, RESET_POLL_LIMIT) {
            return Err(DriverError::ResetTimeout);
        }
        registers.write32(machine, IMC, u32::MAX);
        let _ = registers.read32(machine, ICR);
        let control: u32 = registers.read32(machine, CTRL);
        registers.write32(machine, CTRL, control | CTRL_SLU);
        Ok(())
    }

    fn start<M: Machine>(machine: &mut M, registers: Mmio, memory: &Memory)
        requires
            memory.rx_buffers.len == BUFFER_BYTES,
            memory.tx_buffers.len == BUFFER_BYTES,
        ensures
            final(machine).io() == start_run(registers, *memory, old(machine).io()),
    {
        fill_rings(machine, memory);
        memory.rx_descriptors.sync_for_device(machine);
        memory.tx_descriptors.sync_for_device(machine);
        program_ring(
            machine,
            registers,
            RDBAL,
            RDBAH,
            RDLEN,
            memory.rx_descriptors.physical_address(),
        );
        registers.write32(machine, RDH, 0);
        registers.write32(machine, RDT, RING_COUNT as u32 - 1);
        program_ring(
            machine,
            registers,
            TDBAL,
            TDBAH,
            TDLEN,
            memory.tx_descriptors.physical_address(),
        );
        registers.write32(machine, TDH, 0);
        registers.write32(machine, TDT, 0);
        registers.write32(machine, RCTL, RCTL_SETUP);
        registers.write32(machine, TCTL, TCTL_SETUP);
        registers.write32(machine, TIPG, TIPG_SETUP);
    }

    /// Bring an adapter up.
    pub fn new<M: Machine>(machine: &mut M, device: &PciDevice) -> (result: Result<
        Self,
        DriverError,
    >)
        ensures
            (result, final(machine).io()) == new_run(*device, old(machine).io()),
    {
        let registers: Mmio = match select_bar(machine, device) {
            Ok(registers) => registers,
            Err(error) => {
                return Err(error);
            },
        };
        let pci_address: PciAddress = match PciAddress::new(
            device.address.bus(),
            device.address.device(),
            device.address.function(),
        ) {
            Some(address) => address,
            None => {
                return Err(DriverError::UnsupportedBar);
            },
        };
        let mut command = PciCommand::from_bits_truncate(pci_address.read_command(machine));
        command.insert(PciCommand::MEMORY_SPACE | PciCommand::BUS_MASTER);
        proof {
            lemma_enable_bits();
        }
        pci_address.write_command(machine, command.bits());
        match Self::reset(machine, registers) {
            Ok(_) => {},
            Err(error) => {
                return Err(error);
            },
        }
        let mac: MacAddress = match read_mac(machine, registers) {
            Ok(mac) => mac,
            Err(error) => {
                return Err(error);
            },
        };
        let memory: Memory = match take_memory(machine) {
            Ok(memory) => memory,
            Err(error) => {
                return Err(error);
            },
        };
        Self::start(machine, registers, &memory);
        Ok(
            E1000 {
                bdf: (
                    device.address.bus(),
                    device.address.device(),
                    device.address.function(),
                ),
                registers,
                mac,
                rx_descriptors: memory.rx_descriptors,
                tx_descriptors: memory.tx_descriptors,
                rx_buffers: memory.rx_buffers,
                tx_buffers: memory.tx_buffers,
                rx_index: 0,
                tx_index: 0,
            },
        )
    }

    /// Give all memory back.
    pub open spec fn release_run(self, io: Io) -> Io {
        self.tx_buffers.release_run(
            self.rx_buffers.release_run(
                self.tx_descriptors.release_run(self.rx_descriptors.release_run(io)),
            ),
        )
    }

    /// Give all memory back.
    pub fn release<M: Machine>(self, machine: &mut M)
        ensures
            final(machine).io() == self.release_run(old(machine).io()),
    {
        self.rx_descriptors.release(machine);
        self.tx_descriptors.release(machine);
        self.rx_buffers.release(machine);
        self.tx_buffers.release(machine);
    }

    pub fn bdf(&self) -> (bdf: (u8, u8, u8))
        ensures
            bdf == self.bdf,
    {
        self.bdf
    }

    pub fn interrupt_handle(&self) -> (handle: InterruptHandle)
        ensures
            handle.registers == self.registers,
    {
        InterruptHandle { registers: self.registers }
    }

    pub open spec fn link_run(self, io: Io) -> (bool, Io) {
        let (status, io) = io.r32(self.registers.register(STATUS));
        (status & STATUS_LU != 0, io)
    }

    /// Send a frame: padded to the smallest size, in the next free buffer.
    pub open spec fn transmit_run(self, frame: Seq<u8>, io: Io) -> (Result<
        (),
        DriverError,
    >, E1000, Io) {
        if frame.len() > MAX_FRAME_LEN {
            (Err(DriverError::FrameTooLarge), self, io)
        } else {
            let io = io.tell(Order::Fence);
            let (address, word, io) = get_words(
                self.tx_descriptors.address,
                self.tx_index as int,
                io,
            );
            let descriptor = TxDescriptor::of(address, word);
            let padded = frame_padded(frame);
            let offset = self.tx_index * BUFFER_LEN;
            if descriptor.status & TX_STATUS_DD == 0 {
                (Err(DriverError::WouldBlock), self, io)
            } else if !self.tx_buffers.holds(offset, padded.len() as int) {
                (Err(DriverError::DmaUnavailable), self, io)
            } else {
                let io = bytes_stored(
                    io,
                    self.tx_buffers.address.wrapping_add(offset as u64),
                    padded,
                );
                let io = io.tell(Order::Fence);
                let io = put_tx(
                    self.tx_descriptors.address,
                    self.tx_index as int,
                    TxDescriptor {
                        length: padded.len() as u16,
                        command: TX_CMD_SETUP,
                        status: 0,
                        ..descriptor
                    },
                    io,
                );
                let io = io.tell(Order::Fence);
                let next = next_index(self.tx_index);
                (
                    Ok(()),
                    E1000 { tx_index: next, ..self },
                    io.w32(self.registers.register(TDT), next as u32),
                )
            }
        }
    }

    /// Hand the current receive buffer back to the adapter and step on.
    pub open spec fn recycle_run(self, descriptor: RxDescriptor, io: Io) -> (E1000, Io) {
        let io = put_rx(self.rx_descriptors.address, self.rx_index as int, descriptor, io);
        let io = io.tell(Order::Fence);
        (
            E1000 { rx_index: next_index(self.rx_index), ..self },
            io.w32(self.registers.register(RDT), self.rx_index as u32),
        )
    }

    /// Take the next frame, where one arrived that fits into `room` bytes.  A
    /// damaged frame is dropped; one that does not fit stays.
    pub open spec fn receive_run(self, room: nat, io: Io) -> (Result<
        Seq<u8>,
        DriverError,
    >, E1000, Io) {
        let io = io.tell(Order::Fence);
        let (address, word, io) = get_words(self.rx_descriptors.address, self.rx_index as int, io);
        let descriptor = RxDescriptor::of(address, word);
        let length = descriptor.length;
        let offset = self.rx_index * BUFFER_LEN;
        if descriptor.status & RX_STATUS_DD == 0 {
            (Err(DriverError::NoPacket), self, io)
        } else if descriptor.status & RX_STATUS_EOP == 0 || descriptor.errors != 0 {
            let (after, io) = self.recycle_run(RxDescriptor { status: 0, ..descriptor }, io);
            (Err(DriverError::DeviceFault), after, io)
        } else if length > MAX_FRAME_LEN {
            let (after, io) = self.recycle_run(
                RxDescriptor { status: 0, length: 0, ..descriptor },
                io,
            );
            (Err(DriverError::DeviceFault), after, io)
        } else if room < length {
            (Err(DriverError::BufferTooSmall), self, io)
        } else {
            let io = io.tell(Order::Fence);
            if !self.rx_buffers.holds(offset, length as int) {
                (Err(DriverError::DmaUnavailable), self, io)
            } else {
                let frame = bytes_answered(io, length as nat);
                let io = bytes_loaded(
                    io,
                    self.rx_buffers.address.wrapping_add(offset as u64),
                    length as nat,
                );
                let (after, io) = self.recycle_run(
                    RxDescriptor { status: 0, length: 0, ..descriptor },
                    io,
                );
                (Ok(frame), after, io)
            }
        }
    }

    fn recycle<M: Machine>(&mut self, machine: &mut M, descriptor: RxDescriptor)
        ensures
            (*final(self), final(machine).io()) == old(self).recycle_run(
                descriptor,
                old(machine).io(),
            ),
    {
        write_rx(machine, self.rx_descriptors.as_ptr(), self.rx_index, descriptor);
        self.rx_descriptors.sync_for_device(machine);
        let completed: u16 = self.rx_index;
        self.rx_index = self.rx_index.wrapping_add(1) % RING_COUNT;
        self.registers.write32(machine, RDT, completed as u32);
    }
}

impl NetworkAdapter for E1000 {
    fn driver_name(&self) -> (name: &'static str)
        ensures
            name@ == "e1000"@,
    {
        "e1000"
    }

    fn mac_address(&self) -> (mac: MacAddress)
        ensures
            mac == self.mac,
    {
        self.mac
    }

    fn link_up<M: Machine>(&self, machine: &mut M) -> (up: bool)
        ensures
            (up, final(machine).io()) == self.link_run(old(machine).io()),
    {
        self.registers.read32(machine, STATUS) & STATUS_LU != 0
    }

    fn mtu(&self) -> (bytes: usize)
        ensures
            bytes == MTU,
    {
        MTU
    }

    fn transmit<M: Machine>(&mut self, machine: &mut M, frame: &[u8]) -> (result: Result<
        (),
        DriverError,
    >)
        ensures
            (result, *final(self), final(machine).io()) == old(self).transmit_run(
                frame@,
                old(machine).io(),
            ),
    {
        if frame.len() > MAX_FRAME_LEN {
            return Err(DriverError::FrameTooLarge);
        }
        self.tx_descriptors.sync_for_cpu(machine);
        let ring: u64 = self.tx_descriptors.as_ptr();
        let address: u64 = machine.read64(cell_at(ring, 16 * self.tx_index as u64));
        let word: u64 = machine.read64(cell_at(ring, 16 * self.tx_index as u64 + 8));
        let mut descriptor: TxDescriptor = TxDescriptor::decode(address, word);
        if descriptor.status & TX_STATUS_DD == 0 {
            return Err(DriverError::WouldBlock);
        }
        let padded: Vec<u8> = pad_frame(frame);
        let length: usize = padded.len();
        if self.tx_buffers.slice_mut(
            machine,
            self.tx_index as usize * BUFFER_LEN,
            padded.as_slice(),
        ).is_none() {
            return Err(DriverError::DmaUnavailable);
        }
        self.tx_buffers.sync_for_device(machine);
        descriptor.length = length as u16;
        descriptor.command = TX_CMD_SETUP;
        descriptor.status = 0;
        write_tx(machine, ring, self.tx_index, descriptor);
        self.tx_descriptors.sync_for_device(machine);
        self.tx_index = self.tx_index.wrapping_add(1) % RING_COUNT;
        self.registers.write32(machine, TDT, self.tx_index as u32);
        Ok(())
    }

    fn poll_receive<M: Machine>(&mut self, machine: &mut M, output: &mut Vec<u8>) -> (result: Result<
        usize,
        DriverError,
    >)
        ensures
            ({
                let (expected, after, io) = old(self).receive_run(
                    old(output)@.len(),
                    old(machine).io(),
                );
                &&& *final(self) == after
                &&& final(machine).io() == io
                &&& match expected {
                    Ok(frame) => result == Ok::<usize, DriverError>(frame.len() as usize)
                        && frame.len() <= old(output)@.len() && final(output)@ == overlaid(
                        old(output)@,
                        0,
                        frame,
                    ),
                    Err(error) => result == Err::<usize, DriverError>(error) && final(output)@
                        == old(output)@,
                }
            }),
    {
        self.rx_descriptors.sync_for_cpu(machine);
        let ring: u64 = self.rx_descriptors.as_ptr();
        let address: u64 = machine.read64(cell_at(ring, 16 * self.rx_index as u64));
        let word: u64 = machine.read64(cell_at(ring, 16 * self.rx_index as u64 + 8));
        let mut descriptor: RxDescriptor = RxDescriptor::decode(address, word);
        if descriptor.status & RX_STATUS_DD == 0 {
            return Err(DriverError::NoPacket);
        }
        if descriptor.status & RX_STATUS_EOP == 0 || descriptor.errors != 0 {
            descriptor.status = 0;
            self.recycle(machine, descriptor);
            return Err(DriverError::DeviceFault);
        }
        let length: usize = descriptor.length as usize;
        if length > MAX_FRAME_LEN {
            descriptor.status = 0;
            descriptor.length = 0;
            self.recycle(machine, descriptor);
            return Err(DriverError::DeviceFault);
        }
        if output.len() < length {
            return Err(DriverError::BufferTooSmall);
        }
        self.rx_buffers.sync_for_cpu(machine);
        let frame: Vec<u8> = match self.rx_buffers.slice(
            machine,
            self.rx_index as usize * BUFFER_LEN,
            length,
        ) {
            Some(frame) => frame,
            None => {
                return Err(DriverError::DmaUnavailable);
            },
        };
        overlay(output, 0, &frame);
        descriptor.status = 0;
        descriptor.length = 0;
        self.recycle(machine, descriptor);
        Ok(length)
    }
}

/// The indices of an adapter stay in its rings, whatever is sent or received.
pub proof fn lemma_indices_stay_in_ring(adapter: E1000, frame: Seq<u8>, room: nat, io: Io)
    requires
        adapter.rx_index < RING_COUNT,
        adapter.tx_index < RING_COUNT,
    ensures
        adapter.transmit_run(frame, io).1.tx_index < RING_COUNT,
        adapter.transmit_run(frame, io).1.rx_index == adapter.rx_index,
        adapter.receive_run(room, io).1.rx_index < RING_COUNT,
        adapter.receive_run(room, io).1.tx_index == adapter.tx_index,
{
}

/// Whether a function is one of the supported adapters.
pub open spec fn is_e1000(device: PciDevice) -> bool {
    &&& device.vendor_id == VENDOR_INTEL
    &&& device.base_class == 0x02
    &&& device.device_id == 0x100e || device.device_id == 0x100f || device.device_id == 0x1010
        || device.device_id == 0x107c || device.device_id == 0x10d3 || device.device_id == 0x153a
}

/// What a failed bring-up is reported as.
pub open spec fn driver_error(error: DriverError) -> PciDriverError {
    match error {
        DriverError::UnsupportedBar => PciDriverError::BarUnreadable,
        _ => PciDriverError::ProbeFailed("e1000 initialization failed"),
    }
}

/// The driver.
#[derive(Clone, Copy, Debug)]
pub struct E1000PciDriver {}

impl PciDriver for E1000PciDriver {
    open spec fn claims(&self, device: PciDevice) -> bool {
        is_e1000(device)
    }

    open spec fn brings_up(
        &self,
        device: PciDevice,
        before: Devices,
        io: Io,
        result: Result<(), PciDriverError>,
        after: Devices,
        later: Io,
    ) -> bool {
        &&& match new_run(device, io) {
            (Err(error), reached) => result == Err::<(), _>(driver_error(error)) && later == reached
                && after.network@ == before.network@,
            (Ok(adapter), reached) => result is Ok && (after.network@, later)
                == before.network@.adopt_run(
                Adapter::E1000(adapter),
                IrqDevice::E1000(InterruptHandle { registers: adapter.registers }),
                before.routing.routes@,
                before.routing.parents@,
                device,
                adapter.link_run(reached).1,
            ),
        }
        &&& after == (Devices { network: after.network, ..before })
    }

    fn name(&self) -> (name: &'static str)
        ensures
            name@ == "e1000"@,
    {
        "e1000"
    }

    fn matches(&self, device: &PciDevice) -> (claimed: bool) {
        device.vendor_id == VENDOR_INTEL && match device.device_id {
            0x100e | 0x100f | 0x1010 | 0x107c | 0x10d3 | 0x153a => true,
            _ => false,
        } && device.base_class == 0x02
    }

    /// Bring an adapter up, attach it and wire its interrupt.
    fn probe<M: Machine>(&self, machine: &mut M, devices: &mut Devices, device: &PciDevice) -> (result:
        Result<(), PciDriverError>) {
        let adapter: E1000 = match E1000::new(machine, device) {
            Ok(adapter) => adapter,
            Err(error) => match error {
                DriverError::UnsupportedBar => {
                    return Err(PciDriverError::BarUnreadable);
                },
                _ => {
                    return Err(PciDriverError::ProbeFailed("e1000 initialization failed"));
                },
            },
        };
        let _link: bool = adapter.link_up(machine);
        let interrupt: InterruptHandle = adapter.interrupt_handle();
        devices.network.adopt(
            machine,
            Adapter::E1000(adapter),
            IrqDevice::E1000(interrupt),
            &devices.routing,
            device,
        );
        Ok(())
    }
}

/// Register the driver.
pub fn register_pci_driver(registry: &mut DriverRegistry<AnyDriver>)
    requires
        old(registry).wf(),
    ensures
        final(registry).wf(),
        final(registry).drivers@ == enrolled(
            old(registry).drivers@,
            KEY_E1000,
            AnyDriver::E1000(E1000PciDriver {}),
        ),
{
    register_driver(registry, KEY_E1000, AnyDriver::E1000(E1000PciDriver {}));
}

} // verus!
