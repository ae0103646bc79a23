//! Realtek 8139 adapters: one receive ring of bytes and four transmit slots.
use vstd::prelude::*;
use crate::driver::{AnyDriver, Devices, KEY_RTL8139};
use crate::machine::{
    bytes_stored, cell, cell_at, overlaid, overlay, Access, Io, Machine, Order, Place, Query,
};
use crate::net::dma::DmaRegion;
use crate::net::{
    dma_fault, frame_padded, is_usable_mac, pad_frame, Adapter, DriverError, IrqDevice, MacAddress,
    NetworkAdapter, MAX_FRAME_LEN, MTU,
};
use crate::pci::config::PciAddress;
use crate::pci::enumerate::{
    decoded_bar, is_high_half, register_driver, DriverRegistry, PciBarKind, PciDevice, PciDriver,
    PciDriverError, enrolled,
};
use crate::pci::PciCommand;

verus! {

pub const VENDOR_REALTEK: u16 = 0x10ec;
pub const DEVICE_RTL8139: u16 = 0x8139;
pub const DEVICE_RTL8138: u16 = 0x8138;
pub const IDR0: u16 = 0x00;
pub const TSD0: u16 = 0x10;
pub const TSAD0: u16 = 0x20;
pub const RBSTART: u16 = 0x30;
pub const COMMAND: u16 = 0x37;
pub const CAPR: u16 = 0x38;
pub const IMR: u16 = 0x3c;
pub const ISR: u16 = 0x3e;
pub const TCR: u16 = 0x40;
pub const RCR: u16 = 0x44;
pub const CONFIG1: u16 = 0x52;
pub const MEDIA_STATUS: u16 = 0x58;
pub const COMMAND_RESET: u8 = 0x10;
pub const COMMAND_RX_ENABLE: u8 = 0x08;
pub const COMMAND_TX_ENABLE: u8 = 0x04;
pub const COMMAND_RX_EMPTY: u8 = 0x01;
pub const RX_OK: u16 = 0x0001;
pub const RX_ERROR: u16 = 0x0002;
pub const TX_OK: u16 = 0x0004;
pub const TX_ERROR: u16 = 0x0008;
pub const RX_OVERFLOW: u16 = 0x0010;
pub const LINK_CHANGE: u16 = 0x0020;
pub const RX_FIFO_OVERFLOW: u16 = 0x0040;
pub const SYSTEM_ERROR: u16 = 0x8000;
pub const INTERRUPT_MASK: u16 = 0x807f;
pub const TX_OWN: u32 = 0x2000;
pub const MEDIA_LINK_BAD: u8 = 0x04;
/// The read pointer of an empty ring.
pub const CAPR_RESET: u16 = 0xfff0;
pub const TCR_SETUP: u32 = 0x0300_0600;
pub const RCR_SETUP: u32 = 0x0000_078e;
pub const RX_RING_LEN: usize = 8192;
pub const RX_DMA_LEN: usize = 9744;
pub const TX_SLOTS: u16 = 4;
pub const TX_BUFFER_LEN: usize = 2048;
pub const TX_DMA_LEN: usize = 8192;
pub const RESET_POLL_LIMIT: u32 = 1_000_000;
/// The smallest and the largest frame in the ring, with its checksum.
pub const RX_MIN: usize = 4;
pub const RX_MAX: usize = 1518;
/// The bits of a physical address.
pub const PHYSICAL_MASK: u64 = 0x000f_ffff_ffff_ffff;

/// Where the registers are.
#[derive(Clone, Copy, Debug, PartialEq, Eq, Structural)]
pub enum RegisterIo {
    Port(u16),
    Mmio(u64),
}

impl RegisterIo {
    /// Where a register is.
    pub open spec fn register(self, offset: u16) -> Place {
        match self {
            RegisterIo::Port(base) => Place::Port(base.wrapping_add(offset)),
            RegisterIo::Mmio(base) => cell(base, offset as u64),
        }
    }

    fn place(self, offset: u16) -> (place: Place)
        ensures
            place == self.register(offset),
    {
        match self {
            RegisterIo::Port(base) => Place::Port(base.wrapping_add(offset)),
            RegisterIo::Mmio(base) => cell_at(base, offset as u64),
        }
    }

    fn read8<M: Machine>(self, machine: &mut M, offset: u16) -> (value: u8)
        ensures
            (value, final(machine).io()) == old(machine).io().r8(self.register(offset)),
    {
        machine.read8(self.place(offset))
    }

    fn read16<M: Machine>(self, machine: &mut M, offset: u16) -> (value: u16)
        ensures
            (value, final(machine).io()) == old(machine).io().r16(self.register(offset)),
    {
        machine.read16(self.place(offset))
    }

    fn read32<M: Machine>(self, machine: &mut M, offset: u16) -> (value: u32)
        ensures
            (value, final(machine).io()) == old(machine).io().r32(self.register(offset)),
    {
        machine.read32(self.place(offset))
    }

    fn write8<M: Machine>(self, machine: &mut M, offset: u16, value: u8)
        ensures
            final(machine).io() == old(machine).io().w8(self.register(offset), value),
    {
        machine.write8(self.place(offset), value);
    }

    fn write16<M: Machine>(self, machine: &mut M, offset: u16, value: u16)
        ensures
            final(machine).io() == old(machine).io().w16(self.register(offset), value),
    {
        machine.write16(self.place(offset), value);
    }

    fn write32<M: Machine>(self, machine: &mut M, offset: u16, value: u32)
        ensures
            final(machine).io() == old(machine).io().w32(self.register(offset), value),
    {
        machine.write32(self.place(offset), value);
    }
}

/// What the interrupt path needs of an adapter.
#[derive(Clone, Copy, Debug, PartialEq, Eq, Structural)]
pub struct InterruptHandle {
    pub registers: RegisterIo,
}

impl InterruptHandle {
    /// Read the causes; where one is ours, mask them all and clear it.
    pub open spec fn acknowledge_run(self, io: Io) -> (u32, Io) {
        let (status, io) = io.r16(self.registers.register(ISR));
        if status == u16::MAX {
            (0, io)
        } else {
            let causes = status & INTERRUPT_MASK;
            if causes != 0 {
                (
                    causes as u32,
                    io.w16(self.registers.register(IMR), 0).w16(
                        self.registers.register(ISR),
                        causes,
                    ),
                )
            } else {
                (causes as u32, io)
            }
        }
    }

    pub open spec fn enable_run(self, io: Io) -> Io {
        io.w16(self.registers.register(IMR), INTERRUPT_MASK)
    }

    pub fn acknowledge_and_mask<M: Machine>(self, machine: &mut M) -> (causes: u32)
        ensures
            (causes, final(machine).io()) == self.acknowledge_run(old(machine).io()),
    {
        let status: u16 = self.registers.read16(machine, ISR);
        if status == u16::MAX {
            return 0;
        }
        let causes: u16 = status & INTERRUPT_MASK;
        if causes != 0 {
            self.registers.write16(machine, IMR, 0);
            self.registers.write16(machine, ISR, causes);
        }
        causes as u32
    }

    pub fn enable<M: Machine>(self, machine: &mut M)
        ensures
            final(machine).io() == self.enable_run(old(machine).io()),
    {
        self.registers.write16(machine, IMR, INTERRUPT_MASK);
    }
}

/// One adapter.
#[derive(Debug)]
pub struct Rtl8139 {
    pub bdf: (u8, u8, u8),
    pub registers: RegisterIo,
    pub mac: MacAddress,
    pub rx: DmaRegion,
    pub tx: DmaRegion,
    pub rx_offset: u16,
    pub tx_slot: u16,
}

/// Look at the base address registers from number `from` on: the first window
/// in memory is taken, without one the first in port space.
pub open spec fn window_run(
    device: PciDevice,
    from: int,
    ports: Option<u16>,
    memory: Option<u64>,
    io: Io,
) -> (Result<(RegisterIo, bool), DriverError>, Io)
    decreases 6 - from,
{
    if from >= 6 {
        (
            match (memory, ports) {
                (Some(base), _) => Ok((RegisterIo::Mmio(base), false)),
                (None, Some(base)) => Ok((RegisterIo::Port(base), true)),
                (None, None) => Err(DriverError::UnsupportedBar),
            },
            io,
        )
    } else {
        let bar = decoded_bar(device.bars@, from as u8);
        if is_high_half(device.bars@, from) || bar.address == 0 {
            window_run(device, from + 1, ports, memory, io)
        } else if bar.kind == PciBarKind::Io && bar.address <= u16::MAX {
            window_run(
                device,
                from + 1,
                if ports is Some {
                    ports
                } else {
                    Some(bar.address as u16)
                },
                memory,
                io,
            )
        } else if bar.kind == PciBarKind::Mem32 || bar.kind == PciBarKind::Mem64 {
            let (base, io) = io.ask(Query::PhysToVirt(bar.address & PHYSICAL_MASK));
            window_run(
                device,
                from + 1,
                ports,
                if memory is Some {
                    memory
                } else {
                    Some(base)
                },
                io,
            )
        } else {
            window_run(device, from + 1, ports, memory, io)
        }
    }
}

fn select_bar<M: Machine>(machine: &mut M, device: &PciDevice) -> (result: Result<
    (RegisterIo, bool),
    DriverError,
>)
    ensures
        (result, final(machine).io()) == window_run(*device, 0, None, None, old(machine).io()),
{
    let mut ports: Option<u16> = None;
    let mut memory: Option<u64> = None;
    let mut index: u8 = 0;
    while index < 6
        invariant
            index <= 6,
            window_run(*device, 0, None, None, old(machine).io()) == window_run(
                *device,
                index as int,
                ports,
                memory,
                machine.io(),
            ),
        decreases 6 - index,
    {
        if !device.bar_is_high_half(index) {
            if let Some(bar) = device.bar(index) {
                if bar.address != 0 {
                    match bar.kind {
                        PciBarKind::Io => {
                            if bar.address <= u16::MAX as u64 && ports.is_none() {
                                ports = Some(bar.address as u16);
                            }
                        },
                        PciBarKind::Mem32 | PciBarKind::Mem64 => {
                            let base: u64 = machine.ask(
                                Query::PhysToVirt(bar.address & PHYSICAL_MASK),
                            );
                            if memory.is_none() {
                                memory = Some(base);
                            }
                        },
                        _ => {},
                    }
                }
            }
        }
        index = index + 1;
    }
    match memory {
        Some(base) => Ok((RegisterIo::Mmio(base), false)),
        None => match ports {
            Some(base) => Ok((RegisterIo::Port(base), true)),
            None => Err(DriverError::UnsupportedBar),
        },
    }
}

/// Poll until the reset bit clears.
pub open spec fn reset_poll_run(registers: RegisterIo, limit: nat, io: Io) -> (bool, Io)
    decreases limit,
{
    if limit == 0 {
        (false, io)
    } else {
        let (value, io) = io.r8(registers.register(COMMAND));
        if value & COMMAND_RESET == 0 {
            (true, io)
        } else {
            reset_poll_run(registers, (limit - 1) as nat, io)
        }
    }
}

/// Let the function decode its window and fetch by itself.
pub open spec fn enable_run(address: PciAddress, ports: bool, io: Io) -> Io {
    let (command, io) = address.command_run(io);
    address.write_command_run(
        (command & PciCommand::ALL) | (PciCommand::BUS_MASTER | if ports {
            PciCommand::IO_SPACE
        } else {
            PciCommand::MEMORY_SPACE
        }),
        io,
    )
}

proof fn lemma_enable_bits()
    by (bit_vector)
    ensures
        (0x0004u16 | 0x0002u16) & 0x07FFu16 == 0x0004u16 | 0x0002u16,
        (0x0004u16 | 0x0001u16) & 0x07FFu16 == 0x0004u16 | 0x0001u16,
{
}

/// Wake the adapter and reset it.
pub open spec fn reset_run(registers: RegisterIo, io: Io) -> (Result<(), DriverError>, Io) {
    let io = io.w8(registers.register(CONFIG1), 0);
    let io = io.w8(registers.register(COMMAND), COMMAND_RESET);
    let (done, io) = reset_poll_run(registers, RESET_POLL_LIMIT as nat, io);
    (
        if done {
            Ok(())
        } else {
            Err(DriverError::ResetTimeout)
        },
        io,
    )
}

/// Read the six bytes of the address.
pub open spec fn mac_run(registers: RegisterIo, io: Io) -> (MacAddress, Io) {
    let (a, io) = io.r8(registers.register(IDR0));
    let (b, io) = io.r8(registers.register((IDR0 + 1) as u16));
    let (c, io) = io.r8(registers.register((IDR0 + 2) as u16));
    let (d, io) = io.r8(registers.register((IDR0 + 3) as u16));
    let (e, io) = io.r8(registers.register((IDR0 + 4) as u16));
    let (f, io) = io.r8(registers.register((IDR0 + 5) as u16));
    (MacAddress { bytes: [a, b, c, d, e, f] }, io)
}

/// Take the memory of the ring and of the slots.
pub open spec fn memory_run(io: Io) -> (Result<(DmaRegion, DmaRegion), DriverError>, Io) {
    match DmaRegion::allocate_run(RX_DMA_LEN, Some(u32::MAX as u64), io) {
        (Err(error), io) => (Err(dma_fault(error)), io),
        (Ok(rx), io) => match DmaRegion::allocate_run(TX_DMA_LEN, Some(u32::MAX as u64), io) {
            (Err(error), io) => (Err(dma_fault(error)), rx.release_run(io)),
            (Ok(tx), io) => (Ok((rx, tx)), io),
        },
    }
}

/// Tell the adapter where its memory is and start it.
pub open spec fn start_run(registers: RegisterIo, rx: DmaRegion, tx: DmaRegion, io: Io) -> Io {
    let io = io.w16(registers.register(IMR), 0);
    let io = io.w16(registers.register(ISR), u16::MAX);
    let io = io.w32(registers.register(RBSTART), rx.first as u32);
    let io = io.w32(registers.register(TSAD0), tx.physical(0)->0 as u32);
    let io = io.w32(registers.register((TSAD0 + 4) as u16), tx.physical(2048)->0 as u32);
    let io = io.w32(registers.register((TSAD0 + 8) as u16), tx.physical(4096)->0 as u32);
    let io = io.w32(registers.register((TSAD0 + 12) as u16), tx.physical(6144)->0 as u32);
    let io = io.w32(registers.register(TCR), TCR_SETUP);
    let io = io.w32(registers.register(RCR), RCR_SETUP);
    let io = io.w16(registers.register(CAPR), CAPR_RESET);
    io.w8(registers.register(COMMAND), COMMAND_RX_ENABLE | COMMAND_TX_ENABLE)
}

/// Bring an adapter up.
pub open spec fn new_run(device: PciDevice, io: Io) -> (Result<Rtl8139, DriverError>, Io) {
    match window_run(device, 0, None, None, io) {
        (Err(error), io) => (Err(error), io),
        (Ok((registers, ports)), io) => if !device.address.is_valid() {
            (Err(DriverError::UnsupportedBar), io)
        } else {
            match reset_run(registers, enable_run(device.address, ports, io)) {
                (Err(error), io) => (Err(error), io),
                (Ok(_), io) => match memory_run(io) {
                    (Err(error), io) => (Err(error), io),
                    (Ok((rx, tx)), io) => {
                        let (mac, io) = mac_run(registers, io);
                        if !is_usable_mac(mac.bytes@) {
                            (
                                Err(DriverError::InvalidMac),
                                rx.release_run(tx.release_run(io)),
                            )
                        } else {
                            (
                                Ok(
                                    Rtl8139 {
                                        bdf: (
                                            device.address.bus,
                                            device.address.dev,
                                            device.address.func,
                                        ),
                                        registers,
                                        mac,
                                        rx,
                                        tx,
                                        rx_offset: 0,
                                        tx_slot: 0,
                                    },
                                ),
                                start_run(registers, rx, tx, io),
                            )
                        }
                    },
                },
            }
        },
    }
}

/// The cell of a byte of the receive ring.
pub open spec fn ring_cell(base: u64, offset: int) -> Place {
    cell(base, (offset % RX_RING_LEN as int) as u64)
}

/// A little-endian half-word of the receive ring.
pub open spec fn ring_half_run(base: u64, offset: int, io: Io) -> (u16, Io) {
    let (low, io) = io.r8(ring_cell(base, offset));
    let (high, io) = io.r8(ring_cell(base, offset + 1));
    ((low as u16) | ((high as u16) << 8), io)
}

/// The bytes answered when the ring is read, wrapping at its end.
pub open spec fn ring_answered(io: Io, count: nat) -> Seq<u8> {
    Seq::new(count, |i: int| (io.replies)((io.reads + i) as nat) as u8)
}

/// The state after bytes of the ring were read, wrapping at its end.
pub open spec fn ring_loaded(io: Io, base: u64, offset: int, count: nat) -> Io {
    Io {
        reads: io.reads + count,
        trace: io.trace + Seq::new(count, |i: int| Access::Read8(ring_cell(base, offset + i))),
        ..io
    }
}

/// Where the frame behind one of `length` bytes begins: words are kept whole.
pub open spec fn next_offset(offset: u16, length: int) -> u16 {
    ((offset + length + 7) / 4 * 4 % RX_RING_LEN as int) as u16
}

proof fn lemma_whole_words(value: u32)
    by (bit_vector)
    ensures
        value & !3 == value / 4 * 4,
{
}

impl Rtl8139 {
    fn reset<M: Machine>(machine: &mut M, registers: RegisterIo) -> (result: Result<
        (),
        DriverError,
    >)
        ensures
            (result, final(machine).io()) == reset_run(registers, old(machine).io()),
    {
        registers.write8(machine, CONFIG1, 0);
        registers.write8(machine, COMMAND, COMMAND_RESET);
        let ghost start = machine.io();
        let mut left: u32 = RESET_POLL_LIMIT;
        while left > 0
            invariant
                reset_run(registers, old(machine).io()).1 == reset_poll_run(
                    registers,
                    RESET_POLL_LIMIT as nat,
                    start,
                ).1,
                reset_run(registers, old(machine).io()).0 == (if reset_poll_run(
                    registers,
                    RESET_POLL_LIMIT as nat,
                    start,
                ).0 {
                    Ok::<(), DriverError>(())
                } else {
                    Err(DriverError::ResetTimeout)
                }),
                reset_poll_run(registers, RESET_POLL_LIMIT as nat, start) == reset_poll_run(
                    registers,
                    left as nat,
                    machine.io(),
                ),
            decreases left,
        {
            if registers.read8(machine, COMMAND) & COMMAND_RESET == 0 {
                return Ok(());
            }
            left = left - 1;
        }
        Err(DriverError::ResetTimeout)
    }

    fn take_memory<M: Machine>(machine: &mut M) -> (result: Result<
        (DmaRegion, DmaRegion),
        DriverError,
    >)
        ensures
            (result, final(machine).io()) == memory_run(old(machine).io()),
    {
        let rx: DmaRegion = match DmaRegion::allocate(
            machine,
            RX_DMA_LEN,
            Some(u32::MAX as u64),
        ) {
            Ok(region) => region,
            Err(error) => {
                return Err(DriverError::from_dma(error));
            },
        };
        let tx: DmaRegion = match DmaRegion::allocate(
            machine,
            TX_DMA_LEN,
            Some(u32::MAX as u64),
        ) {
            Ok(region) => region,
            Err(error) => {
                rx.release(machine);
                return Err(DriverError::from_dma(error));
            },
        };
        Ok((rx, tx))
    }

    fn read_mac<M: Machine>(machine: &mut M, registers: RegisterIo) -> (mac: MacAddress)
        ensures
            (mac, final(machine).io()) == mac_run(registers, old(machine).io()),
    {
        let a: u8 = registers.read8(machine, IDR0);
        let b: u8 = registers.read8(machine, IDR0 + 1);
        let c: u8 = registers.read8(machine, IDR0 + 2);
        let d: u8 = registers.read8(machine, IDR0 + 3);
        let e: u8 = registers.read8(machine, IDR0 + 4);
        let f: u8 = registers.read8(machine, IDR0 + 5);
        MacAddress { bytes: [a, b, c, d, e, f] }
    }

    fn start<M: Machine>(
        machine: &mut M,
        registers: RegisterIo,
        rx: &DmaRegion,
        tx: &DmaRegion,
    )
        requires
            tx.len == TX_DMA_LEN,
        ensures
            final(machine).io() == start_run(registers, *rx, *tx, old(machine).io()),
    {
        registers.write16(machine, IMR, 0);
        registers.write16(machine, ISR, u16::MAX);
        registers.write32(machine, RBSTART, rx.physical_address() as u32);
        let a: u64 = tx.physical_at(0).unwrap_or(0);
        let b: u64 = tx.physical_at(2048).unwrap_or(0);
        let c: u64 = tx.physical_at(4096).unwrap_or(0);
        let d: u64 = tx.physical_at(6144).unwrap_or(0);
        registers.write32(machine, TSAD0, a as u32);
        registers.write32(machine, TSAD0 + 4, b as u32);
        registers.write32(machine, TSAD0 + 8, c as u32);
        registers.write32(machine, TSAD0 + 12, d as u32);
        registers.write32(machine, TCR, TCR_SETUP);
        registers.write32(machine, RCR, RCR_SETUP);
        registers.write16(machine, CAPR, CAPR_RESET);
        registers.write8(machine, COMMAND, COMMAND_RX_ENABLE | COMMAND_TX_ENABLE);
    }

    /// Bring an adapter up.
    pub fn new<M: Machine>(machine: &mut M, device: &PciDevice) -> (result: Result<
        Self,
        DriverError,
    >)
        ensures
            (result, final(machine).io()) == new_run(*device, old(machine).io()),
    {
        let (registers, is_io): (RegisterIo, bool) = match select_bar(machine, device) {
            Ok(pair) => pair,
            Err(error) => {
                return Err(error);
            },
        };
        let pci_address: PciAddress = match PciAddress::new(
            device.address.bus(),
            device.address.device(),
            device.address.function(),
        ) {
            Some(address) => address,
            None => {
                return Err(DriverError::UnsupportedBar);
            },
        };
        let mut command = PciCommand::from_bits_truncate(pci_address.read_command(machine));
        command.insert(
            PciCommand::BUS_MASTER | if is_io {
                PciCommand::IO_SPACE
            } else {
                PciCommand::MEMORY_SPACE
            },
        );
        proof {
            lemma_enable_bits();
        }
        pci_address.write_command(machine, command.bits());
        match Self::reset(machine, registers) {
            Ok(_) => {},
            Err(error) => {
                return Err(error);
            },
        }
        let (rx, tx): (DmaRegion, DmaRegion) = match Self::take_memory(machine) {
            Ok(pair) => pair,
            Err(error) => {
                return Err(error);
            },
        };
        let mac: MacAddress = Self::read_mac(machine, registers);
        if !mac.is_usable() {
            tx.release(machine);
            rx.release(machine);
            return Err(DriverError::InvalidMac);
        }
        Self::start(machine, registers, &rx, &tx);
        Ok(
            Rtl8139 {
                bdf: (
                    device.address.bus(),
                    device.address.device(),
                    device.address.function(),
                ),
                registers,
                mac,
                rx,
                tx,
                rx_offset: 0,
                tx_slot: 0,
            },
        )
    }

    /// Give all memory back.
    pub open spec fn release_run(self, io: Io) -> Io {
        self.tx.release_run(self.rx.release_run(io))
    }

    /// Give all memory back.
    pub fn release<M: Machine>(self, machine: &mut M)
        ensures
            final(machine).io() == self.release_run(old(machine).io()),
    {
        self.rx.release(machine);
        self.tx.release(machine);
    }

    pub fn bdf(&self) -> (bdf: (u8, u8, u8))
        ensures
            bdf == self.bdf,
    {
        self.bdf
    }

    pub fn interrupt_handle(&self) -> (handle: InterruptHandle)
        ensures
            handle.registers == self.registers,
    {
        InterruptHandle { registers: self.registers }
    }

    pub open spec fn link_run(self, io: Io) -> (bool, Io) {
        let (status, io) = io.r8(self.registers.register(MEDIA_STATUS));
        (status & MEDIA_LINK_BAD == 0, io)
    }

    /// Send a frame: padded to the smallest size, in the next slot.
    pub open spec fn transmit_run(self, frame: Seq<u8>, io: Io) -> (Result<
        (),
        DriverError,
    >, Rtl8139, Io) {
        let slot = self.registers.register(TSD0.wrapping_add(self.tx_slot.wrapping_mul(4)));
        if frame.len() > MAX_FRAME_LEN {
            (Err(DriverError::FrameTooLarge), self, io)
        } else {
            let (status, io) = io.r32(slot);
            let padded = frame_padded(frame);
            let offset = self.tx_slot * TX_BUFFER_LEN;
            if status & TX_OWN == 0 {
                (Err(DriverError::WouldBlock), self, io)
            } else if !self.tx.holds(offset, padded.len() as int) {
                (Err(DriverError::DmaUnavailable), self, io)
            } else {
                let io = bytes_stored(
                    io,
                    self.tx.address.wrapping_add(offset as u64),
                    padded,
                );
                let io = io.tell(Order::Fence);
                (
                    Ok(()),
                    Rtl8139 {
                        tx_slot: (self.tx_slot.wrapping_add(1) % TX_SLOTS) as u16,
                        ..self
                    },
                    io.w32(slot, padded.len() as u32),
                )
            }
        }
    }

    /// Start the receiver again with an empty ring.
    pub open spec fn recover_run(self, io: Io) -> (Rtl8139, Io) {
        let (command, io) = io.r8(self.registers.register(COMMAND));
        let io = io.w8(self.registers.register(COMMAND), command & !COMMAND_RX_ENABLE);
        let io = io.w32(self.registers.register(RBSTART), self.rx.first as u32);
        let io = io.w16(self.registers.register(CAPR), CAPR_RESET);
        (
            Rtl8139 { rx_offset: 0, ..self },
            io.w8(
                self.registers.register(COMMAND),
                command | COMMAND_RX_ENABLE | COMMAND_TX_ENABLE,
            ),
        )
    }

    /// Take the next frame, where one arrived that fits into `room` bytes.  A
    /// header that makes no sense restarts the receiver; a frame that does not
    /// fit stays.
    pub open spec fn receive_run(self, room: nat, io: Io) -> (Result<
        Seq<u8>,
        DriverError,
    >, Rtl8139, Io) {
        let (command, io) = io.r8(self.registers.register(COMMAND));
        if command & COMMAND_RX_EMPTY != 0 {
            (Err(DriverError::NoPacket), self, io)
        } else {
            let io = io.tell(Order::Fence);
            let (status, io) = ring_half_run(self.rx.address, self.rx_offset as int, io);
            let (length, io) = ring_half_run(self.rx.address, self.rx_offset + 2, io);
            if status & RX_OK == 0 || length < RX_MIN || length > RX_MAX {
                let (after, io) = self.recover_run(io);
                (Err(DriverError::DeviceFault), after, io)
            } else {
                let count = (length - 4) as nat;
                if room < count {
                    (Err(DriverError::BufferTooSmall), self, io)
                } else {
                    let frame = ring_answered(io, count);
                    let io = ring_loaded(io, self.rx.address, self.rx_offset + 4, count);
                    let next = next_offset(self.rx_offset, length as int);
                    let io = io.w16(self.registers.register(CAPR), next.wrapping_sub(16));
                    (
                        Ok(frame),
                        Rtl8139 { rx_offset: next, ..self },
                        io.w16(self.registers.register(ISR), u16::MAX),
                    )
                }
            }
        }
    }

    fn ring_byte<M: Machine>(&self, machine: &mut M, offset: u32) -> (value: u8)
        ensures
            (value, final(machine).io()) == old(machine).io().r8(
                ring_cell(self.rx.address, offset as int),
            ),
    {
        machine.read8(cell_at(self.rx.as_ptr(), (offset % RX_RING_LEN as u32) as u64))
    }

    fn ring_u16<M: Machine>(&self, machine: &mut M, offset: u32) -> (value: u16)
        requires
            offset < u32::MAX,
        ensures
            (value, final(machine).io()) == ring_half_run(
                self.rx.address,
                offset as int,
                old(machine).io(),
            ),
    {
        let low: u8 = self.ring_byte(machine, offset);
        let high: u8 = self.ring_byte(machine, offset + 1);
        (low as u16) | ((high as u16) << 8)
    }

    fn copy_from_ring<M: Machine>(&self, machine: &mut M, offset: u32, count: usize) -> (data: Vec<u8>)
        requires
            offset + count <= u32::MAX,
        ensures
            data@ == ring_answered(old(machine).io(), count as nat),
            final(machine).io() == ring_loaded(
                old(machine).io(),
                self.rx.address,
                offset as int,
                count as nat,
            ),
    {
        let mut data: Vec<u8> = Vec::new();
        let mut i: usize = 0;
        assert(ring_loaded(machine.io(), self.rx.address, offset as int, 0) == machine.io());
        while i < count
            invariant
                i <= count,
                offset + count <= u32::MAX,
                data@ == ring_answered(old(machine).io(), i as nat),
                machine.io() == ring_loaded(
                    old(machine).io(),
                    self.rx.address,
                    offset as int,
                    i as nat,
                ),
            decreases count - i,
        {
            let value: u8 = self.ring_byte(machine, offset + i as u32);
            data.push(value);
            proof {
                let io = old(machine).io();
                assert(ring_answered(io, (i + 1) as nat) =~= ring_answered(io, i as nat).push(
                    value,
                ));
                assert(ring_loaded(io, self.rx.address, offset as int, (i + 1) as nat).trace
                    =~= ring_loaded(io, self.rx.address, offset as int, i as nat).trace.push(
                    Access::Read8(ring_cell(self.rx.address, offset + i)),
                ));
            }
            i = i + 1;
        }
        data
    }

    fn recover_receiver<M: Machine>(&mut self, machine: &mut M)
        ensures
            (*final(self), final(machine).io()) == old(self).recover_run(old(machine).io()),
    {
        let command: u8 = self.registers.read8(machine, COMMAND);
        self.registers.write8(machine, COMMAND, command & !COMMAND_RX_ENABLE);
        self.rx_offset = 0;
        self.registers.write32(machine, RBSTART, self.rx.physical_address() as u32);
        self.registers.write16(machine, CAPR, CAPR_RESET);
        self.registers.write8(
            machine,
            COMMAND,
            command | COMMAND_RX_ENABLE | COMMAND_TX_ENABLE,
        );
    }
}

impl NetworkAdapter for Rtl8139 {
    fn driver_name(&self) -> (name: &'static str)
        ensures
            name@ == "rtl8139"@,
    {
        "rtl8139"
    }

    fn mac_address(&self) -> (mac: MacAddress)
        ensures
            mac == self.mac,
    {
        self.mac
    }

    fn link_up<M: Machine>(&self, machine: &mut M) -> (up: bool)
        ensures
            (up, final(machine).io()) == self.link_run(old(machine).io()),
    {
        self.registers.read8(machine, MEDIA_STATUS) & MEDIA_LINK_BAD == 0
    }

    fn mtu(&self) -> (bytes: usize)
        ensures
            bytes == MTU,
    {
        MTU
    }

    fn transmit<M: Machine>(&mut self, machine: &mut M, frame: &[u8]) -> (result: Result<
        (),
        DriverError,
    >)
        ensures
            (result, *final(self), final(machine).io()) == old(self).transmit_run(
                frame@,
                old(machine).io(),
            ),
    {
        if frame.len() > MAX_FRAME_LEN {
            return Err(DriverError::FrameTooLarge);
        }
        let status_offset: u16 = TSD0.wrapping_add(self.tx_slot.wrapping_mul(4));
        if self.registers.read32(machine, status_offset) & TX_OWN == 0 {
            return Err(DriverError::WouldBlock);
        }
        let padded: Vec<u8> = pad_frame(frame);
        let length: usize = padded.len();
        if self.tx.slice_mut(
            machine,
            self.tx_slot as usize * TX_BUFFER_LEN,
            padded.as_slice(),
        ).is_none() {
            return Err(DriverError::DmaUnavailable);
        }
        self.tx.sync_for_device(machine);
        self.registers.write32(machine, status_offset, length as u32);
        self.tx_slot = self.tx_slot.wrapping_add(1) % TX_SLOTS;
        Ok(())
    }

    fn poll_receive<M: Machine>(&mut self, machine: &mut M, output: &mut Vec<u8>) -> (result: Result<
        usize,
        DriverError,
    >)
        ensures
            ({
                let (expected, after, io) = old(self).receive_run(
                    old(output)@.len(),
                    old(machine).io(),
                );
                &&& *final(self) == after
                &&& final(machine).io() == io
                &&& match expected {
                    Ok(frame) => result == Ok::<usize, DriverError>(frame.len() as usize)
                        && frame.len() <= old(output)@.len() && final(output)@ == overlaid(
                        old(output)@,
                        0,
                        frame,
                    ),
                    Err(error) => result == Err::<usize, DriverError>(error) && final(output)@
                        == old(output)@,
                }
            }),
    {
        if self.registers.read8(machine, COMMAND) & COMMAND_RX_EMPTY != 0 {
            return Err(DriverError::NoPacket);
        }
        self.rx.sync_for_cpu(machine);
        let offset: u32 = self.rx_offset as u32;
        let status: u16 = self.ring_u16(machine, offset);
        let dma_length: usize = self.ring_u16(machine, offset + 2) as usize;
        if status & RX_OK == 0 || dma_length < RX_MIN || dma_length > RX_MAX {
            self.recover_receiver(machine);
            return Err(DriverError::DeviceFault);
        }
        let frame_length: usize = dma_length - 4;
        if output.len() < frame_length {
            return Err(DriverError::BufferTooSmall);
        }
        let frame: Vec<u8> = self.copy_from_ring(machine, offset + 4, frame_length);
        overlay(output, 0, &frame);
        let end: u32 = offset + 4 + dma_length as u32 + 3;
        proof {
            lemma_whole_words(end);
        }
        self.rx_offset = ((end & !3) % RX_RING_LEN as u32) as u16;
        self.registers.write16(machine, CAPR, self.rx_offset.wrapping_sub(16));
        self.registers.write16(machine, ISR, u16::MAX);
        Ok(frame_length)
    }
}

/// The read offset stays in the ring and on whole words, and the slot stays
/// one of the four, whatever is sent or received.
pub proof fn lemma_positions_stay_valid(adapter: Rtl8139, frame: Seq<u8>, room: nat, io: Io)
    requires
        adapter.rx_offset < RX_RING_LEN,
        adapter.rx_offset % 4 == 0,
        adapter.tx_slot < TX_SLOTS,
    ensures
        adapter.transmit_run(frame, io).1.tx_slot < TX_SLOTS,
        adapter.transmit_run(frame, io).1.rx_offset == adapter.rx_offset,
        adapter.receive_run(room, io).1.rx_offset < RX_RING_LEN,
        adapter.receive_run(room, io).1.rx_offset % 4 == 0,
        adapter.receive_run(room, io).1.tx_slot == adapter.tx_slot,
{
}

/// Whether a function is one of the supported adapters.
pub open spec fn is_rtl8139(device: PciDevice) -> bool {
    &&& device.vendor_id == VENDOR_REALTEK
    &&& device.device_id == DEVICE_RTL8139 || device.device_id == DEVICE_RTL8138
    &&& device.base_class == 0x02
}

/// What a failed bring-up is reported as.
pub open spec fn driver_error(error: DriverError) -> PciDriverError {
    match error {
        DriverError::UnsupportedBar => PciDriverError::BarUnreadable,
        _ => PciDriverError::ProbeFailed("RTL8139 initialization failed"),
    }
}

/// The driver.
#[derive(Clone, Copy, Debug)]
pub struct Rtl8139PciDriver {}

impl PciDriver for Rtl8139PciDriver {
    open spec fn claims(&self, device: PciDevice) -> bool {
        is_rtl8139(device)
    }

    open spec fn brings_up(
        &self,
        device: PciDevice,
        before: Devices,
        io: Io,
        result: Result<(), PciDriverError>,
        after: Devices,
        later: Io,
    ) -> bool {
        &&& match new_run(device, io) {
            (Err(error), reached) => result == Err::<(), _>(driver_error(error)) && later == reached
                && after.network@ == before.network@,
            (Ok(adapter), reached) => result is Ok && (after.network@, later)
                == before.network@.adopt_run(
                Adapter::Rtl8139(adapter),
                IrqDevice::Rtl8139(InterruptHandle { registers: adapter.registers }),
                before.routing.routes@,
                before.routing.parents@,
                device,
                adapter.link_run(reached).1,
            ),
        }
        &&& after == (Devices { network: after.network, ..before })
    }

    fn name(&self) -> (name: &'static str)
        ensures
            name@ == "rtl8139"@,
    {
        "rtl8139"
    }

    fn matches(&self, device: &PciDevice) -> (claimed: bool) {
        device.vendor_id == VENDOR_REALTEK && (device.device_id == DEVICE_RTL8139
            || device.device_id == DEVICE_RTL8138) && device.base_class == 0x02
    }

    /// Bring an adapter up, attach it and wire its interrupt.
    fn probe<M: Machine>(&self, machine: &mut M, devices: &mut Devices, device: &PciDevice) -> (result:
        Result<(), PciDriverError>) {
        let adapter: Rtl8139 = match Rtl8139::new(machine, device) {
            Ok(adapter) => adapter,
            Err(error) => match error {
                DriverError::UnsupportedBar => {
                    return Err(PciDriverError::BarUnreadable);
                },
                _ => {
                    return Err(PciDriverError::ProbeFailed("RTL8139 initialization failed"));
                },
            },
        };
        let _link: bool = adapter.link_up(machine);
        let interrupt: InterruptHandle = adapter.interrupt_handle();
        devices.network.adopt(
            machine,
            Adapter::Rtl8139(adapter),
            IrqDevice::Rtl8139(interrupt),
            &devices.routing,
            device,
        );
        Ok(())
    }
}

/// Register the driver.
pub fn register_pci_driver(registry: &mut DriverRegistry<AnyDriver>)
    requires
        old(registry).wf(),
    ensures
        final(registry).wf(),
        final(registry).drivers@ == enrolled(
            old(registry).drivers@,
            KEY_RTL8139,
            AnyDriver::Rtl8139(Rtl8139PciDriver {}),
        ),
{
    register_driver(registry, KEY_RTL8139, AnyDriver::Rtl8139(Rtl8139PciDriver {}));
}

} // verus!
