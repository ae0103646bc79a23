//! AHCI SATA controllers.
//!
//! A controller shows its registers in one window of memory, the ABAR: the
//! host registers first, then one block for each of up to 32 ports.
use vstd::prelude::*;
use crate::driver::{AnyDriver, Devices, KEY_AHCI};
use crate::machine::{cell, cell_at, poll_clear, wait_clear, Io, Machine, Order, Place, Query};
use crate::pci::config::PciAddress;
use crate::pci::enumerate;
use crate::pci::enumerate::{
    register_driver, DriverRegistry, PciDriver, PciDriverError, enrolled,
};
use crate::pci::{PciCommand, PciDevice};

pub mod disk;
pub mod hba;

pub use self::hba::{HbaError, HbaPort};

verus! {

pub const PCI_CLASS_MASS_STORAGE: u8 = 0x01;
pub const PCI_SUBCLASS_SATA: u8 = 0x06;
pub const PCI_PROG_IF_AHCI: u8 = 0x01;
pub const ABAR_BAR_INDEX: usize = 5;

/// Bytes of the register window.
pub const ABAR_SIZE: usize = 0x2000;
/// Bytes of one port's registers.
pub const PORT_REG_SIZE: usize = 0x80;
/// Where the first port's registers are.
pub const PORT_REGS_BASE: usize = 0x100;
/// Ports of one controller at most.
pub const MAX_PORTS: usize = 32;

/// Bits of the global host control register.
pub struct Ghc {}

impl Ghc {
    pub const HBA_RESET: u32 = 0x0000_0001;
    pub const INTERRUPT_ENABLE: u32 = 0x0000_0002;
    pub const AHCI_ENABLE: u32 = 0x8000_0000;
}

pub const CAP_NCS_MASK: u32 = 0x0000_1F00;
pub const CAP_NCS_SHIFT: u32 = 8;
pub const CAP_S64A: u32 = 0x8000_0000;
/// The signature of a disk; other devices speak other protocols.
pub const SATA_SIGNATURE: u32 = 0x0000_0101;

pub const HOST_CAP: u64 = 0x00;
pub const HOST_GHC: u64 = 0x04;
pub const HOST_IS: u64 = 0x08;
pub const HOST_PI: u64 = 0x0C;
pub const HOST_VS: u64 = 0x10;
pub const HOST_CAP2: u64 = 0x24;
pub const HOST_BOHC: u64 = 0x28;
pub const CAP2_BOH: u32 = 0x01;
pub const BOHC_BOS: u32 = 0x01;
pub const BOHC_OOS: u32 = 0x02;
pub const BOHC_BB: u32 = 0x10;
pub const HANDOFF_POLL_LIMIT: u32 = 5_000_000;
pub const RESET_POLL_LIMIT: u32 = 1_000_001;

/// The host registers of a controller.
#[derive(Copy, Clone, Debug, PartialEq, Eq, Structural)]
pub struct HbaMemory {
    pub base: u64,
}

/// The host control word with some bits set or cleared.
pub open spec fn with_bits(current: u32, mask: u32, enable: bool) -> u32 {
    if enable {
        current | mask
    } else {
        current & !mask
    }
}

impl HbaMemory {
    /// The registers behind an address.
    pub fn new(base: u64) -> (registers: Self)
        ensures
            registers.base == base,
    {
        HbaMemory { base }
    }

    pub open spec fn register(self, offset: u64) -> Place {
        cell(self.base, offset)
    }

    /// Host capabilities.
    pub fn cap<M: Machine>(&self, machine: &mut M) -> (value: u32)
        ensures
            (value, final(machine).io()) == old(machine).io().r32(self.register(HOST_CAP)),
    {
        machine.read32(cell_at(self.base, HOST_CAP))
    }

    /// Global host control.
    pub fn ghc<M: Machine>(&self, machine: &mut M) -> (value: u32)
        ensures
            (value, final(machine).io()) == old(machine).io().r32(self.register(HOST_GHC)),
    {
        machine.read32(cell_at(self.base, HOST_GHC))
    }

    /// Write global host control.
    pub fn write_ghc<M: Machine>(&self, machine: &mut M, value: u32)
        ensures
            final(machine).io() == old(machine).io().w32(self.register(HOST_GHC), value),
    {
        machine.write32(cell_at(self.base, HOST_GHC), value);
    }

    /// Set or clear some bits of global host control and keep the others.
    pub open spec fn ghc_run(self, mask: u32, enable: bool, io: Io) -> Io {
        let (current, io) = io.r32(self.register(HOST_GHC));
        io.w32(self.register(HOST_GHC), with_bits(current, mask, enable))
    }

    /// Put the controller into AHCI mode, or out of it.
    pub fn set_ahci_enable<M: Machine>(&self, machine: &mut M, enable: bool)
        ensures
            final(machine).io() == self.ghc_run(Ghc::AHCI_ENABLE, enable, old(machine).io()),
    {
        let current: u32 = self.ghc(machine);
        let next: u32 = if enable {
            current | Ghc::AHCI_ENABLE
        } else {
            current & !Ghc::AHCI_ENABLE
        };
        self.write_ghc(machine, next);
    }

    /// Let the controller raise interrupts, or keep it from doing so.
    pub fn set_interrupt_enable<M: Machine>(&self, machine: &mut M, enable: bool)
        ensures
            final(machine).io() == self.ghc_run(Ghc::INTERRUPT_ENABLE, enable, old(machine).io()),
    {
        let current: u32 = self.ghc(machine);
        let next: u32 = if enable {
            current | Ghc::INTERRUPT_ENABLE
        } else {
            current & !Ghc::INTERRUPT_ENABLE
        };
        self.write_ghc(machine, next);
    }

    /// The ports with a pending interrupt.
    pub fn interrupt_status<M: Machine>(&self, machine: &mut M) -> (value: u32)
        ensures
            (value, final(machine).io()) == old(machine).io().r32(self.register(HOST_IS)),
    {
        machine.read32(cell_at(self.base, HOST_IS))
    }

    /// The ports that exist, one bit each.
    pub fn ports_implemented<M: Machine>(&self, machine: &mut M) -> (value: u32)
        ensures
            (value, final(machine).io()) == old(machine).io().r32(self.register(HOST_PI)),
    {
        machine.read32(cell_at(self.base, HOST_PI))
    }

    /// The version of the interface.
    pub fn version<M: Machine>(&self, machine: &mut M) -> (value: u32)
        ensures
            (value, final(machine).io()) == old(machine).io().r32(self.register(HOST_VS)),
    {
        machine.read32(cell_at(self.base, HOST_VS))
    }

    /// Extended host capabilities.
    pub fn cap2<M: Machine>(&self, machine: &mut M) -> (value: u32)
        ensures
            (value, final(machine).io()) == old(machine).io().r32(self.register(HOST_CAP2)),
    {
        machine.read32(cell_at(self.base, HOST_CAP2))
    }

    /// The handoff register between firmware and system.
    pub fn bohc<M: Machine>(&self, machine: &mut M) -> (value: u32)
        ensures
            (value, final(machine).io()) == old(machine).io().r32(self.register(HOST_BOHC)),
    {
        machine.read32(cell_at(self.base, HOST_BOHC))
    }

    /// Write the handoff register.
    pub fn write_bohc<M: Machine>(&self, machine: &mut M, value: u32)
        ensures
            final(machine).io() == old(machine).io().w32(self.register(HOST_BOHC), value),
    {
        machine.write32(cell_at(self.base, HOST_BOHC), value);
    }

    pub open spec fn ownership_run(self, io: Io) -> (Result<(), HbaError>, Io) {
        let (cap2, io) = io.r32(self.register(HOST_CAP2));
        if cap2 & CAP2_BOH == 0 {
            (Ok(()), io)
        } else {
            let (bohc, io) = io.r32(self.register(HOST_BOHC));
            let io = io.w32(self.register(HOST_BOHC), bohc | BOHC_OOS);
            let (free, io) = poll_clear(
                self.register(HOST_BOHC),
                BOHC_BOS | BOHC_BB,
                HANDOFF_POLL_LIMIT as nat,
                io,
            );
            if free {
                (Ok(()), io)
            } else {
                (Err(HbaError::EngineTimeout), io)
            }
        }
    }

    /// Take the controller over from firmware, where that is asked for.
    pub fn take_ownership<M: Machine>(&self, machine: &mut M) -> (result: Result<(), HbaError>)
        ensures
            (result, final(machine).io()) == self.ownership_run(old(machine).io()),
    {
        if self.cap2(machine) & CAP2_BOH == 0 {
            return Ok(());
        }
        let bohc: u32 = self.bohc(machine);
        self.write_bohc(machine, bohc | BOHC_OOS);
        if wait_clear(
            machine,
            cell_at(self.base, HOST_BOHC),
            BOHC_BOS | BOHC_BB,
            HANDOFF_POLL_LIMIT,
        ) {
            Ok(())
        } else {
            Err(HbaError::EngineTimeout)
        }
    }

    pub open spec fn reset_run(self, io: Io) -> (Result<(), HbaError>, Io) {
        let place = self.register(HOST_GHC);
        let (current, io) = io.r32(place);
        let io = io.w32(place, current | Ghc::HBA_RESET);
        let (done, io) = poll_clear(place, Ghc::HBA_RESET, RESET_POLL_LIMIT as nat, io);
        if done {
            (Ok(()), self.ghc_run(Ghc::AHCI_ENABLE, true, io))
        } else {
            (Err(HbaError::EngineTimeout), io)
        }
    }

    /// Reset the controller, wait for the reset bit to clear, and enter AHCI
    /// mode again.
    pub fn reset<M: Machine>(&self, machine: &mut M) -> (result: Result<(), HbaError>)
        ensures
            (result, final(machine).io()) == self.reset_run(old(machine).io()),
    {
        let current: u32 = self.ghc(machine);
        self.write_ghc(machine, current | Ghc::HBA_RESET);
        if !wait_clear(machine, cell_at(self.base, HOST_GHC), Ghc::HBA_RESET, RESET_POLL_LIMIT) {
            return Err(HbaError::EngineTimeout);
        }
        self.set_ahci_enable(machine, true);
        Ok(())
    }
}

/// A controller and the disks attached to it.
#[derive(Debug)]
pub struct AhciController {
    pub abar_virt: u64,
    pub pci: PciAddress,
    pub ports: Vec<Option<HbaPort>>,
    pub command_slots: u8,
    pub supports_64bit: bool,
}

/// Whether a device is a SATA controller in AHCI mode.
pub open spec fn is_ahci(class: u32) -> bool {
    &&& (class >> 16) as u8 == PCI_CLASS_MASS_STORAGE
    &&& (class >> 8) as u8 == PCI_SUBCLASS_SATA
    &&& class as u8 == PCI_PROG_IF_AHCI
}

/// The address of a port's registers.
pub open spec fn port_address(abar: u64, index: int) -> u64 {
    abar.wrapping_add((PORT_REGS_BASE + index * PORT_REG_SIZE) as u64)
}

/// Bring one port up, and keep it where a disk is attached.
pub open spec fn port_run(abar: u64, index: int, slots: u8, wide: bool, io: Io) -> (Option<
    HbaPort,
>, Io) {
    match HbaPort::new_run(port_address(abar, index), index as u8, slots, wide, io) {
        (Err(_), io) => (None, io),
        (Ok(port), io) => {
            let (present, io) = port.present_run(io);
            if !present {
                (None, port.release_run(io))
            } else {
                let (signature, io) = io.r32(cell(port.base, hba::PX_SIG));
                if signature != SATA_SIGNATURE {
                    (None, port.release_run(io))
                } else {
                    (Some(port), io)
                }
            }
        },
    }
}

/// Bring up the ports from number `ports.len()` on that exist.
pub open spec fn ports_run(
    abar: u64,
    implemented: u32,
    slots: u8,
    wide: bool,
    ports: Seq<Option<HbaPort>>,
    io: Io,
) -> (Seq<Option<HbaPort>>, Io)
    decreases MAX_PORTS - ports.len(),
{
    if ports.len() >= MAX_PORTS {
        (ports, io)
    } else if implemented & (1u32 << (ports.len() as u32)) == 0 {
        ports_run(abar, implemented, slots, wide, ports.push(None), io)
    } else {
        let (port, io) = port_run(abar, ports.len() as int, slots, wide, io);
        ports_run(abar, implemented, slots, wide, ports.push(port), io)
    }
}

/// What is known of a controller, apart from how its ports are held.
#[verifier::ext_equal]
pub struct ControllerModel {
    pub abar_virt: u64,
    pub pci: PciAddress,
    pub ports: Seq<Option<HbaPort>>,
    pub command_slots: u8,
    pub supports_64bit: bool,
}

impl View for AhciController {
    type V = ControllerModel;

    open spec fn view(&self) -> ControllerModel {
        ControllerModel {
            abar_virt: self.abar_virt,
            pci: self.pci,
            ports: self.ports@,
            command_slots: self.command_slots,
            supports_64bit: self.supports_64bit,
        }
    }
}

/// Bring a controller up: check the device, enable it, take it over, reset it
/// and bring up its ports.
pub open spec fn controller_run(dev: PciDevice, io: Io) -> (Result<ControllerModel, HbaError>, Io) {
    let abar = dev.bars@[ABAR_BAR_INDEX as int];
    let address = dev.location();
    if !is_ahci(dev.class) {
        (Err(HbaError::NotAhci), io)
    } else if abar == 0 {
        (Err(HbaError::NoAbar), io)
    } else if abar & 1 != 0 {
        (Err(HbaError::AbarIsIo), io)
    } else {
        let (command, io) = address.command_run(io);
        let io = address.write_command_run(
            (command & PciCommand::ALL) | (PciCommand::MEMORY_SPACE | PciCommand::BUS_MASTER),
            io,
        );
        let (virt, io) = io.ask(Query::PhysToVirt((abar & 0xFFFF_FFF0) as u64));
        let regs = HbaMemory { base: virt };
        let io = regs.ghc_run(Ghc::AHCI_ENABLE, true, io);
        match regs.ownership_run(io) {
            (Err(error), io) => (Err(error), io),
            (Ok(_), io) => match regs.reset_run(io) {
                (Err(error), io) => (Err(error), io),
                (Ok(_), io) => {
                    let io = regs.ghc_run(Ghc::INTERRUPT_ENABLE, false, io);
                    let (cap, io) = io.r32(regs.register(HOST_CAP));
                    let (implemented, io) = io.r32(regs.register(HOST_PI));
                    let (version, io) = io.r32(regs.register(HOST_VS));
                    let slots = (((cap & CAP_NCS_MASK) >> CAP_NCS_SHIFT) as u8 + 1) as u8;
                    let wide = cap & CAP_S64A != 0;
                    let (ports, io) = ports_run(
                        virt,
                        implemented,
                        slots,
                        wide,
                        Seq::empty(),
                        io,
                    );
                    (
                        Ok(
                            ControllerModel {
                                abar_virt: virt,
                                pci: address,
                                ports,
                                command_slots: slots,
                                supports_64bit: wide,
                            },
                        ),
                        io,
                    )
                },
            },
        }
    }
}

proof fn lemma_slot_field(cap: u32)
    by (bit_vector)
    ensures
        (cap & 0x0000_1F00) >> 8u32 <= 31,
{
}

proof fn lemma_enable_bits()
    by (bit_vector)
    ensures
        (0x0002u16 | 0x0004u16) & 0x07FFu16 == 0x0002u16 | 0x0004u16,
{
}

/// The numbers of the ports that have a disk.
pub open spec fn attached(ports: Seq<Option<HbaPort>>) -> Seq<int>
    decreases ports.len(),
{
    if ports.len() == 0 {
        Seq::empty()
    } else if ports.last() is Some {
        attached(ports.drop_last()).push(ports.len() - 1)
    } else {
        attached(ports.drop_last())
    }
}

/// The whole numbers of a list.
pub open spec fn as_ints(list: Seq<usize>) -> Seq<int> {
    Seq::new(list.len(), |i: int| list[i] as int)
}

impl AhciController {
    /// Whether there is a place for every port a controller can have.
    pub open spec fn wf(self) -> bool {
        self.ports@.len() == MAX_PORTS
    }

    /// Bring a controller up.
    pub fn new<M: Machine>(machine: &mut M, dev: &PciDevice) -> (result: Result<Self, HbaError>)
        ensures
            match (result, controller_run(*dev, old(machine).io()).0) {
                (Ok(controller), Ok(model)) => controller@ == model && controller.wf(),
                (Err(a), Err(b)) => a == b,
                _ => false,
            },
            final(machine).io() == controller_run(*dev, old(machine).io()).1,
    {
        if !is_ahci_controller(dev) {
            return Err(HbaError::NotAhci);
        }
        let abar_raw: u32 = dev.bar(ABAR_BAR_INDEX);
        if abar_raw == 0 {
            return Err(HbaError::NoAbar);
        }
        if abar_raw & 1 != 0 {
            return Err(HbaError::AbarIsIo);
        }
        let base: u64 = (abar_raw & 0xFFFF_FFF0) as u64;
        let pci: PciAddress = dev.address();
        let mut command = PciCommand::from_bits_truncate(pci.read_command(machine));
        command.insert(PciCommand::MEMORY_SPACE | PciCommand::BUS_MASTER);
        proof {
            lemma_enable_bits();
        }
        pci.write_command(machine, command.bits());
        let abar_virt: u64 = machine.ask(Query::PhysToVirt(base));
        let regs = HbaMemory::new(abar_virt);
        regs.set_ahci_enable(machine, true);
        match regs.take_ownership(machine) {
            Ok(_) => {},
            Err(error) => {
                return Err(error);
            },
        }
        match regs.reset(machine) {
            Ok(_) => {},
            Err(error) => {
                return Err(error);
            },
        }
        regs.set_interrupt_enable(machine, false);
        let cap: u32 = regs.cap(machine);
        let implemented: u32 = regs.ports_implemented(machine);
        let _version: u32 = regs.version(machine);
        proof {
            lemma_slot_field(cap);
        }
        let command_slots: u8 = ((cap & CAP_NCS_MASK) >> CAP_NCS_SHIFT) as u8 + 1;
        let supports_64bit: bool = cap & CAP_S64A != 0;
        let ports: Vec<Option<HbaPort>> = Self::bring_up_ports(
            machine,
            abar_virt,
            implemented,
            command_slots,
            supports_64bit,
        );
        Ok(AhciController { abar_virt, pci, ports, command_slots, supports_64bit })
    }

    fn bring_up_ports<M: Machine>(
        machine: &mut M,
        abar: u64,
        implemented: u32,
        slots: u8,
        wide: bool,
    ) -> (ports: Vec<Option<HbaPort>>)
        ensures
            (ports@, final(machine).io()) == ports_run(
                abar,
                implemented,
                slots,
                wide,
                Seq::empty(),
                old(machine).io(),
            ),
            ports@.len() == MAX_PORTS,
    {
        let mut ports: Vec<Option<HbaPort>> = Vec::new();
        while ports.len() < MAX_PORTS
            invariant
                ports@.len() <= MAX_PORTS,
                ports_run(abar, implemented, slots, wide, Seq::empty(), old(machine).io())
                    == ports_run(abar, implemented, slots, wide, ports@, machine.io()),
            decreases MAX_PORTS - ports@.len(),
        {
            let index: usize = ports.len();
            if implemented & (1u32 << (index as u32)) == 0 {
                ports.push(None);
            } else {
                let port: Option<HbaPort> = Self::bring_up_port(machine, abar, index, slots, wide);
                ports.push(port);
            }
        }
        ports
    }

    fn bring_up_port<M: Machine>(
        machine: &mut M,
        abar: u64,
        index: usize,
        slots: u8,
        wide: bool,
    ) -> (port: Option<HbaPort>)
        requires
            index < MAX_PORTS,
        ensures
            (port, final(machine).io()) == port_run(
                abar,
                index as int,
                slots,
                wide,
                old(machine).io(),
            ),
    {
        let base: u64 = abar.wrapping_add((PORT_REGS_BASE + index * PORT_REG_SIZE) as u64);
        match HbaPort::new(machine, base, index as u8, slots, wide) {
            Err(_) => None,
            Ok(port) => {
                if !port.device_present(machine) {
                    port.release(machine);
                    return None;
                }
                let signature: u32 = port.signature(machine);
                if signature != SATA_SIGNATURE {
                    port.release(machine);
                    return None;
                }
                Some(port)
            },
        }
    }

    pub fn abar_virt(&self) -> (address: u64)
        ensures
            address == self.abar_virt,
    {
        self.abar_virt
    }

    pub fn pci_address(&self) -> (address: PciAddress)
        ensures
            address == self.pci,
    {
        self.pci
    }

    pub fn command_slots(&self) -> (slots: u8)
        ensures
            slots == self.command_slots,
    {
        self.command_slots
    }

    pub fn supports_64bit_dma(&self) -> (wide: bool)
        ensures
            wide == self.supports_64bit,
    {
        self.supports_64bit
    }

    /// The address of a port's registers.
    pub fn port_base(&self, index: usize) -> (address: Option<u64>)
        ensures
            address == (if index < MAX_PORTS {
                Some(port_address(self.abar_virt, index as int))
            } else {
                None
            }),
    {
        if index < MAX_PORTS {
            Some(self.abar_virt.wrapping_add((PORT_REGS_BASE + index * PORT_REG_SIZE) as u64))
        } else {
            None
        }
    }

    /// Whether a disk is attached to a port.
    pub open spec fn has_port(self, index: usize) -> bool {
        index < self.ports@.len() && self.ports@[index as int] is Some
    }

    /// The disk attached to a port.
    pub fn port(&self, index: usize) -> (port: Option<&HbaPort>)
        ensures
            port is Some <==> self.has_port(index),
            port is Some ==> self.ports@[index as int] == Some(*port->0),
    {
        if index < self.ports.len() {
            self.ports[index].as_ref()
        } else {
            None
        }
    }

    /// The disk attached to a port, to work on.
    pub fn port_mut(&mut self, index: usize) -> (port: Option<&mut HbaPort>)
        ensures
            port is Some <==> old(self).has_port(index),
            match port {
                Some(port) => old(self)@.ports[index as int] == Some(*port) && final(self)@ =~= (
                ControllerModel {
                    ports: old(self)@.ports.update(index as int, Some(*final(port))),
                    ..old(self)@
                }),
                None => final(self)@ == old(self)@,
            },
    {
        if index < self.ports.len() {
            match &mut self.ports[index] {
                Some(port) => Some(port),
                None => None,
            }
        } else {
            None
        }
    }

    /// Hand the disk attached to a port over to the caller.
    pub fn take_port(&mut self, index: usize) -> (port: Option<HbaPort>)
        ensures
            port == (if index < old(self)@.ports.len() {
                old(self)@.ports[index as int]
            } else {
                None
            }),
            final(self)@ == (ControllerModel {
                ports: if index < old(self)@.ports.len() {
                    old(self)@.ports.update(index as int, None)
                } else {
                    old(self)@.ports
                },
                ..old(self)@
            }),
    {
        if index < self.ports.len() {
            self.ports[index].take()
        } else {
            None
        }
    }

    /// The numbers of the ports that have a disk, in order.
    pub fn attached_port_indices(&self) -> (indices: Vec<usize>)
        ensures
            as_ints(indices@) == attached(self.ports@),
    {
        let mut indices: Vec<usize> = Vec::new();
        let mut i: usize = 0;
        assert(as_ints(indices@) == attached(self.ports@.take(0)));
        while i < self.ports.len()
            invariant
                i <= self.ports@.len(),
                as_ints(indices@) == attached(self.ports@.take(i as int)),
            decreases self.ports@.len() - i,
        {
            let ghost before = indices@;
            assert(self.ports@.take(i + 1).drop_last() == self.ports@.take(i as int));
            if self.ports[i].is_some() {
                indices.push(i);
                assert(as_ints(indices@) == as_ints(before).push(i as int));
            }
            i = i + 1;
        }
        assert(self.ports@.take(i as int) == self.ports@);
        indices
    }

    /// How many ports have a disk.
    pub fn attached_count(&self) -> (count: usize)
        ensures
            count == attached(self.ports@).len(),
    {
        let indices: Vec<usize> = self.attached_port_indices();
        assert(as_ints(indices@).len() == indices@.len());
        indices.len()
    }

    pub fn host_registers(&self) -> (registers: HbaMemory)
        ensures
            registers.base == self.abar_virt,
    {
        HbaMemory::new(self.abar_virt)
    }
}

/// Whether a device is a SATA controller in AHCI mode.
pub fn is_ahci_controller(dev: &PciDevice) -> (ahci: bool)
    ensures
        ahci == is_ahci(dev.class),
{
    dev.base_class() == PCI_CLASS_MASS_STORAGE && dev.subclass() == PCI_SUBCLASS_SATA
        && dev.prog_if() == PCI_PROG_IF_AHCI
}

/// Numbers of devices.
pub type KVecIndices = Vec<usize>;

/// The numbers of the devices that are AHCI controllers.
pub open spec fn ahci_indices(devices: Seq<PciDevice>) -> Seq<int>
    decreases devices.len(),
{
    if devices.len() == 0 {
        Seq::empty()
    } else if is_ahci(devices.last().class) {
        ahci_indices(devices.drop_last()).push(devices.len() - 1)
    } else {
        ahci_indices(devices.drop_last())
    }
}

/// The numbers of the devices that are AHCI controllers, in order.
pub fn detect(devices: &[PciDevice]) -> (indices: KVecIndices)
    ensures
        as_ints(indices@) == ahci_indices(devices@),
{
    let mut out: Vec<usize> = Vec::new();
    let mut i: usize = 0;
    assert(as_ints(out@) == ahci_indices(devices@.take(0)));
    while i < devices.len()
        invariant
            i <= devices@.len(),
            as_ints(out@) == ahci_indices(devices@.take(i as int)),
        decreases devices@.len() - i,
    {
        let ghost before = out@;
        assert(devices@.take(i + 1).drop_last() == devices@.take(i as int));
        if is_ahci_controller(&devices[i]) {
            out.push(i);
            assert(as_ints(out@) == as_ints(before).push(i as int));
        }
        i = i + 1;
    }
    assert(devices@.take(i as int) == devices@);
    out
}

/// A discovered function in short form.
pub open spec fn canonical(device: enumerate::PciDevice) -> PciDevice {
    PciDevice {
        bus: device.address.bus,
        dev: device.address.dev,
        func: device.address.func,
        vendor: device.vendor_id,
        device: device.device_id,
        class: ((device.base_class as u32) << 16) | ((device.subclass as u32) << 8) | (
        device.prog_if as u32),
        bars: device.bars,
        irq: device.interrupt_line,
    }
}

/// A discovered function in short form.
pub fn canonical_pci_device(device: &enumerate::PciDevice) -> (short: PciDevice)
    ensures
        short == canonical(*device),
{
    PciDevice {
        bus: device.address.bus(),
        dev: device.address.device(),
        func: device.address.function(),
        vendor: device.vendor_id,
        device: device.device_id,
        class: ((device.base_class as u32) << 16) | ((device.subclass as u32) << 8) | (
        device.prog_if as u32),
        bars: device.bars,
        irq: device.interrupt_line,
    }
}

proof fn lemma_class_fields(base: u8, sub: u8, interface: u8)
    by (bit_vector)
    ensures
        ((((base as u32) << 16) | ((sub as u32) << 8) | (interface as u32)) >> 16) as u8 == base,
        ((((base as u32) << 16) | ((sub as u32) << 8) | (interface as u32)) >> 8) as u8 == sub,
        (((base as u32) << 16) | ((sub as u32) << 8) | (interface as u32)) as u8 == interface,
{
}

/// The short form says the same of the class as the long one, so that the
/// driver brings up every function that it claims.
pub proof fn lemma_short_form_keeps_class(device: enumerate::PciDevice)
    ensures
        (canonical(device).class >> 16) as u8 == device.base_class,
        (canonical(device).class >> 8) as u8 == device.subclass,
        canonical(device).class as u8 == device.prog_if,
{
    lemma_class_fields(device.base_class, device.subclass, device.prog_if);
}

/// The controllers that are online.
#[derive(Debug)]
pub struct AhciControllers {
    pub controllers: Vec<AhciController>,
}

/// Whether a controller at an address is online.
pub open spec fn is_online(controllers: Seq<AhciController>, address: PciAddress) -> bool {
    exists|i: int| 0 <= i < controllers.len() && (#[trigger] controllers[i]).pci == address
}

/// What a failed bring-up is reported as.
pub open spec fn driver_error(error: HbaError) -> PciDriverError {
    match error {
        HbaError::NoAbar | HbaError::AbarIsIo => PciDriverError::BarUnreadable,
        _ => PciDriverError::ProbeFailed("AHCI controller setup failed"),
    }
}

impl AhciControllers {
    pub fn new() -> (online: Self)
        ensures
            online.controllers@ == Seq::<AhciController>::empty(),
    {
        AhciControllers { controllers: Vec::new() }
    }

    fn online(&self, address: PciAddress) -> (online: bool)
        ensures
            online == is_online(self.controllers@, address),
    {
        let mut i: usize = 0;
        while i < self.controllers.len()
            invariant
                i <= self.controllers@.len(),
                forall|j: int| 0 <= j < i ==> (#[trigger] self.controllers@[j]).pci != address,
            decreases self.controllers@.len() - i,
        {
            if self.controllers[i].pci_address() == address {
                assert(self.controllers@[i as int].pci == address);
                return true;
            }
            i = i + 1;
        }
        false
    }

    /// How many controllers are online.
    pub fn controller_count(&self) -> (count: usize)
        ensures
            count == self.controllers@.len(),
    {
        self.controllers.len()
    }
}

/// What binding a device does: nothing where its controller is online, else
/// the controller is brought up and kept where that succeeded.
pub open spec fn bound(
    before: Seq<AhciController>,
    after: Seq<AhciController>,
    device: enumerate::PciDevice,
    io: Io,
    result: Result<(), PciDriverError>,
    later: Io,
) -> bool {
    if is_online(before, canonical(device).location()) {
        result is Ok && after == before && later == io
    } else {
        let (outcome, reached) = controller_run(canonical(device), io);
        &&& later == reached
        &&& match outcome {
            Ok(model) => result is Ok && after.len() == before.len() + 1 && after.drop_last()
                == before && after.last()@ == model,
            Err(error) => result == Err::<(), _>(driver_error(error)) && after == before,
        }
    }
}

impl AhciControllers {
    /// Bring a controller up, once for each address.
    pub fn bring_up<M: Machine>(&mut self, machine: &mut M, device: &enumerate::PciDevice) -> (result:
        Result<(), PciDriverError>)
        ensures
            bound(
                old(self).controllers@,
                final(self).controllers@,
                *device,
                old(machine).io(),
                result,
                final(machine).io(),
            ),
    {
        let short: PciDevice = canonical_pci_device(device);
        if self.online(short.address()) {
            return Ok(());
        }
        match AhciController::new(machine, &short) {
            Ok(controller) => {
                self.controllers.push(controller);
                assert(self.controllers@.drop_last() == old(self).controllers@);
                Ok(())
            },
            Err(error) => match error {
                HbaError::NoAbar | HbaError::AbarIsIo => Err(PciDriverError::BarUnreadable),
                _ => Err(PciDriverError::ProbeFailed("AHCI controller setup failed")),
            },
        }
    }
}

/// The AHCI driver.
#[derive(Clone, Copy, Debug)]
pub struct AhciPciDriver {}

impl PciDriver for AhciPciDriver {
    open spec fn claims(&self, device: enumerate::PciDevice) -> bool {
        &&& device.base_class == PCI_CLASS_MASS_STORAGE
        &&& device.subclass == PCI_SUBCLASS_SATA
        &&& device.prog_if == PCI_PROG_IF_AHCI
    }

    open spec fn brings_up(
        &self,
        device: enumerate::PciDevice,
        before: Devices,
        io: Io,
        result: Result<(), PciDriverError>,
        after: Devices,
        later: Io,
    ) -> bool {
        &&& bound(before.ahci.controllers@, after.ahci.controllers@, device, io, result, later)
        &&& after == (Devices { ahci: after.ahci, ..before })
    }

    fn name(&self) -> (name: &'static str)
        ensures
            name@ == "ahci"@,
    {
        "ahci"
    }

    fn matches(&self, device: &enumerate::PciDevice) -> (claimed: bool) {
        device.base_class == PCI_CLASS_MASS_STORAGE && device.subclass == PCI_SUBCLASS_SATA
            && device.prog_if == PCI_PROG_IF_AHCI
    }

    fn probe<M: Machine>(
        &self,
        machine: &mut M,
        devices: &mut Devices,
        device: &enumerate::PciDevice,
    ) -> (result: Result<(), PciDriverError>) {
        devices.ahci.bring_up(machine, device)
    }
}

/// Register the driver.
pub fn register_pci_driver(registry: &mut DriverRegistry<AnyDriver>)
    requires
        old(registry).wf(),
    ensures
        final(registry).wf(),
        final(registry).drivers@ == enrolled(
            old(registry).drivers@,
            KEY_AHCI,
            AnyDriver::Ahci(AhciPciDriver {}),
        ),
{
    register_driver(registry, KEY_AHCI, AnyDriver::Ahci(AhciPciDriver {}));
}

/// How many controllers are online.
pub fn controller_count(online: &AhciControllers) -> (count: usize)
    ensures
        count == online.controllers@.len(),
{
    online.controller_count()
}

/// Whether a disk is attached to a port of an online controller.
pub open spec fn has_disk(online: AhciControllers, controller: usize, port: usize) -> bool {
    controller < online.controllers@.len() && online.controllers@[controller as int].has_port(port)
}

/// A disk of an online controller, to work on.
pub fn with_port_mut(online: &mut AhciControllers, controller: usize, port: usize) -> (disk: Option<
    &mut HbaPort,
>)
    ensures
        disk is Some <==> has_disk(*old(online), controller, port),
        match disk {
            None => final(online).controllers@.len() == old(online).controllers@.len() && forall|
                i: int,
            |
                0 <= i < old(online).controllers@.len() ==> (#[trigger] final(online).controllers@[i])@ == old(online).controllers@[i]@,
            Some(disk) => {
                let old_model = old(online).controllers@[controller as int]@;
                &&& old_model.ports[port as int] == Some(*disk)
                &&& final(online).controllers@.len() == old(online).controllers@.len()
                &&& final(online).controllers@[controller as int]@ == (ControllerModel {
                    ports: old_model.ports.update(port as int, Some(*final(disk))),
                    ..old_model
                })
                &&& forall|i: int|
                    0 <= i < old(online).controllers@.len() && i != controller ==> (
                    #[trigger] final(online).controllers@[i])@ == old(online).controllers@[i]@
            },
        },
{
    if controller < online.controllers.len() {
        online.controllers[controller].port_mut(port)
    } else {
        None
    }
}

/// Hand a disk of an online controller over to the caller.
pub fn take_port(online: &mut AhciControllers, controller: usize, port: usize) -> (disk: Option<
    HbaPort,
>)
    ensures
        disk is Some <==> has_disk(*old(online), controller, port),
        disk is Some ==> old(online).controllers@[controller as int]@.ports[port as int] == disk,
        !has_disk(*final(online), controller, port),
        final(online).controllers@.len() == old(online).controllers@.len(),
        forall|i: int|
            0 <= i < old(online).controllers@.len() ==> (#[trigger] final(online).controllers@[i])@
                == (if i == controller && port < old(online).controllers@[i]@.ports.len() {
                ControllerModel {
                    ports: old(online).controllers@[i]@.ports.update(port as int, None),
                    ..old(online).controllers@[i]@
                }
            } else {
                old(online).controllers@[i]@
            }),
{
    if controller < online.controllers.len() {
        online.controllers[controller].take_port(port)
    } else {
        None
    }
}

/// A device signature in words.
pub open spec fn signature_text(sig: u32) -> Seq<char> {
    match sig {
        0x0000_0101 => "sata-disk"@,
        0xEB14_0101 => "sata-cdrom"@,
        0xC33C_0101 => "enclosure-management"@,
        0x9669_0101 => "port-multiplier"@,
        0x0000_0000 => "none"@,
        _ => "other"@,
    }
}

/// A device signature in words.
pub fn signature_name(sig: u32) -> (name: &'static str)
    ensures
        name@ == signature_text(sig),
{
    match sig {
        0x0000_0101 => "sata-disk",
        0xEB14_0101 => "sata-cdrom",
        0xC33C_0101 => "enclosure-management",
        0x9669_0101 => "port-multiplier",
        0x0000_0000 => "none",
        _ => "other",
    }
}

/// A device that stores sectors of 512 bytes.
pub trait BlockDevice: Sized {
    /// Bytes of a sector.
    const SECTOR_SIZE: usize = 512;

    /// Read whole sectors from `lba` on, and give the number of bytes.
    fn read_blocks<M: Machine>(&mut self, machine: &mut M, lba: u64, buffer: &mut Vec<u8>) -> (result:
        Result<usize, HbaError>);

    /// Write whole sectors from `lba` on, and give the number of bytes.
    fn write_blocks<M: Machine>(&mut self, machine: &mut M, lba: u64, buffer: &[u8]) -> (result:
        Result<usize, HbaError>);

    /// Make every completed write durable.  A device without a cache has
    /// nothing to do.
    fn flush<M: Machine>(&mut self, machine: &mut M) -> (result: Result<(), HbaError>)
        default_ensures
            *final(self) == *old(self),
            result == Ok::<(), HbaError>(()),
            final(machine).io() == old(machine).io(),
    {
        Ok(())
    }
}

impl BlockDevice for HbaPort {
    fn read_blocks<M: Machine>(&mut self, machine: &mut M, lba: u64, buffer: &mut Vec<u8>) -> (result:
        Result<usize, HbaError>)
        ensures
            *final(self) == *old(self),
            old(buffer)@.len() > 0 && old(buffer)@.len() % hba::SECTOR_SIZE as nat == 0 ==> (
                result,
                final(buffer)@,
                final(machine).io(),
            ) == old(self).read_run(lba, old(buffer)@, 0, old(machine).io()),
            old(buffer)@.len() == 0 || old(buffer)@.len() % hba::SECTOR_SIZE as nat != 0 ==> result
                == Err::<usize, HbaError>(HbaError::InvalidBuffer) && final(buffer)@
                == old(buffer)@ && final(machine).io() == old(machine).io(),
    {
        HbaPort::read_blocks(self, machine, lba, buffer)
    }

    fn write_blocks<M: Machine>(&mut self, machine: &mut M, lba: u64, buffer: &[u8]) -> (result:
        Result<usize, HbaError>)
        ensures
            *final(self) == *old(self),
            buffer@.len() > 0 && buffer@.len() % hba::SECTOR_SIZE as nat == 0 ==> (
                result,
                final(machine).io(),
            ) == old(self).write_run(lba, buffer@, 0, old(machine).io()),
            buffer@.len() == 0 || buffer@.len() % hba::SECTOR_SIZE as nat != 0 ==> result == Err::<
                usize,
                HbaError,
            >(HbaError::InvalidBuffer) && final(machine).io() == old(machine).io(),
    {
        HbaPort::write_blocks(self, machine, lba, buffer)
    }

    fn flush<M: Machine>(&mut self, machine: &mut M) -> (result: Result<(), HbaError>)
        ensures
            *final(self) == *old(self),
            (result, final(machine).io()) == old(self).flush_run(old(machine).io()),
    {
        self.flush_cache(machine)
    }
}

} // verus!
