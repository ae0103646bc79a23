use std::collections::HashMap;
use xenith_devices::ahci::hba::{
    split_address, HbaError, HbaPort, ARENA_SIZE, COMMAND_HEADER_SIZE, COMMAND_LIST_ALIGN,
    COMMAND_TABLE_ALIGN, DMA_BUFFER_SIZE, MAX_LBA48, MAX_SECTORS_PER_COMMAND, PRDT_ENTRY_SIZE,
    RECEIVED_FIS_ALIGN, SECTOR_SIZE,
};
use xenith_devices::ahci::{
    controller_count, detect, is_ahci_controller, register_pci_driver, signature_name, take_port,
    with_port_mut, AhciController, AhciControllers, BlockDevice, SATA_SIGNATURE,
};
use xenith_devices::driver::{AnyDriver, KEY_AHCI};
use xenith_devices::machine::{Io, Machine, Order, Place, Query};
use xenith_devices::pci::config::PciAddress;
use xenith_devices::pci::enumerate::{DriverRegistry, PciHeaderKind};
use xenith_devices::pci::PciDevice;

#[test]
fn dma_layout_obeys_ahci_alignment() {
    assert_eq!(COMMAND_LIST_ALIGN, 1024);
    assert_eq!(RECEIVED_FIS_ALIGN, 256);
    assert_eq!(COMMAND_TABLE_ALIGN, 128);
    assert_eq!(COMMAND_HEADER_SIZE, 32);
    assert_eq!(PRDT_ENTRY_SIZE, 16);
}

#[test]
fn split_address_keeps_both_halves() {
    assert_eq!(
        split_address(0x1122_3344_AABB_CCDD),
        (0xAABB_CCDD, 0x1122_3344)
    );
}

#[test]
fn transfer_bound_is_whole_sectors() {
    assert_eq!(DMA_BUFFER_SIZE, 64 * 1024);
    assert_eq!(DMA_BUFFER_SIZE / SECTOR_SIZE, MAX_SECTORS_PER_COMMAND);
}

const ABAR: u64 = 0xF000_0000;
const ARENA: u64 = 0x20_0000;

/// A controller with one disk on its second port.
struct Controller {
    memory: HashMap<u64, u8>,
    registers: HashMap<u64, u32>,
    disk: HashMap<u64, Vec<u8>>,
    commands: Vec<(u8, u64, u16)>,
    arena: u64,
    broken: bool,
    stuck: bool,
    freed: Vec<u64>,
}

impl Controller {
    fn new() -> Self {
        let mut registers = HashMap::new();
        registers.insert(0x00, 0x8000_1F00);
        registers.insert(0x0C, 0b11);
        registers.insert(0x10, 0x0001_0300);
        registers.insert(0x180 + 0x24, SATA_SIGNATURE);
        registers.insert(0x180 + 0x28, 0x0113);
        registers.insert(0x180 + 0x20, 0x50);
        Controller {
            memory: HashMap::new(),
            registers,
            disk: HashMap::new(),
            commands: Vec::new(),
            arena: ARENA,
            broken: false,
            stuck: false,
            freed: Vec::new(),
        }
    }

    fn load(&self, address: u64, size: u64) -> u64 {
        (0..size).fold(0, |value, i| {
            value | u64::from(*self.memory.get(&(address + i)).unwrap_or(&0)) << (8 * i)
        })
    }

    fn store(&mut self, address: u64, size: u64, value: u64) {
        for i in 0..size {
            self.memory.insert(address + i, (value >> (8 * i)) as u8);
        }
    }

    fn run(&mut self, port: u64) {
        let list = u64::from(self.registers[&port])
            | u64::from(*self.registers.get(&(port + 4)).unwrap_or(&0)) << 32;
        let flags = self.load(list, 2);
        assert_eq!(flags & 0x1F, 5);
        let table = self.load(list + 8, 4) | self.load(list + 12, 4) << 32;
        assert_eq!(self.load(table, 1), 0x27);
        let command = self.load(table + 2, 1) as u8;
        let lba = self.load(table + 4, 3) | self.load(table + 8, 3) << 24;
        let sectors = self.load(table + 12, 2) as u16;
        self.commands.push((command, lba, sectors));
        let data = self.load(table + 0x80, 4) | self.load(table + 0x84, 4) << 32;
        if command == 0x35 {
            assert_eq!(flags & 0x40, 0x40);
            for sector in 0..u64::from(sectors) {
                let bytes = (0..512)
                    .map(|i| self.load(data + sector * 512 + i, 1) as u8)
                    .collect();
                self.disk.insert(lba + sector, bytes);
            }
        } else if command == 0x25 {
            for sector in 0..u64::from(sectors) {
                let bytes = self.disk.get(&(lba + sector)).cloned().unwrap_or(vec![0; 512]);
                for (i, byte) in bytes.iter().enumerate() {
                    self.memory.insert(data + sector * 512 + i as u64, *byte);
                }
            }
        }
        if self.broken {
            self.registers.insert(port + 0x10, 0x4000_0000);
            self.registers.insert(port + 0x20, 0x51);
        }
    }
}

impl Machine for Controller {
    fn io(&self) -> Io {
        unreachable!()
    }

    fn read8(&mut self, place: Place) -> u8 {
        match place {
            Place::Memory(address) => self.load(address, 1) as u8,
            _ => 0,
        }
    }

    fn read16(&mut self, place: Place) -> u16 {
        match place {
            Place::Memory(address) => self.load(address, 2) as u16,
            _ => 0,
        }
    }

    fn read32(&mut self, place: Place) -> u32 {
        match place {
            Place::Memory(address) if address >= ABAR => {
                *self.registers.get(&(address - ABAR)).unwrap_or(&0)
            }
            Place::Memory(address) => self.load(address, 4) as u32,
            _ => 0,
        }
    }

    fn read64(&mut self, place: Place) -> u64 {
        match place {
            Place::Memory(address) => self.load(address, 8),
            _ => 0,
        }
    }

    fn write8(&mut self, place: Place, value: u8) {
        if let Place::Memory(address) = place {
            self.store(address, 1, u64::from(value));
        }
    }

    fn write16(&mut self, place: Place, value: u16) {
        if let Place::Memory(address) = place {
            self.store(address, 2, u64::from(value));
        }
    }

    fn write32(&mut self, place: Place, value: u32) {
        if let Place::Memory(address) = place {
            if address < ABAR {
                self.store(address, 4, u64::from(value));
                return;
            }
            let offset = address - ABAR;
            match offset {
                0x04 => {
                    self.registers.insert(offset, value & !1);
                }
                0x118 | 0x198 => {
                    let mut value = value & 0x3FFF;
                    if value & 0x10 != 0 {
                        value |= 0x4000;
                    }
                    if value & 0x01 != 0 || self.stuck {
                        value |= 0x8000;
                    }
                    self.registers.insert(offset, value);
                }
                0x190 => {
                    let old = *self.registers.get(&offset).unwrap_or(&0);
                    self.registers.insert(offset, old & !value);
                }
                0x1B8 => self.run(0x180),
                _ => {
                    self.registers.insert(offset, value);
                }
            }
        }
    }

    fn write64(&mut self, place: Place, value: u64) {
        if let Place::Memory(address) = place {
            self.store(address, 8, value);
        }
    }

    fn ask(&mut self, query: Query) -> u64 {
        match query {
            Query::PhysToVirt(address) => address,
            Query::VirtToPhys(address) => address,
            Query::AllocateZeroed(size, _) => {
                assert_eq!(size, ARENA_SIZE);
                let arena = self.arena;
                if arena != 0 {
                    self.arena += 0x10_0000;
                }
                arena
            }
            _ => 0,
        }
    }

    fn tell(&mut self, order: Order) {
        if let Order::FreeZeroed(address, _) = order {
            self.freed.push(address);
        }
    }
}

fn function(class: u32, abar: u32) -> PciDevice {
    PciDevice {
        bus: 0,
        dev: 0x1F,
        func: 2,
        vendor: 0x8086,
        device: 0x2922,
        class,
        bars: [0, 0, 0, 0, 0, abar],
        irq: 11,
    }
}

#[test]
fn disk_gives_back_what_was_written() {
    let mut machine = Controller::new();
    let mut controller =
        AhciController::new(&mut machine, &function(0x01_0601, ABAR as u32)).unwrap();
    assert_eq!(controller.attached_port_indices(), vec![1]);
    assert_eq!(controller.attached_count(), 1);
    assert_eq!(controller.command_slots(), 32);
    assert!(controller.supports_64bit_dma());
    assert_eq!(controller.port_base(1), Some(ABAR + 0x180));
    assert_eq!(controller.port_base(32), None);
    assert!(controller.port(0).is_none());
    assert_eq!(machine.freed, vec![ARENA]);
    let port = controller.port_mut(1).unwrap();
    let data: Vec<u8> = (0..200 * 512).map(|i| (i * 7 / 3) as u8).collect();
    assert_eq!(port.write_blocks(&mut machine, 0x12_3456_789A, &data), Ok(data.len()));
    let mut back = vec![0u8; data.len()];
    assert_eq!(port.read_blocks(&mut machine, 0x12_3456_789A, &mut back), Ok(data.len()));
    assert_eq!(back, data);
    assert_eq!(
        machine.commands,
        vec![
            (0x35, 0x12_3456_789A, 128),
            (0x35, 0x12_3456_791A, 72),
            (0x25, 0x12_3456_789A, 128),
            (0x25, 0x12_3456_791A, 72),
        ]
    );
    assert_eq!(port.flush_cache(&mut machine), Ok(()));
    assert_eq!(machine.commands.last().unwrap().0, 0xEA);
    let mut sector = vec![0u8; 512];
    assert_eq!(
        BlockDevice::read_blocks(port, &mut machine, 0x12_3456_789A, &mut sector),
        Ok(512)
    );
    assert_eq!(sector, data[..512]);
    assert_eq!(BlockDevice::flush(port, &mut machine), Ok(()));
    assert_eq!(<HbaPort as BlockDevice>::SECTOR_SIZE, 512);
    let registers = controller.host_registers();
    assert_eq!(registers.version(&mut machine), 0x0001_0300);
    assert_eq!(registers.ports_implemented(&mut machine), 0b11);
}

#[test]
fn requests_that_make_no_sense_reach_no_disk() {
    let mut machine = Controller::new();
    let mut port = HbaPort::new(&mut machine, ABAR + 0x180, 1, 32, true).unwrap();
    for length in [0, 1, 511, 513] {
        assert_eq!(
            port.read_blocks(&mut machine, 0, &mut vec![0; length]),
            Err(HbaError::InvalidBuffer)
        );
        assert_eq!(
            port.write_blocks(&mut machine, 0, &vec![0; length]),
            Err(HbaError::InvalidBuffer)
        );
    }
    assert_eq!(
        port.read_blocks(&mut machine, MAX_LBA48, &mut vec![0; 1024]),
        Err(HbaError::InvalidLba)
    );
    assert_eq!(
        port.write_blocks(&mut machine, u64::MAX, &[0; 512]),
        Err(HbaError::InvalidLba)
    );
    assert!(machine.commands.is_empty());
    assert_eq!(
        port.read_blocks(&mut machine, MAX_LBA48, &mut vec![0; 512]),
        Ok(512)
    );
}

#[test]
fn failures_have_their_errors() {
    let mut machine = Controller::new();
    assert_eq!(
        AhciController::new(&mut machine, &function(0x01_0600, ABAR as u32)).err(),
        Some(HbaError::NotAhci)
    );
    assert_eq!(
        AhciController::new(&mut machine, &function(0x01_0601, 0)).err(),
        Some(HbaError::NoAbar)
    );
    assert_eq!(
        AhciController::new(&mut machine, &function(0x01_0601, 0xF001)).err(),
        Some(HbaError::AbarIsIo)
    );
    machine.arena = 0;
    assert_eq!(
        HbaPort::new(&mut machine, ABAR + 0x180, 1, 32, true).err(),
        Some(HbaError::OutOfMemory)
    );
    machine.arena = 0x1_0000_0000;
    assert_eq!(
        HbaPort::new(&mut machine, ABAR + 0x180, 1, 32, false).err(),
        Some(HbaError::DmaAddressTooHigh)
    );
    assert_eq!(machine.freed, vec![0x1_0000_0000]);
    machine.arena = ARENA;
    machine.stuck = true;
    assert_eq!(
        HbaPort::new(&mut machine, ABAR + 0x180, 1, 32, true).err(),
        Some(HbaError::EngineTimeout)
    );
    machine.stuck = false;
    let mut port = HbaPort::new(&mut machine, ABAR + 0x180, 1, 32, true).unwrap();
    machine.broken = true;
    assert_eq!(
        port.read_blocks(&mut machine, 0, &mut vec![0; 512]),
        Err(HbaError::TaskFileError)
    );
    machine.registers.insert(0x180 + 0x20, 0x80);
    assert_eq!(
        port.read_blocks(&mut machine, 0, &mut vec![0; 512]),
        Err(HbaError::DeviceBusy)
    );
    machine.registers.insert(0x180 + 0x28, 0);
    assert_eq!(
        port.write_blocks(&mut machine, 0, &[0; 512]),
        Err(HbaError::PortUnavailable)
    );
}

#[test]
fn errors_have_words() {
    assert_eq!(HbaError::NotAhci.as_str(), "not an AHCI controller");
    assert_eq!(HbaError::NoAbar.as_str(), "AHCI BAR5 is absent");
    let all = [
        HbaError::NotAhci,
        HbaError::NoAbar,
        HbaError::AbarIsIo,
        HbaError::OutOfMemory,
        HbaError::DmaAddressTooHigh,
        HbaError::EngineTimeout,
        HbaError::PortUnavailable,
        HbaError::InvalidBuffer,
        HbaError::InvalidLba,
        HbaError::DeviceBusy,
        HbaError::CommandTimeout,
        HbaError::TaskFileError,
    ];
    for (i, a) in all.iter().enumerate() {
        for b in &all[i + 1..] {
            assert_ne!(a.as_str(), b.as_str());
        }
    }
    assert_eq!(signature_name(SATA_SIGNATURE), "sata-disk");
    assert_eq!(signature_name(1), "other");
}

#[test]
fn controllers_are_told_by_their_class() {
    let devices = [
        function(0x01_0601, 1),
        function(0x01_0602, 1),
        function(0x01_0501, 1),
        function(0x02_0601, 1),
        function(0x01_0601, 2),
    ];
    assert!(is_ahci_controller(&devices[0]));
    assert_eq!(detect(&devices), vec![0, 4]);
}

#[test]
fn controller_comes_online_once() {
    let mut machine = Controller::new();
    let mut online = AhciControllers::new();
    let device = xenith_devices::pci::enumerate::PciDevice {
        address: PciAddress::new(0, 0x1F, 2).unwrap(),
        vendor_id: 0x8086,
        device_id: 0x2922,
        revision: 0,
        prog_if: 0x01,
        subclass: 0x06,
        base_class: 0x01,
        header_kind: PciHeaderKind::Device,
        multifunction: false,
        bars: [0, 0, 0, 0, 0, ABAR as u32],
        interrupt_line: 11,
        interrupt_pin: 1,
    };
    assert!(online.bring_up(&mut machine, &device).is_ok());
    assert!(online.bring_up(&mut machine, &device).is_ok());
    assert_eq!(controller_count(&online), 1);
    assert!(with_port_mut(&mut online, 0, 1).is_some());
    assert!(with_port_mut(&mut online, 0, 0).is_none());
    assert!(with_port_mut(&mut online, 1, 1).is_none());
    assert!(take_port(&mut online, 0, 1).is_some());
    assert!(take_port(&mut online, 0, 1).is_none());
}

#[test]
fn driver_registers_once() {
    let mut registry: DriverRegistry<AnyDriver> = DriverRegistry::new();
    register_pci_driver(&mut registry);
    register_pci_driver(&mut registry);
    assert_eq!(registry.drivers.len(), 1);
    assert_eq!(registry.drivers[0].key, KEY_AHCI);
}

#[test]
fn devices_without_a_cache_have_nothing_to_flush() {
    struct RamDisk(Vec<u8>);
    impl BlockDevice for RamDisk {
        fn read_blocks<M: Machine>(
            &mut self,
            _machine: &mut M,
            lba: u64,
            buffer: &mut Vec<u8>,
        ) -> Result<usize, HbaError> {
            let start = lba as usize * Self::SECTOR_SIZE;
            let count = buffer.len();
            buffer.copy_from_slice(&self.0[start..start + count]);
            Ok(count)
        }

        fn write_blocks<M: Machine>(
            &mut self,
            _machine: &mut M,
            lba: u64,
            buffer: &[u8],
        ) -> Result<usize, HbaError> {
            let start = lba as usize * Self::SECTOR_SIZE;
            self.0[start..start + buffer.len()].copy_from_slice(buffer);
            Ok(buffer.len())
        }
    }
    let mut machine = Controller::new();
    let mut disk = RamDisk(vec![0; 2 * RamDisk::SECTOR_SIZE]);
    assert_eq!(disk.write_blocks(&mut machine, 1, &[7; 512]), Ok(512));
    assert_eq!(disk.flush(&mut machine), Ok(()));
    let mut sector = vec![0; RamDisk::SECTOR_SIZE];
    assert_eq!(disk.read_blocks(&mut machine, 1, &mut sector), Ok(512));
    assert_eq!(sector, vec![7; 512]);
    assert!(machine.commands.is_empty());
}
