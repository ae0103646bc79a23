use std::collections::HashMap;
use xenith_devices::driver::{AnyDriver, Devices};
use xenith_devices::machine::{Io, Machine, Order, Place, Query};
use xenith_devices::pci::base_class_name;
use xenith_devices::pci::capability::{
    walk_from, CapabilityError, CapabilityList, MsiCapability, MsixCapability, CAP_ID_MSI,
    CAP_ID_MSIX,
};
use xenith_devices::pci::config::{
    PciAddress, PciHeaderType, CONFIG_ADDRESS, CONFIG_DATA, CONFIG_ENABLE, NUM_BARS, OFFSET_MASK,
    VENDOR_NONE,
};
use xenith_devices::pci::enumerate::{
    enumerate_and_bind, enumerate_bus, register_driver, subclass_name, DriverRegistry, PciBarKind,
    PciClassCode, PciDevice, PciDriver, PciDriverError, PciHeaderKind,
};
use xenith_devices::pci::routing::{
    path_prefixes, resource_gsi, FirmwareRoute, ParentBridge, Resource, RoutingDatabase,
};
use xenith_devices::pci::PciCommand;
use xenith_devices::pci::PciDevice as CompactDevice;

/// The configuration space of one function, behind the two ports.
struct ConfigSpace {
    config: [u8; 256],
    selected: u32,
}

impl ConfigSpace {
    fn byte(&self, place: Place) -> u8 {
        match place {
            Place::Port(port) => {
                let offset = (self.selected & OFFSET_MASK) as usize;
                self.config[offset + (port - CONFIG_DATA) as usize]
            }
            _ => 0xff,
        }
    }
}

impl Machine for ConfigSpace {
    fn io(&self) -> Io {
        unreachable!()
    }

    fn read8(&mut self, place: Place) -> u8 {
        self.byte(place)
    }

    fn read16(&mut self, place: Place) -> u16 {
        u16::from(self.byte(place))
    }

    fn read32(&mut self, place: Place) -> u32 {
        u32::from(self.byte(place))
    }

    fn read64(&mut self, place: Place) -> u64 {
        u64::from(self.byte(place))
    }

    fn write8(&mut self, _place: Place, _value: u8) {}

    fn write16(&mut self, _place: Place, _value: u16) {}

    fn write32(&mut self, place: Place, value: u32) {
        if place == Place::Port(CONFIG_ADDRESS) {
            self.selected = value;
        }
    }

    fn write64(&mut self, _place: Place, _value: u64) {}

    fn ask(&mut self, _query: Query) -> u64 {
        0
    }

    fn tell(&mut self, _order: Order) {}
}

fn walk(pointer: u8, config: &[u8; 256]) -> Result<CapabilityList, CapabilityError> {
    let mut space = ConfigSpace {
        config: *config,
        selected: 0,
    };
    walk_from(&mut space, PciAddress::new(0, 1, 0).unwrap(), pointer)
}

#[test]
fn make_address_packs_bdf_and_offset() {
    let bus = 0xAAu8;
    let dev = 0x1Bu8;
    let func = 0x03u8;
    let offset = 0x3Cu8;
    let expected = CONFIG_ENABLE
        | ((bus as u32) << 16)
        | ((dev as u32) << 11)
        | ((func as u32) << 8)
        | ((offset as u32) & OFFSET_MASK);
    assert_eq!(PciAddress::new(bus, dev, func).unwrap().make_address(offset), expected);
    assert_eq!(expected & CONFIG_ENABLE, CONFIG_ENABLE);
    assert_eq!((expected >> 16) & 0xFF, 0xAA);
    assert_eq!((expected >> 11) & 0x1F, 0x1B);
    assert_eq!((expected >> 8) & 0x07, 0x03);
    assert_eq!(expected & OFFSET_MASK, 0x3C);
}

#[test]
fn new_validates_dev_and_func_ranges() {
    assert!(PciAddress::new(0, 0, 0).is_some());
    assert!(PciAddress::new(0xFF, 31, 7).is_some());
    assert!(PciAddress::new(0, 32, 0).is_none());
    assert!(PciAddress::new(0, 0, 8).is_none());
    assert!(PciAddress::new(255, 0, 0).is_some());
}

#[test]
fn header_type_decode_strips_multifunction_bit() {
    assert_eq!(PciHeaderType::from_byte(0x00), PciHeaderType::General);
    assert_eq!(PciHeaderType::from_byte(0x80), PciHeaderType::General);
    assert_eq!(PciHeaderType::from_byte(0x01), PciHeaderType::PciBridge);
    assert_eq!(PciHeaderType::from_byte(0x81), PciHeaderType::PciBridge);
    assert_eq!(PciHeaderType::from_byte(0x82), PciHeaderType::CardbusBridge);
    assert_eq!(PciHeaderType::from_byte(0x0F), PciHeaderType::Unknown(0x0F));
    assert_eq!(PciHeaderType::from_byte(0x8F), PciHeaderType::Unknown(0x0F));
}

#[test]
fn header_type_predicates_and_raw() {
    assert!(PciHeaderType::General.is_general());
    assert!(!PciHeaderType::General.is_bridge());
    assert!(PciHeaderType::PciBridge.is_bridge());
    assert_eq!(PciHeaderType::General.raw(), 0);
    assert_eq!(PciHeaderType::PciBridge.raw(), 1);
    assert_eq!(PciHeaderType::CardbusBridge.raw(), 2);
    assert_eq!(PciHeaderType::Unknown(0x42).raw(), 0x42);
}

#[test]
fn display_formats_bdf() {
    let a = PciAddress::new(0, 0x1F, 0).unwrap();
    assert_eq!(a.to_string(), "00:1f.0");
    let b = PciAddress::new(0xAA, 0x05, 0x3).unwrap();
    assert_eq!(b.to_string(), "aa:05.3");
}

#[test]
fn base_class_decoders_split_the_24bit_field() {
    let dev = CompactDevice {
        bus: 0,
        dev: 0x1F,
        func: 0,
        vendor: 0x8086,
        device: 0x2918,
        class: 0x0006_0100, // base 0x06 (bridge), subclass 0x01 (ISA), prog_if 0
        bars: [0; NUM_BARS],
        irq: 0,
    };
    assert_eq!(dev.base_class(), 0x06);
    assert_eq!(dev.subclass(), 0x01);
    assert_eq!(dev.prog_if(), 0x00);
}

#[test]
fn base_class_name_covers_common_categories() {
    assert_eq!(base_class_name(0x01), "mass-storage");
    assert_eq!(base_class_name(0x02), "network");
    assert_eq!(base_class_name(0x03), "display");
    assert_eq!(base_class_name(0x06), "bridge");
    assert_eq!(base_class_name(0xFF), "other");
}

#[test]
fn bar_helpers_pick_first_memory_and_io() {
    let mut bars = [0u32; NUM_BARS];
    bars[0] = 0x1000 | 0x1;
    bars[1] = 0xF000_0000;
    let dev = CompactDevice {
        bus: 0,
        dev: 0,
        func: 0,
        vendor: 0x1234,
        device: 0x5678,
        class: 0x0002_0000,
        bars,
        irq: 11,
    };
    assert_eq!(dev.first_io_bar(), Some(0x1001));
    assert_eq!(dev.first_memory_bar(), Some(0xF000_0000));
    assert_eq!(dev.bar(NUM_BARS), 0);
    assert_eq!(dev.bar(0), 0x1001);
}

#[test]
fn address_round_trips_through_stored_fields() {
    let dev = CompactDevice {
        bus: 0xAB,
        dev: 0x1D,
        func: 0x3,
        vendor: 0x10EC,
        device: 0x8168,
        class: 0x0002_0000,
        bars: [0; NUM_BARS],
        irq: 0,
    };
    let addr = dev.address();
    assert_eq!(addr.bus(), 0xAB);
    assert_eq!(addr.dev(), 0x1D);
    assert_eq!(addr.func(), 0x3);
}

#[test]
fn is_present_rejects_vendor_none() {
    let absent = CompactDevice {
        bus: 0,
        dev: 0,
        func: 0,
        vendor: VENDOR_NONE,
        device: 0xFFFF,
        class: 0,
        bars: [0; NUM_BARS],
        irq: 0,
    };
    assert!(!absent.is_present());
    let present = CompactDevice {
        bus: 0,
        dev: 0,
        func: 0,
        vendor: 0x8086,
        device: 0x1234,
        class: 0,
        bars: [0; NUM_BARS],
        irq: 0,
    };
    assert!(present.is_present());
}

#[test]
fn pci_command_bitflags_combine_and_inspect() {
    let enable = PciCommand::from_bits_truncate(
        PciCommand::IO_SPACE | PciCommand::MEMORY_SPACE | PciCommand::BUS_MASTER,
    );
    assert!(enable.contains(PciCommand::BUS_MASTER));
    assert!(enable.contains(PciCommand::MEMORY_SPACE));
    assert!(!enable.contains(PciCommand::SERR_ENABLE));
    assert_eq!(enable.bits(), 0x0007);
    let truncated = PciCommand::from_bits_truncate(0xFFFF);
    assert_eq!(truncated.bits(), 0x07FF);
}

#[test]
fn walker_is_bounded_and_detects_cycles() {
    let mut config = [0u8; 256];
    config[0x40] = CAP_ID_MSI;
    config[0x41] = 0x48;
    config[0x48] = CAP_ID_MSIX;
    let list = walk(0x40, &config).unwrap();
    assert_eq!(list.len(), 2);
    assert_eq!(list.find(CAP_ID_MSIX).unwrap().offset, 0x48);
    config[0x49] = 0x40;
    assert_eq!(
        walk(0x40, &config),
        Err(CapabilityError::Loop(0x40))
    );
}

#[test]
fn walker_rejects_unaligned_and_header_space_pointers() {
    assert_eq!(
        walk(0x3c, &[0; 256]),
        Err(CapabilityError::InvalidPointer(0x3c))
    );
    assert_eq!(
        walk(0x42, &[0; 256]),
        Err(CapabilityError::InvalidPointer(0x42))
    );
}

#[test]
fn msi_layout_handles_32_and_64_bit_forms() {
    let msi32 = MsiCapability::from_control(0x50, 0).unwrap();
    assert_eq!(msi32.address_high, None);
    assert_eq!(msi32.message_data, 0x58);
    let msi64 = MsiCapability::from_control(0x60, (1 << 7) | (1 << 8)).unwrap();
    assert_eq!(msi64.address_high, Some(0x68));
    assert_eq!(msi64.message_data, 0x6c);
    assert_eq!(msi64.mask_bits, Some(0x70));
}

#[test]
fn msix_metadata_validates_bars_and_masks_offsets() {
    let decoded =
        MsixCapability::from_registers(0x70, (1 << 15) | 3, 0x1234_5002, 0x2001).unwrap();
    assert_eq!(decoded.table_size, 4);
    assert!(decoded.enabled);
    assert_eq!(decoded.table_bir, 2);
    assert_eq!(decoded.table_offset, 0x1234_5000);
    assert_eq!(decoded.pba_bir, 1);
    assert_eq!(decoded.pba_offset, 0x2000);
    assert_eq!(
        MsixCapability::from_registers(0x70, 0, 6, 0),
        Err(CapabilityError::InvalidBir(6))
    );
}

fn device_with_bars(bars: [u32; 6]) -> PciDevice {
    PciDevice {
        address: PciAddress::new(0, 1, 0).expect("bounded test BDF"),
        vendor_id: 0x1234,
        device_id: 0x5678,
        revision: 0,
        prog_if: 0,
        subclass: 0,
        base_class: 0,
        header_kind: PciHeaderKind::Device,
        multifunction: false,
        bars,
        interrupt_line: 0,
        interrupt_pin: 0,
    }
}

#[test]
fn memory_bar_type_bits_follow_pci_encoding() {
    let device = device_with_bars([
        0x3456_7004, // type 10b: 64-bit memory BAR
        0x0000_0012,
        0x000f_f002, // type 01b: below-1-MiB memory BAR
        0x8765_4006, // type 11b: reserved
        0,
        0,
    ]);

    let wide = device.bar(0).expect("BAR0 exists");
    assert_eq!(wide.kind, PciBarKind::Mem64);
    assert_eq!(wide.address, 0x0000_0012_3456_7000);
    assert!(device.bar_is_high_half(1));
    let wide_high = device.bar(1).expect("BAR1 exists");
    assert_eq!(wide_high.kind, PciBarKind::Reserved);
    assert_eq!(wide_high.address, 0);

    let legacy = device.bar(2).expect("BAR2 exists");
    assert_eq!(legacy.kind, PciBarKind::Mem16);
    assert_eq!(legacy.address, 0x000f_f000);
    assert!(!device.bar_is_high_half(3));

    assert_eq!(
        device.bar(3).expect("BAR3 exists").kind,
        PciBarKind::Reserved
    );
}

#[test]
fn final_slot_cannot_truncate_a_64_bit_bar() {
    let device = device_with_bars([0, 0, 0, 0, 0, 0x1234_5004]);
    let final_bar = device.bar(5).expect("BAR5 exists");
    assert_eq!(final_bar.kind, PciBarKind::Reserved);
    assert_eq!(final_bar.address, 0x1234_5000);
    assert!(!device.bar_is_high_half(5));
}

#[test]
fn high_dword_type_bits_cannot_consume_the_following_bar() {
    let device = device_with_bars([0x3456_7004, 0x0000_0004, 0x0000_c001, 0, 0, 0]);

    assert!(device.bar_is_high_half(1));
    assert!(!device.bar_is_high_half(2));
    let bar2 = device.bar(2).expect("BAR2 exists");
    assert_eq!(bar2.kind, PciBarKind::Io);
    assert_eq!(bar2.address, 0x0000_c000);
}

fn route(bus: u8, device: u8, function: Option<u8>, pin: u8, gsi: u32) -> FirmwareRoute {
    FirmwareRoute {
        bus,
        device,
        function,
        pin,
        gsi,
    }
}

#[test]
fn lookup_prefers_no_route_over_conflicting_firmware_entries() {
    let mut database = RoutingDatabase::new();
    database.routes.push(route(0, 2, None, 0, 16));
    assert_eq!(database.lookup(0, 2, 3, 0), Some(16));
    database.routes.push(route(0, 2, Some(3), 0, 17));
    assert_eq!(database.lookup(0, 2, 3, 0), None);
}

#[test]
fn bridge_swizzling_rotates_each_downstream_slot() {
    let mut database = RoutingDatabase::new();
    database.parents[2] = Some(ParentBridge {
        parent_bus: 1,
        device: 5,
        function: 0,
    });
    database.parents[1] = Some(ParentBridge {
        parent_bus: 0,
        device: 1,
        function: 0,
    });
    database.routes.push(route(0, 1, None, 0, 19));
    let mut device = test_device(2, 3, 0, 1);
    assert_eq!(database.resolve(&device), Some(19));
    device.interrupt_pin = 0;
    assert_eq!(database.resolve(&device), None);
}

#[test]
fn path_prefixes_are_canonical_and_ordered() {
    assert_eq!(path_prefixes("\\_SB_.PCI0.RP01"), vec![
        "\\_SB_",
        "\\_SB_.PCI0",
        "\\_SB_.PCI0.RP01"
    ]);
}

#[test]
fn irq_resources_must_be_unambiguous() {
    assert_eq!(
        resource_gsi(&Resource::Irq {
            mask: 1 << 11,
            flags: 0
        }),
        Some(11)
    );
    assert_eq!(
        resource_gsi(&Resource::Irq {
            mask: (1 << 10) | (1 << 11),
            flags: 0
        }),
        None
    );
}

fn test_device(bus: u8, device: u8, function: u8, pin: u8) -> PciDevice {
    PciDevice {
        address: PciAddress::new(bus, device, function).unwrap(),
        vendor_id: 0x1234,
        device_id: 0x5678,
        revision: 0,
        prog_if: 0,
        subclass: 0,
        base_class: 2,
        header_kind: PciHeaderKind::Device,
        multifunction: false,
        bars: [0; 6],
        interrupt_line: 11,
        interrupt_pin: pin,
    }
}

/// A whole bus behind the two ports.
struct Bus {
    functions: HashMap<(u8, u8, u8), [u8; 256]>,
    selected: u32,
    writes: Vec<(u8, u32)>,
}

impl Bus {
    fn new() -> Self {
        Bus {
            functions: HashMap::new(),
            selected: 0,
            writes: Vec::new(),
        }
    }

    fn with(mut self, bus: u8, dev: u8, func: u8, class: u32, header: u8) -> Self {
        let mut config = [0u8; 256];
        config[0..4].copy_from_slice(&[0x86, 0x80, 0x34, 0x12]);
        config[8..12].copy_from_slice(&(class << 8 | 0x07).to_le_bytes());
        config[14] = header;
        config[0x3C] = 10;
        config[0x3D] = 1;
        self.functions.insert((bus, dev, func), config);
        self
    }

    fn behind(mut self, bus: u8, dev: u8, func: u8, secondary: u8) -> Self {
        let config = self.functions.get_mut(&(bus, dev, func)).unwrap();
        config[0x18] = bus;
        config[0x19] = secondary;
        config[0x1A] = secondary;
        self
    }

    fn load(&self, place: Place, size: usize) -> u32 {
        let Place::Port(port) = place else {
            return u32::MAX;
        };
        let key = (
            (self.selected >> 16) as u8,
            (self.selected >> 11) as u8 & 31,
            (self.selected >> 8) as u8 & 7,
        );
        let offset = (self.selected & OFFSET_MASK) as usize + (port - CONFIG_DATA) as usize;
        match self.functions.get(&key) {
            Some(config) => (0..size).fold(0, |value, i| {
                value | u32::from(config[offset + i]) << (8 * i)
            }),
            None => u32::MAX,
        }
    }

    fn store(&mut self, place: Place, size: usize, value: u32) {
        let Place::Port(port) = place else {
            return;
        };
        if port == CONFIG_ADDRESS {
            self.selected = value;
            return;
        }
        let key = (
            (self.selected >> 16) as u8,
            (self.selected >> 11) as u8 & 31,
            (self.selected >> 8) as u8 & 7,
        );
        let offset = (self.selected & OFFSET_MASK) as usize + (port - CONFIG_DATA) as usize;
        self.writes.push((offset as u8, value));
        if let Some(config) = self.functions.get_mut(&key) {
            for i in 0..size {
                config[offset + i] = (value >> (8 * i)) as u8;
            }
        }
    }
}

impl Machine for Bus {
    fn io(&self) -> Io {
        unreachable!()
    }

    fn read8(&mut self, place: Place) -> u8 {
        self.load(place, 1) as u8
    }

    fn read16(&mut self, place: Place) -> u16 {
        self.load(place, 2) as u16
    }

    fn read32(&mut self, place: Place) -> u32 {
        self.load(place, 4)
    }

    fn read64(&mut self, _place: Place) -> u64 {
        0
    }

    fn write8(&mut self, place: Place, value: u8) {
        self.store(place, 1, u32::from(value));
    }

    fn write16(&mut self, place: Place, value: u16) {
        self.store(place, 2, u32::from(value));
    }

    fn write32(&mut self, place: Place, value: u32) {
        self.store(place, 4, value);
    }

    fn write64(&mut self, _place: Place, _value: u64) {}

    fn ask(&mut self, _query: Query) -> u64 {
        0
    }

    fn tell(&mut self, _order: Order) {}
}

fn places(found: &[PciDevice]) -> Vec<(u8, u8, u8)> {
    found
        .iter()
        .map(|device| {
            (
                device.address.bus(),
                device.address.dev(),
                device.address.func(),
            )
        })
        .collect()
}

#[test]
fn scan_finds_every_function_behind_every_bridge() {
    let mut bus = Bus::new()
        .with(0, 0, 0, 0x06_0000, 0x00)
        .with(0, 1, 0, 0x02_0000, 0x80)
        .with(0, 1, 3, 0x0C_0300, 0x00)
        .with(0, 4, 0, 0x06_0400, 0x01)
        .behind(0, 4, 0, 9)
        .with(0, 5, 2, 0x03_0000, 0x00)
        .with(0, 31, 0, 0x01_0601, 0x00)
        .with(0, 31, 1, 0x01_0601, 0x00)
        .with(9, 2, 0, 0x04_0300, 0x00);
    let found = enumerate_bus(&mut bus);
    assert_eq!(
        places(&found),
        vec![
            (0, 0, 0),
            (0, 1, 0),
            (0, 1, 3),
            (0, 4, 0),
            (9, 2, 0),
            (0, 31, 0)
        ]
    );
    assert_eq!(found[1].vendor_id, 0x8086);
    assert_eq!(found[1].device_id, 0x1234);
    assert_eq!(found[1].revision, 0x07);
    assert!(found[1].multifunction);
    assert_eq!(found[3].header_kind, PciHeaderKind::Bridge);
    assert_eq!((found[0].interrupt_line, found[0].interrupt_pin), (10, 1));
    assert_eq!(found[4].class_code(), PciClassCode::from_base_class(4));
}

#[test]
fn bridges_in_a_circle_are_entered_once() {
    let mut bus = Bus::new()
        .with(0, 1, 0, 0x06_0400, 0x01)
        .behind(0, 1, 0, 5)
        .with(5, 1, 0, 0x06_0400, 0x01)
        .behind(5, 1, 0, 0)
        .with(5, 2, 0, 0x06_0400, 0x01)
        .behind(5, 2, 0, 5);
    assert_eq!(
        places(&enumerate_bus(&mut bus)),
        vec![(0, 1, 0), (5, 1, 0), (5, 2, 0)]
    );
}

#[test]
fn devices_go_to_every_driver_that_claims_them() {
    struct Picky {
        class: u8,
        fails: bool,
    }
    impl PciDriver for Picky {
        fn claims(&self, _device: PciDevice) -> bool {
            unreachable!()
        }
        fn brings_up(
            &self,
            _device: PciDevice,
            _before: Devices,
            _io: Io,
            _result: Result<(), PciDriverError>,
            _after: Devices,
            _later: Io,
        ) -> bool {
            unreachable!()
        }
        fn name(&self) -> &'static str {
            "picky"
        }
        fn matches(&self, device: &PciDevice) -> bool {
            device.base_class == self.class
        }
        fn probe<M: Machine>(
            &self,
            _machine: &mut M,
            _devices: &mut Devices,
            _device: &PciDevice,
        ) -> Result<(), PciDriverError> {
            if self.fails {
                Err(PciDriverError::ProbeFailed("no"))
            } else {
                Ok(())
            }
        }
    }
    let mut bus = Bus::new()
        .with(0, 1, 0, 0x02_0000, 0x00)
        .with(0, 2, 0, 0x03_0000, 0x00)
        .with(0, 3, 0, 0x02_0000, 0x00);
    let mut registry = DriverRegistry::new();
    register_driver(&mut registry, 1, Picky { class: 2, fails: true });
    register_driver(&mut registry, 2, Picky { class: 2, fails: false });
    register_driver(&mut registry, 3, Picky { class: 9, fails: false });
    register_driver(&mut registry, 1, Picky { class: 3, fails: false });
    assert_eq!(registry.drivers.len(), 3);
    let mut devices = Devices::new();
    let discovery = enumerate_and_bind(&registry, &mut devices, &mut bus, None);
    assert_eq!(discovery.found.len(), 3);
    assert_eq!(discovery.routes, 0);
    let bound: Vec<(usize, usize, bool)> = discovery
        .bindings
        .iter()
        .map(|binding| (binding.device, binding.driver, binding.outcome.is_ok()))
        .collect();
    assert_eq!(
        bound,
        vec![(0, 0, false), (0, 1, true), (2, 0, false), (2, 1, true)]
    );
    let empty: DriverRegistry<AnyDriver> = DriverRegistry::new();
    assert!(empty.drivers.is_empty());
}

#[test]
fn driver_errors_have_words() {
    assert_eq!(PciDriverError::BarUnreadable.to_string(), "BAR unreadable");
    assert_eq!(PciDriverError::NoInterrupt.to_string(), "no interrupt pin");
    assert_eq!(
        PciDriverError::ProbeFailed("x").to_string(),
        "probe failed: x"
    );
    assert_eq!(subclass_name(0x01, 0x06), "SATA controller");
}

#[test]
fn devices_describe_themselves() {
    let device = device_with_bars([0; 6]);
    assert_eq!(device.describe_id(), "1234:5678 @ 00:01.0");
    assert!(device.describe().contains("1234:5678"));
}

#[test]
fn messages_are_programmed_for_one_vector() {
    let mut bus = Bus::new().with(0, 1, 0, 0x02_0000, 0x00);
    {
        let config = bus.functions.get_mut(&(0, 1, 0)).unwrap();
        config[0x50] = CAP_ID_MSI;
        config[0x52] = 0x8A;
        config[0x34] = 0x50;
        config[0x06] = 0x10;
    }
    let address = PciAddress::new(0, 1, 0).unwrap();
    let list = xenith_devices::pci::capability::walk(&mut bus, address).unwrap();
    let entry = list.find(CAP_ID_MSI).unwrap();
    let msi = MsiCapability::read(&mut bus, address, entry).unwrap();
    assert_eq!(msi.address_high, Some(0x58));
    assert_eq!(msi.message_data, 0x5C);
    msi.program_single(&mut bus, address, 3, 0x40);
    let config = bus.functions[&(0, 1, 0)];
    assert_eq!(config[0x54..0x5E], [0x00, 0x30, 0xE0, 0xFE, 0, 0, 0, 0, 0x40, 0]);
    assert_eq!(config[0x52] & 0x71, 0x01);
    assert_eq!(
        MsixCapability::read(&mut bus, address, entry).err(),
        Some(CapabilityError::WrongCapability)
    );
    let mut odd = entry;
    odd.offset = 0x51;
    assert_eq!(
        MsixCapability::read(&mut bus, address, odd).err(),
        Some(CapabilityError::WrongCapability)
    );
}

#[test]
fn truncated_capabilities_are_refused() {
    assert_eq!(
        MsiCapability::from_control(0xF8, 1 << 7),
        Err(CapabilityError::Truncated)
    );
    let config = [0u8; 256];
    assert!(walk(0, &config).unwrap().is_empty());
}

#[test]
fn extended_resources_name_one_interrupt() {
    let one = Resource::ExtendedIrq {
        interrupts: vec![20],
        flags: 0,
    };
    let two = Resource::ExtendedIrq {
        interrupts: vec![20, 21],
        flags: 0,
    };
    assert_eq!(resource_gsi(&one), Some(20));
    assert_eq!(resource_gsi(&two), None);
    assert_eq!(resource_gsi(&Resource::Other), None);
}

#[test]
fn header_layouts_ignore_the_multifunction_bit() {
    assert_eq!(PciHeaderKind::from_raw(0x80), PciHeaderKind::Device);
    assert_eq!(PciHeaderKind::from_raw(0x01), PciHeaderKind::Bridge);
    assert_eq!(PciHeaderKind::from_raw(0x82), PciHeaderKind::CardBus);
    assert_eq!(PciHeaderKind::from_raw(0x03), PciHeaderKind::Other(0x03));
    assert_eq!(PciHeaderKind::from_raw(0x83), PciHeaderKind::Other(0x83));
    assert!(PciHeaderKind::is_multifunction(0x83));
    assert!(!PciHeaderKind::is_multifunction(0x7F));
}
