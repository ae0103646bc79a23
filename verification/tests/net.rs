use std::collections::HashMap;
use xenith_devices::driver::Devices;
use xenith_devices::machine::{Io, Machine, Order, Place, Query, ScriptedMachine};
use xenith_devices::net::dma;
use xenith_devices::net::e1000;
use xenith_devices::net::e1000::{E1000PciDriver, E1000};
use xenith_devices::net::poll::poll_stack;
use xenith_devices::net::rtl8139;
use xenith_devices::net::{
    adapter_count, adapter_info, fallback_intx_gsi, interface_id, interrupt_work_pending,
    irq_stats, pad_frame, pending_bit, poll_receive, rearm_allowed, register_worker_task,
    transmit, transmit_outbound, with_adapter, DriverError, IngressOutcome, MacAddress,
    OutboundFrame, EXCEPTION_VECTORS, NIC_VECTOR,
};
use xenith_devices::pci::config::PciAddress;
use xenith_devices::pci::enumerate::{PciDevice, PciDriver, PciHeaderKind};
use xenith_devices::ps2::{KEYBOARD_IRQ, KEYBOARD_VECTOR, MOUSE_IRQ, MOUSE_VECTOR};

#[test]
fn intx_route_requires_a_real_pin_and_unreserved_firmware_line() {
    assert_eq!(fallback_intx_gsi(11, 1), Some(11));
    assert_eq!(fallback_intx_gsi(11, 4), Some(11));
    assert_eq!(fallback_intx_gsi(11, 0), None);
    assert_eq!(fallback_intx_gsi(11, 5), None);
    assert_eq!(fallback_intx_gsi(0, 1), None);
    assert_eq!(fallback_intx_gsi(0xff, 1), None);
    assert_eq!(
        fallback_intx_gsi(KEYBOARD_IRQ, 1),
        None
    );
    assert_eq!(fallback_intx_gsi(MOUSE_IRQ, 1), None);
}

#[test]
fn shared_vector_does_not_overlap_fixed_kernel_vectors() {
    assert!(NIC_VECTOR >= EXCEPTION_VECTORS as u8);
    assert_ne!(NIC_VECTOR, KEYBOARD_VECTOR);
    assert_ne!(NIC_VECTOR, MOUSE_VECTOR);
}

#[test]
fn pending_bitmap_bounds_and_coalescing_rearm_are_exact() {
    assert_eq!(pending_bit(0), Some(1));
    assert_eq!(pending_bit(63), Some(1u64 << 63));
    assert_eq!(pending_bit(64), None);
    let adapter_three = pending_bit(3).unwrap();
    assert!(!rearm_allowed(adapter_three, adapter_three));
    assert!(rearm_allowed(adapter_three, pending_bit(4).unwrap()));
}

#[test]
fn e1000_interrupt_mask_covers_rx_tx_link_and_fault_causes() {
    assert_ne!(e1000::INTERRUPT_MASK & e1000::INTERRUPT_TX_DESCRIPTOR_WRITTEN, 0);
    assert_ne!(e1000::INTERRUPT_MASK & e1000::INTERRUPT_RX_TIMER, 0);
    assert_ne!(e1000::INTERRUPT_MASK & e1000::INTERRUPT_RX_OVERRUN, 0);
    assert_ne!(e1000::INTERRUPT_MASK & e1000::INTERRUPT_LINK_STATUS_CHANGE, 0);
    assert_eq!(e1000::INTERRUPT_MASK & (1 << 5), 0);
}

#[test]
fn rtl8139_interrupt_mask_covers_rx_tx_link_and_fault_causes() {
    assert_ne!(rtl8139::INTERRUPT_MASK & rtl8139::RX_OK, 0);
    assert_ne!(rtl8139::INTERRUPT_MASK & rtl8139::TX_OK, 0);
    assert_ne!(rtl8139::INTERRUPT_MASK & rtl8139::LINK_CHANGE, 0);
    assert_ne!(rtl8139::INTERRUPT_MASK & rtl8139::SYSTEM_ERROR, 0);
    assert_eq!(rtl8139::INTERRUPT_MASK & (1 << 14), 0);
}

const WINDOW: u64 = 0xE000_0000;

/// An adapter on a wire that a test holds the other end of.
struct Nic {
    memory: HashMap<u64, u8>,
    registers: HashMap<u64, u32>,
    frames: u64,
    sent: Vec<Vec<u8>>,
    routes: Vec<(u32, u8, u8)>,
    freed: Vec<(u64, u64)>,
    woken: Vec<u64>,
    ends: u32,
}

impl Nic {
    fn new() -> Self {
        let mut registers = HashMap::new();
        registers.insert(0x5400, 0x3322_1102);
        registers.insert(0x5404, 0x8000_5544);
        registers.insert(0x0008, 0x02);
        Nic {
            memory: HashMap::new(),
            registers,
            frames: 0x100,
            sent: Vec::new(),
            routes: Vec::new(),
            freed: Vec::new(),
            woken: Vec::new(),
            ends: 0,
        }
    }

    fn register(&self, offset: u64) -> u32 {
        *self.registers.get(&offset).unwrap_or(&0)
    }

    fn load(&self, address: u64, size: u64) -> u64 {
        (0..size).fold(0, |value, i| {
            value | u64::from(*self.memory.get(&(address + i)).unwrap_or(&0)) << (8 * i)
        })
    }

    fn store(&mut self, address: u64, size: u64, value: u64) {
        for i in 0..size {
            self.memory.insert(address + i, (value >> (8 * i)) as u8);
        }
    }

    /// Send what lies between head and tail.
    fn drain(&mut self) {
        let ring = u64::from(self.register(0x3800)) | u64::from(self.register(0x3804)) << 32;
        let mut head = self.register(0x3810);
        while head != self.register(0x3818) {
            let descriptor = ring + u64::from(head) * 16;
            let data = self.load(descriptor, 8);
            let length = self.load(descriptor + 8, 2);
            let frame = (0..length).map(|i| self.load(data + i, 1) as u8).collect();
            self.sent.push(frame);
            self.store(descriptor + 12, 1, 1);
            head = (head + 1) % 32;
        }
        self.registers.insert(0x3810, head);
    }

    /// Put a frame on the wire towards the adapter.
    fn inject(&mut self, frame: &[u8]) {
        let ring = u64::from(self.register(0x2800)) | u64::from(self.register(0x2804)) << 32;
        let head = self.register(0x2810);
        let descriptor = ring + u64::from(head) * 16;
        let data = self.load(descriptor, 8);
        for (i, byte) in frame.iter().enumerate() {
            self.memory.insert(data + i as u64, *byte);
        }
        self.store(descriptor + 8, 2, frame.len() as u64);
        self.store(descriptor + 12, 1, 3);
        self.registers.insert(0x2810, (head + 1) % 32);
        self.registers.insert(0x00c0, 0x80);
    }
}

impl Machine for Nic {
    fn io(&self) -> Io {
        unreachable!()
    }

    fn read8(&mut self, place: Place) -> u8 {
        match place {
            Place::Memory(address) => self.load(address, 1) as u8,
            _ => 0,
        }
    }

    fn read16(&mut self, place: Place) -> u16 {
        match place {
            Place::Memory(address) => self.load(address, 2) as u16,
            _ => 0,
        }
    }

    fn read32(&mut self, place: Place) -> u32 {
        match place {
            Place::Memory(address) if address >= WINDOW => {
                let offset = address - WINDOW;
                let value = self.register(offset);
                if offset == 0x00c0 {
                    self.registers.insert(offset, 0);
                }
                value
            }
            Place::Memory(address) => self.load(address, 4) as u32,
            _ => 0,
        }
    }

    fn read64(&mut self, place: Place) -> u64 {
        match place {
            Place::Memory(address) => self.load(address, 8),
            _ => 0,
        }
    }

    fn write8(&mut self, place: Place, value: u8) {
        if let Place::Memory(address) = place {
            self.store(address, 1, u64::from(value));
        }
    }

    fn write16(&mut self, place: Place, value: u16) {
        if let Place::Memory(address) = place {
            self.store(address, 2, u64::from(value));
        }
    }

    fn write32(&mut self, place: Place, value: u32) {
        if let Place::Memory(address) = place {
            if address < WINDOW {
                self.store(address, 4, u64::from(value));
                return;
            }
            let offset = address - WINDOW;
            let value = if offset == 0 { value & !0x0400_0000 } else { value };
            self.registers.insert(offset, value);
            if offset == 0x3818 {
                self.drain();
            }
        }
    }

    fn write64(&mut self, place: Place, value: u64) {
        if let Place::Memory(address) = place {
            self.store(address, 8, value);
        }
    }

    fn ask(&mut self, query: Query) -> u64 {
        match query {
            Query::PhysToVirt(address) => address,
            Query::AllocateFrames(pages) => {
                let first = self.frames;
                if first != u64::MAX {
                    self.frames += pages;
                }
                first
            }
            Query::IoApicCount => 1,
            Query::LocalApicId => 3,
            Query::Route(gsi, vector, destination) => {
                self.routes.push((gsi, vector, destination));
                1
            }
            Query::WakeTask(task) => {
                self.woken.push(task);
                1
            }
            _ => 0,
        }
    }

    fn tell(&mut self, order: Order) {
        match order {
            Order::FreeFrames(first, pages) => self.freed.push((first, pages)),
            Order::EndOfInterrupt => self.ends += 1,
            _ => {}
        }
    }
}

fn function() -> PciDevice {
    PciDevice {
        address: PciAddress::new(0, 3, 0).unwrap(),
        vendor_id: 0x8086,
        device_id: 0x100e,
        revision: 0,
        prog_if: 0,
        subclass: 0,
        base_class: 2,
        header_kind: PciHeaderKind::Device,
        multifunction: false,
        bars: [WINDOW as u32, 0, 0, 0, 0, 0],
        interrupt_line: 11,
        interrupt_pin: 1,
    }
}

fn online() -> (Nic, Devices) {
    let mut machine = Nic::new();
    let mut devices = Devices::new();
    assert!(E1000PciDriver {}
        .probe(&mut machine, &mut devices, &function())
        .is_ok());
    (machine, devices)
}

#[test]
fn adapter_comes_online_with_its_address() {
    let (mut machine, mut devices) = online();
    assert_eq!(adapter_count(&devices.network), 1);
    let info = adapter_info(&devices.network, &mut machine, 0).unwrap();
    assert_eq!(info.mac.bytes, [0x02, 0x11, 0x22, 0x33, 0x44, 0x55]);
    assert_eq!((info.index, info.interface, info.driver), (0, 1, "e1000"));
    assert!(info.link_up);
    assert_eq!(info.mtu, 1500);
    assert!(adapter_info(&devices.network, &mut machine, 1).is_none());
    assert_eq!(machine.routes, vec![(11, NIC_VECTOR, 3)]);
    assert!(with_adapter(&mut devices.network, 0).is_some());
    assert!(with_adapter(&mut devices.network, 1).is_none());
}

#[test]
fn frames_go_out_padded_and_in_order() {
    let (mut machine, mut devices) = online();
    for number in 0..40u8 {
        let frame = vec![number; 14 + number as usize * 30];
        assert_eq!(transmit(&mut devices.network, &mut machine, 0, &frame), Ok(()));
        let mut padded = frame.clone();
        padded.resize(frame.len().max(60), 0);
        assert_eq!(machine.sent[number as usize], padded);
    }
    assert_eq!(
        transmit(&mut devices.network, &mut machine, 0, &[0; 1515]),
        Err(DriverError::FrameTooLarge)
    );
    assert_eq!(
        transmit(&mut devices.network, &mut machine, 1, &[0; 60]),
        Err(DriverError::InvalidAdapter)
    );
    let outbound = OutboundFrame {
        interface: 1,
        bytes: vec![9; 60],
    };
    assert_eq!(
        transmit_outbound(&mut devices.network, &mut machine, &outbound),
        Ok(())
    );
    let nowhere = OutboundFrame {
        interface: 0,
        bytes: vec![9; 60],
    };
    assert_eq!(
        transmit_outbound(&mut devices.network, &mut machine, &nowhere),
        Err(DriverError::InvalidAdapter)
    );
}

#[test]
fn frames_come_in_once() {
    let (mut machine, mut devices) = online();
    let mut output = vec![0u8; 1514];
    assert_eq!(
        poll_receive(&mut devices.network, &mut machine, 0, &mut output),
        Err(DriverError::NoPacket)
    );
    for number in 0..40usize {
        let frame: Vec<u8> = (0..60 + number * 20).map(|i| (i + number) as u8).collect();
        machine.inject(&frame);
        assert_eq!(
            poll_receive(&mut devices.network, &mut machine, 0, &mut output),
            Ok(frame.len())
        );
        assert_eq!(output[..frame.len()], frame);
    }
    assert_eq!(
        poll_receive(&mut devices.network, &mut machine, 0, &mut output),
        Err(DriverError::NoPacket)
    );
    machine.inject(&[1; 100]);
    assert_eq!(
        poll_receive(&mut devices.network, &mut machine, 0, &mut vec![0; 99]),
        Err(DriverError::BufferTooSmall)
    );
    assert_eq!(
        poll_receive(&mut devices.network, &mut machine, 9, &mut output),
        Err(DriverError::InvalidAdapter)
    );
}

#[test]
fn stack_gets_its_share_and_replies_go_back() {
    let (mut machine, mut devices) = online();
    for kind in 0..5u8 {
        machine.inject(&[kind; 64]);
    }
    let ingest = |interface: u16, frame: &[u8], now: u64| {
        assert_eq!((interface, now), (1, 77));
        match frame[0] {
            0 => IngressOutcome::Delivered,
            1 => IngressOutcome::Reply(OutboundFrame {
                interface: 1,
                bytes: vec![0xEE; 70],
            }),
            2 => IngressOutcome::Ignored,
            3 => IngressOutcome::Reply(OutboundFrame {
                interface: 2,
                bytes: vec![0xEE; 70],
            }),
            _ => IngressOutcome::Failed,
        }
    };
    let none = poll_stack(&mut devices.network, &mut machine, 77, 0, ingest);
    assert_eq!(none.received, 0);
    let first = poll_stack(&mut devices.network, &mut machine, 77, 3, ingest);
    assert_eq!(
        (first.received, first.delivered, first.replies, first.dropped),
        (3, 1, 1, 1)
    );
    assert!(interrupt_work_pending(&devices.network));
    assert_eq!(machine.sent, vec![vec![0xEE; 70]]);
    let second = poll_stack(&mut devices.network, &mut machine, 77, 10, ingest);
    assert_eq!(
        (second.received, second.driver_errors, second.stack_errors),
        (2, 1, 1)
    );
    for report in [first, second] {
        let unsent = report.driver_errors;
        assert_eq!(
            report.received,
            report.delivered + report.replies + report.dropped + report.stack_errors + unsent
        );
    }
    assert!(!interrupt_work_pending(&devices.network));
}

#[test]
fn interrupt_marks_work_and_wakes_the_worker() {
    let (mut machine, mut devices) = online();
    register_worker_task(&mut devices.network, 42);
    devices.network.handle_interrupt(&mut machine);
    assert!(!interrupt_work_pending(&devices.network));
    assert_eq!(irq_stats(&devices.network).claimed_devices, 0);
    machine.inject(&[5; 64]);
    devices.network.handle_interrupt(&mut machine);
    assert!(interrupt_work_pending(&devices.network));
    let stats = irq_stats(&devices.network);
    assert_eq!(stats.interrupts, 2);
    assert_eq!(stats.claimed_devices, 1);
    assert_eq!(stats.worker_wakes, 1);
    assert_eq!(machine.woken, vec![42]);
}

#[test]
fn second_adapter_at_a_place_is_given_up() {
    let (mut machine, mut devices) = online();
    assert!(E1000PciDriver {}
        .probe(&mut machine, &mut devices, &function())
        .is_ok());
    assert_eq!(adapter_count(&devices.network), 1);
    assert_eq!(machine.freed.len(), 4);
}

#[test]
fn adapters_that_fail_give_their_memory_back() {
    let mut machine = Nic::new();
    let mut without = function();
    without.bars = [0xC001, 0, 0, 0, 0, 0];
    assert_eq!(
        E1000::new(&mut machine, &without).err(),
        Some(DriverError::UnsupportedBar)
    );
    machine.frames = u64::MAX;
    assert_eq!(
        E1000::new(&mut machine, &function()).err(),
        Some(DriverError::DmaUnavailable)
    );
    let mut machine = Nic::new();
    machine.registers.insert(0x5400, 0);
    machine.registers.insert(0x5404, 0);
    assert_eq!(
        E1000::new(&mut machine, &function()).err(),
        Some(DriverError::DeviceFault)
    );
    machine.registers.insert(0x0014, 0xFFFF_0010);
    let adapter = E1000::new(&mut Nic::new(), &function()).unwrap();
    assert_eq!(adapter.bdf(), (0, 3, 0));
}

#[test]
fn memory_is_given_in_whole_pages() {
    let mut machine = Nic::new();
    let region = dma::DmaRegion::allocate(&mut machine, 4097, None).unwrap();
    assert_eq!(region.len(), 8192);
    assert_eq!(region.physical_at(8191), Some(0x10_0000 + 8191));
    assert_eq!(region.physical_at(8192), None);
    region.release(&mut machine);
    assert_eq!(machine.freed, vec![(0x100, 2)]);
    assert_eq!(
        dma::DmaRegion::allocate(&mut machine, 0, None).err(),
        Some(dma::DmaError::ZeroLength)
    );
    assert_eq!(
        dma::DmaRegion::allocate(&mut machine, 4096, Some(0x1000)).err(),
        Some(dma::DmaError::AddressTooHigh)
    );
    machine.frames = u64::MAX;
    assert_eq!(
        dma::DmaRegion::allocate(&mut machine, 1, None).err(),
        Some(dma::DmaError::OutOfMemory)
    );
    let mut script = ScriptedMachine::new(vec![0, 0x9000], 0);
    let lowest = dma::DmaRegion::allocate(&mut script, 1, Some(0xFFF)).unwrap();
    assert_eq!(lowest.physical_address(), 0);
    assert_eq!(lowest.as_ptr(), 0x9000);
    let mut script = ScriptedMachine::new(vec![1 << 40], 0);
    assert_eq!(
        dma::DmaRegion::allocate(&mut script, 1, None).err(),
        Some(dma::DmaError::OutOfMemory)
    );
    assert_eq!(
        DriverError::from_dma(dma::DmaError::AddressTooHigh),
        DriverError::DmaAddressTooHigh
    );
    assert_eq!(
        DriverError::from_dma(dma::DmaError::OutOfMemory),
        DriverError::DmaUnavailable
    );
}

#[test]
fn addresses_are_told_apart() {
    let zero = MacAddress { bytes: [0; 6] };
    let all = MacAddress { bytes: [0xFF; 6] };
    let group = MacAddress {
        bytes: [1, 0, 0x5E, 0, 0, 1],
    };
    let one = MacAddress {
        bytes: [0x52, 0x54, 0, 0x12, 0x34, 0x56],
    };
    assert!(zero.is_zero() && !zero.is_usable());
    assert!(all.is_broadcast() && all.is_multicast() && !all.is_usable());
    assert!(group.is_multicast() && !group.is_usable());
    assert!(one.is_usable() && !one.is_multicast());
    assert_eq!(pad_frame(&[7; 10]).len(), 60);
    assert_eq!(pad_frame(&[7; 61]), vec![7; 61]);
    assert_eq!(interface_id(0), Some(1));
    assert_eq!(interface_id(65_534), Some(65_535));
    assert_eq!(interface_id(65_535), None);
}
