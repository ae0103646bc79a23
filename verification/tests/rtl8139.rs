use std::collections::HashMap;
use xenith_devices::machine::{Io, Machine, Order, Place, Query};
use xenith_devices::net::rtl8139::Rtl8139;
use xenith_devices::net::{DriverError, NetworkAdapter};
use xenith_devices::pci::config::PciAddress;
use xenith_devices::pci::enumerate::{PciDevice, PciHeaderKind};

const BASE: u16 = 0xC000;

/// An adapter with a receive ring that wraps and four transmit slots.
struct Nic {
    registers: HashMap<u16, u8>,
    memory: HashMap<u64, u8>,
    write: u64,
    frames: u64,
    sent: Vec<Vec<u8>>,
    freed: u32,
    stuck: bool,
}

impl Nic {
    fn new() -> Self {
        let mut registers = HashMap::new();
        for (i, byte) in [0x52, 0x54, 0x00, 0xAA, 0xBB, 0xCC].into_iter().enumerate() {
            registers.insert(i as u16, byte);
        }
        for slot in 0..4 {
            registers.insert(0x11 + slot * 4, 0x20);
        }
        Nic {
            registers,
            memory: HashMap::new(),
            write: 0,
            frames: 0x100,
            sent: Vec::new(),
            freed: 0,
            stuck: false,
        }
    }

    fn register(&self, offset: u16, size: u16) -> u32 {
        (0..size).fold(0, |value, i| {
            value | u32::from(*self.registers.get(&(offset + i)).unwrap_or(&0)) << (8 * i)
        })
    }

    fn put(&mut self, offset: u16, size: u16, value: u32) {
        for i in 0..size {
            self.registers.insert(offset + i, (value >> (8 * i)) as u8);
        }
    }

    /// Put a frame and its checksum into the ring.
    fn inject(&mut self, frame: &[u8], status: u16) {
        let ring = u64::from(self.register(0x30, 4));
        let length = frame.len() as u16 + 4;
        let mut bytes = Vec::new();
        bytes.extend(status.to_le_bytes());
        bytes.extend(length.to_le_bytes());
        bytes.extend(frame);
        bytes.extend([0xC5; 4]);
        for byte in bytes {
            self.memory.insert(ring + self.write % 8192, byte);
            self.write += 1;
        }
        self.write = (self.write + 3) & !3;
    }

    fn read_pointer(&self) -> u64 {
        u64::from((self.register(0x38, 2) as u16).wrapping_add(16)) % 8192
    }

    fn read(&mut self, place: Place, size: u16) -> u32 {
        match place {
            Place::Port(port) if port >= BASE && port < BASE + 0x100 => {
                let offset = port - BASE;
                if offset == 0x37 {
                    let empty = u32::from(self.read_pointer() == self.write % 8192);
                    let reset = if self.stuck { 0x10 } else { 0 };
                    return self.register(0x37, 1) & 0x0C | empty | reset;
                }
                self.register(offset, size)
            }
            Place::Memory(address) => (0..size).fold(0, |value, i| {
                let byte = *self.memory.get(&(address + u64::from(i))).unwrap_or(&0);
                value | u32::from(byte) << (8 * i)
            }),
            _ => 0,
        }
    }

    fn store(&mut self, place: Place, size: u16, value: u32) {
        match place {
            Place::Port(port) if port >= BASE && port < BASE + 0x100 => {
                let offset = port - BASE;
                self.put(offset, size, value);
                if (0x10..0x20).contains(&offset) {
                    let slot = (offset - 0x10) / 4;
                    let data = u64::from(self.register(0x20 + slot * 4, 4));
                    let length = u64::from(value & 0x1FFF);
                    let frame = (0..length)
                        .map(|i| *self.memory.get(&(data + i)).unwrap_or(&0))
                        .collect();
                    self.sent.push(frame);
                    self.put(offset, 4, value | 0x2000);
                }
            }
            Place::Memory(address) => {
                for i in 0..size {
                    self.memory
                        .insert(address + u64::from(i), (value >> (8 * i)) as u8);
                }
            }
            _ => {}
        }
    }
}

impl Machine for Nic {
    fn io(&self) -> Io {
        unreachable!()
    }

    fn read8(&mut self, place: Place) -> u8 {
        self.read(place, 1) as u8
    }

    fn read16(&mut self, place: Place) -> u16 {
        self.read(place, 2) as u16
    }

    fn read32(&mut self, place: Place) -> u32 {
        self.read(place, 4)
    }

    fn read64(&mut self, _place: Place) -> u64 {
        0
    }

    fn write8(&mut self, place: Place, value: u8) {
        self.store(place, 1, u32::from(value));
    }

    fn write16(&mut self, place: Place, value: u16) {
        self.store(place, 2, u32::from(value));
    }

    fn write32(&mut self, place: Place, value: u32) {
        self.store(place, 4, value);
    }

    fn write64(&mut self, _place: Place, _value: u64) {}

    fn ask(&mut self, query: Query) -> u64 {
        match query {
            Query::PhysToVirt(address) => address,
            Query::AllocateFrames(pages) => {
                let first = self.frames;
                if first != u64::MAX {
                    self.frames += pages;
                }
                first
            }
            _ => 0,
        }
    }

    fn tell(&mut self, order: Order) {
        if let Order::FreeFrames(_, _) = order {
            self.freed += 1;
        }
    }
}

fn function() -> PciDevice {
    PciDevice {
        address: PciAddress::new(0, 3, 0).unwrap(),
        vendor_id: 0x10EC,
        device_id: 0x8139,
        revision: 0,
        prog_if: 0,
        subclass: 0,
        base_class: 2,
        header_kind: PciHeaderKind::Device,
        multifunction: false,
        bars: [u32::from(BASE) | 1, 0, 0, 0, 0, 0],
        interrupt_line: 11,
        interrupt_pin: 1,
    }
}

#[test]
fn ring_hands_frames_over_as_they_came() {
    let mut machine = Nic::new();
    let mut adapter = Rtl8139::new(&mut machine, &function()).unwrap();
    assert_eq!(adapter.mac_address().bytes, [0x52, 0x54, 0x00, 0xAA, 0xBB, 0xCC]);
    assert_eq!(adapter.driver_name(), "rtl8139");
    assert!(adapter.link_up(&mut machine));
    let mut output = vec![0u8; 1514];
    assert_eq!(
        adapter.poll_receive(&mut machine, &mut output),
        Err(DriverError::NoPacket)
    );
    for number in 0..60usize {
        let frame: Vec<u8> = (0..60 + number * 24).map(|i| (i * 3 + number) as u8).collect();
        machine.inject(&frame, 1);
        assert_eq!(
            adapter.poll_receive(&mut machine, &mut output),
            Ok(frame.len())
        );
        assert_eq!(output[..frame.len()], frame);
        assert_eq!(machine.read_pointer(), machine.write % 8192);
    }
}

#[test]
fn slots_take_turns() {
    let mut machine = Nic::new();
    let mut adapter = Rtl8139::new(&mut machine, &function()).unwrap();
    for number in 0..9u8 {
        let frame = vec![number; 20 + number as usize * 100];
        assert_eq!(adapter.transmit(&mut machine, &frame), Ok(()));
        assert_eq!(machine.sent[number as usize][..frame.len()], frame);
        assert_eq!(machine.sent[number as usize].len(), frame.len().max(60));
    }
    assert_eq!(
        adapter.transmit(&mut machine, &[0; 1515]),
        Err(DriverError::FrameTooLarge)
    );
    for slot in 0..4 {
        machine.put(0x10 + slot * 4, 4, 0);
    }
    assert_eq!(
        adapter.transmit(&mut machine, &[0; 60]),
        Err(DriverError::WouldBlock)
    );
}

#[test]
fn faulty_frames_are_not_handed_over() {
    let mut machine = Nic::new();
    let mut adapter = Rtl8139::new(&mut machine, &function()).unwrap();
    machine.inject(&[7; 100], 1);
    assert_eq!(
        adapter.poll_receive(&mut machine, &mut vec![0; 10]),
        Err(DriverError::BufferTooSmall)
    );
    let mut output = vec![0u8; 1514];
    assert_eq!(adapter.poll_receive(&mut machine, &mut output), Ok(100));
    machine.inject(&[7; 100], 2);
    assert_eq!(
        adapter.poll_receive(&mut machine, &mut output),
        Err(DriverError::DeviceFault)
    );
}

#[test]
fn adapters_that_do_not_come_up_give_everything_back() {
    let mut machine = Nic::new();
    machine.stuck = true;
    assert_eq!(
        Rtl8139::new(&mut machine, &function()).err(),
        Some(DriverError::ResetTimeout)
    );
    let mut machine = Nic::new();
    machine.registers.insert(0, 0x01);
    assert_eq!(
        Rtl8139::new(&mut machine, &function()).err(),
        Some(DriverError::InvalidMac)
    );
    assert_eq!(machine.freed, 2);
    let mut machine = Nic::new();
    machine.frames = 0xF_FFFF;
    assert_eq!(
        Rtl8139::new(&mut machine, &function()).err(),
        Some(DriverError::DmaAddressTooHigh)
    );
    assert_eq!(machine.freed, 1);
    let mut without = function();
    without.bars = [0; 6];
    assert_eq!(
        Rtl8139::new(&mut Nic::new(), &without).err(),
        Some(DriverError::UnsupportedBar)
    );
}
