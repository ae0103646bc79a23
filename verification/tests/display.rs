use std::collections::HashMap;
use xenith_devices::display::protocol;
use xenith_devices::display::protocol::fifo;
use xenith_devices::display::protocol::{
    CopyRect, FenceCommand, FenceSequence, FifoLayout, Mode, ModeLimits, ModeRequest,
    ProtocolError, Rect, RectCopyCommand, UpdateCommand, CMD_RECT_COPY, CMD_UPDATE,
    PCI_DEVICE_SVGA2, PCI_VENDOR_VMWARE, SVGA_ID_2,
};
use xenith_devices::display::svga2::{
    decode_aperture_size, decode_resources, device_info, insert_fence, is_attached, present,
    present_and_wait, rectangle_copy, synchronize, validate_physical_range, wait_fence,
    ActiveAdapter, SvgaError,
};
use xenith_devices::machine::{Io, Machine, Order, Place, Query};
use xenith_devices::pci::config::PciAddress;
use xenith_devices::pci::enumerate;
use xenith_devices::pci::enumerate::{PciBarKind, PciDevice};

fn limits() -> ModeLimits {
    ModeLimits {
        max_width: 2560,
        max_height: 1600,
        vram_bytes: 16 * 1024 * 1024,
        framebuffer_bytes: 16 * 1024 * 1024,
    }
}

fn mode() -> Mode {
    Mode {
        width: 800,
        height: 600,
        bits_per_pixel: 32,
        depth: 24,
        pitch: 3200,
        framebuffer_offset: 0,
        framebuffer_bytes: 16 * 1024 * 1024,
        red_mask: 0x00ff_0000,
        green_mask: 0x0000_ff00,
        blue_mask: 0x0000_00ff,
    }
}

#[test]
fn official_identity_values_are_exact() {
    assert_eq!(PCI_VENDOR_VMWARE, 0x15ad);
    assert_eq!(PCI_DEVICE_SVGA2, 0x0405);
    assert_eq!(SVGA_ID_2, 0x9000_0002);
    assert_eq!(fifo::BUSY, 290);
    assert_eq!(fifo::NUM_REGS, 291);
}

#[test]
fn mode_validation_accepts_xrgb8888_and_rejects_short_pitch() {
    assert_eq!(mode().validate(limits()), Ok(mode()));
    let mut short = mode();
    short.pitch = 3196;
    assert_eq!(
        short.validate(limits()),
        Err(ProtocolError::FramebufferTooSmall)
    );
}

#[test]
fn mode_validation_rejects_overlapping_masks_and_span_overflow() {
    let mut overlapping = mode();
    overlapping.green_mask = overlapping.red_mask;
    assert_eq!(
        overlapping.validate(limits()),
        Err(ProtocolError::UnsupportedPixelFormat)
    );
    let mut outside_vram = mode();
    outside_vram.framebuffer_offset = 15 * 1024 * 1024;
    assert_eq!(
        outside_vram.validate(limits()),
        Err(ProtocolError::FramebufferTooSmall)
    );
}

#[test]
fn requests_are_bounded_by_register_limits_and_storage() {
    assert!(ModeRequest::xrgb8888(2560, 1600).validate(limits()).is_ok());
    assert_eq!(
        ModeRequest::xrgb8888(2561, 1600).validate(limits()),
        Err(ProtocolError::InvalidMode)
    );
    assert_eq!(
        ModeRequest {
            width: 800,
            height: 600,
            bits_per_pixel: 16,
        }
        .validate(limits()),
        Err(ProtocolError::UnsupportedPixelFormat)
    );
}

#[test]
fn rectangle_validation_checks_both_edges_and_overflow() {
    assert!(Rect::new(799, 599, 1, 1).validate(mode()).is_ok());
    for invalid in [
        Rect::new(0, 0, 0, 1),
        Rect::new(799, 0, 2, 1),
        Rect::new(0, 599, 1, 2),
        Rect::new(u32::MAX, 0, 2, 1),
    ] {
        assert_eq!(
            invalid.validate(mode()),
            Err(ProtocolError::InvalidRectangle)
        );
    }
}

#[test]
fn fifo_empty_capacity_keeps_one_dword_guard() {
    let layout = FifoLayout::new(4096, 8192, 8192).unwrap();
    assert_eq!(layout.free_bytes(4096, 4096), Ok(4092));
    assert_eq!(layout.reserve(4096, 4096, 4092), Ok(8188));
    assert_eq!(
        layout.reserve(4096, 4096, 4096),
        Err(ProtocolError::InvalidCommand)
    );
}

#[test]
fn fifo_free_space_is_correct_on_each_side_of_stop() {
    let layout = FifoLayout::new(4096, 8192, 8192).unwrap();
    assert_eq!(layout.free_bytes(6144, 7168), Ok(1020));
    assert_eq!(layout.free_bytes(7168, 6144), Ok(3068));
    assert_eq!(layout.reserve(8188, 5000, 20), Ok(4112));
}

#[test]
fn fifo_rejects_misaligned_headers_cursors_and_commands() {
    assert_eq!(
        FifoLayout::new(4098, 8192, 8192),
        Err(ProtocolError::InvalidFifoLayout)
    );
    let layout = FifoLayout::new(4096, 8192, 8192).unwrap();
    assert_eq!(
        layout.free_bytes(4098, 4096),
        Err(ProtocolError::InvalidFifoCursor)
    );
    assert_eq!(
        layout.reserve(4096, 4096, 6),
        Err(ProtocolError::InvalidCommand)
    );
}

#[test]
fn fifo_full_is_distinct_from_malformed_input() {
    let layout = FifoLayout::new(4096, 8192, 8192).unwrap();
    assert_eq!(layout.free_bytes(5000, 5004), Ok(0));
    assert_eq!(layout.reserve(5000, 5004, 4), Err(ProtocolError::FifoFull));
}

#[test]
fn update_and_copy_commands_match_wire_word_order() {
    let update = UpdateCommand::new(Rect::new(1, 2, 3, 4), mode()).unwrap();
    assert_eq!(update.words(), &[CMD_UPDATE, 1, 2, 3, 4]);
    let copy = RectCopyCommand::new(
        CopyRect {
            source_x: 1,
            source_y: 2,
            destination_x: 11,
            destination_y: 12,
            width: 30,
            height: 40,
        },
        mode(),
    )
    .unwrap();
    assert_eq!(copy.words(), &[CMD_RECT_COPY, 1, 2, 11, 12, 30, 40]);
}

#[test]
fn fence_sequences_skip_zero_and_compare_across_wrap() {
    let mut sequence = FenceSequence { next: u32::MAX };
    assert_eq!(sequence.allocate(), u32::MAX);
    assert_eq!(sequence.allocate(), 1);
    assert!(FenceSequence::passed(1, u32::MAX));
    assert!(!FenceSequence::passed(u32::MAX - 10, 20));
    assert_eq!(FenceCommand::new(0), Err(ProtocolError::InvalidCommand));
}

fn device(bars: [u32; 6]) -> PciDevice {
    PciDevice {
        address: PciAddress::new(0, 15, 0).unwrap(),
        vendor_id: protocol::PCI_VENDOR_VMWARE,
        device_id: protocol::PCI_DEVICE_SVGA2,
        revision: 0,
        prog_if: 0,
        subclass: 0,
        base_class: 3,
        header_kind: enumerate::PciHeaderKind::Device,
        multifunction: false,
        bars,
        interrupt_line: 0,
        interrupt_pin: 0,
    }
}

#[test]
fn fixed_svga2_bar_layout_is_decoded_exactly() {
    let resources =
        decode_resources(&device([0x1001, 0xe000_0008, 0xe800_0000, 0, 0, 0])).unwrap();
    assert_eq!(resources.io_base, 0x1000);
    assert_eq!(resources.framebuffer_physical, 0xe000_0000);
    assert_eq!(resources.fifo_physical, 0xe800_0000);
}

#[test]
fn memory_bar_kind_alignment_and_aliasing_are_rejected() {
    for bars in [
        [0x1001, 0x0000_2001, 0xe800_0000, 0, 0, 0],
        [0x1001, 0xe000_0004, 0xe800_0000, 0, 0, 0],
        [0x1001, 0xe000_0000, 0xe000_0000, 0, 0, 0],
    ] {
        assert_eq!(
            decode_resources(&device(bars)),
            Err(SvgaError::InvalidMemoryBar)
        );
    }
}

#[test]
fn port_bar_must_fit_x86_port_space() {
    assert_eq!(
        decode_resources(&device([0xffff_0001, 0xe000_0000, 0xe800_0000, 0, 0, 0,])),
        Err(SvgaError::InvalidIoBar)
    );
}

#[test]
fn pci_aperture_masks_decode_to_exact_power_of_two_sizes() {
    assert_eq!(decode_aperture_size(PciBarKind::Io, 0xffff_fff1), Ok(16));
    assert_eq!(
        decode_aperture_size(PciBarKind::Mem32, 0xf000_0008),
        Ok(256 * 1024 * 1024)
    );
    assert_eq!(
        decode_aperture_size(PciBarKind::Mem32, 0xffe0_0000),
        Ok(2 * 1024 * 1024)
    );
}

#[test]
fn malformed_pci_aperture_masks_are_rejected() {
    assert_eq!(
        decode_aperture_size(PciBarKind::Mem32, 0),
        Err(SvgaError::MissingResource)
    );
    assert_eq!(
        decode_aperture_size(PciBarKind::Mem32, 0xff00_1000),
        Err(SvgaError::InvalidMemoryBar)
    );
    assert_eq!(
        decode_aperture_size(PciBarKind::Mem64, 0xffff_f000),
        Err(SvgaError::InvalidMemoryBar)
    );
}

#[test]
fn physical_ranges_reject_zero_overflow_and_noncanonical_addresses() {
    assert_eq!(
        validate_physical_range(0, 4096),
        Err(SvgaError::AddressOutOfRange)
    );
    assert_eq!(
        validate_physical_range(u64::MAX - 8, 16),
        Err(SvgaError::AddressOutOfRange)
    );
    assert_eq!(
        validate_physical_range(1_u64 << 52, 4096),
        Err(SvgaError::AddressOutOfRange)
    );
    assert_eq!(validate_physical_range(0xe000_0000, 4096), Ok(()));
}

const FRAMEBUFFER: u64 = 0xE000_0000;
const FIFO: u64 = 0xE800_0000;

/// An adapter that executes its ring whenever it is kicked.
struct Adapter {
    registers: HashMap<u32, u32>,
    index: u32,
    memory: HashMap<u64, u32>,
    bars: [u32; 6],
    command: u16,
    selected: u32,
    executed: Vec<Vec<u32>>,
    hung: bool,
    ready: u64,
}

impl Adapter {
    fn new() -> Self {
        let mut registers = HashMap::new();
        for (register, value) in [
            (1, 1),
            (2, 800),
            (3, 600),
            (4, 1024),
            (5, 768),
            (6, 24),
            (7, 32),
            (9, 0x00ff_0000),
            (10, 0x0000_ff00),
            (11, 0x0000_00ff),
            (12, 3200),
            (13, FRAMEBUFFER as u32),
            (14, 0),
            (15, 0x100_0000),
            (16, 0x100_0000),
            (17, 0x8002),
            (18, FIFO as u32),
            (19, 0x8000),
            (30, 291),
        ] {
            registers.insert(register, value);
        }
        let mut memory = HashMap::new();
        memory.insert(FIFO + 16, 1);
        Adapter {
            registers,
            index: 0,
            memory,
            bars: [0x1001, FRAMEBUFFER as u32, FIFO as u32, 0, 0, 0],
            command: 0x0003,
            selected: 0,
            executed: Vec::new(),
            hung: false,
            ready: 1,
        }
    }

    fn word(&self, index: u64) -> u32 {
        *self.memory.get(&(FIFO + index * 4)).unwrap_or(&0)
    }

    fn run(&mut self) {
        if self.hung {
            return;
        }
        let (min, max) = (self.word(0), self.word(1));
        let mut stop = self.word(3);
        while stop != self.word(2) {
            let mut take = || {
                let word = self.word(u64::from(stop) / 4);
                stop += 4;
                if stop >= max {
                    stop = min;
                }
                word
            };
            let first = take();
            let extra = match first {
                1 => 4,
                3 => 6,
                30 => 1,
                _ => panic!("unknown command"),
            };
            let mut words = vec![first];
            for _ in 0..extra {
                words.push(take());
            }
            if first == 30 {
                self.memory.insert(FIFO + 24, words[1]);
            }
            self.executed.push(words);
        }
        self.memory.insert(FIFO + 12, stop);
    }

    fn bar_mask(index: usize) -> u32 {
        [0xFFFF_FFF0, 0xFF00_0000, 0xFFFF_8000, 0, 0, 0][index]
    }
}

impl Machine for Adapter {
    fn io(&self) -> Io {
        unreachable!()
    }

    fn read8(&mut self, _place: Place) -> u8 {
        0
    }

    fn read16(&mut self, place: Place) -> u16 {
        self.read32(place) as u16
    }

    fn read32(&mut self, place: Place) -> u32 {
        match place {
            Place::Port(0x1001) => match self.index {
                22 => u32::from(self.hung),
                register => *self.registers.get(&register).unwrap_or(&0),
            },
            Place::Port(0xCFC) => {
                let offset = self.selected & 0xFC;
                if (0x10..0x28).contains(&offset) {
                    self.bars[((offset - 0x10) / 4) as usize]
                } else if offset == 4 {
                    u32::from(self.command)
                } else {
                    0
                }
            }
            Place::Memory(address) => *self.memory.get(&address).unwrap_or(&0),
            _ => 0,
        }
    }

    fn read64(&mut self, _place: Place) -> u64 {
        0
    }

    fn write8(&mut self, _place: Place, _value: u8) {}

    fn write16(&mut self, place: Place, value: u16) {
        if place == Place::Port(0xCFC) {
            self.command = value;
        }
    }

    fn write32(&mut self, place: Place, value: u32) {
        match place {
            Place::Port(0x1000) => self.index = value,
            Place::Port(0x1001) => {
                self.registers.insert(self.index, value);
                if self.index == 21 {
                    self.run();
                }
            }
            Place::Port(0xCF8) => self.selected = value,
            Place::Port(0xCFC) => {
                let offset = self.selected & 0xFC;
                if (0x10..0x28).contains(&offset) {
                    let index = ((offset - 0x10) / 4) as usize;
                    let flags = self.bars[index] & 0xF;
                    self.bars[index] = value & Self::bar_mask(index) | flags;
                } else if offset == 4 {
                    self.command = value as u16;
                }
            }
            Place::Memory(address) => {
                self.memory.insert(address, value);
            }
            _ => {}
        }
    }

    fn write64(&mut self, _place: Place, _value: u64) {}

    fn ask(&mut self, query: Query) -> u64 {
        match query {
            Query::PhysToVirt(address) => address,
            Query::MemoryReady => self.ready,
            _ => 0,
        }
    }

    fn tell(&mut self, _order: Order) {}
}

fn adapter_function() -> PciDevice {
    device([0x1001, FRAMEBUFFER as u32, FIFO as u32, 0, 0, 0])
}

#[test]
fn adapter_is_attached_with_its_mode() {
    let mut machine = Adapter::new();
    let mut display = ActiveAdapter::new();
    assert!(!is_attached(&display));
    assert!(display.attach(&mut machine, &adapter_function()).is_ok());
    assert!(is_attached(&display));
    let info = device_info(&display).unwrap();
    assert_eq!((info.mode.width, info.mode.height), (800, 600));
    assert_eq!(info.framebuffer_aperture_bytes, 0x100_0000);
    assert_eq!(info.fifo_aperture_bytes, 0x8000);
    assert_eq!(machine.bars, [0x1001, FRAMEBUFFER as u32, FIFO as u32, 0, 0, 0]);
    assert!(display.attach(&mut machine, &adapter_function()).is_err());
}

#[test]
fn commands_arrive_whole_around_the_ring() {
    let mut machine = Adapter::new();
    let mut display = ActiveAdapter::new();
    display.attach(&mut machine, &adapter_function()).unwrap();
    for number in 0..4000u32 {
        let rect = Rect::new(number % 700, number % 500, 1 + number % 90, 1 + number % 90);
        assert_eq!(present_and_wait(&display, &mut machine, &[rect]), Ok(()));
        assert_eq!(
            machine.executed.last().unwrap(),
            &vec![1, number % 700, number % 500, 1 + number % 90, 1 + number % 90]
        );
    }
    assert_eq!(machine.executed.len(), 4000);
    let copy = CopyRect {
        source_x: 0,
        source_y: 1,
        destination_x: 2,
        destination_y: 3,
        width: 4,
        height: 5,
    };
    assert_eq!(rectangle_copy(&display, &mut machine, copy), Ok(()));
    assert_eq!(synchronize(&display, &mut machine, 10), Ok(()));
    assert_eq!(machine.executed.last().unwrap(), &vec![3, 0, 1, 2, 3, 4, 5]);
}

#[test]
fn fences_are_reached_in_order() {
    let mut machine = Adapter::new();
    let mut display = ActiveAdapter::new();
    display.attach(&mut machine, &adapter_function()).unwrap();
    let first = insert_fence(&mut display, &mut machine).unwrap();
    let second = insert_fence(&mut display, &mut machine).unwrap();
    assert_ne!(first, second);
    machine.run();
    assert_eq!(wait_fence(&display, &mut machine, second, 5), Ok(()));
    assert_eq!(wait_fence(&display, &mut machine, first, 5), Ok(()));
    machine.hung = true;
    let third = insert_fence(&mut display, &mut machine).unwrap();
    assert_eq!(
        wait_fence(&display, &mut machine, third, 5),
        Err(SvgaError::FenceTimeout)
    );
    assert_eq!(
        synchronize(&display, &mut machine, 5),
        Err(SvgaError::SyncTimeout)
    );
}

#[test]
fn requests_to_the_adapter_are_checked() {
    let mut machine = Adapter::new();
    let mut display = ActiveAdapter::new();
    let rect = Rect::new(0, 0, 1, 1);
    assert_eq!(
        present(&display, &mut machine, &[rect]),
        Err(SvgaError::NotAttached)
    );
    display.attach(&mut machine, &adapter_function()).unwrap();
    assert_eq!(
        present(&display, &mut machine, &[Rect::new(800, 0, 1, 1)]),
        Err(SvgaError::Protocol(ProtocolError::InvalidRectangle))
    );
    assert_eq!(
        present(&display, &mut machine, &[rect; 65]),
        Err(SvgaError::TooManyRectangles)
    );
    assert!(machine.executed.is_empty());
}

#[test]
fn adapters_that_do_not_fit_are_refused() {
    let fails = |change: &dyn Fn(&mut Adapter)| {
        let mut machine = Adapter::new();
        change(&mut machine);
        let bars = machine.bars;
        let error =
            xenith_devices::display::svga2::Svga2::attach(&mut machine, &adapter_function()).err();
        assert_eq!(machine.bars, bars);
        error
    };
    assert_eq!(
        fails(&|machine| {
            machine.registers.insert(1, 0);
        }),
        Some(SvgaError::DeviceDisabled)
    );
    assert_eq!(
        fails(&|machine| {
            machine.registers.insert(15, 0);
        }),
        Some(SvgaError::InvalidVramSize)
    );
    assert_eq!(
        fails(&|machine| {
            machine.registers.insert(12, 100);
        }),
        Some(SvgaError::Protocol(ProtocolError::FramebufferTooSmall))
    );
    assert_eq!(
        fails(&|machine| machine.ready = 0),
        Some(SvgaError::MemoryManagerUnavailable)
    );
    assert_eq!(
        fails(&|machine| {
            machine.registers.insert(13, 0x1000);
        }),
        Some(SvgaError::ResourceMismatch)
    );
    assert_eq!(
        fails(&|machine| {
            machine.registers.insert(19, 16);
        }),
        Some(SvgaError::InvalidFifoSize)
    );
    let mut other = adapter_function();
    other.device_id = 0x0710;
    assert_eq!(
        xenith_devices::display::svga2::Svga2::attach(&mut Adapter::new(), &other).err(),
        Some(SvgaError::UnsupportedDevice)
    );
}
