use std::collections::HashMap;
use xenith_devices::audio::codec::{
    function_group, subordinate_nodes, CodecInfo, Verb, MAX_FUNCTION_GROUPS,
    PARAM_FUNCTION_GROUP_TYPE,
};
use xenith_devices::audio::registers::{
    Capabilities, Mmio, StreamRegisters, CORBLBASE, MAX_STREAMS, RIRBLBASE, SSYNC, WALCLK,
};
use xenith_devices::audio::dma;
use xenith_devices::audio::ring::{Response, RingError, RingSize};
use xenith_devices::audio::stream::{
    BufferDescriptor, PcmFormat, SampleBits, StreamConfig, StreamError,
};
use xenith_devices::audio::wait::{delay, MillisecondBudget, PollingBudget};
use xenith_devices::audio::{
    codec_info, command, controller_count, controller_info, is_hda_controller, validate_bar,
    with_output_stream, BringUpState, ControllerPhase, HdaController, HdaControllers, HdaError,
    MAX_PHYSICAL_EXCLUSIVE, PCI_CLASS_MULTIMEDIA, PCI_SUBCLASS_HDA,
};
use xenith_devices::machine::{Access, Io, Machine, Order, Place, Query, ScriptedMachine};
use xenith_devices::pci::config::PciAddress;
use xenith_devices::pci::enumerate::{PciDevice, PciHeaderKind};

#[test]
fn verb_encoding_preserves_codec_node_opcode_and_payload() {
    let verb = Verb::get_parameter(3, 0x17, PARAM_FUNCTION_GROUP_TYPE).unwrap();
    assert_eq!(verb.raw(), 0x317f_0005);
    assert_eq!(verb.codec(), 3);
    assert_eq!(verb.node(), 0x17);
    assert!(Verb::new(15, 0, 0, 0).is_none());
    assert!(Verb::new(0, 0, 0x1000, 0).is_none());
}

#[test]
fn subordinate_node_parameter_is_split_without_sign_extension() {
    assert_eq!(subordinate_nodes(0x0034_00a2), (0x34, 0xa2));
}

#[test]
fn codec_snapshot_is_bounded_and_reports_truncation() {
    let mut info = CodecInfo::new(0, 0x10ec_0892, 0x0010_0300);
    for node in 0..(MAX_FUNCTION_GROUPS + 3) {
        info.push_group(function_group(node as u8, 0x101));
    }
    assert_eq!(info.function_groups().len(), MAX_FUNCTION_GROUPS);
    assert_eq!(info.audio_function_group_count(), MAX_FUNCTION_GROUPS);
    assert!(info.groups_truncated);
}

#[test]
fn capabilities_decode_all_fields_and_output_offset() {
    let caps = Capabilities::decode((4 << 12) | (3 << 8) | (5 << 3) | (2 << 1) | 1);
    assert_eq!(caps.output_streams, 4);
    assert_eq!(caps.input_streams, 3);
    assert_eq!(caps.bidirectional_streams, 5);
    assert_eq!(caps.serial_data_outputs, Some(4));
    assert!(caps.supports_64bit_dma);
    assert_eq!(caps.total_streams(), 12);
    assert_eq!(caps.output_stream_index(0), Some(3));
    assert_eq!(caps.output_stream_index(3), Some(6));
    assert_eq!(caps.output_stream_index(4), None);
}

#[test]
fn serial_data_output_encoding_preserves_reserved_value() {
    assert_eq!(Capabilities::decode(0 << 1).serial_data_outputs, Some(1));
    assert_eq!(Capabilities::decode(1 << 1).serial_data_outputs, Some(2));
    assert_eq!(Capabilities::decode(2 << 1).serial_data_outputs, Some(4));
    assert_eq!(Capabilities::decode(3 << 1).serial_data_outputs, None);
}

#[test]
fn stream_index_is_bounded_by_interrupt_bitmap() {
    let mmio = Mmio::new(0x1000);
    assert_eq!(mmio.stream(0).map(StreamRegisters::index), Some(0));
    assert_eq!(
        mmio.stream(MAX_STREAMS - 1).map(StreamRegisters::index),
        Some(29)
    );
    assert!(mmio.stream(MAX_STREAMS).is_none());
}

#[test]
fn architected_global_offsets_do_not_alias_reserved_space() {
    assert_eq!(WALCLK, 0x30);
    assert_eq!(SSYNC, 0x38);
    assert_eq!(CORBLBASE, 0x40);
    assert_eq!(RIRBLBASE, 0x50);
}

#[test]
fn ring_size_chooses_largest_advertised_value() {
    assert_eq!(
        RingSize::largest_supported(0x70),
        Some(RingSize::Entries256)
    );
    assert_eq!(RingSize::largest_supported(0x30), Some(RingSize::Entries16));
    assert_eq!(RingSize::largest_supported(0x10), Some(RingSize::Entries2));
    assert_eq!(RingSize::largest_supported(0x00), None);
    assert_eq!(RingSize::Entries256.entries(), 256);
    assert_eq!(RingSize::Entries256.encoding(), 2);
}

#[test]
fn pointer_arithmetic_wraps_at_each_power_of_two_size() {
    for size in [
        RingSize::Entries2,
        RingSize::Entries16,
        RingSize::Entries256,
    ] {
        let mask = size.entries() - 1;
        assert_eq!((mask.wrapping_add(1)) & mask, 0);
    }
}

#[test]
fn response_extension_decodes_codec_and_unsolicited_bit() {
    let solicited = Response::decode((5u64 << 32) | 0x1234_5678);
    assert_eq!(solicited.data, 0x1234_5678);
    assert_eq!(solicited.codec, 5);
    assert!(!solicited.unsolicited);
    let unsolicited = Response::decode((0x1eu64 << 32) | 0xaabb_ccdd);
    assert_eq!(unsolicited.codec, 14);
    assert!(unsolicited.unsolicited);
}

#[test]
fn common_pcm_formats_encode_to_architected_words() {
    assert_eq!(
        PcmFormat::new(48_000, SampleBits::Bits16, 2).unwrap().raw(),
        0x0011
    );
    assert_eq!(
        PcmFormat::new(44_100, SampleBits::Bits16, 2).unwrap().raw(),
        0x4011
    );
    assert_eq!(
        PcmFormat::new(96_000, SampleBits::Bits24, 6).unwrap().raw(),
        0x0835
    );
    assert!(PcmFormat::new(47_999, SampleBits::Bits16, 2).is_none());
    assert!(PcmFormat::new(48_000, SampleBits::Bits16, 0).is_none());
    assert!(PcmFormat::new(48_000, SampleBits::Bits16, 17).is_none());
}

#[test]
fn sample_container_width_drives_frame_size() {
    assert_eq!(SampleBits::Bits8.bytes_per_sample(), 1);
    assert_eq!(SampleBits::Bits16.bytes_per_sample(), 2);
    assert_eq!(SampleBits::Bits20.bytes_per_sample(), 4);
    assert_eq!(SampleBits::Bits24.bytes_per_sample(), 4);
    assert_eq!(SampleBits::Bits32.bytes_per_sample(), 4);
    assert_eq!(
        PcmFormat::new(48_000, SampleBits::Bits24, 6)
            .unwrap()
            .frame_bytes(),
        24
    );
}

#[test]
fn descriptor_layout_and_constraints_match_hardware() {
    let pcm16 = PcmFormat::new(48_000, SampleBits::Bits16, 2).unwrap();
    let pcm24 = PcmFormat::new(48_000, SampleBits::Bits24, 2).unwrap();
    assert_eq!(std::mem::size_of::<BufferDescriptor>(), 16);
    let descriptor = BufferDescriptor::new(0x20_000, 4096, true, pcm16, false).unwrap();
    assert_eq!(descriptor.address(), 0x20_000);
    assert_eq!(descriptor.length(), 4096);
    assert!(descriptor.interrupt_on_completion());
    assert!(BufferDescriptor::new(0x20_001, 4096, false, pcm16, true).is_none());
    assert!(BufferDescriptor::new(0x20_000, 1, false, pcm16, true).is_none());
    assert!(BufferDescriptor::new(0x20_000, 3, false, pcm16, true).is_none());
    assert!(BufferDescriptor::new(0x20_000, 6, false, pcm24, true).is_none());
    assert!(BufferDescriptor::new(1u64 << 52, 4096, false, pcm16, true).is_none());
    assert!(BufferDescriptor::new(0x1_0000_0000, 4096, false, pcm16, false).is_none());
}

#[test]
fn stream_config_rejects_invalid_bdl_bounds_and_tags() {
    let format = PcmFormat::new(48_000, SampleBits::Bits16, 2).unwrap();
    let valid = StreamConfig {
        bdl_address: 0x10_000,
        cyclic_buffer_bytes: 8192,
        descriptor_count: 2,
        stream_tag: 1,
        format,
    };
    assert!(valid.validate(false));
    assert!(!StreamConfig {
        descriptor_count: 1,
        ..valid
    }
    .validate(true));
    assert!(!StreamConfig {
        stream_tag: 0,
        ..valid
    }
    .validate(true));
    assert!(!StreamConfig {
        bdl_address: u64::from(u32::MAX) + 1,
        ..valid
    }
    .validate(false));
    assert!(!StreamConfig {
        bdl_address: 0xffff_ff80,
        descriptor_count: 256,
        ..valid
    }
    .validate(false));
    assert!(!StreamConfig {
        cyclic_buffer_bytes: 8191,
        ..valid
    }
    .validate(true));
}

#[test]
fn millisecond_budget_is_exact_and_cannot_underflow() {
    let mut budget = MillisecondBudget::new(10);
    for _ in 0..10 {
        assert!(budget.consume_one());
    }
    assert!(!budget.consume_one());
    assert!(!budget.consume_one());
    assert_eq!(budget.remaining, 0);
}

#[test]
fn zero_budget_expires_without_a_delay_slot() {
    let mut budget = MillisecondBudget::new(0);
    assert!(!budget.consume_one());
}

#[test]
fn pre_sti_budget_selects_pit_slots() {
    let budget = PollingBudget::from_clock_state(10, false, 9_000_000);
    assert_eq!(budget.milliseconds.remaining, 10);
    assert_eq!(budget.monotonic_deadline_ns, None);
}

#[test]
fn post_sti_budget_selects_non_destructive_monotonic_deadline() {
    let budget = PollingBudget::from_clock_state(10, true, 9_000_000);
    assert_eq!(budget.monotonic_deadline_ns, Some(19_000_000));

    let saturated = PollingBudget::from_clock_state(1_000, true, u64::MAX - 5);
    assert_eq!(saturated.monotonic_deadline_ns, Some(u64::MAX));
}

#[test]
fn zero_polling_budget_starts_expired() {
    let budget = PollingBudget::from_clock_state(0, false, 0);
    assert_eq!(budget.fast_remaining, 0);
    assert_eq!(budget.milliseconds.remaining, 0);
}

fn device(bar0: u32, bar1: u32) -> PciDevice {
    PciDevice {
        address: PciAddress::new(0, 0x1f, 3).unwrap(),
        vendor_id: 0x8086,
        device_id: 0x2668,
        revision: 1,
        prog_if: 0,
        subclass: PCI_SUBCLASS_HDA,
        base_class: PCI_CLASS_MULTIMEDIA,
        header_kind: PciHeaderKind::Device,
        multifunction: false,
        bars: [bar0, bar1, 0, 0, 0, 0],
        interrupt_line: 11,
        interrupt_pin: 1,
    }
}

#[test]
fn class_match_is_vendor_independent_and_exact() {
    let mut hda = device(0xf000_0000, 0);
    assert!(is_hda_controller(&hda));
    hda.vendor_id = 0x10de;
    assert!(is_hda_controller(&hda));
    hda.subclass = 0x01;
    assert!(!is_hda_controller(&hda));
    hda.subclass = PCI_SUBCLASS_HDA;
    hda.prog_if = 1;
    assert!(!is_hda_controller(&hda));
}

#[test]
fn bar_validation_accepts_memory_and_decodes_64bit_address() {
    assert_eq!(
        validate_bar(&device(0xf000_0000, 0)).unwrap().physical,
        0xf000_0000
    );
    assert_eq!(
        validate_bar(&device(0x0000_0004, 0x0000_0001))
            .unwrap()
            .physical,
        0x1_0000_0000
    );
}

#[test]
fn bar_validation_rejects_missing_io_misaligned_and_width_overflow() {
    assert_eq!(validate_bar(&device(0, 0)), Err(HdaError::MissingBar));
    assert_eq!(validate_bar(&device(0x1001, 0)), Err(HdaError::IoBar));
    assert_eq!(validate_bar(&device(0x1080, 0)).unwrap().physical, 0x1080);
    assert_eq!(
        validate_bar(&device(0x1010, 0)),
        Err(HdaError::MisalignedBar)
    );
    let high = (MAX_PHYSICAL_EXCLUSIVE >> 32) as u32;
    assert_eq!(
        validate_bar(&device(0x0000_0004, high)),
        Err(HdaError::BarWindowOutsidePhysicalAddressSpace)
    );
}

#[test]
fn bring_up_state_allows_only_forward_adjacent_transitions() {
    let mut state = BringUpState::new();
    assert_eq!(
        state.advance(ControllerPhase::ResetComplete),
        Err(HdaError::InvalidStateTransition)
    );
    for phase in [
        ControllerPhase::PciEnabled,
        ControllerPhase::ResetComplete,
        ControllerPhase::RingsRunning,
        ControllerPhase::CodecsEnumerated,
        ControllerPhase::Online,
    ] {
        state.advance(phase).unwrap();
    }
    assert_eq!(state.phase, ControllerPhase::Online);
    assert_eq!(
        state.advance(ControllerPhase::Online),
        Err(HdaError::InvalidStateTransition)
    );
}

const WINDOW: u64 = 0x8000_0000;
const MEMORY: u64 = 0x100_0000;

/// A controller with one codec.
struct Codec {
    memory: HashMap<u64, u8>,
    window: [u8; 0x400],
    wrong_address: bool,
    mute: bool,
    chatty: bool,
    stuck_reset: bool,
    frames: u64,
    freed: u32,
    command: u16,
    now: u64,
}

impl Codec {
    fn new() -> Self {
        let mut window = [0u8; 0x400];
        window[0] = 0x01;
        window[1] = 0x44;
        window[3] = 1;
        window[0x4E] = 0x72;
        window[0x5E] = 0x72;
        Codec {
            memory: HashMap::new(),
            window,
            wrong_address: false,
            mute: false,
            chatty: false,
            stuck_reset: false,
            frames: MEMORY / 4096,
            freed: 0,
            command: 0x0100,
            now: 1,
        }
    }

    fn load(&self, address: u64, size: u64) -> u64 {
        (0..size).fold(0, |value, i| {
            let byte = if address >= WINDOW {
                self.window[(address - WINDOW + i) as usize]
            } else {
                *self.memory.get(&(address + i)).unwrap_or(&0)
            };
            value | u64::from(byte) << (8 * i)
        })
    }

    fn store(&mut self, address: u64, size: u64, value: u64) {
        for i in 0..size {
            let byte = (value >> (8 * i)) as u8;
            if address >= WINDOW {
                self.window[(address - WINDOW + i) as usize] = byte;
            } else {
                self.memory.insert(address + i, byte);
            }
        }
    }

    fn answer(&self, verb: u32) -> u32 {
        let node = verb >> 20 & 0xFF;
        if verb >> 8 & 0xFFF != 0xF00 {
            return 0;
        }
        match (node, verb & 0xFF) {
            (0, 0x00) => 0x10EC_0892,
            (0, 0x02) => 0x0010_0300,
            (0, 0x04) => 0x0001_0002,
            (1, 0x05) => 0x0000_0101,
            (2, 0x05) => 0x0000_0002,
            _ => 0,
        }
    }

    fn respond(&mut self, word: u64) {
        let ring = self.load(WINDOW + 0x50, 8);
        let next = (self.load(WINDOW + 0x58, 2) + 1) & 0xFF;
        self.store(ring + next * 8, 8, word);
        self.store(WINDOW + 0x58, 2, next);
    }

    fn serve(&mut self) {
        let ring = self.load(WINDOW + 0x40, 8);
        let mut read = self.load(WINDOW + 0x4A, 2) & 0xFF;
        while read != self.load(WINDOW + 0x48, 2) & 0xFF {
            read = (read + 1) & 0xFF;
            let verb = self.load(ring + read * 4, 4) as u32;
            if self.mute {
                continue;
            }
            if self.chatty {
                self.respond(0x10_0000_0000 | 0xDEAD);
            }
            let target = u64::from(verb >> 28) + u64::from(self.wrong_address);
            let answer = u64::from(self.answer(verb));
            self.respond(target << 32 | answer);
        }
        self.store(WINDOW + 0x4A, 2, read);
    }

    fn write(&mut self, place: Place, size: u64, value: u64) {
        match place {
            Place::Port(0xCFC) | Place::Port(0xCFE) => self.command = value as u16,
            Place::Memory(address) => {
                let offset = address.wrapping_sub(WINDOW);
                match offset {
                    0x08 => {
                        if !self.stuck_reset {
                            self.store(address, size, value);
                        }
                        if value & 1 != 0 {
                            self.store(WINDOW + 0x0E, 2, 1);
                        }
                    }
                    0x0E | 0x4D | 0x5D => {
                        let old = self.load(address, size);
                        self.store(address, size, old & !value);
                    }
                    0x58 => {
                        if value & 0x8000 != 0 {
                            self.store(address, 2, 0);
                        }
                    }
                    0x48 => {
                        self.store(address, 2, value);
                        self.serve();
                    }
                    _ => self.store(address, size, value),
                }
            }
            _ => {}
        }
    }

    fn read(&mut self, place: Place, size: u64) -> u64 {
        match place {
            Place::Memory(address) => self.load(address, size),
            Place::Port(0xCFC) => u64::from(self.command),
            _ => 0,
        }
    }
}

impl Machine for Codec {
    fn io(&self) -> Io {
        unreachable!()
    }

    fn read8(&mut self, place: Place) -> u8 {
        self.read(place, 1) as u8
    }

    fn read16(&mut self, place: Place) -> u16 {
        self.read(place, 2) as u16
    }

    fn read32(&mut self, place: Place) -> u32 {
        self.read(place, 4) as u32
    }

    fn read64(&mut self, place: Place) -> u64 {
        self.read(place, 8)
    }

    fn write8(&mut self, place: Place, value: u8) {
        self.write(place, 1, u64::from(value));
    }

    fn write16(&mut self, place: Place, value: u16) {
        self.write(place, 2, u64::from(value));
    }

    fn write32(&mut self, place: Place, value: u32) {
        if place != Place::Port(0xCF8) {
            self.write(place, 4, u64::from(value));
        }
    }

    fn write64(&mut self, place: Place, value: u64) {
        self.write(place, 8, value);
    }

    fn ask(&mut self, query: Query) -> u64 {
        match query {
            Query::PhysToVirt(address) => address,
            Query::AllocateFrames(_) => self.frames,
            Query::InterruptsEnabled => 1,
            Query::UptimeNs => {
                self.now += 400_000;
                self.now
            }
            _ => 0,
        }
    }

    fn tell(&mut self, order: Order) {
        if let Order::FreeFrames(_, _) = order {
            self.freed += 1;
        }
    }
}

#[test]
fn controller_comes_online_with_its_codec() {
    let mut machine = Codec::new();
    let mut online = HdaControllers::new();
    let device = device(WINDOW as u32, 0);
    assert!(online.bring_up(&mut machine, &device).is_ok());
    assert!(online.bring_up(&mut machine, &device).is_ok());
    assert_eq!(controller_count(&online), 1);
    let info = controller_info(&online, 0).unwrap();
    assert_eq!(info.phase, ControllerPhase::Online);
    assert_eq!(info.reported_codec_mask, 1);
    assert_eq!(info.discovered_codecs, 1);
    assert_eq!(info.corb_size, RingSize::Entries256);
    assert_eq!(info.capabilities.output_streams, 4);
    let codec = codec_info(&online, 0, 0).unwrap();
    assert_eq!(codec.vendor_device_id, 0x10EC_0892);
    assert_eq!(codec.revision_id, 0x0010_0300);
    assert_eq!(codec.function_groups().len(), 2);
    assert_eq!(codec.audio_function_group_count(), 1);
    assert!(codec_info(&online, 0, 1).is_none());
    assert!(codec_info(&online, 1, 0).is_none());
    let verb = Verb::get_parameter(0, 0, 0).unwrap();
    let answer = command(&mut online, &mut machine, 0, verb);
    assert_eq!(answer.unwrap().data, 0x10EC_0892);
    assert!(command(&mut online, &mut machine, 1, verb).is_err());
    assert_eq!(
        with_output_stream(&online, 0, 0).map(|stream| stream.index()),
        Some(4)
    );
    assert!(with_output_stream(&online, 0, 4).is_none());
}

#[test]
fn unsolicited_responses_are_counted_and_passed_over() {
    let mut machine = Codec::new();
    machine.chatty = true;
    let mut controller = HdaController::initialize(&mut machine, &device(WINDOW as u32, 0)).unwrap();
    let before = controller.info().unsolicited_responses_dropped;
    assert!(before > 0);
    let verb = Verb::get_parameter(0, 0, 2).unwrap();
    assert_eq!(
        controller.command(&mut machine, verb).unwrap().data,
        0x0010_0300
    );
    assert_eq!(
        controller.info().unsolicited_responses_dropped,
        before + 1
    );
}

#[test]
fn answers_must_come_and_from_the_right_codec() {
    let mut machine = Codec::new();
    let mut controller = HdaController::initialize(&mut machine, &device(WINDOW as u32, 0)).unwrap();
    let verb = Verb::get_parameter(0, 0, 0).unwrap();
    machine.mute = true;
    assert_eq!(
        controller.command(&mut machine, verb).err(),
        Some(HdaError::Ring(RingError::ResponseTimeout))
    );
    machine.mute = false;
    machine.wrong_address = true;
    assert_eq!(
        controller.command(&mut machine, verb).err(),
        Some(HdaError::Ring(RingError::ResponseFromWrongCodec))
    );
}

#[test]
fn failures_restore_the_function() {
    let fails = |change: &dyn Fn(&mut Codec)| {
        let mut machine = Codec::new();
        change(&mut machine);
        let error = HdaController::initialize(&mut machine, &device(WINDOW as u32, 0)).err();
        assert_eq!(machine.command, 0x0100);
        error
    };
    assert_eq!(
        fails(&|machine| machine.window[3] = 0),
        Some(HdaError::UnsupportedControllerVersion)
    );
    assert_eq!(
        fails(&|machine| machine.window[0x4E] = 0),
        Some(HdaError::Ring(RingError::UnsupportedCorbSize))
    );
    assert_eq!(
        fails(&|machine| machine.window[0x5E] = 0),
        Some(HdaError::Ring(RingError::UnsupportedRirbSize))
    );
    assert_eq!(
        fails(&|machine| machine.frames = u64::MAX),
        Some(HdaError::Ring(RingError::Dma(dma::DmaError::OutOfMemory)))
    );
    assert_eq!(
        fails(&|machine| {
            machine.stuck_reset = true;
            machine.window[8] = 1;
        }),
        Some(HdaError::EnterResetTimeout)
    );
    assert_eq!(
        fails(&|machine| machine.stuck_reset = true),
        Some(HdaError::ExitResetTimeout)
    );
}

#[test]
fn streams_are_programmed_before_they_run() {
    let mut machine = Codec::new();
    let controller = HdaController::initialize(&mut machine, &device(WINDOW as u32, 0)).unwrap();
    let stream = controller.output_stream(1).unwrap();
    let format = PcmFormat::new(48_000, SampleBits::Bits16, 2).unwrap();
    let config = StreamConfig {
        bdl_address: 0x10_000,
        cyclic_buffer_bytes: 8192,
        descriptor_count: 2,
        stream_tag: 3,
        format,
    };
    assert_eq!(
        stream.program(
            &mut machine,
            StreamConfig {
                stream_tag: 0,
                ..config
            }
        ),
        Err(StreamError::InvalidConfiguration)
    );
    assert_eq!(stream.program(&mut machine, config), Ok(()));
    assert!(!stream.running(&mut machine));
    let base = WINDOW + 0x80 + 5 * 0x20;
    assert_eq!(machine.load(base + 0x08, 4), 8192);
    assert_eq!(machine.load(base + 0x0C, 2), 1);
    assert_eq!(machine.load(base + 0x12, 2), 0x0011);
    assert_eq!(machine.load(base + 0x18, 4), 0x10_000);
    stream.start_polling(&mut machine);
    assert!(stream.running(&mut machine));
    assert_eq!(stream.stop(&mut machine), Ok(()));
    assert!(!stream.running(&mut machine));
}

#[test]
fn delays_look_at_the_clock_or_at_the_timer() {
    let mut machine = ScriptedMachine::new(vec![1, 1_000, 1_500_000, 2_001_000], 0);
    delay(&mut machine, 2);
    assert_eq!(
        machine.accesses(),
        &vec![
            Access::Ask(Query::InterruptsEnabled),
            Access::Ask(Query::UptimeNs),
            Access::Ask(Query::UptimeNs),
            Access::Ask(Query::UptimeNs),
        ]
    );
    let mut machine = ScriptedMachine::new(vec![0], 0);
    delay(&mut machine, 2);
    let sleeps = machine
        .accesses()
        .iter()
        .filter(|access| matches!(access, Access::Tell(Order::SleepMs(1))))
        .count();
    assert_eq!(sleeps, 2);
}

#[test]
fn audio_errors_have_words() {
    assert_eq!(
        HdaError::UnsupportedControllerVersion.to_string(),
        "controller reports pre-1.0 HDA version"
    );
    let ring = HdaError::Ring(RingError::CorbFull).to_string();
    assert!(ring.contains("CorbFull"));
}
