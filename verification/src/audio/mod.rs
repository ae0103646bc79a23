//! High definition audio controllers.
//!
//! A controller is brought up in fixed steps: power, decoding, reset, command
//! rings, codecs.  Whatever fails on the way, the command word of the function
//! is put back as it was.
use vstd::prelude::*;
use crate::driver::{AnyDriver, Devices, KEY_HDA};
use crate::machine::{Io, Machine, Order, Query};
use crate::pci::capability;
use crate::pci::capability::{
    first_with_id, is_valid_pointer, lemma_walk_is_bounded, list_run, same_list, well_placed,
    CapabilityList, PciCapability,
};
use crate::pci::config::{PciAddress, PciHeaderType};
use crate::pci::enumerate::{
    decoded_bar, register_driver, DriverRegistry, PciBarInfo, PciBarKind, PciDevice, PciDriver,
    PciDriverError, enrolled,
};
use crate::pci::PciCommand;
use crate::text::push_text;

pub mod codec;
pub mod dma;
pub mod link;
pub mod registers;
pub mod ring;
pub mod stream;
pub mod wait;

pub use self::codec::{CodecInfo, FunctionGroupInfo, Verb};
pub use self::registers::{
    Capabilities, Version, DPLBASE, DPUBASE, GLOBAL_REGISTER_BYTES, INTCTL_CIE, INTCTL_GIE, INTSTS,
    SSYNC, WAKEEN, WALCLK,
};
pub use self::ring::{Response, RingError, RingSize};
pub use self::stream::{
    BufferDescriptor, PcmFormat, SampleBits, StreamConfig, StreamDescriptor, StreamError,
};
use self::codec::{
    function_group, group_of, subordinate_nodes, verb_word, CodecModel, DISCOVERABLE_CODECS,
    MAX_CODEC_ADDRESS, MAX_FUNCTION_GROUPS, PARAM_FUNCTION_GROUP_TYPE, PARAM_REVISION_ID,
    PARAM_SUBORDINATE_NODE_COUNT, PARAM_VENDOR_ID, VERB_GET_PARAMETER,
};
use self::registers::{
    Mmio, StreamRegisters, CORBCTL, CORBCTL_RUN, GCTL, GCTL_CRST, GCTL_UNSOL, INTCTL, MAX_STREAMS,
    RIRBCTL, RIRBCTL_DMA_ENABLE, STATESTS,
};
use self::ring::{abandon_run, CommandRings};
use self::wait::{delay, delay_run, until, until_run, Bits, Ready, HARDWARE_TIMEOUT_MS};
use crate::machine::cell_at;

verus! {

pub const PCI_CLASS_MULTIMEDIA: u8 = 0x04;
pub const PCI_SUBCLASS_HDA: u8 = 0x03;
pub const PCI_PROG_IF_HDA: u8 = 0x00;
pub const PCI_CAP_ID_POWER_MANAGEMENT: u8 = 0x01;
pub const HDA_BAR_INDEX: u8 = 0;
/// Bytes of the register window that are used.
pub const MMIO_WINDOW_USED: u64 = 0x440;
pub const MAX_PHYSICAL_EXCLUSIVE: u64 = 0x10_0000_0000_0000;
/// The run bit of a stream.
pub const STREAM_RUN: u32 = 0x02;

/// How far a controller has come.
#[derive(Clone, Copy, Debug, Eq, PartialEq, Structural)]
pub enum ControllerPhase {
    Discovered,
    PciEnabled,
    ResetComplete,
    RingsRunning,
    CodecsEnumerated,
    Online,
}

impl ControllerPhase {
    /// The number of the step.
    pub open spec fn step(self) -> int {
        match self {
            ControllerPhase::Discovered => 0,
            ControllerPhase::PciEnabled => 1,
            ControllerPhase::ResetComplete => 2,
            ControllerPhase::RingsRunning => 3,
            ControllerPhase::CodecsEnumerated => 4,
            ControllerPhase::Online => 5,
        }
    }

    /// Whether `next` is the step behind this one.
    pub fn can_advance_to(self, next: Self) -> (can: bool)
        ensures
            can == (next.step() == self.step() + 1),
    {
        match (self, next) {
            (ControllerPhase::Discovered, ControllerPhase::PciEnabled) => true,
            (ControllerPhase::PciEnabled, ControllerPhase::ResetComplete) => true,
            (ControllerPhase::ResetComplete, ControllerPhase::RingsRunning) => true,
            (ControllerPhase::RingsRunning, ControllerPhase::CodecsEnumerated) => true,
            (ControllerPhase::CodecsEnumerated, ControllerPhase::Online) => true,
            _ => false,
        }
    }
}

/// A controller on its way up.
#[derive(Clone, Copy, Debug, Eq, PartialEq, Structural)]
pub struct BringUpState {
    pub phase: ControllerPhase,
}

impl BringUpState {
    pub fn new() -> (state: Self)
        ensures
            state.phase == ControllerPhase::Discovered,
    {
        BringUpState { phase: ControllerPhase::Discovered }
    }

    /// Take the next step; any other is refused.
    pub fn advance(&mut self, next: ControllerPhase) -> (result: Result<(), HdaError>)
        ensures
            if next.step() == old(self).phase.step() + 1 {
                result is Ok && final(self).phase == next
            } else {
                result == Err::<(), HdaError>(HdaError::InvalidStateTransition) && *final(self)
                    == *old(self)
            },
    {
        if !self.phase.can_advance_to(next) {
            return Err(HdaError::InvalidStateTransition);
        }
        self.phase = next;
        Ok(())
    }
}

#[derive(Clone, Copy, Debug, Eq, PartialEq, Structural)]
pub enum HdaError {
    NotHda,
    MissingBar,
    IoBar,
    UnsupportedBar,
    MisalignedBar,
    BarWindowOutsidePhysicalAddressSpace,
    CapabilityListMalformed,
    PowerStateTimeout,
    UnsupportedControllerVersion,
    InvalidStreamCount,
    InvalidStateTransition,
    StreamStopTimeout,
    EngineStopTimeout,
    EnterResetTimeout,
    ExitResetTimeout,
    InvalidVerb,
    Ring(RingError),
}

impl From<RingError> for HdaError {
    fn from(value: RingError) -> (error: Self) {
        HdaError::Ring(value)
    }
}

impl vstd::std_specs::convert::FromSpecImpl<RingError> for HdaError {
    open spec fn obeys_from_spec() -> bool {
        true
    }

    open spec fn from_spec(value: RingError) -> HdaError {
        HdaError::Ring(value)
    }
}

impl HdaError {
    /// The error in words.
    pub open spec fn text(self) -> Seq<char> {
        match self {
            HdaError::NotHda => "not an HDA PCI function"@,
            HdaError::MissingBar => "BAR0 is unimplemented"@,
            HdaError::IoBar => "BAR0 is I/O space"@,
            HdaError::UnsupportedBar => "BAR0 has a reserved memory type"@,
            HdaError::MisalignedBar => "BAR0 is not 128-byte aligned"@,
            HdaError::BarWindowOutsidePhysicalAddressSpace =>
                "BAR0 window exceeds 52-bit physical space"@,
            HdaError::CapabilityListMalformed => "malformed PCI capability list"@,
            HdaError::PowerStateTimeout => "PCI function did not enter D0"@,
            HdaError::UnsupportedControllerVersion => "controller reports pre-1.0 HDA version"@,
            HdaError::InvalidStreamCount => "GCAP stream count exceeds INTCTL"@,
            HdaError::InvalidStateTransition => "invalid HDA bring-up transition"@,
            HdaError::StreamStopTimeout => "stream DMA did not stop"@,
            HdaError::EngineStopTimeout => "CORB/RIRB DMA did not stop"@,
            HdaError::EnterResetTimeout => "controller did not enter reset"@,
            HdaError::ExitResetTimeout => "controller did not leave reset"@,
            HdaError::InvalidVerb => "codec verb fields are invalid"@,
            HdaError::Ring(error) => "ring transport error: "@ + error.text(),
        }
    }

    /// The error in words.
    pub fn to_string(&self) -> (text: String)
        ensures
            text@ == self.text(),
    {
        let mut text: String = String::new();
        match self {
            HdaError::NotHda => push_text(&mut text, "not an HDA PCI function"),
            HdaError::MissingBar => push_text(&mut text, "BAR0 is unimplemented"),
            HdaError::IoBar => push_text(&mut text, "BAR0 is I/O space"),
            HdaError::UnsupportedBar => push_text(&mut text, "BAR0 has a reserved memory type"),
            HdaError::MisalignedBar => push_text(&mut text, "BAR0 is not 128-byte aligned"),
            HdaError::BarWindowOutsidePhysicalAddressSpace => push_text(
                &mut text,
                "BAR0 window exceeds 52-bit physical space",
            ),
            HdaError::CapabilityListMalformed => push_text(
                &mut text,
                "malformed PCI capability list",
            ),
            HdaError::PowerStateTimeout => push_text(&mut text, "PCI function did not enter D0"),
            HdaError::UnsupportedControllerVersion => push_text(
                &mut text,
                "controller reports pre-1.0 HDA version",
            ),
            HdaError::InvalidStreamCount => push_text(
                &mut text,
                "GCAP stream count exceeds INTCTL",
            ),
            HdaError::InvalidStateTransition => push_text(
                &mut text,
                "invalid HDA bring-up transition",
            ),
            HdaError::StreamStopTimeout => push_text(&mut text, "stream DMA did not stop"),
            HdaError::EngineStopTimeout => push_text(&mut text, "CORB/RIRB DMA did not stop"),
            HdaError::EnterResetTimeout => push_text(&mut text, "controller did not enter reset"),
            HdaError::ExitResetTimeout => push_text(&mut text, "controller did not leave reset"),
            HdaError::InvalidVerb => push_text(&mut text, "codec verb fields are invalid"),
            HdaError::Ring(error) => {
                push_text(&mut text, "ring transport error: ");
                error.push_name(&mut text);
            },
        }
        assert(text@ == self.text());
        text
    }
}

/// The register window.
#[derive(Clone, Copy, Debug, Eq, PartialEq, Structural)]
pub struct MmioBar {
    pub physical: u64,
}

/// The register window a device's first base address register names.
pub open spec fn window_of(device: PciDevice) -> Result<MmioBar, HdaError> {
    let bar = decoded_bar(device.bars@, HDA_BAR_INDEX);
    if bar.address == 0 {
        Err(HdaError::MissingBar)
    } else if bar.kind == PciBarKind::Io {
        Err(HdaError::IoBar)
    } else if bar.kind == PciBarKind::Mem16 || bar.kind == PciBarKind::Reserved {
        Err(HdaError::UnsupportedBar)
    } else if bar.address & 0x7f != 0 {
        Err(HdaError::MisalignedBar)
    } else if bar.address + MMIO_WINDOW_USED > MAX_PHYSICAL_EXCLUSIVE {
        Err(HdaError::BarWindowOutsidePhysicalAddressSpace)
    } else {
        Ok(MmioBar { physical: bar.address })
    }
}

/// The register window a device's first base address register names.
pub fn validate_bar(device: &PciDevice) -> (result: Result<MmioBar, HdaError>)
    ensures
        result == window_of(*device),
{
    let bar: PciBarInfo = match device.bar(HDA_BAR_INDEX) {
        Some(bar) => bar,
        None => {
            return Err(HdaError::MissingBar);
        },
    };
    if bar.address == 0 {
        return Err(HdaError::MissingBar);
    }
    let physical: u64 = match bar.kind {
        PciBarKind::Mem32 | PciBarKind::Mem64 => bar.address,
        PciBarKind::Io => {
            return Err(HdaError::IoBar);
        },
        PciBarKind::Mem16 | PciBarKind::Reserved => {
            return Err(HdaError::UnsupportedBar);
        },
    };
    if physical & 0x7f != 0 {
        return Err(HdaError::MisalignedBar);
    }
    match physical.checked_add(MMIO_WINDOW_USED - 1) {
        Some(end) => {
            if end >= MAX_PHYSICAL_EXCLUSIVE {
                return Err(HdaError::BarWindowOutsidePhysicalAddressSpace);
            }
            Ok(MmioBar { physical })
        },
        None => Err(HdaError::BarWindowOutsidePhysicalAddressSpace),
    }
}

/// What is known of a controller.
#[derive(Clone, Copy, Debug, Eq, PartialEq, Structural)]
pub struct ControllerInfo {
    pub pci_address: PciAddress,
    pub phase: ControllerPhase,
    pub version: Version,
    pub capabilities: Capabilities,
    pub reported_codec_mask: u16,
    pub discovered_codecs: u8,
    pub codec_probe_failures: u8,
    pub corb_size: RingSize,
    pub rirb_size: RingSize,
    pub unsolicited_responses_dropped: u64,
}

/// A controller that is online.
#[derive(Debug)]
pub struct HdaController {
    pub pci_address: PciAddress,
    pub registers: Mmio,
    pub phase: ControllerPhase,
    pub version: Version,
    pub capabilities: Capabilities,
    pub reported_codec_mask: u16,
    pub codecs: Vec<Option<CodecInfo>>,
    pub codec_count: u8,
    pub codec_probe_failures: u8,
    pub rings: CommandRings,
}

/// A controller, apart from how its codecs are held.
#[verifier::ext_equal]
pub struct HdaModel {
    pub pci_address: PciAddress,
    pub registers: Mmio,
    pub phase: ControllerPhase,
    pub version: Version,
    pub capabilities: Capabilities,
    pub reported_codec_mask: u16,
    pub codecs: Seq<Option<CodecModel>>,
    pub codec_count: u8,
    pub codec_probe_failures: u8,
    pub rings: CommandRings,
}

/// The codecs, apart from how they are held.
pub open spec fn codec_models(codecs: Seq<Option<CodecInfo>>) -> Seq<Option<CodecModel>> {
    Seq::new(
        codecs.len(),
        |i: int|
            match codecs[i] {
                Some(info) => Some(info@),
                None => None,
            },
    )
}

impl View for HdaController {
    type V = HdaModel;

    open spec fn view(&self) -> HdaModel {
        HdaModel {
            pci_address: self.pci_address,
            registers: self.registers,
            phase: self.phase,
            version: self.version,
            capabilities: self.capabilities,
            reported_codec_mask: self.reported_codec_mask,
            codecs: codec_models(self.codecs@),
            codec_count: self.codec_count,
            codec_probe_failures: self.codec_probe_failures,
            rings: self.rings,
        }
    }
}

/// Clear the run bits of the streams from number `from` on.
pub open spec fn halt_run(registers: Mmio, from: int, count: int, io: Io) -> Io
    decreases count - from,
{
    if from >= count {
        io
    } else {
        let stream = registers.stream_registers(from);
        let (control, io) = stream.control_run(io);
        halt_run(registers, from + 1, count, stream.write_control_run(control & !STREAM_RUN, io))
    }
}

/// Whether every stream from number `from` on has stopped; the first that runs
/// ends the look.
pub open spec fn halted_run(registers: Mmio, from: int, count: int, io: Io) -> (bool, Io)
    decreases count - from,
{
    if from >= count {
        (true, io)
    } else {
        let (control, io) = registers.stream_registers(from).control_run(io);
        if control & STREAM_RUN != 0 {
            (false, io)
        } else {
            halted_run(registers, from + 1, count, io)
        }
    }
}

fn streams_halted<M: Machine>(machine: &mut M, registers: Mmio, count: usize) -> (halted: bool)
    requires
        count <= MAX_STREAMS,
    ensures
        (halted, final(machine).io()) == halted_run(registers, 0, count as int, old(machine).io()),
{
    let mut i: usize = 0;
    while i < count
        invariant
            i <= count <= MAX_STREAMS,
            halted_run(registers, 0, count as int, old(machine).io()) == halted_run(
                registers,
                i as int,
                count as int,
                machine.io(),
            ),
        decreases count - i,
    {
        match registers.stream(i) {
            Some(stream) => {
                if stream.control(machine) & STREAM_RUN != 0 {
                    return false;
                }
            },
            None => {
                return false;
            },
        }
        i = i + 1;
    }
    true
}

/// Every engine of the controller has stopped.
#[derive(Clone, Copy, Debug, Eq, PartialEq, Structural)]
pub struct AllIdle {
    pub registers: Mmio,
    pub streams: u8,
}

impl Ready for AllIdle {
    open spec fn ready_run(&self, io: Io) -> (bool, Io) {
        if self.streams > MAX_STREAMS {
            (false, io)
        } else {
            let (halted, io) = halted_run(self.registers, 0, self.streams as int, io);
            if !halted {
                (false, io)
            } else {
                let (corb, io) = io.r8(self.registers.register(CORBCTL));
                if corb & CORBCTL_RUN != 0 {
                    (false, io)
                } else {
                    let (rirb, io) = io.r8(self.registers.register(RIRBCTL));
                    (rirb & RIRBCTL_DMA_ENABLE == 0, io)
                }
            }
        }
    }

    fn ready<M: Machine>(&self, machine: &mut M) -> (ready: bool) {
        if self.streams as usize > MAX_STREAMS {
            return false;
        }
        streams_halted(machine, self.registers, self.streams as usize) && self.registers.read8(
            machine,
            CORBCTL,
        ) & CORBCTL_RUN == 0 && self.registers.read8(machine, RIRBCTL) & RIRBCTL_DMA_ENABLE == 0
    }
}

/// Wait until the reset bit is set, or is clear.
pub open spec fn gctl_run(registers: Mmio, set: bool, io: Io) -> (bool, Io) {
    until_run(HARDWARE_TIMEOUT_MS, Bits::Dword(registers.register(GCTL), GCTL_CRST, set), io)
}

/// Silence the controller: no interrupts, no wake events, every engine told to
/// stop.
pub open spec fn silence_run(registers: Mmio, streams: int, io: Io) -> Io {
    let io = io.w32(registers.register(INTCTL), 0);
    let io = io.w16(registers.register(WAKEEN), 0);
    let (control, io) = io.r32(registers.register(GCTL));
    let io = io.w32(registers.register(GCTL), control & !GCTL_UNSOL);
    let (corb, io) = io.r8(registers.register(CORBCTL));
    let io = io.w8(registers.register(CORBCTL), corb & !CORBCTL_RUN);
    let (rirb, io) = io.r8(registers.register(RIRBCTL));
    let io = io.w8(registers.register(RIRBCTL), rirb & !RIRBCTL_DMA_ENABLE);
    halt_run(registers, 0, streams, io)
}

/// Wait for the engines, then look at each again.
pub open spec fn quiet_run(registers: Mmio, streams: int, io: Io) -> (Result<(), HdaError>, Io) {
    let (stopped, io) = until_run(
        HARDWARE_TIMEOUT_MS,
        AllIdle { registers, streams: streams as u8 },
        io,
    );
    let (halted, io) = halted_run(registers, 0, streams, io);
    if !halted {
        (Err(HdaError::StreamStopTimeout), io)
    } else if stopped {
        (Ok(()), io)
    } else {
        let (corb, io) = io.r8(registers.register(CORBCTL));
        if corb & CORBCTL_RUN != 0 {
            (Err(HdaError::EngineStopTimeout), io)
        } else {
            let (rirb, io) = io.r8(registers.register(RIRBCTL));
            if rirb & RIRBCTL_DMA_ENABLE != 0 {
                (Err(HdaError::EngineStopTimeout), io)
            } else {
                (Ok(()), io)
            }
        }
    }
}

/// Hold the controller in reset and let it go again.
pub open spec fn cycle_run(registers: Mmio, io: Io) -> (Result<(), HdaError>, Io) {
    let (control, io) = io.r32(registers.register(GCTL));
    let io = io.w32(registers.register(GCTL), control & !GCTL_CRST);
    let (entered, io) = gctl_run(registers, false, io);
    if !entered {
        (Err(HdaError::EnterResetTimeout), io)
    } else {
        let io = delay_run(1, io);
        let (control, io) = io.r32(registers.register(GCTL));
        let io = io.w32(registers.register(GCTL), control | GCTL_CRST);
        let (left, io) = gctl_run(registers, true, io);
        if !left {
            (Err(HdaError::ExitResetTimeout), io)
        } else {
            (Ok(()), delay_run(1, io))
        }
    }
}

/// Reset the controller.
pub open spec fn reset_run(registers: Mmio, streams: int, io: Io) -> (Result<(), HdaError>, Io) {
    match quiet_run(registers, streams, silence_run(registers, streams, io)) {
        (Err(error), io) => (Err(error), io),
        (Ok(_), io) => cycle_run(registers, io),
    }
}

fn wait_gctl<M: Machine>(machine: &mut M, registers: Mmio, expected_set: bool) -> (came: bool)
    ensures
        (came, final(machine).io()) == gctl_run(registers, expected_set, old(machine).io()),
{
    until(
        machine,
        HARDWARE_TIMEOUT_MS,
        Bits::Dword(cell_at(registers.base, GCTL as u64), GCTL_CRST, expected_set),
    )
}

fn silence<M: Machine>(machine: &mut M, registers: Mmio, streams: usize)
    requires
        streams <= MAX_STREAMS,
    ensures
        final(machine).io() == silence_run(registers, streams as int, old(machine).io()),
{
    registers.write32(machine, INTCTL, 0);
    registers.write16(machine, WAKEEN, 0);
    let control: u32 = registers.read32(machine, GCTL);
    registers.write32(machine, GCTL, control & !GCTL_UNSOL);
    let corb: u8 = registers.read8(machine, CORBCTL);
    registers.write8(machine, CORBCTL, corb & !CORBCTL_RUN);
    let rirb: u8 = registers.read8(machine, RIRBCTL);
    registers.write8(machine, RIRBCTL, rirb & !RIRBCTL_DMA_ENABLE);
    let ghost start = machine.io();
    let mut i: usize = 0;
    while i < streams
        invariant
            i <= streams <= MAX_STREAMS,
            halt_run(registers, 0, streams as int, start) == halt_run(
                registers,
                i as int,
                streams as int,
                machine.io(),
            ),
        decreases streams - i,
    {
        if let Some(stream) = registers.stream(i) {
            let value: u32 = stream.control(machine);
            stream.write_control(machine, value & !STREAM_RUN);
        }
        i = i + 1;
    }
}

fn reset_controller<M: Machine>(machine: &mut M, registers: Mmio, capabilities: Capabilities) -> (result:
    Result<(), HdaError>)
    requires
        capabilities.streams() <= MAX_STREAMS,
    ensures
        (result, final(machine).io()) == reset_run(
            registers,
            capabilities.streams(),
            old(machine).io(),
        ),
{
    let streams: usize = capabilities.total_streams();
    silence(machine, registers, streams);
    let stopped: bool = until(
        machine,
        HARDWARE_TIMEOUT_MS,
        AllIdle { registers, streams: streams as u8 },
    );
    if !streams_halted(machine, registers, streams) {
        return Err(HdaError::StreamStopTimeout);
    }
    if !stopped && (registers.read8(machine, CORBCTL) & CORBCTL_RUN != 0 || registers.read8(
        machine,
        RIRBCTL,
    ) & RIRBCTL_DMA_ENABLE != 0) {
        return Err(HdaError::EngineStopTimeout);
    }
    let control: u32 = registers.read32(machine, GCTL);
    registers.write32(machine, GCTL, control & !GCTL_CRST);
    if !wait_gctl(machine, registers, false) {
        return Err(HdaError::EnterResetTimeout);
    }
    delay(machine, 1);
    let control: u32 = registers.read32(machine, GCTL);
    registers.write32(machine, GCTL, control | GCTL_CRST);
    if !wait_gctl(machine, registers, true) {
        return Err(HdaError::ExitResetTimeout);
    }
    delay(machine, 1);
    Ok(())
}

/// Ask a node of a codec for a parameter.
pub open spec fn parameter_run(
    registers: Mmio,
    rings: CommandRings,
    codec: u8,
    node: u8,
    parameter: u8,
    io: Io,
) -> (Result<u32, HdaError>, CommandRings, Io) {
    if codec > MAX_CODEC_ADDRESS {
        (Err(HdaError::InvalidVerb), rings, io)
    } else {
        let verb = verb_of(verb_word(codec, node, VERB_GET_PARAMETER, parameter));
        let (result, rings, io) = rings.command_run(registers, verb, io);
        (
            match result {
                Ok(response) => Ok(response.data),
                Err(error) => Err(HdaError::Ring(error)),
            },
            rings,
            io,
        )
    }
}

/// The command with a word.
pub open spec fn verb_of(word: u32) -> Verb {
    choose|verb: Verb| verb.sent() == word
}

/// Ask for the groups of a codec from number `from` on.
pub open spec fn groups_run(
    registers: Mmio,
    rings: CommandRings,
    info: CodecModel,
    start: u8,
    from: int,
    count: int,
    io: Io,
) -> (Result<CodecModel, HdaError>, CommandRings, Io)
    decreases count - from,
{
    if from >= count {
        (Ok(info), rings, io)
    } else if start + from > 255 {
        (Ok(CodecModel { groups_truncated: true, ..info }), rings, io)
    } else {
        let node = (start + from) as u8;
        match parameter_run(
            registers,
            rings,
            info.address,
            node,
            PARAM_FUNCTION_GROUP_TYPE,
            io,
        ) {
            (Err(error), rings, io) => (Err(error), rings, io),
            (Ok(response), rings, io) => groups_run(
                registers,
                rings,
                info.with_group(group_of(node, response)),
                start,
                from + 1,
                count,
                io,
            ),
        }
    }
}

/// Ask a codec what it is and which function groups it has.
pub open spec fn codec_run(registers: Mmio, rings: CommandRings, address: u8, io: Io) -> (Result<
    CodecModel,
    HdaError,
>, CommandRings, Io) {
    match parameter_run(registers, rings, address, 0, PARAM_VENDOR_ID, io) {
        (Err(error), rings, io) => (Err(error), rings, io),
        (Ok(vendor_device_id), rings, io) => match parameter_run(
            registers,
            rings,
            address,
            0,
            PARAM_REVISION_ID,
            io,
        ) {
            (Err(error), rings, io) => (Err(error), rings, io),
            (Ok(revision_id), rings, io) => match parameter_run(
                registers,
                rings,
                address,
                0,
                PARAM_SUBORDINATE_NODE_COUNT,
                io,
            ) {
                (Err(error), rings, io) => (Err(error), rings, io),
                (Ok(nodes), rings, io) => {
                    let start = ((nodes >> 16) & 0xff) as u8;
                    let count = (nodes & 0xff) as u8;
                    let info = CodecModel {
                        address,
                        vendor_device_id,
                        revision_id,
                        groups: Seq::empty(),
                        groups_truncated: count > MAX_FUNCTION_GROUPS,
                    };
                    groups_run(
                        registers,
                        rings,
                        info,
                        start,
                        0,
                        if count < MAX_FUNCTION_GROUPS {
                            count as int
                        } else {
                            MAX_FUNCTION_GROUPS as int
                        },
                        io,
                    )
                },
            },
        },
    }
}

/// Ask every reported codec from number `codecs.len()` on.  One that does not
/// answer is counted; any other error ends it.
pub open spec fn codecs_run(
    registers: Mmio,
    rings: CommandRings,
    mask: u16,
    codecs: Seq<Option<CodecModel>>,
    found: u8,
    failed: u8,
    io: Io,
) -> (Result<(Seq<Option<CodecModel>>, u8, u8), HdaError>, CommandRings, Io)
    decreases DISCOVERABLE_CODECS - codecs.len(),
{
    if codecs.len() >= DISCOVERABLE_CODECS {
        (Ok((codecs, found, failed)), rings, io)
    } else if mask & (1u16 << (codecs.len() as u16)) == 0 {
        codecs_run(registers, rings, mask, codecs.push(None), found, failed, io)
    } else {
        match codec_run(registers, rings, codecs.len() as u8, io) {
            (Ok(info), rings, io) => codecs_run(
                registers,
                rings,
                mask,
                codecs.push(Some(info)),
                (found + 1) as u8,
                failed,
                io,
            ),
            (Err(error), rings, io) => if error == HdaError::Ring(RingError::ResponseTimeout) {
                codecs_run(
                    registers,
                    rings,
                    mask,
                    codecs.push(None),
                    found,
                    (failed + 1) as u8,
                    io,
                )
            } else {
                (Err(error), rings, io)
            },
        }
    }
}

proof fn lemma_verb_of(verb: Verb)
    ensures
        verb_of(verb.sent()) == verb,
{
    let other = verb_of(verb.sent());
    assert(verb.sent() == verb.sent());
    codec::lemma_verb_is_its_word(other, verb);
}

fn parameter<M: Machine>(
    machine: &mut M,
    registers: Mmio,
    rings: &mut CommandRings,
    codec: u8,
    node: u8,
    number: u8,
) -> (result: Result<u32, HdaError>)
    ensures
        (result, *final(rings), final(machine).io()) == parameter_run(
            registers,
            *old(rings),
            codec,
            node,
            number,
            old(machine).io(),
        ),
{
    let verb: Verb = match Verb::get_parameter(codec, node, number) {
        Some(verb) => verb,
        None => {
            return Err(HdaError::InvalidVerb);
        },
    };
    proof {
        lemma_verb_of(verb);
    }
    match rings.command(machine, registers, verb) {
        Ok(response) => Ok(response.data),
        Err(error) => Err(HdaError::from(error)),
    }
}

fn discover_codec<M: Machine>(
    machine: &mut M,
    registers: Mmio,
    rings: &mut CommandRings,
    address: u8,
) -> (result: Result<CodecInfo, HdaError>)
    ensures
        ({
            let (expected, after, io) = codec_run(
                registers,
                *old(rings),
                address,
                old(machine).io(),
            );
            &&& *final(rings) == after
            &&& final(machine).io() == io
            &&& match (result, expected) {
                (Ok(info), Ok(model)) => info@ == model,
                (Err(a), Err(b)) => a == b,
                _ => false,
            }
        }),
{
    let vendor_device_id: u32 = match parameter(
        machine,
        registers,
        rings,
        address,
        0,
        PARAM_VENDOR_ID,
    ) {
        Ok(value) => value,
        Err(error) => {
            return Err(error);
        },
    };
    let revision_id: u32 = match parameter(
        machine,
        registers,
        rings,
        address,
        0,
        PARAM_REVISION_ID,
    ) {
        Ok(value) => value,
        Err(error) => {
            return Err(error);
        },
    };
    let nodes: u32 = match parameter(
        machine,
        registers,
        rings,
        address,
        0,
        PARAM_SUBORDINATE_NODE_COUNT,
    ) {
        Ok(value) => value,
        Err(error) => {
            return Err(error);
        },
    };
    let (start_node, advertised_count): (u8, u8) = subordinate_nodes(nodes);
    let mut info: CodecInfo = CodecInfo::new(address, vendor_device_id, revision_id);
    if advertised_count as usize > MAX_FUNCTION_GROUPS {
        info.groups_truncated = true;
    }
    let count: u8 = if (advertised_count as usize) < MAX_FUNCTION_GROUPS {
        advertised_count
    } else {
        MAX_FUNCTION_GROUPS as u8
    };
    let ghost first = info@;
    let ghost rings_then = *rings;
    let ghost start = machine.io();
    let mut offset: u8 = 0;
    while offset < count
        invariant
            offset <= count,
            info@.address == address,
            codec_run(registers, *old(rings), address, old(machine).io()) == groups_run(
                registers,
                rings_then,
                first,
                start_node,
                0,
                count as int,
                start,
            ),
            groups_run(registers, rings_then, first, start_node, 0, count as int, start)
                == groups_run(
                registers,
                *rings,
                info@,
                start_node,
                offset as int,
                count as int,
                machine.io(),
            ),
        decreases count - offset,
    {
        let node: u8 = match start_node.checked_add(offset) {
            Some(node) => node,
            None => {
                info.groups_truncated = true;
                return Ok(info);
            },
        };
        match parameter(machine, registers, rings, address, node, PARAM_FUNCTION_GROUP_TYPE) {
            Ok(response) => info.push_group(function_group(node, response)),
            Err(error) => {
                return Err(error);
            },
        }
        offset = offset + 1;
    }
    Ok(info)
}

fn discover_codecs<M: Machine>(
    machine: &mut M,
    registers: Mmio,
    rings: &mut CommandRings,
    mask: u16,
) -> (result: Result<(Vec<Option<CodecInfo>>, u8, u8), HdaError>)
    ensures
        ({
            let (expected, after, io) = codecs_run(
                registers,
                *old(rings),
                mask,
                Seq::empty(),
                0,
                0,
                old(machine).io(),
            );
            &&& *final(rings) == after
            &&& final(machine).io() == io
            &&& match (result, expected) {
                (Ok((list, a, b)), Ok((models, c, d))) => codec_models(list@) == models && a == c
                    && b == d && list@.len() == DISCOVERABLE_CODECS,
                (Err(a), Err(b)) => a == b,
                _ => false,
            }
        }),
{
    let mut codecs: Vec<Option<CodecInfo>> = Vec::new();
    let mut found: u8 = 0;
    let mut failed: u8 = 0;
    assert(codec_models(codecs@) == Seq::<Option<CodecModel>>::empty());
    while codecs.len() < DISCOVERABLE_CODECS
        invariant
            codecs@.len() <= DISCOVERABLE_CODECS,
            found <= codecs@.len(),
            failed <= codecs@.len(),
            codecs_run(registers, *old(rings), mask, Seq::empty(), 0, 0, old(machine).io())
                == codecs_run(
                registers,
                *rings,
                mask,
                codec_models(codecs@),
                found,
                failed,
                machine.io(),
            ),
        decreases DISCOVERABLE_CODECS - codecs@.len(),
    {
        let address: u8 = codecs.len() as u8;
        let ghost before = codecs@;
        if mask & (1u16 << (address as u16)) == 0 {
            codecs.push(None);
            assert(codec_models(codecs@) == codec_models(before).push(None));
        } else {
            match discover_codec(machine, registers, rings, address) {
                Ok(info) => {
                    let ghost model = info@;
                    codecs.push(Some(info));
                    assert(codec_models(codecs@) == codec_models(before).push(Some(model)));
                    found = found + 1;
                },
                Err(HdaError::Ring(RingError::ResponseTimeout)) => {
                    codecs.push(None);
                    assert(codec_models(codecs@) == codec_models(before).push(None));
                    failed = failed + 1;
                },
                Err(error) => {
                    return Err(error);
                },
            }
        }
    }
    Ok((codecs, found, failed))
}

/// Whether a device is a high definition audio controller.
pub open spec fn is_hda(device: PciDevice) -> bool {
    &&& device.base_class == PCI_CLASS_MULTIMEDIA
    &&& device.subclass == PCI_SUBCLASS_HDA
    &&& device.prog_if == PCI_PROG_IF_HDA
}

/// Whether a device is a high definition audio controller.
pub fn is_hda_controller(device: &PciDevice) -> (hda: bool)
    ensures
        hda == is_hda(*device),
{
    device.base_class == PCI_CLASS_MULTIMEDIA && device.subclass == PCI_SUBCLASS_HDA
        && device.prog_if == PCI_PROG_IF_HDA
}

/// Wake a function up: where it has a power register that says it sleeps, it
/// is told to run and given ten milliseconds.  Where it still sleeps then, the
/// register is put back.
pub open spec fn wake_run(address: PciAddress, io: Io) -> (Result<(), HdaError>, Io) {
    let (list, io) = list_run(address, io);
    match list {
        Err(_) => (Err(HdaError::CapabilityListMalformed), io),
        Ok(entries) => match first_with_id(entries, PCI_CAP_ID_POWER_MANAGEMENT, 0) {
            None => (Ok(()), io),
            Some(power) => if power.offset + 4 > 0xfe {
                (Err(HdaError::CapabilityListMalformed), io)
            } else {
                let offset = (power.offset + 4) as u8;
                let (original, io) = address.read16_run(offset, io);
                if original & 0x03 == 0 {
                    (Ok(()), io)
                } else {
                    let io = address.write16_run(offset, original & !0x8003, io);
                    let io = delay_run(10, io);
                    let (state, io) = address.read16_run(offset, io);
                    if state & 0x03 != 0 {
                        (
                            Err(HdaError::PowerStateTimeout),
                            address.write16_run(offset, original & !0x8000, io),
                        )
                    } else {
                        (Ok(()), io)
                    }
                }
            },
        },
    }
}

proof fn lemma_first_is_member(list: Seq<PciCapability>, id: u8, from: int)
    requires
        0 <= from,
        first_with_id(list, id, from) is Some,
    ensures
        exists|i: int|
            0 <= i < list.len() && #[trigger] list[i] == first_with_id(list, id, from)->0,
    decreases list.len() - from,
{
    if list[from].id != id {
        lemma_first_is_member(list, id, from + 1);
    } else {
        assert(list[from] == first_with_id(list, id, from)->0);
    }
}

proof fn lemma_listed_places(address: PciAddress, io: Io)
    requires
        list_run(address, io).0 is Ok,
    ensures
        well_placed(list_run(address, io).0->Ok_0),
{
    let (status, io1) = address.status_run(io);
    if status & capability::STATUS_CAPABILITIES_LIST != 0 {
        let (header, io2) = address.header_byte_run(io1);
        let register = if PciHeaderType::of_byte(header) == PciHeaderType::CardbusBridge {
            capability::CARDBUS_CAP_POINTER
        } else {
            capability::TYPE0_CAP_POINTER
        };
        let (pointer, io3) = address.read8_run(register, io2);
        lemma_walk_is_bounded(address, pointer, Seq::empty(), io3);
    }
}

proof fn lemma_next_dword(offset: u8)
    by (bit_vector)
    requires
        offset & 3 == 0,
        offset <= 0xfau8,
    ensures
        ((offset + 4) as u8) & 3 == 0,
{
}

fn enter_pci_d0<M: Machine>(machine: &mut M, address: PciAddress) -> (result: Result<(), HdaError>)
    ensures
        (result, final(machine).io()) == wake_run(address, old(machine).io()),
{
    let capabilities: CapabilityList = match capability::walk(machine, address) {
        Ok(list) => list,
        Err(_) => {
            return Err(HdaError::CapabilityListMalformed);
        },
    };
    let power: PciCapability = match capabilities.find(PCI_CAP_ID_POWER_MANAGEMENT) {
        Some(power) => power,
        None => {
            return Ok(());
        },
    };
    if power.offset > 0xfa {
        return Err(HdaError::CapabilityListMalformed);
    }
    proof {
        lemma_listed_places(address, old(machine).io());
        lemma_first_is_member(capabilities@, PCI_CAP_ID_POWER_MANAGEMENT, 0);
        assert(is_valid_pointer(power.offset));
        lemma_next_dword(power.offset);
    }
    let pmcsr_offset: u8 = power.offset + 4;
    let original: u16 = address.read16(machine, pmcsr_offset);
    if original & 0x03 == 0 {
        return Ok(());
    }
    address.write16(machine, pmcsr_offset, original & !0x8003);
    delay(machine, 10);
    if address.read16(machine, pmcsr_offset) & 0x03 != 0 {
        address.write16(machine, pmcsr_offset, original & !0x8000);
        return Err(HdaError::PowerStateTimeout);
    }
    Ok(())
}

/// The command word as it was, kept until the function is online.
#[derive(Clone, Copy, Debug, Eq, PartialEq, Structural)]
pub struct PciEnableGuard {
    pub address: PciAddress,
    pub original_command: u16,
}

proof fn lemma_enable_bits()
    by (bit_vector)
    ensures
        (0x0002u16 | 0x0004u16) & 0x07FFu16 == 0x0002u16 | 0x0004u16,
{
}

impl PciEnableGuard {
    pub open spec fn enable_run(address: PciAddress, io: Io) -> (PciEnableGuard, Io) {
        let (original_command, io) = address.command_run(io);
        let io = address.write_command_run(
            (original_command & PciCommand::ALL) | (PciCommand::MEMORY_SPACE
                | PciCommand::BUS_MASTER),
            io,
        );
        (PciEnableGuard { address, original_command }, io)
    }

    pub open spec fn restore_run(self, io: Io) -> Io {
        self.address.write_command_run(self.original_command, io)
    }

    /// Let the function decode memory and fetch by itself.
    pub fn enable<M: Machine>(machine: &mut M, address: PciAddress) -> (guard: Self)
        ensures
            (guard, final(machine).io()) == Self::enable_run(address, old(machine).io()),
    {
        let original_command: u16 = address.read_command(machine);
        let mut enabled = PciCommand::from_bits_truncate(original_command);
        enabled.insert(PciCommand::MEMORY_SPACE | PciCommand::BUS_MASTER);
        proof {
            lemma_enable_bits();
        }
        address.write_command(machine, enabled.bits());
        PciEnableGuard { address, original_command }
    }

    /// Put the command word back.
    pub fn restore<M: Machine>(self, machine: &mut M)
        ensures
            final(machine).io() == self.restore_run(old(machine).io()),
    {
        self.address.write_command(machine, self.original_command);
    }
}

/// Bring the registers behind an enabled function up.
pub open spec fn bring_up_run(pci_address: PciAddress, physical: u64, io: Io) -> (Result<
    HdaModel,
    HdaError,
>, Io) {
    let (base, io) = io.ask(Query::PhysToVirt(physical));
    let registers = Mmio { base };
    let (version, io) = registers.version_run(io);
    if version.major == 0 {
        (Err(HdaError::UnsupportedControllerVersion), io)
    } else {
        let (capabilities, io) = registers.capabilities_run(io);
        if capabilities.streams() > MAX_STREAMS {
            (Err(HdaError::InvalidStreamCount), io)
        } else {
            match reset_run(registers, capabilities.streams(), io) {
                (Err(error), io) => (Err(error), io),
                (Ok(_), io) => {
                    let (reported, io) = io.r16(registers.register(STATESTS));
                    let mask = reported & 0x7fff;
                    let io = io.w16(registers.register(STATESTS), mask);
                    match CommandRings::initialize_run(
                        registers,
                        capabilities.supports_64bit_dma,
                        io,
                    ) {
                        (Err(error), io) => (Err(HdaError::Ring(error)), io),
                        (Ok(rings), io) => match codecs_run(
                            registers,
                            rings,
                            mask,
                            Seq::empty(),
                            0,
                            0,
                            io,
                        ) {
                            (Err(error), rings, io) => (
                                Err(error),
                                abandon_run(rings.registers, rings.dma, io),
                            ),
                            (Ok((codecs, found, failed)), rings, io) => (
                                Ok(
                                    HdaModel {
                                        pci_address,
                                        registers,
                                        phase: ControllerPhase::Online,
                                        version,
                                        capabilities,
                                        reported_codec_mask: mask,
                                        codecs,
                                        codec_count: found,
                                        codec_probe_failures: failed,
                                        rings,
                                    },
                                ),
                                io,
                            ),
                        },
                    }
                },
            }
        }
    }
}

/// Bring a controller up.
pub open spec fn initialize_run(device: PciDevice, io: Io) -> (Result<HdaModel, HdaError>, Io) {
    if !is_hda(device) {
        (Err(HdaError::NotHda), io)
    } else {
        match window_of(device) {
            Err(error) => (Err(error), io),
            Ok(bar) => match wake_run(device.address, io) {
                (Err(error), io) => (Err(error), io),
                (Ok(_), io) => {
                    let (guard, io) = PciEnableGuard::enable_run(device.address, io);
                    match bring_up_run(device.address, bar.physical, io) {
                        (Err(error), io) => (Err(error), guard.restore_run(io)),
                        (Ok(model), io) => (Ok(model), io),
                    }
                },
            },
        }
    }
}

impl HdaController {
    fn bring_up<M: Machine>(
        machine: &mut M,
        pci_address: PciAddress,
        physical: u64,
        state: &mut BringUpState,
    ) -> (result: Result<Self, HdaError>)
        requires
            old(state).phase == ControllerPhase::PciEnabled,
        ensures
            match (result, bring_up_run(pci_address, physical, old(machine).io()).0) {
                (Ok(controller), Ok(model)) => controller@ == model && controller.wf(),
                (Err(a), Err(b)) => a == b,
                _ => false,
            },
            final(machine).io() == bring_up_run(pci_address, physical, old(machine).io()).1,
    {
        let registers = Mmio::new(machine.ask(Query::PhysToVirt(physical)));
        let version: Version = registers.version(machine);
        if version.major == 0 {
            return Err(HdaError::UnsupportedControllerVersion);
        }
        let capabilities: Capabilities = registers.capabilities(machine);
        if capabilities.total_streams() > MAX_STREAMS {
            return Err(HdaError::InvalidStreamCount);
        }
        match reset_controller(machine, registers, capabilities) {
            Ok(_) => {},
            Err(error) => {
                return Err(error);
            },
        }
        match state.advance(ControllerPhase::ResetComplete) {
            Ok(_) => {},
            Err(error) => {
                return Err(error);
            },
        }
        let reported_codec_mask: u16 = registers.read16(machine, STATESTS) & 0x7fff;
        registers.write16(machine, STATESTS, reported_codec_mask);
        let mut rings: CommandRings = match CommandRings::initialize(
            machine,
            registers,
            capabilities.supports_64bit_dma,
        ) {
            Ok(rings) => rings,
            Err(error) => {
                return Err(HdaError::from(error));
            },
        };
        match state.advance(ControllerPhase::RingsRunning) {
            Ok(_) => {},
            Err(error) => {
                return Err(error);
            },
        }
        let (codecs, codec_count, codec_probe_failures): (Vec<Option<CodecInfo>>, u8, u8) =
            match discover_codecs(machine, registers, &mut rings, reported_codec_mask) {
            Ok(found) => found,
            Err(error) => {
                rings.release(machine);
                return Err(error);
            },
        };
        match state.advance(ControllerPhase::CodecsEnumerated) {
            Ok(_) => {},
            Err(error) => {
                return Err(error);
            },
        }
        match state.advance(ControllerPhase::Online) {
            Ok(_) => {},
            Err(error) => {
                return Err(error);
            },
        }
        Ok(
            HdaController {
                pci_address,
                registers,
                phase: state.phase,
                version,
                capabilities,
                reported_codec_mask,
                codecs,
                codec_count,
                codec_probe_failures,
                rings,
            },
        )
    }

    /// Whether there is a place for every codec address.
    pub open spec fn wf(self) -> bool {
        self.codecs@.len() == DISCOVERABLE_CODECS
    }

    /// Bring a controller up.
    pub fn initialize<M: Machine>(machine: &mut M, device: &PciDevice) -> (result: Result<
        Self,
        HdaError,
    >)
        ensures
            match (result, initialize_run(*device, old(machine).io()).0) {
                (Ok(controller), Ok(model)) => controller@ == model && controller.wf(),
                (Err(a), Err(b)) => a == b,
                _ => false,
            },
            final(machine).io() == initialize_run(*device, old(machine).io()).1,
    {
        if !is_hda_controller(device) {
            return Err(HdaError::NotHda);
        }
        let bar: MmioBar = match validate_bar(device) {
            Ok(bar) => bar,
            Err(error) => {
                return Err(error);
            },
        };
        let mut state = BringUpState::new();
        match enter_pci_d0(machine, device.address) {
            Ok(_) => {},
            Err(error) => {
                return Err(error);
            },
        }
        let guard: PciEnableGuard = PciEnableGuard::enable(machine, device.address);
        match state.advance(ControllerPhase::PciEnabled) {
            Ok(_) => {},
            Err(error) => {
                guard.restore(machine);
                return Err(error);
            },
        }
        match Self::bring_up(machine, device.address, bar.physical, &mut state) {
            Ok(controller) => Ok(controller),
            Err(error) => {
                guard.restore(machine);
                Err(error)
            },
        }
    }

    pub fn info(&self) -> (info: ControllerInfo)
        ensures
            info == (ControllerInfo {
                pci_address: self.pci_address,
                phase: self.phase,
                version: self.version,
                capabilities: self.capabilities,
                reported_codec_mask: self.reported_codec_mask,
                discovered_codecs: self.codec_count,
                codec_probe_failures: self.codec_probe_failures,
                corb_size: self.rings.corb_size,
                rirb_size: self.rings.rirb_size,
                unsolicited_responses_dropped: self.rings.unsolicited_dropped,
            }),
    {
        ControllerInfo {
            pci_address: self.pci_address,
            phase: self.phase,
            version: self.version,
            capabilities: self.capabilities,
            reported_codec_mask: self.reported_codec_mask,
            discovered_codecs: self.codec_count,
            codec_probe_failures: self.codec_probe_failures,
            corb_size: self.rings.corb_size(),
            rirb_size: self.rings.rirb_size(),
            unsolicited_responses_dropped: self.rings.unsolicited_dropped(),
        }
    }

    /// Whether a codec was found at an address.
    pub open spec fn has_codec(self, address: u8) -> bool {
        address < self.codecs@.len() && self.codecs@[address as int] is Some
    }

    /// What the codec at an address said of itself.
    pub fn codec(&self, address: u8) -> (info: Option<&CodecInfo>)
        ensures
            info is Some <==> self.has_codec(address),
            info is Some ==> self.codecs@[address as int] == Some(*info->0),
    {
        if (address as usize) < self.codecs.len() {
            self.codecs[address as usize].as_ref()
        } else {
            None
        }
    }

    /// Send a command to a codec.
    pub open spec fn command_run(self, verb: Verb, io: Io) -> (Result<
        Response,
        HdaError,
    >, CommandRings, Io) {
        let (result, rings, io) = self.rings.command_run(self.registers, verb, io);
        (
            match result {
                Ok(response) => Ok(response),
                Err(error) => Err(HdaError::Ring(error)),
            },
            rings,
            io,
        )
    }

    /// Send a command to a codec.
    pub fn command<M: Machine>(&mut self, machine: &mut M, verb: Verb) -> (result: Result<
        Response,
        HdaError,
    >)
        ensures
            ({
                let (expected, rings, io) = old(self).command_run(verb, old(machine).io());
                &&& result == expected
                &&& final(self)@ == (HdaModel { rings, ..old(self)@ })
                &&& final(machine).io() == io
            }),
    {
        match self.rings.command(machine, self.registers, verb) {
            Ok(response) => Ok(response),
            Err(error) => Err(HdaError::from(error)),
        }
    }

    /// The stream behind an output.
    pub open spec fn output(self, ordinal: int) -> Option<StreamDescriptor> {
        match self.capabilities.output_index(ordinal) {
            None => None,
            Some(index) => if index < MAX_STREAMS {
                Some(
                    StreamDescriptor {
                        registers: self.registers.stream_registers(index),
                        supports_64bit_dma: self.capabilities.supports_64bit_dma,
                    },
                )
            } else {
                None
            },
        }
    }

    /// The stream behind an output.
    pub fn output_stream(&self, ordinal: usize) -> (stream: Option<StreamDescriptor>)
        ensures
            stream == self.output(ordinal as int),
    {
        match self.capabilities.output_stream_index(ordinal) {
            Some(index) => match self.registers.stream(index) {
                Some(registers) => Some(
                    StreamDescriptor::new(registers, self.capabilities.supports_64bit_dma),
                ),
                None => None,
            },
            None => None,
        }
    }
}

/// A bring-up that fails behind the point where the function was enabled ends
/// with the command word put back.
pub proof fn lemma_failure_restores_command(device: PciDevice, io: Io)
    requires
        is_hda(device),
        window_of(device) is Ok,
        wake_run(device.address, io).0 is Ok,
        initialize_run(device, io).0 is Err,
    ensures
        ({
            let woken = wake_run(device.address, io).1;
            exists|before: Io| #[trigger]
                device.address.write_command_run(device.address.command_run(woken).0, before)
                    == initialize_run(device, io).1
        }),
{
    let woken = wake_run(device.address, io).1;
    let (guard, enabled) = PciEnableGuard::enable_run(device.address, woken);
    let failed = bring_up_run(device.address, window_of(device)->Ok_0.physical, enabled).1;
    assert(device.address.write_command_run(device.address.command_run(woken).0, failed)
        == initialize_run(device, io).1);
}

/// A controller that came up is online.
pub proof fn lemma_success_is_online(device: PciDevice, io: Io)
    requires
        initialize_run(device, io).0 is Ok,
    ensures
        initialize_run(device, io).0->Ok_0.phase == ControllerPhase::Online,
        initialize_run(device, io).0->Ok_0.pci_address == device.address,
        initialize_run(device, io).0->Ok_0.capabilities.streams() <= MAX_STREAMS,
{
}

/// The controllers that are online.
#[derive(Debug)]
pub struct HdaControllers {
    pub controllers: Vec<HdaController>,
}

/// Whether a controller at an address is online.
pub open spec fn is_online(controllers: Seq<HdaController>, address: PciAddress) -> bool {
    exists|i: int| 0 <= i < controllers.len() && (#[trigger] controllers[i]).pci_address == address
}

/// What a failed bring-up is reported as.
pub open spec fn driver_error(error: HdaError) -> PciDriverError {
    match error {
        HdaError::MissingBar | HdaError::IoBar | HdaError::UnsupportedBar | HdaError::MisalignedBar
        | HdaError::BarWindowOutsidePhysicalAddressSpace => PciDriverError::BarUnreadable,
        _ => PciDriverError::ProbeFailed("HDA controller setup failed"),
    }
}

impl HdaControllers {
    pub fn new() -> (online: Self)
        ensures
            online.controllers@ == Seq::<HdaController>::empty(),
    {
        HdaControllers { controllers: Vec::new() }
    }

    fn online(&self, address: PciAddress) -> (online: bool)
        ensures
            online == is_online(self.controllers@, address),
    {
        let mut i: usize = 0;
        while i < self.controllers.len()
            invariant
                i <= self.controllers@.len(),
                forall|j: int|
                    0 <= j < i ==> (#[trigger] self.controllers@[j]).pci_address != address,
            decreases self.controllers@.len() - i,
        {
            if self.controllers[i].pci_address == address {
                assert(self.controllers@[i as int].pci_address == address);
                return true;
            }
            i = i + 1;
        }
        false
    }
}

/// What binding a device does: nothing where its controller is online, else
/// the controller is brought up and kept where that succeeded.
pub open spec fn bound(
    before: Seq<HdaController>,
    after: Seq<HdaController>,
    device: PciDevice,
    io: Io,
    result: Result<(), PciDriverError>,
    later: Io,
) -> bool {
    if is_online(before, device.address) {
        result is Ok && after == before && later == io
    } else {
        let (outcome, reached) = initialize_run(device, io);
        &&& later == reached
        &&& match outcome {
            Ok(model) => result is Ok && after.len() == before.len() + 1 && after.drop_last()
                == before && after.last()@ == model,
            Err(error) => result == Err::<(), _>(driver_error(error)) && after == before,
        }
    }
}

impl HdaControllers {
    /// Bring a controller up, once for each address.
    pub fn bring_up<M: Machine>(&mut self, machine: &mut M, device: &PciDevice) -> (result: Result<
        (),
        PciDriverError,
    >)
        ensures
            bound(
                old(self).controllers@,
                final(self).controllers@,
                *device,
                old(machine).io(),
                result,
                final(machine).io(),
            ),
    {
        if self.online(device.address) {
            return Ok(());
        }
        match HdaController::initialize(machine, device) {
            Ok(controller) => {
                self.controllers.push(controller);
                assert(self.controllers@.drop_last() == old(self).controllers@);
                Ok(())
            },
            Err(error) => match error {
                HdaError::MissingBar
                | HdaError::IoBar
                | HdaError::UnsupportedBar
                | HdaError::MisalignedBar
                | HdaError::BarWindowOutsidePhysicalAddressSpace => Err(
                    PciDriverError::BarUnreadable,
                ),
                _ => Err(PciDriverError::ProbeFailed("HDA controller setup failed")),
            },
        }
    }
}

/// The driver of high definition audio controllers.
#[derive(Clone, Copy, Debug)]
pub struct HdaPciDriver {}

impl PciDriver for HdaPciDriver {
    open spec fn claims(&self, device: PciDevice) -> bool {
        is_hda(device)
    }

    open spec fn brings_up(
        &self,
        device: PciDevice,
        before: Devices,
        io: Io,
        result: Result<(), PciDriverError>,
        after: Devices,
        later: Io,
    ) -> bool {
        &&& bound(before.audio.controllers@, after.audio.controllers@, device, io, result, later)
        &&& after == (Devices { audio: after.audio, ..before })
    }

    fn name(&self) -> (name: &'static str)
        ensures
            name@ == "hda"@,
    {
        "hda"
    }

    fn matches(&self, device: &PciDevice) -> (claimed: bool) {
        is_hda_controller(device)
    }

    fn probe<M: Machine>(&self, machine: &mut M, devices: &mut Devices, device: &PciDevice) -> (result:
        Result<(), PciDriverError>) {
        devices.audio.bring_up(machine, device)
    }
}

/// Register the driver.
pub fn register_pci_driver(registry: &mut DriverRegistry<AnyDriver>)
    requires
        old(registry).wf(),
    ensures
        final(registry).wf(),
        final(registry).drivers@ == enrolled(
            old(registry).drivers@,
            KEY_HDA,
            AnyDriver::Hda(HdaPciDriver {}),
        ),
{
    register_driver(registry, KEY_HDA, AnyDriver::Hda(HdaPciDriver {}));
}

/// How many controllers are online.
pub fn controller_count(online: &HdaControllers) -> (count: usize)
    ensures
        count == online.controllers@.len(),
{
    online.controllers.len()
}

/// What is known of a controller.
pub fn controller_info(online: &HdaControllers, index: usize) -> (info: Option<ControllerInfo>)
    ensures
        info is Some <==> index < online.controllers@.len(),
        info is Some ==> {
            let c = online.controllers@[index as int];
            info->0 == (ControllerInfo {
                pci_address: c.pci_address,
                phase: c.phase,
                version: c.version,
                capabilities: c.capabilities,
                reported_codec_mask: c.reported_codec_mask,
                discovered_codecs: c.codec_count,
                codec_probe_failures: c.codec_probe_failures,
                corb_size: c.rings.corb_size,
                rirb_size: c.rings.rirb_size,
                unsolicited_responses_dropped: c.rings.unsolicited_dropped,
            })
        },
{
    if index < online.controllers.len() {
        Some(online.controllers[index].info())
    } else {
        None
    }
}

/// What a codec of a controller said of itself.
pub fn codec_info(online: &HdaControllers, controller: usize, address: u8) -> (info: Option<&CodecInfo>)
    ensures
        info is Some <==> controller < online.controllers@.len()
            && online.controllers@[controller as int].has_codec(address),
        info is Some ==> online.controllers@[controller as int].codecs@[address as int] == Some(
            *info->0,
        ),
{
    if controller < online.controllers.len() {
        online.controllers[controller].codec(address)
    } else {
        None
    }
}

/// Send a command to a codec of a controller.
pub fn command<M: Machine>(
    online: &mut HdaControllers,
    machine: &mut M,
    controller: usize,
    verb: Verb,
) -> (result: Result<Response, HdaError>)
    ensures
        controller >= old(online).controllers@.len() ==> result == Err::<Response, HdaError>(
            HdaError::NotHda,
        ) && final(online).controllers@ == old(online).controllers@ && final(machine).io()
            == old(machine).io(),
        controller < old(online).controllers@.len() ==> {
            let (expected, rings, io) = old(online).controllers@[controller as int].command_run(
                verb,
                old(machine).io(),
            );
            &&& result == expected
            &&& final(machine).io() == io
            &&& final(online).controllers@.len() == old(online).controllers@.len()
            &&& forall|i: int|
                0 <= i < old(online).controllers@.len() ==> (#[trigger] final(
                    online).controllers@[i])@ == (if i == controller {
                    HdaModel { rings, ..old(online).controllers@[i]@ }
                } else {
                    old(online).controllers@[i]@
                })
        },
{
    if controller < online.controllers.len() {
        online.controllers[controller].command(machine, verb)
    } else {
        Err(HdaError::NotHda)
    }
}

/// The stream behind an output of a controller.
pub fn with_output_stream(online: &HdaControllers, controller: usize, ordinal: usize) -> (stream: Option<
    StreamDescriptor,
>)
    ensures
        stream == (if controller < online.controllers@.len() {
            online.controllers@[controller as int].output(ordinal as int)
        } else {
            None
        }),
{
    if controller < online.controllers.len() {
        online.controllers[controller].output_stream(ordinal)
    } else {
        None
    }
}

} // verus!
