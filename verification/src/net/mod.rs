//! Network adapters, their interrupts and the work they hand to the stack.
use vstd::prelude::*;
use crate::driver::{AnyDriver, KEY_E1000, KEY_RTL8139};
use crate::machine::{overlaid, Io, Machine, Order, Query};
use crate::pci::config::PciAddress;
use crate::pci::enumerate::{enrolled, DriverRegistry, PciDevice};
use crate::pci::routing::{resolve_intx, resolved, FirmwareRoute, ParentBridge, RoutingDatabase};
use crate::pci::PciCommand;

pub mod dma;
pub mod e1000;
pub mod poll;
pub mod rtl8139;
pub mod wire;

pub use self::poll::poll_stack;

verus! {

/// Bytes of the largest frame, without its checksum.
pub const MAX_FRAME_LEN: usize = 1514;
/// Bytes of the smallest frame, without its checksum.
pub const MIN_FRAME_LEN: usize = 60;
pub const MTU: usize = 1500;
/// Adapters with an interrupt at most.
pub const MAX_IRQ_BINDINGS: usize = 16;
/// Adapters whose work can be noted.
pub const MAX_PENDING_ADAPTERS: usize = 64;
/// The vector that all adapters share.
pub const NIC_VECTOR: u8 = 0x40;
/// Vectors that the processor keeps for exceptions.
pub const EXCEPTION_VECTORS: usize = 32;
/// Lines of the keyboard and of the mouse.
pub const KEYBOARD_LINE: u8 = 1;
pub const MOUSE_LINE: u8 = 12;

/// The state of a task that is to be woken.
pub const WAKE_WOKEN: u64 = 1;
pub const WAKE_CONTENDED: u64 = 2;

#[derive(Clone, Copy, Debug, PartialEq, Eq, Structural)]
pub enum DriverError {
    UnsupportedBar,
    DmaUnavailable,
    DmaAddressTooHigh,
    ResetTimeout,
    InvalidMac,
    DeviceFault,
    FrameTooLarge,
    BufferTooSmall,
    WouldBlock,
    NoPacket,
    InvalidAdapter,
}

/// What a failed allocation is reported as.
pub open spec fn dma_fault(error: dma::DmaError) -> DriverError {
    if error == dma::DmaError::AddressTooHigh {
        DriverError::DmaAddressTooHigh
    } else {
        DriverError::DmaUnavailable
    }
}

impl DriverError {
    /// What a failed allocation is reported as.
    pub fn from_dma(error: dma::DmaError) -> (fault: Self)
        ensures
            fault == dma_fault(error),
    {
        match error {
            dma::DmaError::AddressTooHigh => DriverError::DmaAddressTooHigh,
            _ => DriverError::DmaUnavailable,
        }
    }
}

/// A hardware address.
#[derive(Clone, Copy, Debug, PartialEq, Eq)]
pub struct MacAddress {
    pub bytes: [u8; 6],
}

/// Whether an address can belong to one adapter: not all zeros, and not one
/// for a group, as the one for everybody is.
pub open spec fn is_usable_mac(bytes: Seq<u8>) -> bool {
    &&& exists|i: int| 0 <= i < 6 && #[trigger] bytes[i] != 0
    &&& exists|i: int| 0 <= i < 6 && #[trigger] bytes[i] != 0xff
    &&& bytes[0] & 1 == 0
}

impl MacAddress {
    pub fn is_zero(&self) -> (zero: bool)
        ensures
            zero == (forall|i: int| 0 <= i < 6 ==> #[trigger] self.bytes@[i] == 0),
    {
        let mut i: usize = 0;
        while i < 6
            invariant
                i <= 6,
                forall|j: int| 0 <= j < i ==> #[trigger] self.bytes@[j] == 0,
            decreases 6 - i,
        {
            if self.bytes[i] != 0 {
                assert(self.bytes@[i as int] != 0);
                return false;
            }
            i = i + 1;
        }
        true
    }

    pub fn is_broadcast(&self) -> (broadcast: bool)
        ensures
            broadcast == (forall|i: int| 0 <= i < 6 ==> #[trigger] self.bytes@[i] == 0xff),
    {
        let mut i: usize = 0;
        while i < 6
            invariant
                i <= 6,
                forall|j: int| 0 <= j < i ==> #[trigger] self.bytes@[j] == 0xff,
            decreases 6 - i,
        {
            if self.bytes[i] != 0xff {
                assert(self.bytes@[i as int] != 0xff);
                return false;
            }
            i = i + 1;
        }
        true
    }

    pub fn is_multicast(&self) -> (group: bool)
        ensures
            group == (self.bytes@[0] & 1 != 0),
    {
        self.bytes[0] & 1 != 0
    }

    /// Whether the address can belong to one adapter.
    pub fn is_usable(&self) -> (usable: bool)
        ensures
            usable == is_usable_mac(self.bytes@),
    {
        !(self.is_zero() || self.is_broadcast() || self.is_multicast())
    }
}

/// A frame filled up with zeros to the smallest size.
pub open spec fn frame_padded(frame: Seq<u8>) -> Seq<u8> {
    if frame.len() < MIN_FRAME_LEN {
        Seq::new(
            MIN_FRAME_LEN as nat,
            |i: int|
                if i < frame.len() {
                    frame[i]
                } else {
                    0u8
                },
        )
    } else {
        frame
    }
}

/// A frame filled up with zeros to the smallest size.
pub fn pad_frame(frame: &[u8]) -> (padded: Vec<u8>)
    ensures
        padded@ == frame_padded(frame@),
{
    let mut padded: Vec<u8> = Vec::new();
    let mut i: usize = 0;
    while i < frame.len()
        invariant
            i <= frame@.len(),
            padded@ == frame@.take(i as int),
        decreases frame@.len() - i,
    {
        padded.push(frame[i]);
        assert(frame@.take(i + 1) == frame@.take(i as int).push(frame@[i as int]));
        i = i + 1;
    }
    assert(frame@.take(i as int) == frame@);
    while padded.len() < MIN_FRAME_LEN
        invariant
            frame@.len() <= padded@.len(),
            padded@.len() <= MIN_FRAME_LEN || padded@.len() == frame@.len(),
            forall|j: int| 0 <= j < frame@.len() ==> #[trigger] padded@[j] == frame@[j],
            forall|j: int| frame@.len() <= j < padded@.len() ==> #[trigger] padded@[j] == 0,
        decreases MIN_FRAME_LEN - padded@.len(),
    {
        padded.push(0);
    }
    assert(padded@ =~= frame_padded(frame@));
    padded
}

/// What every adapter can do.
pub trait NetworkAdapter {
    fn driver_name(&self) -> (name: &'static str);

    fn mac_address(&self) -> (mac: MacAddress);

    fn link_up<M: Machine>(&self, machine: &mut M) -> (up: bool);

    fn mtu(&self) -> (bytes: usize);

    /// Send a frame.
    fn transmit<M: Machine>(&mut self, machine: &mut M, frame: &[u8]) -> (result: Result<
        (),
        DriverError,
    >);

    /// Take the next frame into a buffer, and give its length.
    fn poll_receive<M: Machine>(&mut self, machine: &mut M, output: &mut Vec<u8>) -> (result: Result<
        usize,
        DriverError,
    >);
}

/// One of the adapters.
#[derive(Debug)]
pub enum Adapter {
    Rtl8139(rtl8139::Rtl8139),
    E1000(e1000::E1000),
}

impl Adapter {
    pub open spec fn place(self) -> (u8, u8, u8) {
        match self {
            Adapter::Rtl8139(adapter) => adapter.bdf,
            Adapter::E1000(adapter) => adapter.bdf,
        }
    }

    pub open spec fn hardware_address(self) -> MacAddress {
        match self {
            Adapter::Rtl8139(adapter) => adapter.mac,
            Adapter::E1000(adapter) => adapter.mac,
        }
    }

    pub open spec fn label(self) -> Seq<char> {
        match self {
            Adapter::Rtl8139(_) => "rtl8139"@,
            Adapter::E1000(_) => "e1000"@,
        }
    }

    pub open spec fn link_run(self, io: Io) -> (bool, Io) {
        match self {
            Adapter::Rtl8139(adapter) => adapter.link_run(io),
            Adapter::E1000(adapter) => adapter.link_run(io),
        }
    }

    #[verifier::opaque]
    pub open spec fn transmit_run(self, frame: Seq<u8>, io: Io) -> (Result<
        (),
        DriverError,
    >, Adapter, Io) {
        match self {
            Adapter::Rtl8139(adapter) => {
                let (result, after, io) = adapter.transmit_run(frame, io);
                (result, Adapter::Rtl8139(after), io)
            },
            Adapter::E1000(adapter) => {
                let (result, after, io) = adapter.transmit_run(frame, io);
                (result, Adapter::E1000(after), io)
            },
        }
    }

    #[verifier::opaque]
    pub open spec fn receive_run(self, room: nat, io: Io) -> (Result<
        Seq<u8>,
        DriverError,
    >, Adapter, Io) {
        match self {
            Adapter::Rtl8139(adapter) => {
                let (result, after, io) = adapter.receive_run(room, io);
                (result, Adapter::Rtl8139(after), io)
            },
            Adapter::E1000(adapter) => {
                let (result, after, io) = adapter.receive_run(room, io);
                (result, Adapter::E1000(after), io)
            },
        }
    }

    pub open spec fn release_run(self, io: Io) -> Io {
        match self {
            Adapter::Rtl8139(adapter) => adapter.release_run(io),
            Adapter::E1000(adapter) => adapter.release_run(io),
        }
    }

    fn bdf(&self) -> (bdf: (u8, u8, u8))
        ensures
            bdf == self.place(),
    {
        match self {
            Adapter::Rtl8139(adapter) => adapter.bdf(),
            Adapter::E1000(adapter) => adapter.bdf(),
        }
    }

    fn release<M: Machine>(self, machine: &mut M)
        ensures
            final(machine).io() == self.release_run(old(machine).io()),
    {
        match self {
            Adapter::Rtl8139(adapter) => adapter.release(machine),
            Adapter::E1000(adapter) => adapter.release(machine),
        }
    }
}

/// Whether a receive did to a buffer what it reports.
pub open spec fn received(
    before: Seq<u8>,
    after: Seq<u8>,
    result: Result<usize, DriverError>,
    expected: Result<Seq<u8>, DriverError>,
) -> bool {
    match expected {
        Ok(frame) => result == Ok::<usize, DriverError>(frame.len() as usize) && frame.len()
            <= before.len() && after == overlaid(before, 0, frame),
        Err(error) => result == Err::<usize, DriverError>(error) && after == before,
    }
}

impl NetworkAdapter for Adapter {
    fn driver_name(&self) -> (name: &'static str)
        ensures
            name@ == self.label(),
    {
        match self {
            Adapter::Rtl8139(adapter) => adapter.driver_name(),
            Adapter::E1000(adapter) => adapter.driver_name(),
        }
    }

    fn mac_address(&self) -> (mac: MacAddress)
        ensures
            mac == self.hardware_address(),
    {
        match self {
            Adapter::Rtl8139(adapter) => adapter.mac_address(),
            Adapter::E1000(adapter) => adapter.mac_address(),
        }
    }

    fn link_up<M: Machine>(&self, machine: &mut M) -> (up: bool)
        ensures
            (up, final(machine).io()) == self.link_run(old(machine).io()),
    {
        match self {
            Adapter::Rtl8139(adapter) => adapter.link_up(machine),
            Adapter::E1000(adapter) => adapter.link_up(machine),
        }
    }

    fn mtu(&self) -> (bytes: usize)
        ensures
            bytes == MTU,
    {
        MTU
    }

    fn transmit<M: Machine>(&mut self, machine: &mut M, frame: &[u8]) -> (result: Result<
        (),
        DriverError,
    >)
        ensures
            (result, *final(self), final(machine).io()) == old(self).transmit_run(
                frame@,
                old(machine).io(),
            ),
    {
        proof {
            reveal(Adapter::transmit_run);
        }
        match self {
            Adapter::Rtl8139(adapter) => adapter.transmit(machine, frame),
            Adapter::E1000(adapter) => adapter.transmit(machine, frame),
        }
    }

    fn poll_receive<M: Machine>(&mut self, machine: &mut M, output: &mut Vec<u8>) -> (result: Result<
        usize,
        DriverError,
    >)
        ensures
            ({
                let (expected, after, io) = old(self).receive_run(
                    old(output)@.len(),
                    old(machine).io(),
                );
                &&& *final(self) == after
                &&& final(machine).io() == io
                &&& received(old(output)@, final(output)@, result, expected)
            }),
    {
        proof {
            reveal(Adapter::receive_run);
        }
        match self {
            Adapter::Rtl8139(adapter) => adapter.poll_receive(machine, output),
            Adapter::E1000(adapter) => adapter.poll_receive(machine, output),
        }
    }
}

/// What the interrupt path needs of an adapter.
#[derive(Clone, Copy, Debug, PartialEq, Eq, Structural)]
pub enum IrqDevice {
    Rtl8139(rtl8139::InterruptHandle),
    E1000(e1000::InterruptHandle),
}

impl IrqDevice {
    pub open spec fn acknowledge_run(self, io: Io) -> (u32, Io) {
        match self {
            IrqDevice::Rtl8139(handle) => handle.acknowledge_run(io),
            IrqDevice::E1000(handle) => handle.acknowledge_run(io),
        }
    }

    pub open spec fn enable_run(self, io: Io) -> Io {
        match self {
            IrqDevice::Rtl8139(handle) => handle.enable_run(io),
            IrqDevice::E1000(handle) => handle.enable_run(io),
        }
    }

    fn acknowledge_and_mask<M: Machine>(self, machine: &mut M) -> (causes: u32)
        ensures
            (causes, final(machine).io()) == self.acknowledge_run(old(machine).io()),
    {
        match self {
            IrqDevice::Rtl8139(handle) => handle.acknowledge_and_mask(machine),
            IrqDevice::E1000(handle) => handle.acknowledge_and_mask(machine),
        }
    }

    fn enable<M: Machine>(self, machine: &mut M)
        ensures
            final(machine).io() == self.enable_run(old(machine).io()),
    {
        match self {
            IrqDevice::Rtl8139(handle) => handle.enable(machine),
            IrqDevice::E1000(handle) => handle.enable(machine),
        }
    }
}

/// An adapter and how its interrupt is served.
#[derive(Clone, Copy, Debug, PartialEq, Eq, Structural)]
pub struct IrqBinding {
    pub adapter_index: usize,
    pub device: IrqDevice,
}

/// Whether an adapter is bound.
pub open spec fn is_bound(bindings: Seq<IrqBinding>, adapter_index: usize) -> bool {
    exists|i: int|
        0 <= i < bindings.len() && (#[trigger] bindings[i]).adapter_index == adapter_index
}

/// Whether an adapter can be bound.
pub open spec fn can_bind(bindings: Seq<IrqBinding>, adapter_index: usize) -> bool {
    bindings.len() < MAX_IRQ_BINDINGS && !is_bound(bindings, adapter_index)
}

/// The binding of an adapter, from number `from` on.
pub open spec fn binding_of(bindings: Seq<IrqBinding>, adapter_index: usize, from: int) -> Option<
    IrqBinding,
>
    decreases bindings.len() - from,
{
    if from >= bindings.len() {
        None
    } else if bindings[from].adapter_index == adapter_index {
        Some(bindings[from])
    } else {
        binding_of(bindings, adapter_index, from + 1)
    }
}

/// The bound adapters, each at most once.
#[derive(Debug)]
pub struct IrqRegistry {
    pub entries: Vec<IrqBinding>,
}

impl IrqRegistry {
    pub fn new() -> (registry: Self)
        ensures
            registry.entries@ == Seq::<IrqBinding>::empty(),
    {
        IrqRegistry { entries: Vec::new() }
    }

    pub fn can_push(&self, adapter_index: usize) -> (can: bool)
        ensures
            can == can_bind(self.entries@, adapter_index),
    {
        if self.entries.len() >= MAX_IRQ_BINDINGS {
            return false;
        }
        let mut i: usize = 0;
        while i < self.entries.len()
            invariant
                i <= self.entries@.len(),
                forall|j: int|
                    0 <= j < i ==> (#[trigger] self.entries@[j]).adapter_index != adapter_index,
            decreases self.entries@.len() - i,
        {
            if self.entries[i].adapter_index == adapter_index {
                assert(self.entries@[i as int].adapter_index == adapter_index);
                return false;
            }
            i = i + 1;
        }
        true
    }

    /// Bind an adapter; it is refused where there is no room or where it is
    /// bound already.
    pub fn push(&mut self, binding: IrqBinding) -> (pushed: bool)
        ensures
            pushed == can_bind(old(self).entries@, binding.adapter_index),
            final(self).entries@ == (if can_bind(old(self).entries@, binding.adapter_index) {
                old(self).entries@.push(binding)
            } else {
                old(self).entries@
            }),
    {
        if !self.can_push(binding.adapter_index) {
            return false;
        }
        self.entries.push(binding);
        true
    }

    pub fn find(&self, adapter_index: usize) -> (binding: Option<IrqBinding>)
        ensures
            binding == binding_of(self.entries@, adapter_index, 0),
    {
        let mut i: usize = 0;
        while i < self.entries.len()
            invariant
                i <= self.entries@.len(),
                binding_of(self.entries@, adapter_index, 0) == binding_of(
                    self.entries@,
                    adapter_index,
                    i as int,
                ),
            decreases self.entries@.len() - i,
        {
            if self.entries[i].adapter_index == adapter_index {
                return Some(self.entries[i]);
            }
            i = i + 1;
        }
        None
    }
}

/// What the interrupt path has counted.
#[derive(Clone, Copy, Debug, PartialEq, Eq, Structural)]
pub struct IrqStats {
    pub interrupts: u64,
    pub claimed_devices: u64,
    pub worker_wakes: u64,
    pub wake_contentions: u64,
}

impl Default for IrqStats {
    fn default() -> (stats: Self)
        ensures
            stats == (IrqStats {
                interrupts: 0,
                claimed_devices: 0,
                worker_wakes: 0,
                wake_contentions: 0,
            }),
    {
        IrqStats { interrupts: 0, claimed_devices: 0, worker_wakes: 0, wake_contentions: 0 }
    }
}

/// What is known of an adapter.
#[derive(Clone, Copy, Debug)]
pub struct AdapterInfo {
    pub index: usize,
    pub interface: u16,
    pub driver: &'static str,
    pub mac: MacAddress,
    pub link_up: bool,
    pub mtu: usize,
}

/// What a pass over the adapters came to.
#[derive(Clone, Copy, Debug, PartialEq, Eq, Structural)]
pub struct PollReport {
    pub received: usize,
    pub delivered: usize,
    pub replies: usize,
    pub dropped: usize,
    pub driver_errors: usize,
    pub stack_errors: usize,
}

impl Default for PollReport {
    fn default() -> (report: Self)
        ensures
            report == PollReport::none(),
    {
        PollReport {
            received: 0,
            delivered: 0,
            replies: 0,
            dropped: 0,
            driver_errors: 0,
            stack_errors: 0,
        }
    }
}

impl PollReport {
    pub open spec fn none() -> PollReport {
        PollReport {
            received: 0,
            delivered: 0,
            replies: 0,
            dropped: 0,
            driver_errors: 0,
            stack_errors: 0,
        }
    }
}

/// A frame that is to be sent.
#[derive(Clone, Debug, PartialEq, Eq)]
pub struct OutboundFrame {
    pub interface: u16,
    pub bytes: Vec<u8>,
}

/// What the stack did with a frame.
#[derive(Clone, Debug, PartialEq, Eq)]
pub enum IngressOutcome {
    /// It answers with a frame.
    Reply(OutboundFrame),
    Delivered,
    Ignored,
    /// Nobody listens at the port.
    PortUnreachable(u16),
    /// The frame could not be taken.
    Failed,
}

/// The interrupt that firmware's line byte names, where it can be one of a
/// network adapter.
pub open spec fn firmware_line(interrupt_line: u8, interrupt_pin: u8) -> Option<u32> {
    if 1 <= interrupt_pin <= 4 && interrupt_line != 0 && interrupt_line != 0xff && interrupt_line
        != KEYBOARD_LINE && interrupt_line != MOUSE_LINE {
        Some(interrupt_line as u32)
    } else {
        None
    }
}

/// The interrupt that firmware's line byte names.
pub fn fallback_intx_gsi(interrupt_line: u8, interrupt_pin: u8) -> (gsi: Option<u32>)
    ensures
        gsi == firmware_line(interrupt_line, interrupt_pin),
{
    if interrupt_pin < 1 || interrupt_pin > 4 || interrupt_line == 0 || interrupt_line == 0xff
        || interrupt_line == KEYBOARD_LINE || interrupt_line == MOUSE_LINE {
        return None;
    }
    Some(interrupt_line as u32)
}

/// Whether an interrupt can be one of a network adapter.
pub fn valid_nic_gsi(gsi: u32) -> (valid: bool)
    ensures
        valid == (gsi != 1 && gsi != 12),
{
    gsi != 1 && gsi != 12
}

/// The bit by which the work of an adapter is noted.
pub open spec fn bit_of(adapter_index: int) -> Option<u64> {
    if adapter_index < MAX_PENDING_ADAPTERS {
        Some(1u64 << (adapter_index as u64))
    } else {
        None
    }
}

/// The bit by which the work of an adapter is noted.
pub fn pending_bit(adapter_index: usize) -> (bit: Option<u64>)
    ensures
        bit == bit_of(adapter_index as int),
{
    if adapter_index < MAX_PENDING_ADAPTERS {
        Some(1u64 << (adapter_index as u64))
    } else {
        None
    }
}

/// Whether no work that a bit stands for is noted.
pub fn rearm_allowed(pending: u64, bit: u64) -> (allowed: bool)
    ensures
        allowed == (pending & bit == 0),
{
    pending & bit == 0
}

proof fn lemma_bits(pending: u64, i: u64, j: u64)
    by (bit_vector)
    requires
        i < 64,
        j < 64,
    ensures
        (pending | (1u64 << i)) & (1u64 << i) != 0,
        (pending & !(1u64 << i)) & (1u64 << i) == 0,
        i != j ==> (pending | (1u64 << i)) & (1u64 << j) == pending & (1u64 << j),
        i != j ==> (pending & !(1u64 << i)) & (1u64 << j) == pending & (1u64 << j),
{
}

/// Noting the work of an adapter keeps it from being armed again, beginning
/// its service allows that, and neither touches what is noted for another.
pub proof fn lemma_pending_bits_are_apart(pending: u64, i: int, j: int)
    requires
        0 <= i < MAX_PENDING_ADAPTERS,
        0 <= j < MAX_PENDING_ADAPTERS,
    ensures
        (pending | bit_of(i)->0) & bit_of(i)->0 != 0,
        (pending & !bit_of(i)->0) & bit_of(i)->0 == 0,
        i != j ==> (pending | bit_of(i)->0) & bit_of(j)->0 == pending & bit_of(j)->0,
        i != j ==> (pending & !bit_of(i)->0) & bit_of(j)->0 == pending & bit_of(j)->0,
{
    lemma_bits(pending, i as u64, j as u64);
}

/// The number of an adapter's interface.
pub open spec fn interface_of(adapter_index: int) -> Option<u16> {
    if adapter_index < u16::MAX {
        Some((adapter_index + 1) as u16)
    } else {
        None
    }
}

/// The number of an adapter's interface.
pub fn interface_id(adapter_index: usize) -> (interface: Option<u16>)
    ensures
        interface == interface_of(adapter_index as int),
{
    if adapter_index < u16::MAX as usize {
        Some(adapter_index as u16 + 1)
    } else {
        None
    }
}

/// Everything that is known of the network hardware.
#[derive(Debug)]
pub struct Network {
    pub adapters: Vec<Adapter>,
    pub bindings: IrqRegistry,
    pub handler_installed: bool,
    pub pending: u64,
    pub worker_task: u64,
    pub stats: IrqStats,
}

/// The same, apart from how it is held.
#[verifier::ext_equal]
pub struct NetworkModel {
    pub adapters: Seq<Adapter>,
    pub bindings: Seq<IrqBinding>,
    pub handler_installed: bool,
    pub pending: u64,
    pub worker_task: u64,
    pub stats: IrqStats,
}

impl View for Network {
    type V = NetworkModel;

    open spec fn view(&self) -> NetworkModel {
        NetworkModel {
            adapters: self.adapters@,
            bindings: self.bindings.entries@,
            handler_installed: self.handler_installed,
            pending: self.pending,
            worker_task: self.worker_task,
            stats: self.stats,
        }
    }
}

/// Whether an adapter at a place is attached.
pub open spec fn is_attached(adapters: Seq<Adapter>, place: (u8, u8, u8)) -> bool {
    exists|i: int| 0 <= i < adapters.len() && (#[trigger] adapters[i]).place() == place
}

/// Look at every bound adapter from number `from` on: which have work, and how
/// many.
pub open spec fn causes_run(
    bindings: Seq<IrqBinding>,
    from: int,
    pending: u64,
    claimed: u64,
    io: Io,
) -> (u64, u64, Io)
    decreases bindings.len() - from,
{
    if from >= bindings.len() {
        (pending, claimed, io)
    } else {
        let (causes, io) = bindings[from].device.acknowledge_run(io);
        match bit_of(bindings[from].adapter_index as int) {
            Some(bit) => if causes != 0 {
                causes_run(
                    bindings,
                    from + 1,
                    pending | bit,
                    claimed.wrapping_add(1),
                    io,
                )
            } else {
                causes_run(bindings, from + 1, pending, claimed, io)
            },
            None => causes_run(bindings, from + 1, pending, claimed, io),
        }
    }
}

impl NetworkModel {
    /// No adapter, and nothing that has happened.
    pub open spec fn fresh() -> NetworkModel {
        NetworkModel {
            adapters: Seq::empty(),
            bindings: Seq::empty(),
            handler_installed: false,
            pending: 0,
            worker_task: 0,
            stats: IrqStats {
                interrupts: 0,
                claimed_devices: 0,
                worker_wakes: 0,
                wake_contentions: 0,
            },
        }
    }

    /// The interrupt of a device: the one that firmware's tables route, where
    /// it can be one of a network adapter, else the one of its line byte.
    pub open spec fn interrupt_of(
        routes: Seq<FirmwareRoute>,
        parents: Seq<Option<ParentBridge>>,
        device: PciDevice,
    ) -> Option<u32> {
        match resolved(routes, parents, device) {
            Some(gsi) => if gsi != 1 && gsi != 12 {
                Some(gsi)
            } else {
                firmware_line(device.interrupt_line, device.interrupt_pin)
            },
            None => firmware_line(device.interrupt_line, device.interrupt_pin),
        }
    }

    /// Route the interrupt of a device, bind the adapter, and let both raise
    /// it.  Where a step fails, the ones behind it are not taken.
    pub open spec fn intx_run(
        self,
        routes: Seq<FirmwareRoute>,
        parents: Seq<Option<ParentBridge>>,
        device: PciDevice,
        adapter_index: usize,
        irq_device: IrqDevice,
        io: Io,
    ) -> (bool, NetworkModel, Io) {
        let gsi = Self::interrupt_of(routes, parents, device);
        if gsi is None || bit_of(adapter_index as int) is None {
            (false, self, io)
        } else {
            let (controllers, io) = io.ask(Query::IoApicCount);
            if controllers == 0 {
                (false, self, io)
            } else {
                let (apic_id, io) = io.ask(Query::LocalApicId);
                if apic_id > u8::MAX || !can_bind(self.bindings, adapter_index) {
                    (false, self, io)
                } else {
                    let (routed, io) = io.ask(Query::Route(gsi->0, NIC_VECTOR, apic_id as u8));
                    if routed == 0 {
                        (false, self, io)
                    } else {
                        let bound = NetworkModel {
                            bindings: self.bindings.push(
                                IrqBinding { adapter_index, device: irq_device },
                            ),
                            ..self
                        };
                        if !device.address.is_valid() {
                            (false, bound, io)
                        } else {
                            let (command, io) = device.address.command_run(io);
                            let io = device.address.write_command_run(
                                (command & PciCommand::ALL) & !PciCommand::INTERRUPT_DISABLE,
                                io,
                            );
                            (true, bound, irq_device.enable_run(io))
                        }
                    }
                }
            }
        }
    }

    /// Attach an adapter and wire its interrupt; an adapter at a place that is
    /// taken is given up.
    pub open spec fn adopt_run(
        self,
        adapter: Adapter,
        irq_device: IrqDevice,
        routes: Seq<FirmwareRoute>,
        parents: Seq<Option<ParentBridge>>,
        device: PciDevice,
        io: Io,
    ) -> (NetworkModel, Io) {
        if is_attached(self.adapters, adapter.place()) {
            (self, adapter.release_run(io))
        } else {
            let index = self.adapters.len() as usize;
            let attached = NetworkModel { adapters: self.adapters.push(adapter), ..self };
            let (_, after, io) = attached.intx_run(
                routes,
                parents,
                device,
                index,
                irq_device,
                io,
            );
            (after, io)
        }
    }

    /// Wake the task that serves the adapters, where there is one.
    pub open spec fn wake_run(self, io: Io) -> (bool, NetworkModel, Io) {
        if self.worker_task == 0 {
            (false, self, io)
        } else {
            let (outcome, io) = io.ask(Query::WakeTask(self.worker_task));
            if outcome == WAKE_WOKEN {
                (
                    true,
                    NetworkModel {
                        stats: IrqStats {
                            worker_wakes: self.stats.worker_wakes.wrapping_add(1),
                            ..self.stats
                        },
                        ..self
                    },
                    io,
                )
            } else if outcome == WAKE_CONTENDED {
                (
                    false,
                    NetworkModel {
                        stats: IrqStats {
                            wake_contentions: self.stats.wake_contentions.wrapping_add(1),
                            ..self.stats
                        },
                        ..self
                    },
                    io,
                )
            } else {
                (false, self, io)
            }
        }
    }

    /// Serve the shared interrupt.
    pub open spec fn irq_run(self, io: Io) -> (NetworkModel, Io) {
        let (pending, claimed, io) = causes_run(self.bindings, 0, 0, 0, io);
        let counted = NetworkModel {
            stats: IrqStats {
                interrupts: self.stats.interrupts.wrapping_add(1),
                ..self.stats
            },
            ..self
        };
        let (after, io) = if pending != 0 {
            let noted = NetworkModel {
                pending: self.pending | pending,
                stats: IrqStats {
                    claimed_devices: self.stats.claimed_devices.wrapping_add(claimed),
                    ..counted.stats
                },
                ..counted
            };
            let (_, woken, io) = noted.wake_run(io);
            (woken, io)
        } else {
            (counted, io)
        };
        (after, io.tell(Order::EndOfInterrupt))
    }

    /// Note that an adapter has work.
    pub open spec fn marked(self, adapter_index: int) -> NetworkModel {
        match bit_of(adapter_index) {
            Some(bit) => NetworkModel { pending: self.pending | bit, ..self },
            None => self,
        }
    }

    /// Begin to serve an adapter.
    pub open spec fn begun(self, adapter_index: int) -> NetworkModel {
        match bit_of(adapter_index) {
            Some(bit) => NetworkModel { pending: self.pending & !bit, ..self },
            None => self,
        }
    }

    /// Whether an adapter may raise its interrupt again.
    pub open spec fn may_rearm(self, adapter_index: int) -> bool {
        match bit_of(adapter_index) {
            Some(bit) => self.pending & bit == 0,
            None => false,
        }
    }

    /// End the service of an adapter: its interrupt is enabled again unless
    /// there is more work.
    pub open spec fn finish_run(self, adapter_index: usize, io: Io) -> Io {
        match binding_of(self.bindings, adapter_index, 0) {
            Some(binding) => if self.may_rearm(adapter_index as int) {
                binding.device.enable_run(io)
            } else {
                io
            },
            None => io,
        }
    }
}

impl Network {
    /// No adapter yet.
    pub fn new() -> (network: Self)
        ensures
            network@ == NetworkModel::fresh(),
    {
        Network {
            adapters: Vec::new(),
            bindings: IrqRegistry::new(),
            handler_installed: false,
            pending: 0,
            worker_task: 0,
            stats: IrqStats {
                interrupts: 0,
                claimed_devices: 0,
                worker_wakes: 0,
                wake_contentions: 0,
            },
        }
    }

    fn place_taken(&self, place: (u8, u8, u8)) -> (taken: bool)
        ensures
            taken == is_attached(self.adapters@, place),
    {
        let mut i: usize = 0;
        while i < self.adapters.len()
            invariant
                i <= self.adapters@.len(),
                forall|j: int| 0 <= j < i ==> (#[trigger] self.adapters@[j]).place() != place,
            decreases self.adapters@.len() - i,
        {
            let other: (u8, u8, u8) = self.adapters[i].bdf();
            if other.0 == place.0 && other.1 == place.1 && other.2 == place.2 {
                assert(self.adapters@[i as int].place() == place);
                return true;
            }
            i = i + 1;
        }
        false
    }

    /// Attach an adapter and give its number; one at a place that is taken is
    /// given up.
    pub fn attach<M: Machine>(&mut self, machine: &mut M, adapter: Adapter) -> (index: Option<usize>)
        ensures
            if is_attached(old(self)@.adapters, adapter.place()) {
                &&& index is None
                &&& final(self)@ == old(self)@
                &&& final(machine).io() == adapter.release_run(old(machine).io())
            } else {
                &&& index == Some(old(self)@.adapters.len() as usize)
                &&& final(self)@ == (NetworkModel {
                    adapters: old(self)@.adapters.push(adapter),
                    ..old(self)@
                })
                &&& final(machine).io() == old(machine).io()
            },
    {
        if self.place_taken(adapter.bdf()) {
            adapter.release(machine);
            return None;
        }
        let index: usize = self.adapters.len();
        self.adapters.push(adapter);
        Some(index)
    }

    /// Attach an adapter and wire its interrupt.
    pub fn adopt<M: Machine>(
        &mut self,
        machine: &mut M,
        adapter: Adapter,
        irq_device: IrqDevice,
        routing: &RoutingDatabase,
        device: &PciDevice,
    )
        ensures
            (final(self)@, final(machine).io()) == old(self)@.adopt_run(
                adapter,
                irq_device,
                routing.routes@,
                routing.parents@,
                *device,
                old(machine).io(),
            ),
    {
        if let Some(index) = self.attach(machine, adapter) {
            let _ = self.configure_intx(machine, routing, device, index, irq_device);
        }
    }

    /// Route the interrupt of a device and bind its adapter.
    pub fn configure_intx<M: Machine>(
        &mut self,
        machine: &mut M,
        routing: &RoutingDatabase,
        device: &PciDevice,
        adapter_index: usize,
        irq_device: IrqDevice,
    ) -> (wired: bool)
        ensures
            (wired, final(self)@, final(machine).io()) == old(self)@.intx_run(
                routing.routes@,
                routing.parents@,
                *device,
                adapter_index,
                irq_device,
                old(machine).io(),
            ),
    {
        let table_gsi: Option<u32> = match resolve_intx(routing, device) {
            Some(gsi) => if valid_nic_gsi(gsi) {
                Some(gsi)
            } else {
                None
            },
            None => None,
        };
        let gsi: u32 = match table_gsi {
            Some(gsi) => gsi,
            None => match fallback_intx_gsi(device.interrupt_line, device.interrupt_pin) {
                Some(gsi) => gsi,
                None => {
                    return false;
                },
            },
        };
        if pending_bit(adapter_index).is_none() || machine.ask(Query::IoApicCount) == 0 {
            return false;
        }
        let apic_id: u64 = machine.ask(Query::LocalApicId);
        if apic_id > u8::MAX as u64 {
            return false;
        }
        let destination: u8 = apic_id as u8;
        if !self.bindings.can_push(adapter_index) {
            return false;
        }
        if machine.ask(Query::Route(gsi, NIC_VECTOR, destination)) == 0 {
            return false;
        }
        if !self.bindings.push(IrqBinding { adapter_index, device: irq_device }) {
            return false;
        }
        let address: PciAddress = match PciAddress::new(
            device.address.bus(),
            device.address.device(),
            device.address.function(),
        ) {
            Some(address) => address,
            None => {
                return false;
            },
        };
        let mut command = PciCommand::from_bits_truncate(address.read_command(machine));
        command.remove(PciCommand::INTERRUPT_DISABLE);
        address.write_command(machine, command.bits());
        irq_device.enable(machine);
        true
    }

    pub(crate) fn mark_pending(&mut self, adapter_index: usize)
        ensures
            final(self)@ == old(self)@.marked(adapter_index as int),
    {
        if let Some(bit) = pending_bit(adapter_index) {
            self.pending = self.pending | bit;
        }
    }

    pub(crate) fn begin_irq_service(&mut self, adapter_index: usize)
        ensures
            final(self)@ == old(self)@.begun(adapter_index as int),
    {
        if let Some(bit) = pending_bit(adapter_index) {
            self.pending = self.pending & !bit;
        }
    }

    fn should_rearm(&self, adapter_index: usize) -> (rearm: bool)
        ensures
            rearm == self@.may_rearm(adapter_index as int),
    {
        match pending_bit(adapter_index) {
            Some(bit) => rearm_allowed(self.pending, bit),
            None => false,
        }
    }

    pub(crate) fn finish_irq_service<M: Machine>(&self, machine: &mut M, adapter_index: usize)
        ensures
            final(machine).io() == self@.finish_run(adapter_index, old(machine).io()),
    {
        if let Some(binding) = self.bindings.find(adapter_index) {
            if self.should_rearm(adapter_index) {
                binding.device.enable(machine);
            }
        }
    }

    fn wake_network_worker<M: Machine>(&mut self, machine: &mut M) -> (woken: bool)
        ensures
            (woken, final(self)@, final(machine).io()) == old(self)@.wake_run(old(machine).io()),
    {
        if self.worker_task == 0 {
            return false;
        }
        let outcome: u64 = machine.ask(Query::WakeTask(self.worker_task));
        if outcome == WAKE_WOKEN {
            self.stats.worker_wakes = self.stats.worker_wakes.wrapping_add(1);
            true
        } else if outcome == WAKE_CONTENDED {
            self.stats.wake_contentions = self.stats.wake_contentions.wrapping_add(1);
            false
        } else {
            false
        }
    }

    /// Serve the shared interrupt: mask the adapters that raised it, note their
    /// work, wake the task that does it, and acknowledge.
    pub fn handle_interrupt<M: Machine>(&mut self, machine: &mut M)
        ensures
            (final(self)@, final(machine).io()) == old(self)@.irq_run(old(machine).io()),
    {
        self.stats.interrupts = self.stats.interrupts.wrapping_add(1);
        let mut pending: u64 = 0;
        let mut claimed: u64 = 0;
        let mut i: usize = 0;
        while i < self.bindings.entries.len()
            invariant
                i <= self.bindings.entries@.len(),
                self@.bindings == old(self)@.bindings,
                self@ == (NetworkModel {
                    stats: IrqStats {
                        interrupts: old(self)@.stats.interrupts.wrapping_add(1),
                        ..old(self)@.stats
                    },
                    ..old(self)@
                }),
                causes_run(old(self)@.bindings, 0, 0, 0, old(machine).io()) == causes_run(
                    old(self)@.bindings,
                    i as int,
                    pending,
                    claimed,
                    machine.io(),
                ),
            decreases self.bindings.entries@.len() - i,
        {
            let binding: IrqBinding = self.bindings.entries[i];
            if binding.device.acknowledge_and_mask(machine) != 0 {
                if let Some(bit) = pending_bit(binding.adapter_index) {
                    pending = pending | bit;
                    claimed = claimed.wrapping_add(1);
                }
            }
            i = i + 1;
        }
        if pending != 0 {
            self.pending = self.pending | pending;
            self.stats.claimed_devices = self.stats.claimed_devices.wrapping_add(claimed);
            let _ = self.wake_network_worker(machine);
        }
        machine.tell(Order::EndOfInterrupt);
    }
}

/// Register the drivers of all adapters, behind the handler of their vector.
pub fn register_pci_drivers<M: Machine>(
    network: &mut Network,
    registry: &mut DriverRegistry<AnyDriver>,
    machine: &mut M,
)
    requires
        old(registry).wf(),
    ensures
        final(registry).wf(),
        final(registry).drivers@ == enrolled(
            enrolled(
                old(registry).drivers@,
                KEY_RTL8139,
                AnyDriver::Rtl8139(rtl8139::Rtl8139PciDriver {}),
            ),
            KEY_E1000,
            AnyDriver::E1000(e1000::E1000PciDriver {}),
        ),
        *final(network) == (Network { handler_installed: true, ..*old(network) }),
        final(machine).io() == (if old(network)@.handler_installed {
            old(machine).io()
        } else {
            old(machine).io().tell(Order::InstallHandler(NIC_VECTOR))
        }),
{
    install_irq_handler(network, machine);
    rtl8139::register_pci_driver(registry);
    e1000::register_pci_driver(registry);
}

fn install_irq_handler<M: Machine>(network: &mut Network, machine: &mut M)
    ensures
        *final(network) == (Network { handler_installed: true, ..*old(network) }),
        final(machine).io() == (if old(network)@.handler_installed {
            old(machine).io()
        } else {
            old(machine).io().tell(Order::InstallHandler(NIC_VECTOR))
        }),
{
    if network.handler_installed {
        return ;
    }
    network.handler_installed = true;
    machine.tell(Order::InstallHandler(NIC_VECTOR));
}

/// Name the task that serves the adapters.
pub fn register_worker_task(network: &mut Network, task: u64)
    ensures
        final(network)@ == (NetworkModel { worker_task: task, ..old(network)@ }),
{
    network.worker_task = task;
}

/// Whether an adapter has work that was not done yet.
pub fn interrupt_work_pending(network: &Network) -> (pending: bool)
    ensures
        pending == (network@.pending != 0),
{
    network.pending != 0
}

/// What the interrupt path has counted.
pub fn irq_stats(network: &Network) -> (stats: IrqStats)
    ensures
        stats == network@.stats,
{
    network.stats
}

pub fn adapter_count(network: &Network) -> (count: usize)
    ensures
        count == network@.adapters.len(),
{
    network.adapters.len()
}

/// What is known of an adapter.
pub fn adapter_info<M: Machine>(network: &Network, machine: &mut M, index: usize) -> (info: Option<
    AdapterInfo,
>)
    ensures
        index >= network@.adapters.len() || interface_of(index as int) is None ==> info is None
            && final(machine).io() == old(machine).io(),
        index < network@.adapters.len() && interface_of(index as int) is Some ==> info is Some && {
            let adapter = network@.adapters[index as int];
            &&& info->0.index == index
            &&& info->0.interface == interface_of(index as int)->0
            &&& info->0.driver@ == adapter.label()
            &&& info->0.mac == adapter.hardware_address()
            &&& info->0.mtu == MTU
            &&& (info->0.link_up, final(machine).io()) == adapter.link_run(old(machine).io())
        },
{
    if index >= network.adapters.len() {
        return None;
    }
    let interface: u16 = match interface_id(index) {
        Some(interface) => interface,
        None => {
            return None;
        },
    };
    let adapter: &Adapter = &network.adapters[index];
    let link_up: bool = adapter.link_up(machine);
    Some(
        AdapterInfo {
            index,
            interface,
            driver: adapter.driver_name(),
            mac: adapter.mac_address(),
            link_up,
            mtu: adapter.mtu(),
        },
    )
}

/// An adapter, to work on.
pub fn with_adapter(network: &mut Network, index: usize) -> (adapter: Option<&mut Adapter>)
    ensures
        adapter is Some <==> index < old(network)@.adapters.len(),
        match adapter {
            Some(adapter) => *adapter == old(network)@.adapters[index as int] && final(network)@
                =~= (NetworkModel {
                adapters: old(network)@.adapters.update(index as int, *final(adapter)),
                ..old(network)@
            }),
            None => final(network)@ == old(network)@,
        },
{
    if index < network.adapters.len() {
        Some(&mut network.adapters[index])
    } else {
        None
    }
}

/// Send a frame through an adapter.
pub fn transmit<M: Machine>(network: &mut Network, machine: &mut M, index: usize, frame: &[u8]) -> (result:
    Result<(), DriverError>)
    ensures
        index >= old(network)@.adapters.len() ==> result == Err::<(), DriverError>(
            DriverError::InvalidAdapter,
        ) && final(network)@ == old(network)@ && final(machine).io() == old(machine).io(),
        index < old(network)@.adapters.len() ==> {
            let (expected, after, io) = old(network)@.adapters[index as int].transmit_run(
                frame@,
                old(machine).io(),
            );
            &&& result == expected
            &&& final(network)@ =~= (NetworkModel {
                adapters: old(network)@.adapters.update(index as int, after),
                ..old(network)@
            })
            &&& final(machine).io() == io
        },
{
    match with_adapter(network, index) {
        Some(adapter) => adapter.transmit(machine, frame),
        None => Err(DriverError::InvalidAdapter),
    }
}

/// Take the next frame of an adapter into a buffer, and give its length.
pub fn poll_receive<M: Machine>(
    network: &mut Network,
    machine: &mut M,
    index: usize,
    output: &mut Vec<u8>,
) -> (result: Result<usize, DriverError>)
    ensures
        index >= old(network)@.adapters.len() ==> result == Err::<usize, DriverError>(
            DriverError::InvalidAdapter,
        ) && final(network)@ == old(network)@ && final(machine).io() == old(machine).io()
            && final(output)@ == old(output)@,
        index < old(network)@.adapters.len() ==> {
            let (expected, after, io) = old(network)@.adapters[index as int].receive_run(
                old(output)@.len(),
                old(machine).io(),
            );
            &&& received(old(output)@, final(output)@, result, expected)
            &&& final(network)@ =~= (NetworkModel {
                adapters: old(network)@.adapters.update(index as int, after),
                ..old(network)@
            })
            &&& final(machine).io() == io
        },
{
    match with_adapter(network, index) {
        Some(adapter) => adapter.poll_receive(machine, output),
        None => Err(DriverError::InvalidAdapter),
    }
}

/// Send a frame through the adapter of its interface.
pub fn transmit_outbound<M: Machine>(
    network: &mut Network,
    machine: &mut M,
    frame: &OutboundFrame,
) -> (result: Result<(), DriverError>)
    ensures
        frame.interface == 0 || frame.interface > old(network)@.adapters.len() ==> result
            == Err::<(), DriverError>(DriverError::InvalidAdapter) && final(network)@
            == old(network)@ && final(machine).io() == old(machine).io(),
        0 < frame.interface <= old(network)@.adapters.len() ==> {
            let index = frame.interface - 1;
            let (expected, after, io) = old(network)@.adapters[index].transmit_run(
                frame.bytes@,
                old(machine).io(),
            );
            &&& result == expected
            &&& final(network)@ =~= (NetworkModel {
                adapters: old(network)@.adapters.update(index, after),
                ..old(network)@
            })
            &&& final(machine).io() == io
        },
{
    if frame.interface == 0 {
        return Err(DriverError::InvalidAdapter);
    }
    transmit(network, machine, frame.interface as usize - 1, frame.bytes.as_slice())
}

/// An interface leads back to its adapter.
pub proof fn lemma_interface_names_adapter(adapter_index: int)
    requires
        0 <= adapter_index,
        interface_of(adapter_index) is Some,
    ensures
        interface_of(adapter_index)->0 != 0,
        interface_of(adapter_index)->0 - 1 == adapter_index,
{
}

} // verus!
