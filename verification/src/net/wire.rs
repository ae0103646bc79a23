//! What the adapters see of their drivers.
use vstd::prelude::*;
use crate::machine::{Access, Io, Order, Place, Query};
use crate::net::dma::DmaRegion;
use crate::net::e1000;
use crate::net::e1000::{lemma_descriptor_round_trip, Mmio, RxDescriptor, TxDescriptor, E1000};
use crate::net::rtl8139;
use crate::net::rtl8139::{RegisterIo, Rtl8139};
use crate::net::{frame_padded, DriverError, IrqBinding, IrqDevice, NetworkModel};
use crate::pci::enumerate::PciDevice;
use crate::pci::routing::{FirmwareRoute, ParentBridge};
use crate::trace::{group_observed, last_written, lemma_poll_shape};

verus! {

/// The bytes that go out for a frame: 60 at least, filled up with zeros.
pub open spec fn is_padded(frame: Seq<u8>, bytes: Seq<u8>) -> bool {
    &&& bytes.len() == (if frame.len() < 60 {
        60
    } else {
        frame.len()
    })
    &&& forall|i: int|
        0 <= i < bytes.len() ==> #[trigger] bytes[i] == (if i < frame.len() {
            frame[i]
        } else {
            0u8
        })
}

/// Padding fills a short frame up with zeros to 60 bytes, and leaves any other
/// alone.
pub proof fn lemma_padding(frame: Seq<u8>)
    ensures
        is_padded(frame, frame_padded(frame)),
{
}

pub open spec fn memory_at(base: u64, offset: int) -> Place {
    Place::Memory((base + offset) as u64)
}

/// Whether the memory of an adapter does not run over the end of memory.
pub open spec fn e1000_is_placed(adapter: E1000) -> bool {
    &&& adapter.tx_index < 32
    &&& adapter.rx_index < 32
    &&& adapter.registers.base + 0x2_0000 <= u64::MAX
    &&& adapter.tx_descriptors.address + 512 <= u64::MAX
    &&& adapter.rx_descriptors.address + 512 <= u64::MAX
    &&& adapter.tx_buffers.address + 65536 <= u64::MAX
    &&& adapter.rx_buffers.address + 65536 <= u64::MAX
}

proof fn lemma_wire_bits(low: u8, high: u8)
    by (bit_vector)
    ensures
        (low as u16) | ((high as u16) << 8) == (low as u16) + 256 * (high as u16),
        ((low as u16) | ((high as u16) << 8)) & 1 == (low & 1) as u16,
        0x0bu8 & 0x01 != 0,
        0x0bu8 & 0x02 != 0,
        0x0bu8 & 0x08 != 0,
        0u64 | (0u64 << 16) | (0u64 << 24) | (1u64 << 32) | (0u64 << 40) | (0u64 << 48) == 0x1_0000_0000u64,
        0u64 | (0u64 << 16) | (0u64 << 32) | (0u64 << 40) | (0u64 << 48) == 0u64,
{
}

/// A frame that is sent lies padded in the buffer of the next descriptor, which
/// was free.  Behind a barrier the descriptor gets the frame's length, a clear
/// status and the marks for the end of a packet, a checksum and a report; behind
/// another barrier the tail moves past it.
pub proof fn lemma_e1000_sends(adapter: E1000, frame: Seq<u8>, io: Io)
    requires
        e1000_is_placed(adapter),
        adapter.transmit_run(frame, io).0 is Ok,
    ensures
        ({
            let (_, after, later) = adapter.transmit_run(frame, io);
            let bytes = frame_padded(frame);
            let ring = adapter.tx_descriptors.address;
            let slot = adapter.tx_index as int;
            let end = later.trace.len() as int;
            let sent = match later.trace[end - 3] {
                Access::Write64(_, word) => word,
                _ => 0,
            };
            &&& frame.len() <= 1514
            &&& is_padded(frame, bytes)
            &&& ((io.replies)(io.reads + 1) >> 32) as u8 & 1 != 0
            &&& later.trace[io.trace.len() as int + 2] == Access::Read64(memory_at(ring, 16 * slot + 8))
            &&& end == io.trace.len() + 8 + bytes.len()
            &&& forall|i: int|
                0 <= i < bytes.len() ==> later.trace[io.trace.len() + 3 + i] == Access::Write8(
                    memory_at(adapter.tx_buffers.address, 2048 * slot + i),
                    #[trigger] bytes[i],
                )
            &&& later.trace[end - 5] == Access::Tell(Order::Fence)
            &&& later.trace[end - 4] == Access::Write64(
                memory_at(ring, 16 * slot),
                (io.replies)(io.reads),
            )
            &&& later.trace[end - 3] == Access::Write64(memory_at(ring, 16 * slot + 8), sent)
            &&& sent as u16 == bytes.len()
            &&& (sent >> 24) as u8 & 0x01 != 0
            &&& (sent >> 24) as u8 & 0x02 != 0
            &&& (sent >> 24) as u8 & 0x08 != 0
            &&& (sent >> 32) as u8 == 0
            &&& later.trace[end - 2] == Access::Tell(Order::Fence)
            &&& later.trace[end - 1] == Access::Write32(
                memory_at(adapter.registers.base, 0x3818),
                after.tx_index as u32,
            )
            &&& after.tx_index == (slot + 1) % 32
            &&& after.rx_index == adapter.rx_index
        }),
{
    lemma_wire_bits(0, 0);
    let read = TxDescriptor::of((io.replies)(io.reads), (io.replies)(io.reads + 1));
    let bytes = frame_padded(frame);
    let written = TxDescriptor {
        length: bytes.len() as u16,
        command: 0x0b,
        status: 0,
        ..read
    };
    let rx = RxDescriptor {
        address: 0,
        length: 0,
        checksum: 0,
        status: 0,
        errors: 0,
        special: 0,
    };
    lemma_descriptor_round_trip(rx, written);
    let later = adapter.transmit_run(frame, io).2;
    let end = later.trace.len() as int;
    assert(later.trace[end - 3] == Access::Write64(
        memory_at(adapter.tx_descriptors.address, 16 * adapter.tx_index + 8),
        written.word(),
    ));
    assert(TxDescriptor::of(written.address, written.word()) == written);
}

/// What a frame that is too long, or that finds no free descriptor, is answered;
/// nothing is written then.
pub proof fn lemma_e1000_refuses(adapter: E1000, frame: Seq<u8>, io: Io)
    ensures
        ({
            let (result, after, later) = adapter.transmit_run(frame, io);
            let free = ((io.replies)(io.reads + 1) >> 32) as u8 & 1 != 0;
            &&& frame.len() > 1514 <==> result == Err::<(), DriverError>(
                DriverError::FrameTooLarge,
            )
            &&& frame.len() <= 1514 && !free <==> result == Err::<(), DriverError>(
                DriverError::WouldBlock,
            )
            &&& frame.len() <= 1514 && free && adapter.tx_buffers.len >= 2048 * (
            adapter.tx_index + 1) ==> result is Ok
            &&& result is Err ==> after == adapter && later.trace.len() <= io.trace.len() + 3
        }),
{
}

/// A frame is taken where the next descriptor is marked done, ends a packet and
/// shows no error: its bytes are those of the descriptor's buffer, as many as the
/// descriptor says.  Then the descriptor goes back with its status clear, and
/// behind a barrier the tail moves to it.
pub proof fn lemma_e1000_receives(adapter: E1000, room: nat, io: Io)
    requires
        e1000_is_placed(adapter),
        adapter.receive_run(room, io).0 is Ok,
    ensures
        ({
            let (result, after, later) = adapter.receive_run(room, io);
            let frame = result->Ok_0;
            let word = (io.replies)(io.reads + 1);
            let ring = adapter.rx_descriptors.address;
            let slot = adapter.rx_index as int;
            let end = later.trace.len() as int;
            let back = match later.trace[end - 3] {
                Access::Write64(_, word) => word,
                _ => 0,
            };
            &&& later.trace[io.trace.len() as int + 2] == Access::Read64(memory_at(ring, 16 * slot + 8))
            &&& (word >> 32) as u8 & 1 != 0
            &&& (word >> 32) as u8 & 2 != 0
            &&& (word >> 40) as u8 == 0
            &&& frame.len() == word as u16
            &&& frame.len() <= 1514
            &&& frame.len() <= room
            &&& forall|i: int|
                0 <= i < frame.len() ==> #[trigger] frame[i] == (io.replies)(
                    (io.reads + 2 + i) as nat,
                ) as u8 && later.trace[io.trace.len() + 4 + i] == Access::Read8(
                    memory_at(adapter.rx_buffers.address, 2048 * slot + i),
                )
            &&& end == io.trace.len() + 8 + frame.len()
            &&& later.trace[end - 4] == Access::Write64(
                memory_at(ring, 16 * slot),
                (io.replies)(io.reads),
            )
            &&& later.trace[end - 3] == Access::Write64(memory_at(ring, 16 * slot + 8), back)
            &&& (back >> 32) as u8 == 0
            &&& back as u16 == 0
            &&& later.trace[end - 2] == Access::Tell(Order::Fence)
            &&& later.trace[end - 1] == Access::Write32(
                memory_at(adapter.registers.base, 0x2818),
                slot as u32,
            )
            &&& after.rx_index == (slot + 1) % 32
            &&& after.tx_index == adapter.tx_index
        }),
{
    let read = RxDescriptor::of((io.replies)(io.reads), (io.replies)(io.reads + 1));
    let written = RxDescriptor { status: 0, length: 0, ..read };
    let tx = TxDescriptor {
        address: 0,
        length: 0,
        checksum_offset: 0,
        command: 0,
        status: 0,
        checksum_start: 0,
        special: 0,
    };
    lemma_descriptor_round_trip(written, tx);
    let later = adapter.receive_run(room, io).2;
    let end = later.trace.len() as int;
    assert(later.trace[end - 3] == Access::Write64(
        memory_at(adapter.rx_descriptors.address, 16 * adapter.rx_index + 8),
        written.word(),
    ));
    assert(RxDescriptor::of(written.address, written.word()) == written);
}

/// When there is no frame, a damaged one, or one that does not fit: a damaged
/// frame's descriptor goes back to the adapter, the others stay.
pub proof fn lemma_e1000_drops(adapter: E1000, room: nat, io: Io)
    requires
        e1000_is_placed(adapter),
    ensures
        ({
            let (result, after, later) = adapter.receive_run(room, io);
            let word = (io.replies)(io.reads + 1);
            let done = (word >> 32) as u8 & 1 != 0;
            let whole = (word >> 32) as u8 & 2 != 0 && (word >> 40) as u8 == 0 && word as u16
                <= 1514;
            &&& !done <==> result == Err::<Seq<u8>, DriverError>(DriverError::NoPacket)
            &&& done && !whole <==> result == Err::<Seq<u8>, DriverError>(
                DriverError::DeviceFault,
            )
            &&& done && whole && room < word as u16 <==> result == Err::<Seq<u8>, DriverError>(
                DriverError::BufferTooSmall,
            )
            &&& done && whole && room >= word as u16 && adapter.rx_buffers.len >= 2048 * (
            adapter.rx_index + 1) ==> result is Ok
            &&& result == Err::<Seq<u8>, DriverError>(DriverError::DeviceFault)
                ==> after.rx_index == (adapter.rx_index + 1) % 32 && later.trace.last()
                == Access::Write32(
                memory_at(adapter.registers.base, 0x2818),
                adapter.rx_index as u32,
            )
            &&& !done || (done && whole && room < word as u16) ==> after == adapter
        }),
{
}

/// Where a register of an adapter is, by its number.
pub open spec fn rtl_register(registers: RegisterIo, number: u16) -> Place {
    match registers {
        RegisterIo::Port(base) => Place::Port((base + number) as u16),
        RegisterIo::Mmio(base) => Place::Memory((base + number) as u64),
    }
}

/// Whether the memory and the registers of an adapter do not run over an end.
pub open spec fn rtl_is_placed(adapter: Rtl8139) -> bool {
    &&& adapter.tx_slot < 4
    &&& adapter.rx_offset < 8192
    &&& match adapter.registers {
        RegisterIo::Port(base) => base + 0x100 <= 0xFFFF,
        RegisterIo::Mmio(base) => base + 0x100 <= u64::MAX,
    }
    &&& adapter.tx.address + 8192 <= u64::MAX
    &&& adapter.rx.address + 9744 <= u64::MAX
}

/// A frame that is sent lies padded in the buffer of the next slot, which was
/// free; behind a barrier its length goes to the slot's register.
pub proof fn lemma_rtl8139_sends(adapter: Rtl8139, frame: Seq<u8>, io: Io)
    requires
        rtl_is_placed(adapter),
        adapter.transmit_run(frame, io).0 is Ok,
    ensures
        ({
            let (_, after, later) = adapter.transmit_run(frame, io);
            let bytes = frame_padded(frame);
            let slot = adapter.tx_slot as int;
            let status = rtl_register(adapter.registers, (0x10 + 4 * slot) as u16);
            let end = later.trace.len() as int;
            &&& frame.len() <= 1514
            &&& is_padded(frame, bytes)
            &&& later.trace[io.trace.len() as int] == Access::Read32(status)
            &&& io.reply() as u32 & 0x2000 != 0
            &&& end == io.trace.len() + 3 + bytes.len()
            &&& forall|i: int|
                0 <= i < bytes.len() ==> later.trace[io.trace.len() + 1 + i] == Access::Write8(
                    memory_at(adapter.tx.address, 2048 * slot + i),
                    #[trigger] bytes[i],
                )
            &&& later.trace[end - 2] == Access::Tell(Order::Fence)
            &&& later.trace[end - 1] == Access::Write32(status, bytes.len() as u32)
            &&& after.tx_slot == (slot + 1) % 4
            &&& after.rx_offset == adapter.rx_offset
        }),
{
}

/// A frame is taken where the ring is not empty and its header is sound: the
/// bytes behind the four of the header, without the checksum, round the end of
/// the ring.  The read pointer then stands 16 bytes before the next header, which
/// lies at a multiple of four.
pub proof fn lemma_rtl8139_receives(adapter: Rtl8139, room: nat, io: Io)
    requires
        rtl_is_placed(adapter),
        adapter.receive_run(room, io).0 is Ok,
    ensures
        ({
            let (result, after, later) = adapter.receive_run(room, io);
            let frame = result->Ok_0;
            let heard = |i: int| (io.replies)((io.reads + i) as nat) as u8;
            let ring = |i: int| memory_at(adapter.rx.address, (adapter.rx_offset + i) % 8192);
            let length = heard(3) as int + 256 * heard(4);
            let end = later.trace.len() as int;
            &&& later.trace[io.trace.len() as int] == Access::Read8(
                rtl_register(adapter.registers, 0x37),
            )
            &&& heard(0) & 1 == 0
            &&& heard(1) & 1 != 0
            &&& 4 <= length <= 1518
            &&& frame.len() == length - 4
            &&& frame.len() <= room
            &&& forall|i: int|
                0 <= i < 4 + frame.len() ==> #[trigger] later.trace[io.trace.len() + 2 + i]
                    == Access::Read8(ring(i))
            &&& forall|i: int| 0 <= i < frame.len() ==> #[trigger] frame[i] == heard(5 + i)
            &&& end == io.trace.len() + 8 + frame.len()
            &&& later.trace[end - 2] == Access::Write16(
                rtl_register(adapter.registers, 0x38),
                after.rx_offset.wrapping_sub(16),
            )
            &&& later.trace[end - 1] == Access::Write16(
                rtl_register(adapter.registers, 0x3e),
                0xFFFF,
            )
            &&& after.rx_offset == (adapter.rx_offset + 4 + length + 3) / 4 * 4 % 8192
            &&& after.tx_slot == adapter.tx_slot
        }),
{
    let heard = |i: int| (io.replies)((io.reads + i) as nat) as u8;
    lemma_wire_bits(heard(1), heard(2));
    lemma_wire_bits(heard(3), heard(4));
    let later = adapter.receive_run(room, io).2;
    let frame = adapter.receive_run(room, io).0->Ok_0;
    assert forall|i: int| 0 <= i < 4 + frame.len() implies #[trigger] later.trace[io.trace.len() + 2
        + i] == Access::Read8(memory_at(adapter.rx.address, (adapter.rx_offset + i) % 8192)) by {
        if i >= 4 {
            assert((adapter.rx_offset + 4) + (i - 4) == adapter.rx_offset + i);
        }
    }
}

proof fn lemma_descriptors(memory: e1000::Memory, from: int, io: Io)
    requires
        0 <= from <= 32,
        memory.rx_descriptors.address + 512 <= u64::MAX,
        memory.tx_descriptors.address + 512 <= u64::MAX,
        memory.rx_buffers.first + 65536 <= u64::MAX,
        memory.tx_buffers.first + 65536 <= u64::MAX,
        memory.rx_buffers.len == 65536,
        memory.tx_buffers.len == 65536,
    ensures
        ({
            let later = e1000::descriptors_run(memory, from, io);
            let start = io.trace.len() as int;
            let rx = memory.rx_descriptors.address;
            let tx = memory.tx_descriptors.address;
            &&& later.trace.len() == start + 4 * (32 - from)
            &&& forall|i: int| 0 <= i < start ==> #[trigger] later.trace[i] == io.trace[i]
            &&& forall|i: int|
                #![trigger later.trace[start + 4 * (i - from)]]
                from <= i < 32 ==> {
                    let at = start + 4 * (i - from);
                    &&& later.trace[at] == Access::Write64(
                        memory_at(rx, 16 * i),
                        (memory.rx_buffers.first + 2048 * i) as u64,
                    )
                    &&& later.trace[at + 1] == Access::Write64(memory_at(rx, 16 * i + 8), 0)
                    &&& later.trace[at + 2] == Access::Write64(
                        memory_at(tx, 16 * i),
                        (memory.tx_buffers.first + 2048 * i) as u64,
                    )
                    &&& later.trace[at + 3] == Access::Write64(
                        memory_at(tx, 16 * i + 8),
                        0x1_0000_0000,
                    )
                }
        }),
    decreases 32 - from,
{
    lemma_wire_bits(0, 0);
    if from < 32 {
        let rx = e1000::fresh_rx((memory.rx_buffers.first + 2048 * from) as u64);
        let tx = e1000::fresh_tx((memory.tx_buffers.first + 2048 * from) as u64);
        let one = e1000::put_rx(memory.rx_descriptors.address, from, rx, io);
        let two = e1000::put_tx(memory.tx_descriptors.address, from, tx, one);
        lemma_descriptors(memory, from + 1, two);
        let later = e1000::descriptors_run(memory, from, io);
        assert(later == e1000::descriptors_run(memory, from + 1, two));
        let start = io.trace.len() as int;
        assert forall|i: int| 0 <= i < start implies #[trigger] later.trace[i] == io.trace[i] by {
            assert(later.trace[i] == two.trace[i]);
        }
        assert forall|i: int|
            #![trigger later.trace[start + 4 * (i - from)]]
            from <= i < 32 implies {
            let at = start + 4 * (i - from);
            &&& later.trace[at] == Access::Write64(
                memory_at(memory.rx_descriptors.address, 16 * i),
                (memory.rx_buffers.first + 2048 * i) as u64,
            )
            &&& later.trace[at + 1] == Access::Write64(
                memory_at(memory.rx_descriptors.address, 16 * i + 8),
                0,
            )
            &&& later.trace[at + 2] == Access::Write64(
                memory_at(memory.tx_descriptors.address, 16 * i),
                (memory.tx_buffers.first + 2048 * i) as u64,
            )
            &&& later.trace[at + 3] == Access::Write64(
                memory_at(memory.tx_descriptors.address, 16 * i + 8),
                0x1_0000_0000,
            )
        } by {
            if i == from {
                assert(later.trace[start] == two.trace[start]);
                assert(later.trace[start + 1] == two.trace[start + 1]);
                assert(later.trace[start + 2] == two.trace[start + 2]);
                assert(later.trace[start + 3] == two.trace[start + 3]);
            } else {
                let at = (start + 4) + 4 * (i - (from + 1));
                assert(later.trace[at] == later.trace[start + 4 * (i - from)]);
            }
        }
    }
}

/// An adapter starts with 32 receive descriptors that each hand it a buffer of their
/// own, and 32 transmit descriptors that are marked done.
pub proof fn lemma_e1000_rings_are_filled(memory: e1000::Memory, io: Io)
    requires
        memory.rx_descriptors.address + 512 <= u64::MAX,
        memory.tx_descriptors.address + 512 <= u64::MAX,
        memory.rx_buffers.first + 65536 <= u64::MAX,
        memory.tx_buffers.first + 65536 <= u64::MAX,
        memory.rx_buffers.len == 65536,
        memory.tx_buffers.len == 65536,
    ensures
        ({
            let later = e1000::descriptors_run(memory, 0, io);
            let start = io.trace.len() as int;
            &&& later.trace.len() == start + 128
            &&& forall|i: int|
                #![trigger later.trace[start + 4 * i]]
                0 <= i < 32 ==> {
                    &&& later.trace[start + 4 * i] == Access::Write64(
                        memory_at(memory.rx_descriptors.address, 16 * i),
                        (memory.rx_buffers.first + 2048 * i) as u64,
                    )
                    &&& later.trace[start + 4 * i + 1] == Access::Write64(
                        memory_at(memory.rx_descriptors.address, 16 * i + 8),
                        0,
                    )
                    &&& later.trace[start + 4 * i + 2] == Access::Write64(
                        memory_at(memory.tx_descriptors.address, 16 * i),
                        (memory.tx_buffers.first + 2048 * i) as u64,
                    )
                    &&& later.trace[start + 4 * i + 3] == Access::Write64(
                        memory_at(memory.tx_descriptors.address, 16 * i + 8),
                        0x1_0000_0000,
                    )
                }
        }),
{
    lemma_descriptors(memory, 0, io);
    let later = e1000::descriptors_run(memory, 0, io);
    let start = io.trace.len() as int;
    assert forall|i: int|
        #![trigger later.trace[start + 4 * i]]
        0 <= i < 32 implies later.trace[start + 4 * i] == later.trace[start + 4 * (i - 0)] by {}
}

/// How an adapter is started: both rings by address and length, all receive buffers
/// handed over, nothing to send; then the receiver with broadcasts and without
/// checksums, and the transmitter with padding and the usual collision limits.
pub proof fn lemma_e1000_is_started(registers: Mmio, memory: e1000::Memory, io: Io)
    requires
        registers.base + 0x2_0000 <= u64::MAX,
    ensures
        ({
            let later = e1000::start_run(registers, memory, io);
            let set = |offset: int, value: u32|
                last_written(later, memory_at(registers.base, offset)) == Some(
                    Access::Write32(memory_at(registers.base, offset), value),
                );
            &&& set(0x2800, memory.rx_descriptors.first as u32)
            &&& set(0x2804, (memory.rx_descriptors.first >> 32) as u32)
            &&& set(0x2808, 512)
            &&& set(0x2810, 0)
            &&& set(0x2818, 31)
            &&& set(0x3800, memory.tx_descriptors.first as u32)
            &&& set(0x3804, (memory.tx_descriptors.first >> 32) as u32)
            &&& set(0x3808, 512)
            &&& set(0x3810, 0)
            &&& set(0x3818, 0)
            &&& set(0x0100, (0x2 + 0x8000 + 0x400_0000) as u32)
            &&& set(0x0400, (0x2 + 0x8 + 16 * 0x10 + 64 * 0x1000) as u32)
            &&& set(0x0410, (10 + 8 * 0x400 + 6 * 0x10_0000) as u32)
        }),
{
    broadcast use group_observed;

}

/// How an adapter is started: interrupts masked and acknowledged, the receive ring
/// and the four transmit buffers by address, bursts and filters, an empty ring, and
/// then both directions on.
pub proof fn lemma_rtl8139_is_started(registers: RegisterIo, rx: DmaRegion, tx: DmaRegion, io: Io)
    requires
        match registers {
            RegisterIo::Port(base) => base + 0x100 <= 0xFFFF,
            RegisterIo::Mmio(base) => base + 0x100 <= u64::MAX,
        },
        tx.len == 8192,
        tx.first + 8192 <= u64::MAX,
    ensures
        ({
            let later = rtl8139::start_run(registers, rx, tx, io);
            let at = |number: u16| rtl_register(registers, number);
            let set32 = |number: u16, value: u32|
                last_written(later, at(number)) == Some(Access::Write32(at(number), value));
            &&& last_written(later, at(0x3c)) == Some(Access::Write16(at(0x3c), 0))
            &&& last_written(later, at(0x3e)) == Some(Access::Write16(at(0x3e), 0xFFFF))
            &&& set32(0x30, rx.first as u32)
            &&& set32(0x20, tx.first as u32)
            &&& set32(0x24, (tx.first + 2048) as u32)
            &&& set32(0x28, (tx.first + 4096) as u32)
            &&& set32(0x2c, (tx.first + 6144) as u32)
            &&& set32(0x40, (6 * 0x100 + 3 * 0x100_0000) as u32)
            &&& set32(0x44, (7 * 0x100 + 0x80 + 0x0e) as u32)
            &&& last_written(later, at(0x38)) == Some(Access::Write16(at(0x38), 0xfff0))
            &&& later.trace.last() == Access::Write8(at(0x37), 0x08u8 | 0x04u8)
        }),
{
    broadcast use group_observed;

}

/// An E1000's interrupt is claimed by reading its causes at 0xC0, where the adapter is
/// there; a cause that is served masks them all at 0xD8, and they are armed again at
/// 0xD0.
pub proof fn lemma_e1000_interrupts(handle: e1000::InterruptHandle, io: Io)
    requires
        handle.registers.base + 0x100 <= u64::MAX,
    ensures
        ({
            let (causes, later) = handle.acknowledge_run(io);
            let status = io.reply() as u32;
            let base = handle.registers.base;
            let read = io.trace.push(Access::Read32(memory_at(base, 0xC0)));
            &&& status == 0xFFFF_FFFF ==> causes == 0
            &&& status != 0xFFFF_FFFF ==> causes == status & 0xDD
            &&& causes == 0 ==> later.trace == read
            &&& causes != 0 ==> later.trace == read.push(
                Access::Write32(memory_at(base, 0xD8), 0xDD),
            )
            &&& handle.enable_run(io).trace == io.trace.push(
                Access::Write32(memory_at(base, 0xD0), 0xDD),
            )
        }),
{
}

/// An RTL8139's interrupt is claimed by reading its causes at 0x3E, where the adapter
/// is there; a cause that is served masks all at 0x3C and is acknowledged where it was
/// read, and they are armed again at 0x3C.
pub proof fn lemma_rtl8139_interrupts(handle: rtl8139::InterruptHandle, io: Io)
    requires
        match handle.registers {
            RegisterIo::Port(base) => base + 0x100 <= 0xFFFF,
            RegisterIo::Mmio(base) => base + 0x100 <= u64::MAX,
        },
    ensures
        ({
            let (causes, later) = handle.acknowledge_run(io);
            let status = io.reply() as u16;
            let at = |number: u16| rtl_register(handle.registers, number);
            let read = io.trace.push(Access::Read16(at(0x3e)));
            &&& status == 0xFFFF ==> causes == 0
            &&& status != 0xFFFF ==> causes == (status & 0x807F) as u32
            &&& causes == 0 ==> later.trace == read
            &&& causes != 0 ==> later.trace == read.push(Access::Write16(at(0x3c), 0)).push(
                Access::Write16(at(0x3e), causes as u16),
            )
            &&& handle.enable_run(io).trace == io.trace.push(
                Access::Write16(at(0x3c), 0x807F),
            )
        }),
{
}

/// An E1000 that was reset had its interrupts masked before and after, was asked for
/// the reset by bit 26 of its control register, and showed that bit clear; then its
/// link is forced up by bit six.
pub proof fn lemma_e1000_is_reset(registers: Mmio, io: Io)
    requires
        registers.base + 0x2_0000 <= u64::MAX,
        e1000::reset_run(registers, io).0 is Ok,
    ensures
        ({
            let later = e1000::reset_run(registers, io).1;
            let base = registers.base;
            let end = later.trace.len() as int;
            let start = io.trace.len() as int;
            &&& later.trace[start] == Access::Write32(memory_at(base, 0xD8), 0xFFFF_FFFF)
            &&& later.trace[start + 2] == Access::Write32(
                memory_at(base, 0),
                io.reply() as u32 | 0x0400_0000u32,
            )
            &&& later.trace[end - 4] == Access::Write32(memory_at(base, 0xD8), 0xFFFF_FFFF)
            &&& later.trace[end - 3] == Access::Read32(memory_at(base, 0xC0))
            &&& later.trace[end - 2] == Access::Read32(memory_at(base, 0))
            &&& later.trace[end - 1] == Access::Write32(
                memory_at(base, 0),
                (later.replies)((later.reads - 1) as nat) as u32 | 0x40u32,
            )
            &&& (later.replies)((later.reads - 3) as nat) as u32 & 0x0400_0000 == 0
        }),
{
    let place = registers.register(0);
    let masked = io.w32(registers.register(0xD8), u32::MAX);
    let (control, read) = masked.r32(place);
    let asked = read.w32(place, control | 0x0400_0000u32);
    lemma_poll_shape(place, 0x0400_0000, e1000::RESET_POLL_LIMIT as nat, asked);
}


/// When an RTL8139 sends nothing: a frame that is too long, or a slot that is not free;
/// nothing is written then.
pub proof fn lemma_rtl8139_refuses(adapter: Rtl8139, frame: Seq<u8>, io: Io)
    ensures
        ({
            let (result, after, later) = adapter.transmit_run(frame, io);
            let free = io.reply() as u32 & 0x2000 != 0;
            &&& frame.len() > 1514 <==> result == Err::<(), DriverError>(
                DriverError::FrameTooLarge,
            )
            &&& frame.len() <= 1514 && !free <==> result == Err::<(), DriverError>(
                DriverError::WouldBlock,
            )
            &&& frame.len() <= 1514 && free && adapter.tx.len >= 2048 * (adapter.tx_slot + 1)
                ==> result is Ok
            &&& result is Err ==> after == adapter && later.trace.len() <= io.trace.len() + 1
        }),
{
}

/// When an RTL8139 has no frame to give: its ring is empty, the header in it makes no
/// sense, which restarts the receiver at the start of the ring, or the frame does not
/// fit, and stays.
pub proof fn lemma_rtl8139_drops(adapter: Rtl8139, room: nat, io: Io)
    requires
        rtl_is_placed(adapter),
    ensures
        ({
            let (result, after, later) = adapter.receive_run(room, io);
            let heard = |i: int| (io.replies)((io.reads + i) as nat) as u8;
            let length = heard(3) as int + 256 * heard(4);
            let empty = heard(0) & 1 != 0;
            let sound = heard(1) & 1 != 0 && 4 <= length <= 1518;
            &&& empty <==> result == Err::<Seq<u8>, DriverError>(DriverError::NoPacket)
            &&& !empty && !sound <==> result == Err::<Seq<u8>, DriverError>(
                DriverError::DeviceFault,
            )
            &&& !empty && sound && room < length - 4 <==> result == Err::<Seq<u8>, DriverError>(
                DriverError::BufferTooSmall,
            )
            &&& !empty && sound && room >= length - 4 ==> result is Ok
            &&& empty || (sound && room < length - 4) ==> after == adapter
            &&& !empty && !sound ==> after.rx_offset == 0 && last_written(
                later,
                rtl_register(adapter.registers, 0x38),
            ) == Some(Access::Write16(rtl_register(adapter.registers, 0x38), 0xFFF0))
                && last_written(later, rtl_register(adapter.registers, 0x30)) == Some(
                Access::Write32(rtl_register(adapter.registers, 0x30), adapter.rx.first as u32),
            )
        }),
{
    broadcast use group_observed;

    let heard = |i: int| (io.replies)((io.reads + i) as nat) as u8;
    lemma_wire_bits(heard(1), heard(2));
    lemma_wire_bits(heard(3), heard(4));
}

/// An adapter's interrupt is wired in order: a line that is not the keyboard's or the
/// mouse's is routed to vector 0x40 on the running processor, and only then the function
/// may raise it, and last of all the adapter does.  Where the line cannot be routed,
/// nothing is bound, and nothing is let through.
pub proof fn lemma_interrupt_is_wired(
    network: NetworkModel,
    routes: Seq<FirmwareRoute>,
    parents: Seq<Option<ParentBridge>>,
    device: PciDevice,
    index: usize,
    irq: IrqDevice,
    io: Io,
)
    ensures
        ({
            let (wired, after, later) = network.intx_run(routes, parents, device, index, irq, io);
            let gsi = NetworkModel::interrupt_of(routes, parents, device);
            let start = io.trace.len() as int;
            let processor = (io.replies)(io.reads + 1);
            &&& gsi is Some ==> gsi->0 != 1 && gsi->0 != 12
            &&& wired ==> {
                &&& gsi is Some
                &&& io.reply() != 0
                &&& processor <= 255
                &&& (io.replies)(io.reads + 2) != 0
                &&& later.trace[start] == Access::Ask(Query::IoApicCount)
                &&& later.trace[start + 1] == Access::Ask(Query::LocalApicId)
                &&& later.trace[start + 2] == Access::Ask(
                    Query::Route(gsi->0, 0x40, processor as u8),
                )
                &&& after.bindings == network.bindings.push(
                    IrqBinding { adapter_index: index, device: irq },
                )
                &&& later.trace.len() > start + 3
            }
            &&& !wired && after.bindings == network.bindings ==> later.trace.len() <= start + 3
            &&& after.adapters == network.adapters
            &&& after.pending == network.pending
        }),
{
}

} // verus!
