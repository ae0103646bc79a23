//! Configuration space as the bus holds it.
use vstd::prelude::*;
use crate::machine::{Access, Io, Place};
use crate::pci;
use crate::pci::config::{lemma_select_word_is_packed, PciAddress};
use crate::pci::enumerate;
use crate::pci::enumerate::PciHeaderKind;
use crate::trace::{group_observed, observed};

verus! {

/// The dwords of a configuration space that nobody writes, by their numbers, and
/// whether every reading through the two ports gave what is there.
pub struct SpaceView {
    pub selected: u32,
    pub faithful: bool,
}

/// A bus behind the ports 0xCF8, which selects a dword, and 0xCFC, which is that
/// dword.
pub open spec fn space_step(held: spec_fn(int) -> u32) -> spec_fn(
    SpaceView,
    Access,
    u64,
) -> SpaceView {
    |view: SpaceView, access: Access, reply: u64|
        match access {
            Access::Write32(Place::Port(0xCF8), value) => SpaceView { selected: value, ..view },
            Access::Read32(Place::Port(0xCFC)) => SpaceView {
                faithful: view.faithful && reply as u32 == held(view.selected as int),
                ..view
            },
            _ => view,
        }
}

pub open spec fn space_view(held: spec_fn(int) -> u32, io: Io) -> SpaceView {
    observed(io, SpaceView { selected: 0, faithful: true }, space_step(held))
}

/// The number of the dword at an offset of a function.
pub open spec fn dword_number(address: PciAddress, offset: int) -> int {
    0x8000_0000 + address.bus * 65536 + address.dev * 2048 + address.func * 256 + offset
}

proof fn lemma_read_is_faithful(address: PciAddress, offset: u8, held: spec_fn(int) -> u32, io: Io)
    requires
        address.is_valid(),
        offset % 4 == 0,
        space_view(held, address.read32_run(offset, io).1).faithful,
    ensures
        space_view(held, io).faithful,
        address.read32_run(offset, io).0 == held(dword_number(address, offset as int)),
{
    broadcast use group_observed;

    lemma_select_word_is_packed(address, offset);
}

proof fn lemma_parts(word: u32)
    by (bit_vector)
    ensures
        word as u16 == word % 0x1_0000,
        (word >> 16) as u16 == word / 0x1_0000,
        (word >> 8) & 0x00FF_FFFF == word / 0x100,
        ((word >> 16) & 0xFF) as u8 == word / 0x1_0000 % 0x100,
        word as u8 == word % 0x100,
        (word & 0xFF) as u8 == word % 0x100,
        ((word >> 8) & 0xFF) as u8 == word / 0x100 % 0x100,
        ((word >> 24) & 0xFF) as u8 == word / 0x100_0000,
        (((word >> 16) & 0xFF) as u8) & 0x80 != 0 <==> word / 0x80_0000 % 2 == 1,
        (((word >> 16) & 0xFF) as u8) & 0x7F == word / 0x1_0000 % 0x80,
{
}

/// A probe finds what the header of a function holds: vendor and device in the dword
/// at 0, the class in the upper three bytes at 8, the six base address registers
/// from 0x10 on, and the interrupt line in the lowest byte at 0x3C.  A vendor of all
/// ones means that there is no function.
pub proof fn lemma_probe_finds_header(address: PciAddress, held: spec_fn(int) -> u32, io: Io)
    requires
        address.is_valid(),
        space_view(held, pci::PciDevice::probe_run(address, io).1).faithful,
    ensures
        ({
            let found = pci::PciDevice::probe_run(address, io).0;
            let at = |offset: int| held(dword_number(address, offset)) as int;
            &&& found is None <==> at(0) % 0x1_0000 == 0xFFFF
            &&& found is Some ==> {
                let device = found->0;
                &&& device.bus == address.bus && device.dev == address.dev && device.func
                    == address.func
                &&& device.vendor == at(0) % 0x1_0000
                &&& device.device == at(0) / 0x1_0000
                &&& device.class == at(8) / 0x100
                &&& device.bars[0] == at(0x10)
                &&& device.bars[1] == at(0x14)
                &&& device.bars[2] == at(0x18)
                &&& device.bars[3] == at(0x1C)
                &&& device.bars[4] == at(0x20)
                &&& device.bars[5] == at(0x24)
                &&& device.irq == at(0x3C) % 0x100
            }
        }),
{
    let first = address.read32_run(0, io);
    lemma_parts(first.0);
    if first.0 as u16 == 0xFFFF {
        lemma_read_is_faithful(address, 0, held, io);
    } else {
        let second = address.read32_run(0, first.1);
        let class = address.read32_run(8, second.1);
        let b0 = address.read32_run(0x10, class.1);
        let b1 = address.read32_run(0x14, b0.1);
        let b2 = address.read32_run(0x18, b1.1);
        let b3 = address.read32_run(0x1C, b2.1);
        let b4 = address.read32_run(0x20, b3.1);
        let b5 = address.read32_run(0x24, b4.1);
        let line = address.read32_run(0x3C, b5.1);
        lemma_parts(second.0);
        lemma_parts(class.0);
        lemma_parts(line.0);
        lemma_read_is_faithful(address, 0x3C, held, b5.1);
        lemma_read_is_faithful(address, 0x24, held, b4.1);
        lemma_read_is_faithful(address, 0x20, held, b3.1);
        lemma_read_is_faithful(address, 0x1C, held, b2.1);
        lemma_read_is_faithful(address, 0x18, held, b1.1);
        lemma_read_is_faithful(address, 0x14, held, b0.1);
        lemma_read_is_faithful(address, 0x10, held, class.1);
        lemma_read_is_faithful(address, 8, held, second.1);
        lemma_read_is_faithful(address, 0, held, first.1);
        lemma_read_is_faithful(address, 0, held, io);
    }
}

/// The scan finds more of a header: revision, interface, subclass and class byte by
/// byte at 8, the layout and the mark for several functions in the third byte at
/// 0x0C, and the interrupt line and pin at 0x3C.
pub proof fn lemma_scan_finds_header(address: PciAddress, held: spec_fn(int) -> u32, io: Io)
    requires
        address.is_valid(),
        space_view(held, enumerate::PciDevice::probe_run(address, io).1).faithful,
    ensures
        ({
            let found = enumerate::PciDevice::probe_run(address, io).0;
            let at = |offset: int| held(dword_number(address, offset)) as int;
            let layout = at(0x0C) / 0x1_0000 % 0x80;
            &&& found is None <==> at(0) % 0x1_0000 == 0xFFFF
            &&& found is Some ==> {
                let device = found->0;
                &&& device.address == address
                &&& device.vendor_id == at(0) % 0x1_0000
                &&& device.device_id == at(0) / 0x1_0000
                &&& device.revision == at(8) % 0x100
                &&& device.prog_if == at(8) / 0x100 % 0x100
                &&& device.subclass == at(8) / 0x1_0000 % 0x100
                &&& device.base_class == at(8) / 0x100_0000
                &&& device.header_kind == PciHeaderKind::Device <==> layout == 0
                &&& device.header_kind == PciHeaderKind::Bridge <==> layout == 1
                &&& device.header_kind == PciHeaderKind::CardBus <==> layout == 2
                &&& device.multifunction <==> at(0x0C) / 0x80_0000 % 2 == 1
                &&& device.bars[0] == at(0x10)
                &&& device.bars[1] == at(0x14)
                &&& device.bars[2] == at(0x18)
                &&& device.bars[3] == at(0x1C)
                &&& device.bars[4] == at(0x20)
                &&& device.bars[5] == at(0x24)
                &&& device.interrupt_line == at(0x3C) % 0x100
                &&& device.interrupt_pin == at(0x3C) / 0x100 % 0x100
            }
        }),
{
    let first = address.read32_run(0, io);
    lemma_parts(first.0);
    if first.0 as u16 == 0xFFFF {
        lemma_read_is_faithful(address, 0, held, io);
    } else {
        let second = address.read32_run(0, first.1);
        let class = address.read32_run(8, second.1);
        let header = address.read32_run(0x0C, class.1);
        let b0 = address.read32_run(0x10, header.1);
        let b1 = address.read32_run(0x14, b0.1);
        let b2 = address.read32_run(0x18, b1.1);
        let b3 = address.read32_run(0x1C, b2.1);
        let b4 = address.read32_run(0x20, b3.1);
        let b5 = address.read32_run(0x24, b4.1);
        let line = address.read32_run(0x3C, b5.1);
        lemma_parts(second.0);
        lemma_parts(class.0);
        lemma_parts(header.0);
        lemma_parts(line.0);
        lemma_read_is_faithful(address, 0x3C, held, b5.1);
        lemma_read_is_faithful(address, 0x24, held, b4.1);
        lemma_read_is_faithful(address, 0x20, held, b3.1);
        lemma_read_is_faithful(address, 0x1C, held, b2.1);
        lemma_read_is_faithful(address, 0x18, held, b1.1);
        lemma_read_is_faithful(address, 0x14, held, b0.1);
        lemma_read_is_faithful(address, 0x10, held, header.1);
        lemma_read_is_faithful(address, 0x0C, held, class.1);
        lemma_read_is_faithful(address, 8, held, second.1);
        lemma_read_is_faithful(address, 0, held, first.1);
        lemma_read_is_faithful(address, 0, held, io);
    }
}

} // verus!
