//! The linked list of capabilities in configuration space, and the two
//! capabilities by which a function signals interrupts with messages.
use vstd::prelude::*;
use crate::bits::{lemma_mask16, no_flags};
use crate::machine::{Io, Machine};
use crate::pci::config::{PciAddress, PciHeaderType};

verus! {

/// Message-signalled interrupts.
pub const CAP_ID_MSI: u8 = 0x05;
/// Message-signalled interrupts, extended.
pub const CAP_ID_MSIX: u8 = 0x11;
/// As many capabilities as fit behind the header.
pub const MAX_CAPABILITIES: usize = 48;

pub const STATUS_CAPABILITIES_LIST: u16 = 0x0010;
pub const TYPE0_CAP_POINTER: u8 = 0x34;
pub const CARDBUS_CAP_POINTER: u8 = 0x14;

/// One capability: what it is and where it lies.
#[derive(Clone, Copy, Debug, PartialEq, Eq, Structural)]
pub struct PciCapability {
    pub id: u8,
    pub offset: u8,
}

impl Default for PciCapability {
    fn default() -> (capability: Self)
        ensures
            capability == (PciCapability { id: 0, offset: 0 }),
    {
        PciCapability { id: 0, offset: 0 }
    }
}

#[derive(Clone, Copy, Debug, PartialEq, Eq, Structural)]
pub enum CapabilityError {
    /// A pointer that is not dword aligned, or that lies in the header.
    InvalidPointer(u8),
    /// A pointer to a capability that was seen before.
    Loop(u8),
    /// More capabilities than fit.
    TooMany,
    /// The capability is not the one asked for.
    WrongCapability,
    /// The capability runs over the end of configuration space.
    Truncated,
    /// The table lies behind a base address register that does not exist.
    InvalidBir(u8),
}

/// The capabilities of a function, in list order.
#[derive(Clone, Debug, PartialEq, Eq)]
pub struct CapabilityList {
    entries: Vec<PciCapability>,
}

impl View for CapabilityList {
    type V = Seq<PciCapability>;

    closed spec fn view(&self) -> Seq<PciCapability> {
        self.entries@
    }
}

/// The first capability with the given number, from `from` on.
pub open spec fn first_with_id(list: Seq<PciCapability>, id: u8, from: int) -> Option<PciCapability>
    decreases list.len() - from,
{
    if from >= list.len() {
        None
    } else if list[from].id == id {
        Some(list[from])
    } else {
        first_with_id(list, id, from + 1)
    }
}

impl CapabilityList {
    fn new() -> (list: Self)
        ensures
            list@ == Seq::<PciCapability>::empty(),
    {
        CapabilityList { entries: Vec::new() }
    }

    /// The capabilities, in list order.
    pub fn iter(&self) -> (entries: &Vec<PciCapability>)
        ensures
            entries@ == self@,
    {
        &self.entries
    }

    /// The first capability with the given number.
    pub fn find(&self, id: u8) -> (found: Option<PciCapability>)
        ensures
            found == first_with_id(self@, id, 0),
    {
        let mut i: usize = 0;
        while i < self.entries.len()
            invariant
                i <= self@.len(),
                first_with_id(self@, id, 0) == first_with_id(self@, id, i as int),
            decreases self@.len() - i,
        {
            if self.entries[i].id == id {
                return Some(self.entries[i]);
            }
            i = i + 1;
        }
        None
    }

    pub fn len(&self) -> (len: usize)
        ensures
            len == self@.len(),
    {
        self.entries.len()
    }

    pub fn is_empty(&self) -> (empty: bool)
        ensures
            empty == (self@.len() == 0),
    {
        self.entries.len() == 0
    }
}

/// Whether a pointer leads to a dword behind the header.
pub open spec fn is_valid_pointer(pointer: u8) -> bool {
    0x40 <= pointer <= 0xfc && pointer & 3 == 0
}

/// Whether `offset` is where one of the capabilities lies.
pub open spec fn seen(found: Seq<PciCapability>, offset: u8) -> bool {
    exists|i: int| 0 <= i < found.len() && (#[trigger] found[i]).offset == offset
}

/// Follow the list from `pointer`, behind what was found already.
pub open spec fn walk_run(
    address: PciAddress,
    pointer: u8,
    found: Seq<PciCapability>,
    io: Io,
) -> (Result<Seq<PciCapability>, CapabilityError>, Io)
    decreases MAX_CAPABILITIES - found.len(),
{
    if pointer == 0 {
        (Ok(found), io)
    } else if !is_valid_pointer(pointer) {
        (Err(CapabilityError::InvalidPointer(pointer)), io)
    } else if seen(found, pointer) {
        (Err(CapabilityError::Loop(pointer)), io)
    } else if found.len() >= MAX_CAPABILITIES {
        (Err(CapabilityError::TooMany), io)
    } else {
        let (id, io) = address.read8_run(pointer, io);
        let (next, io) = address.read8_run((pointer + 1) as u8, io);
        walk_run(address, next, found.push(PciCapability { id, offset: pointer }), io)
    }
}

/// The whole list of a function: empty where the status word says so.
pub open spec fn list_run(
    address: PciAddress,
    io: Io,
) -> (Result<Seq<PciCapability>, CapabilityError>, Io) {
    let (status, io) = address.status_run(io);
    if status & STATUS_CAPABILITIES_LIST == 0 {
        (Ok(Seq::<PciCapability>::empty()), io)
    } else {
        let (header, io) = address.header_byte_run(io);
        let register = if PciHeaderType::of_byte(header) == PciHeaderType::CardbusBridge {
            CARDBUS_CAP_POINTER
        } else {
            TYPE0_CAP_POINTER
        };
        let (pointer, io) = address.read8_run(register, io);
        walk_run(address, pointer, Seq::<PciCapability>::empty(), io)
    }
}

/// Whether a list or error is the one that the list function names.
pub open spec fn same_list(
    result: Result<CapabilityList, CapabilityError>,
    expected: Result<Seq<PciCapability>, CapabilityError>,
) -> bool {
    match (result, expected) {
        (Ok(list), Ok(entries)) => list@ == entries,
        (Err(a), Err(b)) => a == b,
        _ => false,
    }
}

/// Read the capabilities of a function.
pub fn walk<M: Machine>(machine: &mut M, address: PciAddress) -> (result: Result<
    CapabilityList,
    CapabilityError,
>)
    ensures
        same_list(result, list_run(address, old(machine).io()).0),
        final(machine).io() == list_run(address, old(machine).io()).1,
{
    if address.read_status(machine) & STATUS_CAPABILITIES_LIST == 0 {
        return Ok(CapabilityList::new());
    }
    let pointer_register: u8 = match address.read_header_type(machine) {
        PciHeaderType::CardbusBridge => CARDBUS_CAP_POINTER,
        _ => TYPE0_CAP_POINTER,
    };
    let pointer: u8 = address.read8(machine, pointer_register);
    walk_from(machine, address, pointer)
}

/// Whether a pointer leads to a dword behind the header.
pub fn valid_pointer(pointer: u8) -> (valid: bool)
    ensures
        valid == is_valid_pointer(pointer),
{
    0x40 <= pointer && pointer <= 0xfc && pointer & 3 == 0
}

/// Follow the list from `pointer`.
pub fn walk_from<M: Machine>(machine: &mut M, address: PciAddress, pointer: u8) -> (result: Result<
    CapabilityList,
    CapabilityError,
>)
    ensures
        same_list(
            result,
            walk_run(address, pointer, Seq::<PciCapability>::empty(), old(machine).io()).0,
        ),
        final(machine).io() == walk_run(
            address,
            pointer,
            Seq::<PciCapability>::empty(),
            old(machine).io(),
        ).1,
{
    let mut next: u8 = pointer;
    let mut list = CapabilityList::new();
    let mut visited: [bool; 256] = no_flags();
    proof {
        assert forall|o: u8| #[trigger] visited@[o as int] == seen(list@, o) by {
            assert(!visited@[o as int]);
            assert(!seen(list@, o));
        }
    }
    while next != 0
        invariant
            list@.len() <= MAX_CAPABILITIES,
            forall|o: u8| #[trigger] visited@[o as int] == seen(list@, o),
            walk_run(address, pointer, Seq::<PciCapability>::empty(), old(machine).io()) == walk_run(
                address,
                next,
                list@,
                machine.io(),
            ),
        decreases MAX_CAPABILITIES - list@.len(),
    {
        if !valid_pointer(next) {
            return Err(CapabilityError::InvalidPointer(next));
        }
        if visited[next as usize] {
            return Err(CapabilityError::Loop(next));
        }
        if list.len() == MAX_CAPABILITIES {
            return Err(CapabilityError::TooMany);
        }
        let ghost before = list@;
        visited[next as usize] = true;
        let id: u8 = address.read8(machine, next);
        list.entries.push(PciCapability { id, offset: next });
        proof {
            assert(list@ == before.push(PciCapability { id, offset: next }));
            assert forall|o: u8| #[trigger] visited@[o as int] == seen(list@, o) by {
                if seen(before, o) {
                    let i = choose|i: int| 0 <= i < before.len() && (#[trigger] before[i]).offset == o;
                    assert(list@[i].offset == o);
                }
                if o == next {
                    assert(list@[before.len() as int].offset == o);
                }
                if seen(list@, o) && o != next {
                    let i = choose|i: int| 0 <= i < list@.len() && (#[trigger] list@[i]).offset == o;
                    assert(before[i].offset == o);
                }
            }
        }
        next = address.read8(machine, next + 1);
    }
    Ok(list)
}

/// Whether the capabilities lie at different places, each of them a dword
/// behind the header.
pub open spec fn well_placed(list: Seq<PciCapability>) -> bool {
    &&& forall|i: int| 0 <= i < list.len() ==> is_valid_pointer((#[trigger] list[i]).offset)
    &&& forall|i: int, j: int|
        0 <= i < j < list.len() ==> (#[trigger] list[i]).offset != (#[trigger] list[j]).offset
}

proof fn lemma_aligned(pointer: u8)
    by (bit_vector)
    ensures
        pointer & 3 == pointer % 4,
{
}

/// The dword numbers of capability places.
spec fn places(list: Seq<PciCapability>) -> Seq<int> {
    Seq::new(list.len(), |i: int| list[i].offset as int / 4)
}

proof fn lemma_room_for_all(list: Seq<PciCapability>)
    requires
        well_placed(list),
    ensures
        list.len() <= MAX_CAPABILITIES,
{
    let p = places(list);
    assert forall|i: int| 0 <= i < list.len() implies 16 <= (#[trigger] p[i]) < 64 && list[i].offset
        == 4 * p[i] by {
        lemma_aligned(list[i].offset);
        assert(is_valid_pointer(list[i].offset));
    }
    assert(p.no_duplicates()) by {
        assert forall|i: int, j: int| 0 <= i < j < p.len() implies p[i] != p[j] by {
            assert(list[i].offset != list[j].offset);
            assert(list[i].offset == 4 * p[i]);
            assert(list[j].offset == 4 * p[j]);
        }
    }
    p.unique_seq_to_set();
    let all = vstd::set_lib::set_int_range(16, 64);
    vstd::set_lib::lemma_int_range(16, 64);
    assert(p.to_set().subset_of(all));
    vstd::set_lib::lemma_len_subset(p.to_set(), all);
}

/// Every list that is read holds distinct, dword-aligned places behind the
/// header, and no list is ever too long: the places run out first.
pub proof fn lemma_walk_is_bounded(
    address: PciAddress,
    pointer: u8,
    found: Seq<PciCapability>,
    io: Io,
)
    requires
        well_placed(found),
    ensures
        walk_run(address, pointer, found, io).0 != Err::<Seq<PciCapability>, _>(
            CapabilityError::TooMany,
        ),
        walk_run(address, pointer, found, io).0 is Ok ==> well_placed(
            walk_run(address, pointer, found, io).0->Ok_0,
        ) && walk_run(address, pointer, found, io).0->Ok_0.len() <= MAX_CAPABILITIES,
    decreases MAX_CAPABILITIES - found.len(),
{
    lemma_room_for_all(found);
    if pointer != 0 && is_valid_pointer(pointer) && !seen(found, pointer) {
        let longer = found.push(PciCapability { id: 0, offset: pointer });
        assert(well_placed(longer));
        lemma_room_for_all(longer);
        let (id, io1) = address.read8_run(pointer, io);
        let (next, io2) = address.read8_run((pointer + 1) as u8, io1);
        let pushed = found.push(PciCapability { id, offset: pointer });
        assert(well_placed(pushed));
        lemma_walk_is_bounded(address, next, pushed, io2);
    }
}

/// The message-signalled interrupt capability.
#[derive(Clone, Copy, Debug, PartialEq, Eq, Structural)]
pub struct MsiCapability {
    pub offset: u8,
    pub control: u16,
    pub address_low: u8,
    pub address_high: Option<u8>,
    pub message_data: u8,
    pub mask_bits: Option<u8>,
}

/// The register `distance` behind `offset`, where it ends inside
/// configuration space.
pub open spec fn register_at(offset: u8, distance: int, last: int) -> Option<u8> {
    if offset + distance <= last {
        Some((offset + distance) as u8)
    } else {
        None
    }
}

fn register_behind(offset: u8, distance: u8, last: u8) -> (register: Option<u8>)
    ensures
        register == register_at(offset, distance as int, last as int),
{
    match offset.checked_add(distance) {
        Some(register) => if register <= last {
            Some(register)
        } else {
            None
        },
        None => None,
    }
}

impl MsiCapability {
    /// The layout of the capability at `offset` under a control word: address
    /// low, address high where the message address is wide, the data, and the
    /// mask where vectors can be masked.
    pub open spec fn layout(offset: u8, control: u16) -> Result<MsiCapability, CapabilityError> {
        let wide = control & 0x80 != 0;
        let maskable = control & 0x100 != 0;
        let low = register_at(offset, 4, 0xfc);
        let high = register_at(offset, 8, 0xfc);
        let data = register_at(offset, if wide { 12 } else { 8 }, 0xfe);
        let mask = register_at(offset, if wide { 16 } else { 12 }, 0xfc);
        if low is None || (wide && high is None) || data is None || (maskable && mask is None) {
            Err(CapabilityError::Truncated)
        } else {
            Ok(
                MsiCapability {
                    offset,
                    control,
                    address_low: low->0,
                    address_high: if wide { high } else { None },
                    message_data: data->0,
                    mask_bits: if maskable { mask } else { None },
                },
            )
        }
    }

    pub open spec fn read_run(
        address: PciAddress,
        capability: PciCapability,
        io: Io,
    ) -> (Result<MsiCapability, CapabilityError>, Io) {
        if capability.id != CAP_ID_MSI {
            (Err(CapabilityError::WrongCapability), io)
        } else if capability.offset + 2 > 255 {
            (Err(CapabilityError::Truncated), io)
        } else {
            let (control, io) = address.read16_run((capability.offset + 2) as u8, io);
            (Self::layout(capability.offset, control), io)
        }
    }

    /// Read the layout of a capability.
    pub fn read<M: Machine>(
        machine: &mut M,
        address: PciAddress,
        capability: PciCapability,
    ) -> (result: Result<Self, CapabilityError>)
        requires
            capability.id == CAP_ID_MSI && capability.offset + 2 <= 255 ==> (capability.offset
                + 2) as u8 & 3 <= 2,
        ensures
            (result, final(machine).io()) == Self::read_run(
                address,
                capability,
                old(machine).io(),
            ),
    {
        if capability.id != CAP_ID_MSI {
            return Err(CapabilityError::WrongCapability);
        }
        match capability.offset.checked_add(2) {
            None => Err(CapabilityError::Truncated),
            Some(control_offset) => {
                let control: u16 = address.read16(machine, control_offset);
                Self::from_control(capability.offset, control)
            },
        }
    }

    /// The layout of the capability at `offset` under a control word.
    pub fn from_control(offset: u8, control: u16) -> (result: Result<Self, CapabilityError>)
        ensures
            result == Self::layout(offset, control),
    {
        let address_low: u8 = match register_behind(offset, 4, 0xfc) {
            Some(register) => register,
            None => return Err(CapabilityError::Truncated),
        };
        let is_64_bit: bool = control & 0x80 != 0;
        let address_high: Option<u8> = if is_64_bit {
            match register_behind(offset, 8, 0xfc) {
                Some(register) => Some(register),
                None => return Err(CapabilityError::Truncated),
            }
        } else {
            None
        };
        let message_data: u8 = match register_behind(offset, if is_64_bit { 12 } else { 8 }, 0xfe) {
            Some(register) => register,
            None => return Err(CapabilityError::Truncated),
        };
        let mask_bits: Option<u8> = if control & 0x100 != 0 {
            match register_behind(offset, if is_64_bit { 16 } else { 12 }, 0xfc) {
                Some(register) => Some(register),
                None => return Err(CapabilityError::Truncated),
            }
        } else {
            None
        };
        Ok(MsiCapability { offset, control, address_low, address_high, message_data, mask_bits })
    }

    /// Whether the words of the capability lie inside configuration space and
    /// inside a dword each.
    pub open spec fn well_placed(self) -> bool {
        &&& self.offset + 2 <= 255
        &&& (self.offset + 2) as u8 & 3 <= 2
        &&& self.message_data & 3 <= 2
    }

    pub open spec fn disable_run(self, address: PciAddress, io: Io) -> Io {
        address.write16_run((self.offset + 2) as u8, self.control & !1, io)
    }

    /// Mask, program one vector, unmask and enable.
    pub open spec fn program_run(
        self,
        address: PciAddress,
        destination: u8,
        vector: u8,
        io: Io,
    ) -> Io {
        let io = self.disable_run(address, io);
        let io = address.write32_run(
            self.address_low,
            0xfee0_0000 | ((destination as u32) << 12),
            io,
        );
        let io = match self.address_high {
            Some(high) => address.write32_run(high, 0, io),
            None => io,
        };
        let io = address.write16_run(self.message_data, vector as u16, io);
        let io = match self.mask_bits {
            Some(mask) => {
                let (old_mask, io) = address.read32_run(mask, io);
                address.write32_run(mask, old_mask & !1, io)
            },
            None => io,
        };
        address.write16_run((self.offset + 2) as u8, (self.control & !0x70) | 1, io)
    }

    /// Clear the enable bit.
    pub fn disable<M: Machine>(self, machine: &mut M, address: PciAddress)
        requires
            self.offset + 2 <= 255,
            (self.offset + 2) as u8 & 3 <= 2,
        ensures
            final(machine).io() == self.disable_run(address, old(machine).io()),
    {
        address.write16(machine, self.offset + 2, self.control & !1);
    }

    /// Deliver every interrupt of the function as one vector to one processor.
    pub fn program_single<M: Machine>(
        self,
        machine: &mut M,
        address: PciAddress,
        destination: u8,
        vector: u8,
    )
        requires
            self.well_placed(),
        ensures
            final(machine).io() == self.program_run(
                address,
                destination,
                vector,
                old(machine).io(),
            ),
    {
        self.disable(machine, address);
        address.write32(machine, self.address_low, 0xfee0_0000 | ((destination as u32) << 12));
        if let Some(high) = self.address_high {
            address.write32(machine, high, 0);
        }
        address.write16(machine, self.message_data, vector as u16);
        if let Some(mask) = self.mask_bits {
            let old_mask: u32 = address.read32(machine, mask);
            address.write32(machine, mask, old_mask & !1);
        }
        address.write16(machine, self.offset + 2, (self.control & !0x70) | 1);
    }
}

proof fn lemma_lanes(offset: u8, control: u16)
    by (bit_vector)
    requires
        offset & 3 == 0,
        offset <= 0xfb,
    ensures
        ((offset + 2) as u8) & 3 == 2,
        ((offset + 8) as u8) & 3 == 0,
        ((offset + 12) as u8) & 3 == 0,
        (control & !1) & 1 == 0,
        ((control & !0x70) | 1) & 1 == 1,
        ((control & !0x70) | 1) & 0x70 == 0,
{
}

/// The layout of a dword-aligned capability meets what programming it asks
/// for; the function is disabled while the message is written, and is left
/// enabled with a single message.
pub proof fn lemma_aligned_layout_can_be_programmed(offset: u8, control: u16)
    requires
        offset & 3 == 0,
        MsiCapability::layout(offset, control) is Ok,
    ensures
        MsiCapability::layout(offset, control)->Ok_0.well_placed(),
        (control & !1) & 1 == 0,
        ((control & !0x70) | 1) & 1 == 1,
        ((control & !0x70) | 1) & 0x70 == 0,
{
    lemma_lanes(offset, control);
}

/// The extended message-signalled interrupt capability.
#[derive(Clone, Copy, Debug, PartialEq, Eq, Structural)]
pub struct MsixCapability {
    pub offset: u8,
    pub table_size: u16,
    pub enabled: bool,
    pub function_masked: bool,
    pub table_bir: u8,
    pub table_offset: u32,
    pub pba_bir: u8,
    pub pba_offset: u32,
}

impl MsixCapability {
    /// What the three registers of the capability at `offset` say.
    pub open spec fn decoded(offset: u8, control: u16, table: u32, pba: u32) -> Result<
        MsixCapability,
        CapabilityError,
    > {
        let table_bir = table as u8 & 7;
        let pba_bir = pba as u8 & 7;
        if table_bir >= 6 {
            Err(CapabilityError::InvalidBir(table_bir))
        } else if pba_bir >= 6 {
            Err(CapabilityError::InvalidBir(pba_bir))
        } else {
            Ok(
                MsixCapability {
                    offset,
                    table_size: ((control & 0x7ff) + 1) as u16,
                    enabled: control & 0x8000 != 0,
                    function_masked: control & 0x4000 != 0,
                    table_bir,
                    table_offset: table & !7,
                    pba_bir,
                    pba_offset: pba & !7,
                },
            )
        }
    }

    pub open spec fn read_run(
        address: PciAddress,
        capability: PciCapability,
        io: Io,
    ) -> (Result<MsixCapability, CapabilityError>, Io) {
        if capability.id != CAP_ID_MSIX {
            (Err(CapabilityError::WrongCapability), io)
        } else if capability.offset > 0xf4 {
            (Err(CapabilityError::Truncated), io)
        } else {
            let (control, io) = address.read16_run((capability.offset + 2) as u8, io);
            let (table, io) = address.read32_run((capability.offset + 4) as u8, io);
            let (pba, io) = address.read32_run((capability.offset + 8) as u8, io);
            (Self::decoded(capability.offset, control, table, pba), io)
        }
    }

    /// Read a capability.
    pub fn read<M: Machine>(
        machine: &mut M,
        address: PciAddress,
        capability: PciCapability,
    ) -> (result: Result<Self, CapabilityError>)
        requires
            capability.id == CAP_ID_MSIX && capability.offset <= 0xf4 ==> (capability.offset
                + 2) as u8 & 3 <= 2,
        ensures
            (result, final(machine).io()) == Self::read_run(
                address,
                capability,
                old(machine).io(),
            ),
    {
        if capability.id != CAP_ID_MSIX || capability.offset > 0xf4 {
            return Err(
                if capability.id == CAP_ID_MSIX {
                    CapabilityError::Truncated
                } else {
                    CapabilityError::WrongCapability
                },
            );
        }
        let control: u16 = address.read16(machine, capability.offset + 2);
        let table: u32 = address.read32(machine, capability.offset + 4);
        let pba: u32 = address.read32(machine, capability.offset + 8);
        Self::from_registers(capability.offset, control, table, pba)
    }

    /// What the three registers of the capability at `offset` say.
    pub fn from_registers(offset: u8, control: u16, table: u32, pba: u32) -> (result: Result<
        Self,
        CapabilityError,
    >)
        ensures
            result == Self::decoded(offset, control, table, pba),
    {
        let table_bir: u8 = table as u8 & 7;
        let pba_bir: u8 = pba as u8 & 7;
        if table_bir >= 6 {
            return Err(CapabilityError::InvalidBir(table_bir));
        }
        if pba_bir >= 6 {
            return Err(CapabilityError::InvalidBir(pba_bir));
        }
        proof {
            lemma_mask16(control, 0x7ff);
        }
        Ok(
            MsixCapability {
                offset,
                table_size: (control & 0x7ff) + 1,
                enabled: control & 0x8000 != 0,
                function_masked: control & 0x4000 != 0,
                table_bir,
                table_offset: table & !7,
                pba_bir,
                pba_offset: pba & !7,
            },
        )
    }
}

} // verus!
