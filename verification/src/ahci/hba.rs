//! The port engine of an AHCI controller and the ATA commands it carries.
//!
//! A port owns one arena of DMA memory: the command list, the area for
//! received frames, one command table and a buffer of 64 KiB that every
//! transfer goes through.
use vstd::prelude::*;
use crate::machine::{
    bytes_answered, bytes_loaded, bytes_stored, cell, cell_at, load_bytes, overlaid, overlay, poll_clear,
    store_bytes, wait_clear, Access, Io, Machine, Order, Place, Query,
};

verus! {

/// Bytes in one logical sector.
pub const SECTOR_SIZE: usize = 512;
/// Sectors that fit into the transfer buffer.
pub const MAX_SECTORS_PER_COMMAND: usize = 128;
pub const DMA_BUFFER_SIZE: usize = 65536;

pub const PX_CLB: u64 = 0x00;
pub const PX_CLBU: u64 = 0x04;
pub const PX_FB: u64 = 0x08;
pub const PX_FBU: u64 = 0x0C;
pub const PX_IS: u64 = 0x10;
pub const PX_IE: u64 = 0x14;
pub const PX_CMD: u64 = 0x18;
pub const PX_TFD: u64 = 0x20;
pub const PX_SIG: u64 = 0x24;
pub const PX_SSTS: u64 = 0x28;
pub const PX_SERR: u64 = 0x30;
pub const PX_SACT: u64 = 0x34;
pub const PX_CI: u64 = 0x38;

pub const CMD_ST: u32 = 0x0001;
pub const CMD_FRE: u32 = 0x0010;
pub const CMD_FR: u32 = 0x4000;
pub const CMD_CR: u32 = 0x8000;
pub const TFD_ERR: u32 = 0x01;
pub const TFD_DRQ: u32 = 0x08;
pub const TFD_BSY: u32 = 0x80;
pub const IS_TFES: u32 = 0x4000_0000;
pub const SSTS_DET_MASK: u32 = 0x0F;
pub const SSTS_DET_PRESENT: u32 = 0x03;
pub const SSTS_IPM_MASK: u32 = 0x0F00;
pub const SSTS_IPM_ACTIVE: u32 = 0x0100;

pub const FIS_TYPE_REG_H2D: u8 = 0x27;
pub const FIS_COMMAND: u8 = 0x80;
pub const ATA_READ_DMA_EXT: u8 = 0x25;
pub const ATA_WRITE_DMA_EXT: u8 = 0x35;
pub const ATA_FLUSH_CACHE_EXT: u8 = 0xea;
pub const COMMAND_FIS_DWORDS: u16 = 5;
pub const COMMAND_HEADER_WRITE: u16 = 0x40;
pub const PRDT_INTERRUPT_ON_COMPLETION: u32 = 0x8000_0000;
pub const PRDT_BYTE_COUNT_MASK: u32 = 0x003F_FFFF;

/// The last sector a 48-bit address reaches.
pub const MAX_LBA48: u64 = 0xFFFF_FFFF_FFFF;
/// Polls of a command-engine state at most.
pub const ENGINE_POLL_LIMIT: u32 = 2_000_000;
/// Polls of one running command at most.
pub const COMMAND_POLL_LIMIT: u32 = 50_000_000;

/// The arena: where each part lies, how it is aligned and how long it is.
pub const COMMAND_LIST_OFFSET: u64 = 0;
pub const COMMAND_LIST_ALIGN: u64 = 1024;
pub const COMMAND_HEADER_SIZE: u64 = 32;
pub const RECEIVED_FIS_OFFSET: u64 = 1024;
pub const RECEIVED_FIS_ALIGN: u64 = 256;
pub const COMMAND_TABLE_OFFSET: u64 = 1280;
pub const COMMAND_TABLE_ALIGN: u64 = 128;
pub const PRDT_OFFSET: u64 = 128;
pub const PRDT_ENTRY_SIZE: u64 = 16;
pub const DATA_OFFSET: u64 = 4096;
pub const ARENA_ALIGN: u64 = 4096;
pub const ARENA_SIZE: u64 = 69632;

/// What can go wrong with a controller or a transfer.
#[derive(Debug, Clone, Copy, PartialEq, Eq, Structural)]
pub enum HbaError {
    NotAhci,
    NoAbar,
    AbarIsIo,
    OutOfMemory,
    DmaAddressTooHigh,
    EngineTimeout,
    PortUnavailable,
    InvalidBuffer,
    InvalidLba,
    DeviceBusy,
    CommandTimeout,
    TaskFileError,
}

impl HbaError {
    /// The error in words.
    pub open spec fn text(self) -> Seq<char> {
        match self {
            HbaError::NotAhci => "not an AHCI controller"@,
            HbaError::NoAbar => "AHCI BAR5 is absent"@,
            HbaError::AbarIsIo => "AHCI BAR5 is not memory mapped"@,
            HbaError::OutOfMemory => "AHCI DMA allocation failed"@,
            HbaError::DmaAddressTooHigh => "AHCI DMA address exceeds controller width"@,
            HbaError::EngineTimeout => "AHCI command engine timed out"@,
            HbaError::PortUnavailable => "AHCI port has no active SATA device"@,
            HbaError::InvalidBuffer => "AHCI buffer must contain whole sectors"@,
            HbaError::InvalidLba => "AHCI LBA exceeds ATA-48 range"@,
            HbaError::DeviceBusy => "AHCI device remained busy"@,
            HbaError::CommandTimeout => "AHCI command completion timed out"@,
            HbaError::TaskFileError => "AHCI task-file error"@,
        }
    }

    /// The error in words.
    pub fn as_str(self) -> (text: &'static str)
        ensures
            text@ == self.text(),
    {
        match self {
            HbaError::NotAhci => "not an AHCI controller",
            HbaError::NoAbar => "AHCI BAR5 is absent",
            HbaError::AbarIsIo => "AHCI BAR5 is not memory mapped",
            HbaError::OutOfMemory => "AHCI DMA allocation failed",
            HbaError::DmaAddressTooHigh => "AHCI DMA address exceeds controller width",
            HbaError::EngineTimeout => "AHCI command engine timed out",
            HbaError::PortUnavailable => "AHCI port has no active SATA device",
            HbaError::InvalidBuffer => "AHCI buffer must contain whole sectors",
            HbaError::InvalidLba => "AHCI LBA exceeds ATA-48 range",
            HbaError::DeviceBusy => "AHCI device remained busy",
            HbaError::CommandTimeout => "AHCI command completion timed out",
            HbaError::TaskFileError => "AHCI task-file error",
        }
    }
}

/// The lower and the upper half of an address.
pub fn split_address(address: u64) -> (halves: (u32, u32))
    ensures
        halves == (address as u32, (address >> 32) as u32),
{
    (address as u32, (address >> 32) as u32)
}

/// The parts of the arena are aligned as the controller asks, do not overlap
/// and fill it.
pub proof fn lemma_arena_layout()
    ensures
        COMMAND_LIST_OFFSET % COMMAND_LIST_ALIGN == 0,
        COMMAND_LIST_OFFSET + 32 * COMMAND_HEADER_SIZE == RECEIVED_FIS_OFFSET,
        RECEIVED_FIS_OFFSET % RECEIVED_FIS_ALIGN == 0,
        RECEIVED_FIS_OFFSET + 256 == COMMAND_TABLE_OFFSET,
        COMMAND_TABLE_OFFSET % COMMAND_TABLE_ALIGN == 0,
        COMMAND_TABLE_OFFSET + PRDT_OFFSET + PRDT_ENTRY_SIZE <= DATA_OFFSET,
        DATA_OFFSET + DMA_BUFFER_SIZE == ARENA_SIZE,
        ARENA_ALIGN % COMMAND_LIST_ALIGN == 0,
        DMA_BUFFER_SIZE == SECTOR_SIZE * MAX_SECTORS_PER_COMMAND,
{
}

/// One port: where its registers are, what the controller can do, and the
/// arena.
#[derive(Debug, PartialEq, Eq, Structural)]
pub struct HbaPort {
    pub base: u64,
    pub index: u8,
    pub command_slots: u8,
    pub supports_64bit: bool,
    pub dma: u64,
}

/// Poll the task file until the device is ready.
pub open spec fn ready_run(base: u64, limit: nat, io: Io) -> (Result<(), HbaError>, Io)
    decreases limit,
{
    if limit == 0 {
        (Err(HbaError::DeviceBusy), io)
    } else {
        let (task_file, io) = io.r32(cell(base, PX_TFD));
        if task_file & TFD_ERR != 0 {
            (Err(HbaError::TaskFileError), io)
        } else if task_file & (TFD_BSY | TFD_DRQ) == 0 {
            (Ok(()), io)
        } else {
            ready_run(base, (limit - 1) as nat, io)
        }
    }
}

/// Poll until slot zero is neither issued nor active.
pub open spec fn slot_run(base: u64, limit: nat, io: Io) -> (Result<(), HbaError>, Io)
    decreases limit,
{
    if limit == 0 {
        (Err(HbaError::DeviceBusy), io)
    } else {
        let (issued, io) = io.r32(cell(base, PX_CI));
        let (active, io) = io.r32(cell(base, PX_SACT));
        if (issued | active) & 1 == 0 {
            (Ok(()), io)
        } else {
            slot_run(base, (limit - 1) as nat, io)
        }
    }
}

/// Poll the command in slot zero until it ended; the interrupt causes that
/// were read are acknowledged.
pub open spec fn completion_run(base: u64, limit: nat, io: Io) -> (Result<(), HbaError>, Io)
    decreases limit,
{
    if limit == 0 {
        (Err(HbaError::CommandTimeout), io)
    } else {
        let (causes, io) = io.r32(cell(base, PX_IS));
        if causes & IS_TFES != 0 {
            (Err(HbaError::TaskFileError), io.w32(cell(base, PX_IS), causes))
        } else {
            let (task_file, io) = io.r32(cell(base, PX_TFD));
            if task_file & TFD_ERR != 0 {
                (Err(HbaError::TaskFileError), io.w32(cell(base, PX_IS), causes))
            } else {
                let (issued, io) = io.r32(cell(base, PX_CI));
                if issued & 1 == 0 {
                    (Ok(()), io.tell(Order::Fence).w32(cell(base, PX_IS), causes))
                } else {
                    completion_run(base, (limit - 1) as nat, io)
                }
            }
        }
    }
}

/// The frame, the packet area and the reserved bytes of a transfer command.
pub open spec fn transfer_frame(lba: u64, sectors: u16, write: bool) -> Seq<u8> {
    Seq::new(
        128,
        |i: int|
            if i == 0 {
                FIS_TYPE_REG_H2D
            } else if i == 1 {
                FIS_COMMAND
            } else if i == 2 {
                if write {
                    ATA_WRITE_DMA_EXT
                } else {
                    ATA_READ_DMA_EXT
                }
            } else if i == 4 {
                lba as u8
            } else if i == 5 {
                (lba >> 8) as u8
            } else if i == 6 {
                (lba >> 16) as u8
            } else if i == 7 {
                0x40
            } else if i == 8 {
                (lba >> 24) as u8
            } else if i == 9 {
                (lba >> 32) as u8
            } else if i == 10 {
                (lba >> 40) as u8
            } else if i == 12 {
                sectors as u8
            } else if i == 13 {
                (sectors >> 8) as u8
            } else {
                0
            },
    )
}

/// The frame, the packet area and the reserved bytes of a command without data.
pub open spec fn plain_frame(command: u8) -> Seq<u8> {
    Seq::new(
        128,
        |i: int|
            if i == 0 {
                FIS_TYPE_REG_H2D
            } else if i == 1 {
                FIS_COMMAND
            } else if i == 2 {
                command
            } else {
                0
            },
    )
}

/// The bytes one command moves when `left` bytes are to go.
pub open spec fn chunk(left: int) -> int {
    if left < DMA_BUFFER_SIZE {
        left
    } else {
        DMA_BUFFER_SIZE as int
    }
}

/// Whether a transfer stays within 48-bit addresses.
pub open spec fn lba_fits(lba: u64, sectors: u16) -> bool {
    lba <= MAX_LBA48 && lba + (if sectors == 0 { 0 } else { sectors - 1 }) <= MAX_LBA48
}

impl HbaPort {
    pub open spec fn stop_run(self, io: Io) -> (Result<(), HbaError>, Io) {
        let cmd_place = cell(self.base, PX_CMD);
        let (cmd, io) = io.r32(cmd_place);
        let io = io.w32(cmd_place, cmd & !CMD_ST);
        let (idle, io) = poll_clear(cmd_place, CMD_CR, ENGINE_POLL_LIMIT as nat, io);
        if !idle {
            (Err(HbaError::EngineTimeout), io)
        } else {
            let (cmd, io) = io.r32(cmd_place);
            let io = io.w32(cmd_place, cmd & !CMD_FRE);
            let (idle, io) = poll_clear(cmd_place, CMD_FR, ENGINE_POLL_LIMIT as nat, io);
            if idle {
                (Ok(()), io)
            } else {
                (Err(HbaError::EngineTimeout), io)
            }
        }
    }

    pub open spec fn start_run(self, io: Io) -> (Result<(), HbaError>, Io) {
        let cmd_place = cell(self.base, PX_CMD);
        let (idle, io) = poll_clear(cmd_place, CMD_CR, ENGINE_POLL_LIMIT as nat, io);
        if !idle {
            (Err(HbaError::EngineTimeout), io)
        } else {
            let (cmd, io) = io.r32(cmd_place);
            (Ok(()), io.w32(cmd_place, cmd | CMD_FRE | CMD_ST))
        }
    }

    /// Whether the controller can address the whole arena.
    pub open spec fn fits_run(self, io: Io) -> (bool, Io) {
        if self.supports_64bit {
            (true, io)
        } else {
            let (start, io) = io.ask(Query::VirtToPhys(self.dma));
            (start + (ARENA_SIZE - 1) <= u32::MAX, io)
        }
    }

    pub open spec fn configure_run(self, io: Io) -> (Result<(), HbaError>, Io) {
        let (fits, io) = self.fits_run(io);
        if !fits {
            (Err(HbaError::DmaAddressTooHigh), io)
        } else {
            match self.stop_run(io) {
                (Err(error), io) => (Err(error), io),
                (Ok(_), io) => {
                    let list_place = self.dma.wrapping_add(COMMAND_LIST_OFFSET);
                    let (list, io) = io.ask(Query::VirtToPhys(list_place));
                    let (fis, io) = io.ask(
                        Query::VirtToPhys(self.dma.wrapping_add(RECEIVED_FIS_OFFSET)),
                    );
                    let (table, io) = io.ask(
                        Query::VirtToPhys(self.dma.wrapping_add(COMMAND_TABLE_OFFSET)),
                    );
                    let io = io.w32(cell(self.base, PX_CLB), list as u32);
                    let io = io.w32(cell(self.base, PX_CLBU), (list >> 32) as u32);
                    let io = io.w32(cell(self.base, PX_FB), fis as u32);
                    let io = io.w32(cell(self.base, PX_FBU), (fis >> 32) as u32);
                    let io = io.w32(cell(list_place, 8), table as u32);
                    let io = io.w32(cell(list_place, 12), (table >> 32) as u32);
                    let io = io.w16(cell(list_place, 2), 1);
                    let io = io.w32(cell(self.base, PX_IE), 0);
                    let io = io.w32(cell(self.base, PX_IS), u32::MAX);
                    let io = io.w32(cell(self.base, PX_SERR), u32::MAX);
                    self.start_run(io)
                },
            }
        }
    }

    /// Stop the engine and give the arena back.
    pub open spec fn release_run(self, io: Io) -> Io {
        let (_, io) = self.stop_run(io);
        io.tell(Order::FreeZeroed(self.dma, ARENA_SIZE))
    }

    /// The port with its arena, before it is programmed.
    pub open spec fn with_arena(
        base: u64,
        index: u8,
        command_slots: u8,
        supports_64bit: bool,
        dma: u64,
    ) -> HbaPort {
        HbaPort {
            base,
            index,
            command_slots: if command_slots < 1 {
                1
            } else if command_slots > 32 {
                32
            } else {
                command_slots
            },
            supports_64bit,
            dma,
        }
    }

    pub open spec fn new_run(
        base: u64,
        index: u8,
        command_slots: u8,
        supports_64bit: bool,
        io: Io,
    ) -> (Result<HbaPort, HbaError>, Io) {
        let (dma, io) = io.ask(Query::AllocateZeroed(ARENA_SIZE, ARENA_ALIGN));
        if dma == 0 {
            (Err(HbaError::OutOfMemory), io)
        } else {
            let port = Self::with_arena(base, index, command_slots, supports_64bit, dma);
            match port.configure_run(io) {
                (Ok(_), io) => (Ok(port), io),
                (Err(error), io) => (Err(error), port.release_run(io)),
            }
        }
    }

    /// Allocate and program the memory of a port, then start its engine.
    pub fn new<M: Machine>(
        machine: &mut M,
        base: u64,
        index: u8,
        command_slots: u8,
        supports_64bit: bool,
    ) -> (result: Result<Self, HbaError>)
        ensures
            (result, final(machine).io()) == Self::new_run(
                base,
                index,
                command_slots,
                supports_64bit,
                old(machine).io(),
            ),
    {
        let dma: u64 = machine.ask(Query::AllocateZeroed(ARENA_SIZE, ARENA_ALIGN));
        if dma == 0 {
            return Err(HbaError::OutOfMemory);
        }
        let slots: u8 = if command_slots < 1 {
            1
        } else if command_slots > 32 {
            32
        } else {
            command_slots
        };
        let port = HbaPort { base, index, command_slots: slots, supports_64bit, dma };
        match port.configure_dma(machine) {
            Ok(_) => Ok(port),
            Err(error) => {
                port.release(machine);
                Err(error)
            },
        }
    }

    /// Stop the engine and give the arena back.
    pub fn release<M: Machine>(self, machine: &mut M)
        ensures
            final(machine).io() == self.release_run(old(machine).io()),
    {
        let _ = self.stop_engine(machine);
        machine.tell(Order::FreeZeroed(self.dma, ARENA_SIZE));
    }

    /// Port number within the controller.
    pub fn index(&self) -> (index: u8)
        ensures
            index == self.index,
    {
        self.index
    }

    /// Command slots of the port.
    pub fn command_slots(&self) -> (slots: u8)
        ensures
            slots == self.command_slots,
    {
        self.command_slots
    }

    /// The signature that the device sent after its reset.
    pub fn signature<M: Machine>(&self, machine: &mut M) -> (signature: u32)
        ensures
            (signature, final(machine).io()) == old(machine).io().r32(cell(self.base, PX_SIG)),
    {
        machine.read32(cell_at(self.base, PX_SIG))
    }

    /// The state of the link.
    pub fn sata_status<M: Machine>(&self, machine: &mut M) -> (status: u32)
        ensures
            (status, final(machine).io()) == old(machine).io().r32(cell(self.base, PX_SSTS)),
    {
        machine.read32(cell_at(self.base, PX_SSTS))
    }

    /// Whether a device was detected and its link is in active state.
    pub open spec fn present_run(self, io: Io) -> (bool, Io) {
        let (status, io) = io.r32(cell(self.base, PX_SSTS));
        (
            status & SSTS_DET_MASK == SSTS_DET_PRESENT && status & SSTS_IPM_MASK == SSTS_IPM_ACTIVE,
            io,
        )
    }

    /// Whether a device was detected and its link is in active state.
    pub fn device_present<M: Machine>(&self, machine: &mut M) -> (present: bool)
        ensures
            (present, final(machine).io()) == self.present_run(old(machine).io()),
    {
        let status: u32 = self.sata_status(machine);
        status & SSTS_DET_MASK == SSTS_DET_PRESENT && status & SSTS_IPM_MASK == SSTS_IPM_ACTIVE
    }

    fn dma_addresses_fit<M: Machine>(&self, machine: &mut M) -> (fits: bool)
        ensures
            (fits, final(machine).io()) == self.fits_run(old(machine).io()),
    {
        if self.supports_64bit {
            return true;
        }
        let start: u64 = machine.ask(Query::VirtToPhys(self.dma));
        match start.checked_add(ARENA_SIZE - 1) {
            Some(end) => end <= u32::MAX as u64,
            None => false,
        }
    }

    fn configure_dma<M: Machine>(&self, machine: &mut M) -> (result: Result<(), HbaError>)
        ensures
            (result, final(machine).io()) == self.configure_run(old(machine).io()),
    {
        if !self.dma_addresses_fit(machine) {
            return Err(HbaError::DmaAddressTooHigh);
        }
        match self.stop_engine(machine) {
            Ok(_) => {},
            Err(error) => {
                return Err(error);
            },
        }
        let list_place: u64 = self.dma.wrapping_add(COMMAND_LIST_OFFSET);
        let list: u64 = machine.ask(Query::VirtToPhys(list_place));
        let fis: u64 = machine.ask(Query::VirtToPhys(self.dma.wrapping_add(RECEIVED_FIS_OFFSET)));
        let table: u64 = machine.ask(
            Query::VirtToPhys(self.dma.wrapping_add(COMMAND_TABLE_OFFSET)),
        );
        let (list_lo, list_hi): (u32, u32) = split_address(list);
        let (fis_lo, fis_hi): (u32, u32) = split_address(fis);
        let (table_lo, table_hi): (u32, u32) = split_address(table);
        machine.write32(cell_at(self.base, PX_CLB), list_lo);
        machine.write32(cell_at(self.base, PX_CLBU), list_hi);
        machine.write32(cell_at(self.base, PX_FB), fis_lo);
        machine.write32(cell_at(self.base, PX_FBU), fis_hi);
        machine.write32(cell_at(list_place, 8), table_lo);
        machine.write32(cell_at(list_place, 12), table_hi);
        machine.write16(cell_at(list_place, 2), 1);
        machine.write32(cell_at(self.base, PX_IE), 0);
        machine.write32(cell_at(self.base, PX_IS), u32::MAX);
        machine.write32(cell_at(self.base, PX_SERR), u32::MAX);
        self.start_engine(machine)
    }

    fn stop_engine<M: Machine>(&self, machine: &mut M) -> (result: Result<(), HbaError>)
        ensures
            (result, final(machine).io()) == self.stop_run(old(machine).io()),
    {
        let place: Place = cell_at(self.base, PX_CMD);
        let mut cmd: u32 = machine.read32(place);
        machine.write32(place, cmd & !CMD_ST);
        if !wait_clear(machine, place, CMD_CR, ENGINE_POLL_LIMIT) {
            return Err(HbaError::EngineTimeout);
        }
        cmd = machine.read32(place);
        machine.write32(place, cmd & !CMD_FRE);
        if !wait_clear(machine, place, CMD_FR, ENGINE_POLL_LIMIT) {
            return Err(HbaError::EngineTimeout);
        }
        Ok(())
    }

    fn start_engine<M: Machine>(&self, machine: &mut M) -> (result: Result<(), HbaError>)
        ensures
            (result, final(machine).io()) == self.start_run(old(machine).io()),
    {
        let place: Place = cell_at(self.base, PX_CMD);
        if !wait_clear(machine, place, CMD_CR, ENGINE_POLL_LIMIT) {
            return Err(HbaError::EngineTimeout);
        }
        let cmd: u32 = machine.read32(place);
        machine.write32(place, cmd | CMD_FRE | CMD_ST);
        Ok(())
    }

    fn wait_device_ready<M: Machine>(&self, machine: &mut M) -> (result: Result<(), HbaError>)
        ensures
            (result, final(machine).io()) == ready_run(
                self.base,
                ENGINE_POLL_LIMIT as nat,
                old(machine).io(),
            ),
    {
        let mut left: u32 = ENGINE_POLL_LIMIT;
        while left > 0
            invariant
                ready_run(self.base, ENGINE_POLL_LIMIT as nat, old(machine).io()) == ready_run(
                    self.base,
                    left as nat,
                    machine.io(),
                ),
            decreases left,
        {
            let task_file: u32 = machine.read32(cell_at(self.base, PX_TFD));
            if task_file & TFD_ERR != 0 {
                return Err(HbaError::TaskFileError);
            }
            if task_file & (TFD_BSY | TFD_DRQ) == 0 {
                return Ok(());
            }
            left = left - 1;
        }
        Err(HbaError::DeviceBusy)
    }

    fn wait_slot_zero_available<M: Machine>(&self, machine: &mut M) -> (result: Result<
        (),
        HbaError,
    >)
        ensures
            (result, final(machine).io()) == slot_run(
                self.base,
                ENGINE_POLL_LIMIT as nat,
                old(machine).io(),
            ),
    {
        let mut left: u32 = ENGINE_POLL_LIMIT;
        while left > 0
            invariant
                slot_run(self.base, ENGINE_POLL_LIMIT as nat, old(machine).io()) == slot_run(
                    self.base,
                    left as nat,
                    machine.io(),
                ),
            decreases left,
        {
            let issued: u32 = machine.read32(cell_at(self.base, PX_CI));
            let active: u32 = machine.read32(cell_at(self.base, PX_SACT));
            if (issued | active) & 1 == 0 {
                return Ok(());
            }
            left = left - 1;
        }
        Err(HbaError::DeviceBusy)
    }

    /// Fill in slot zero: header, frame and the one data descriptor.
    pub open spec fn prepare_run(self, lba: u64, sectors: u16, write: bool, io: Io) -> Io {
        let header = self.dma.wrapping_add(COMMAND_LIST_OFFSET);
        let table = self.dma.wrapping_add(COMMAND_TABLE_OFFSET);
        let (data, io) = io.ask(Query::VirtToPhys(self.dma.wrapping_add(DATA_OFFSET)));
        let io = io.w16(
            cell(header, 0),
            COMMAND_FIS_DWORDS | if write {
                COMMAND_HEADER_WRITE
            } else {
                0
            },
        );
        let io = io.w16(cell(header, 2), 1);
        let io = io.w32(cell(header, 4), 0);
        let io = bytes_stored(io, table, transfer_frame(lba, sectors, write));
        let prdt = table.wrapping_add(PRDT_OFFSET);
        let io = io.w32(cell(prdt, 0), data as u32);
        let io = io.w32(cell(prdt, 4), (data >> 32) as u32);
        let io = io.w32(cell(prdt, 8), 0);
        io.w32(
            cell(prdt, 12),
            (((sectors * SECTOR_SIZE - 1) as u32) & PRDT_BYTE_COUNT_MASK)
                | PRDT_INTERRUPT_ON_COMPLETION,
        )
    }

    fn prepare_command<M: Machine>(&self, machine: &mut M, lba: u64, sectors: u16, write: bool)
        requires
            sectors > 0,
        ensures
            final(machine).io() == self.prepare_run(lba, sectors, write, old(machine).io()),
    {
        let byte_count: u32 = sectors as u32 * 512;
        let header: u64 = self.dma.wrapping_add(COMMAND_LIST_OFFSET);
        let table: u64 = self.dma.wrapping_add(COMMAND_TABLE_OFFSET);
        let data: u64 = machine.ask(Query::VirtToPhys(self.dma.wrapping_add(DATA_OFFSET)));
        let (data_lo, data_hi): (u32, u32) = split_address(data);
        machine.write16(
            cell_at(header, 0),
            COMMAND_FIS_DWORDS | if write {
                COMMAND_HEADER_WRITE
            } else {
                0
            },
        );
        machine.write16(cell_at(header, 2), 1);
        machine.write32(cell_at(header, 4), 0);
        let mut fis: [u8; 128] = [0; 128];
        fis[0] = FIS_TYPE_REG_H2D;
        fis[1] = FIS_COMMAND;
        fis[2] = if write {
            ATA_WRITE_DMA_EXT
        } else {
            ATA_READ_DMA_EXT
        };
        fis[4] = lba as u8;
        fis[5] = (lba >> 8) as u8;
        fis[6] = (lba >> 16) as u8;
        fis[7] = 0x40;
        fis[8] = (lba >> 24) as u8;
        fis[9] = (lba >> 32) as u8;
        fis[10] = (lba >> 40) as u8;
        fis[12] = sectors as u8;
        fis[13] = (sectors >> 8) as u8;
        assert(fis@ == transfer_frame(lba, sectors, write));
        store_bytes(machine, table, fis.as_slice());
        let prdt: u64 = table.wrapping_add(PRDT_OFFSET);
        machine.write32(cell_at(prdt, 0), data_lo);
        machine.write32(cell_at(prdt, 4), data_hi);
        machine.write32(cell_at(prdt, 8), 0);
        machine.write32(
            cell_at(prdt, 12),
            ((byte_count - 1) & PRDT_BYTE_COUNT_MASK) | PRDT_INTERRUPT_ON_COMPLETION,
        );
    }

    /// Fill in slot zero with a command that moves no data.
    pub open spec fn prepare_plain_run(self, command: u8, io: Io) -> Io {
        let header = self.dma.wrapping_add(COMMAND_LIST_OFFSET);
        let table = self.dma.wrapping_add(COMMAND_TABLE_OFFSET);
        let io = io.w16(cell(header, 0), COMMAND_FIS_DWORDS);
        let io = io.w16(cell(header, 2), 0);
        let io = io.w32(cell(header, 4), 0);
        let io = bytes_stored(io, table, plain_frame(command));
        let prdt = table.wrapping_add(PRDT_OFFSET);
        let io = io.w32(cell(prdt, 0), 0);
        let io = io.w32(cell(prdt, 4), 0);
        let io = io.w32(cell(prdt, 8), 0);
        io.w32(cell(prdt, 12), 0)
    }

    fn prepare_non_data_command<M: Machine>(&self, machine: &mut M, command: u8)
        ensures
            final(machine).io() == self.prepare_plain_run(command, old(machine).io()),
    {
        let header: u64 = self.dma.wrapping_add(COMMAND_LIST_OFFSET);
        let table: u64 = self.dma.wrapping_add(COMMAND_TABLE_OFFSET);
        machine.write16(cell_at(header, 0), COMMAND_FIS_DWORDS);
        machine.write16(cell_at(header, 2), 0);
        machine.write32(cell_at(header, 4), 0);
        let mut fis: [u8; 128] = [0; 128];
        fis[0] = FIS_TYPE_REG_H2D;
        fis[1] = FIS_COMMAND;
        fis[2] = command;
        assert(fis@ == plain_frame(command));
        store_bytes(machine, table, fis.as_slice());
        let prdt: u64 = table.wrapping_add(PRDT_OFFSET);
        machine.write32(cell_at(prdt, 0), 0);
        machine.write32(cell_at(prdt, 4), 0);
        machine.write32(cell_at(prdt, 8), 0);
        machine.write32(cell_at(prdt, 12), 0);
    }

    /// Issue slot zero and wait for its end.
    pub open spec fn submit_run(self, io: Io) -> (Result<(), HbaError>, Io) {
        let io = io.w32(cell(self.base, PX_IS), u32::MAX).tell(Order::Fence).w32(
            cell(self.base, PX_CI),
            1,
        );
        completion_run(self.base, COMMAND_POLL_LIMIT as nat, io)
    }

    fn submit_slot_zero<M: Machine>(&self, machine: &mut M) -> (result: Result<(), HbaError>)
        ensures
            (result, final(machine).io()) == self.submit_run(old(machine).io()),
    {
        machine.write32(cell_at(self.base, PX_IS), u32::MAX);
        machine.tell(Order::Fence);
        machine.write32(cell_at(self.base, PX_CI), 1);
        let ghost start = machine.io();
        let mut left: u32 = COMMAND_POLL_LIMIT;
        while left > 0
            invariant
                completion_run(self.base, COMMAND_POLL_LIMIT as nat, start) == completion_run(
                    self.base,
                    left as nat,
                    machine.io(),
                ),
                self.submit_run(old(machine).io()) == completion_run(
                    self.base,
                    COMMAND_POLL_LIMIT as nat,
                    start,
                ),
            decreases left,
        {
            let interrupt_status: u32 = machine.read32(cell_at(self.base, PX_IS));
            if interrupt_status & IS_TFES != 0 || machine.read32(cell_at(self.base, PX_TFD))
                & TFD_ERR != 0 {
                machine.write32(cell_at(self.base, PX_IS), interrupt_status);
                return Err(HbaError::TaskFileError);
            }
            if machine.read32(cell_at(self.base, PX_CI)) & 1 == 0 {
                machine.tell(Order::Fence);
                machine.write32(cell_at(self.base, PX_IS), interrupt_status);
                return Ok(());
            }
            left = left - 1;
        }
        Err(HbaError::CommandTimeout)
    }

    /// One transfer command through the arena's buffer.
    pub open spec fn issue_run(self, lba: u64, sectors: u16, write: bool, io: Io) -> (Result<
        (),
        HbaError,
    >, Io) {
        let (present, io) = self.present_run(io);
        if !present {
            (Err(HbaError::PortUnavailable), io)
        } else if !lba_fits(lba, sectors) {
            (Err(HbaError::InvalidLba), io)
        } else {
            match ready_run(self.base, ENGINE_POLL_LIMIT as nat, io) {
                (Err(error), io) => (Err(error), io),
                (Ok(_), io) => match slot_run(self.base, ENGINE_POLL_LIMIT as nat, io) {
                    (Err(error), io) => (Err(error), io),
                    (Ok(_), io) => self.submit_run(self.prepare_run(lba, sectors, write, io)),
                },
            }
        }
    }

    fn issue<M: Machine>(
        &mut self,
        machine: &mut M,
        lba: u64,
        sectors: u16,
        write: bool,
    ) -> (result: Result<(), HbaError>)
        requires
            sectors > 0,
        ensures
            *final(self) == *old(self),
            (result, final(machine).io()) == old(self).issue_run(
                lba,
                sectors,
                write,
                old(machine).io(),
            ),
    {
        if !self.device_present(machine) {
            return Err(HbaError::PortUnavailable);
        }
        let last: Option<u64> = lba.checked_add((sectors as u64).saturating_sub(1));
        let beyond: bool = match last {
            Some(last) => last > MAX_LBA48,
            None => true,
        };
        if lba > MAX_LBA48 || beyond {
            return Err(HbaError::InvalidLba);
        }
        match self.wait_device_ready(machine) {
            Ok(_) => {},
            Err(error) => {
                return Err(error);
            },
        }
        match self.wait_slot_zero_available(machine) {
            Ok(_) => {},
            Err(error) => {
                return Err(error);
            },
        }
        self.prepare_command(machine, lba, sectors, write);
        self.submit_slot_zero(machine)
    }

    /// Read `data.len() - done` bytes behind the first `done`, one command
    /// after the other; the buffer holds what arrived before an error.
    pub open spec fn read_run(self, lba: u64, data: Seq<u8>, done: int, io: Io) -> (Result<
        usize,
        HbaError,
    >, Seq<u8>, Io)
        decreases data.len() - done,
    {
        if done >= data.len() {
            (Ok(data.len() as usize), data, io)
        } else {
            let bytes = chunk(data.len() - done);
            let command_lba = lba + done / SECTOR_SIZE as int;
            if command_lba > u64::MAX {
                (Err(HbaError::InvalidLba), data, io)
            } else {
                match self.issue_run(
                    command_lba as u64,
                    (bytes / SECTOR_SIZE as int) as u16,
                    false,
                    io,
                ) {
                    (Err(error), io) => (Err(error), data, io),
                    (Ok(_), io) => {
                        let piece = bytes_answered(io, bytes as nat);
                        let io = bytes_loaded(
                            io,
                            self.dma.wrapping_add(DATA_OFFSET),
                            bytes as nat,
                        );
                        self.read_run(lba, overlaid(data, done, piece), done + bytes, io)
                    },
                }
            }
        }
    }

    /// Write the bytes behind the first `done`, one command after the other.
    pub open spec fn write_run(self, lba: u64, data: Seq<u8>, done: int, io: Io) -> (Result<
        usize,
        HbaError,
    >, Io)
        decreases data.len() - done,
    {
        if done >= data.len() {
            (Ok(data.len() as usize), io)
        } else {
            let bytes = chunk(data.len() - done);
            let command_lba = lba + done / SECTOR_SIZE as int;
            let io = bytes_stored(
                io,
                self.dma.wrapping_add(DATA_OFFSET),
                data.subrange(done, done + bytes),
            );
            if command_lba > u64::MAX {
                (Err(HbaError::InvalidLba), io)
            } else {
                match self.issue_run(
                    command_lba as u64,
                    (bytes / SECTOR_SIZE as int) as u16,
                    true,
                    io,
                ) {
                    (Err(error), io) => (Err(error), io),
                    (Ok(_), io) => self.write_run(lba, data, done + bytes, io),
                }
            }
        }
    }

    /// Read one sector.
    pub fn read_sector<M: Machine>(
        &mut self,
        machine: &mut M,
        lba: u64,
        sector: &mut [u8; SECTOR_SIZE],
    ) -> (result: Result<(), HbaError>)
        ensures
            *final(self) == *old(self),
            match old(self).issue_run(lba, 1, false, old(machine).io()) {
                (Err(error), io) => result == Err::<(), HbaError>(error) && final(machine).io()
                    == io && final(sector)@ == old(sector)@,
                (Ok(_), io) => result is Ok && final(machine).io() == bytes_loaded(
                    io,
                    old(self).dma.wrapping_add(DATA_OFFSET),
                    SECTOR_SIZE as nat,
                ) && final(sector)@ == bytes_answered(io, SECTOR_SIZE as nat),
            },
    {
        match self.issue(machine, lba, 1, false) {
            Ok(_) => {},
            Err(error) => {
                return Err(error);
            },
        }
        let data: Vec<u8> = load_bytes(machine, self.dma.wrapping_add(DATA_OFFSET), SECTOR_SIZE);
        let mut i: usize = 0;
        while i < SECTOR_SIZE
            invariant
                i <= SECTOR_SIZE,
                data@.len() == SECTOR_SIZE,
                forall|j: int| 0 <= j < i ==> #[trigger] sector@[j] == data@[j],
            decreases SECTOR_SIZE - i,
        {
            sector[i] = data[i];
            i = i + 1;
        }
        assert(sector@ == data@);
        Ok(())
    }

    /// Read whole sectors, starting at `lba`, and give the number of bytes.
    pub fn read_blocks<M: Machine>(
        &mut self,
        machine: &mut M,
        lba: u64,
        buffer: &mut Vec<u8>,
    ) -> (result: Result<usize, HbaError>)
        ensures
            *final(self) == *old(self),
            old(buffer)@.len() == 0 || old(buffer)@.len() % SECTOR_SIZE as nat != 0 ==> result
                == Err::<usize, HbaError>(HbaError::InvalidBuffer) && final(buffer)@
                == old(buffer)@ && final(machine).io() == old(machine).io(),
            old(buffer)@.len() > 0 && old(buffer)@.len() % SECTOR_SIZE as nat == 0 ==> (
                result,
                final(buffer)@,
                final(machine).io(),
            ) == old(self).read_run(lba, old(buffer)@, 0, old(machine).io()),
    {
        if buffer.len() == 0 || buffer.len() % SECTOR_SIZE != 0 {
            return Err(HbaError::InvalidBuffer);
        }
        let total: usize = buffer.len();
        let mut done: usize = 0;
        while done < total
            invariant
                done <= total == buffer@.len(),
                total == old(buffer)@.len(),
                total > 0,
                total % SECTOR_SIZE == 0,
                done % SECTOR_SIZE == 0,
                *self == *old(self),
                old(self).read_run(lba, old(buffer)@, 0, old(machine).io()) == old(self).read_run(
                    lba,
                    buffer@,
                    done as int,
                    machine.io(),
                ),
            decreases total - done,
        {
            let bytes: usize = if total - done < DMA_BUFFER_SIZE {
                total - done
            } else {
                DMA_BUFFER_SIZE
            };
            let sectors: u16 = (bytes / SECTOR_SIZE) as u16;
            let command_lba: u64 = match lba.checked_add((done / SECTOR_SIZE) as u64) {
                Some(value) => value,
                None => {
                    return Err(HbaError::InvalidLba);
                },
            };
            match self.issue(machine, command_lba, sectors, false) {
                Ok(_) => {},
                Err(error) => {
                    return Err(error);
                },
            }
            let data: Vec<u8> = load_bytes(machine, self.dma.wrapping_add(DATA_OFFSET), bytes);
            overlay(buffer, done, &data);
            done = done + bytes;
        }
        Ok(done)
    }

    /// Write whole sectors, starting at `lba`, and give the number of bytes.
    pub fn write_blocks<M: Machine>(&mut self, machine: &mut M, lba: u64, buffer: &[u8]) -> (result:
        Result<usize, HbaError>)
        ensures
            *final(self) == *old(self),
            buffer@.len() == 0 || buffer@.len() % SECTOR_SIZE as nat != 0 ==> result == Err::<
                usize,
                HbaError,
            >(HbaError::InvalidBuffer) && final(machine).io() == old(machine).io(),
            buffer@.len() > 0 && buffer@.len() % SECTOR_SIZE as nat == 0 ==> (
                result,
                final(machine).io(),
            ) == old(self).write_run(lba, buffer@, 0, old(machine).io()),
    {
        if buffer.len() == 0 || buffer.len() % SECTOR_SIZE != 0 {
            return Err(HbaError::InvalidBuffer);
        }
        let total: usize = buffer.len();
        let mut done: usize = 0;
        while done < total
            invariant
                done <= total == buffer@.len(),
                total % SECTOR_SIZE == 0,
                done % SECTOR_SIZE == 0,
                *self == *old(self),
                old(self).write_run(lba, buffer@, 0, old(machine).io()) == old(self).write_run(
                    lba,
                    buffer@,
                    done as int,
                    machine.io(),
                ),
            decreases total - done,
        {
            let bytes: usize = if total - done < DMA_BUFFER_SIZE {
                total - done
            } else {
                DMA_BUFFER_SIZE
            };
            let piece: &[u8] = vstd::slice::slice_subrange(buffer, done, done + bytes);
            store_bytes(machine, self.dma.wrapping_add(DATA_OFFSET), piece);
            let sectors: u16 = (bytes / SECTOR_SIZE) as u16;
            let command_lba: u64 = match lba.checked_add((done / SECTOR_SIZE) as u64) {
                Some(value) => value,
                None => {
                    return Err(HbaError::InvalidLba);
                },
            };
            match self.issue(machine, command_lba, sectors, true) {
                Ok(_) => {},
                Err(error) => {
                    return Err(error);
                },
            }
            done = done + bytes;
        }
        Ok(done)
    }

    pub open spec fn flush_run(self, io: Io) -> (Result<(), HbaError>, Io) {
        let (present, io) = self.present_run(io);
        if !present {
            (Err(HbaError::PortUnavailable), io)
        } else {
            match ready_run(self.base, ENGINE_POLL_LIMIT as nat, io) {
                (Err(error), io) => (Err(error), io),
                (Ok(_), io) => match slot_run(self.base, ENGINE_POLL_LIMIT as nat, io) {
                    (Err(error), io) => (Err(error), io),
                    (Ok(_), io) => self.submit_run(
                        self.prepare_plain_run(ATA_FLUSH_CACHE_EXT, io),
                    ),
                },
            }
        }
    }

    /// Force the writes that completed from the drive's cache to the medium.
    pub fn flush_cache<M: Machine>(&mut self, machine: &mut M) -> (result: Result<(), HbaError>)
        ensures
            *final(self) == *old(self),
            (result, final(machine).io()) == old(self).flush_run(old(machine).io()),
    {
        if !self.device_present(machine) {
            return Err(HbaError::PortUnavailable);
        }
        match self.wait_device_ready(machine) {
            Ok(_) => {},
            Err(error) => {
                return Err(error);
            },
        }
        match self.wait_slot_zero_available(machine) {
            Ok(_) => {},
            Err(error) => {
                return Err(error);
            },
        }
        self.prepare_non_data_command(machine, ATA_FLUSH_CACHE_EXT);
        self.submit_slot_zero(machine)
    }
}

/// A read that succeeds delivered the whole buffer, and never left the range
/// of 48-bit addresses.
pub proof fn lemma_read_stays_in_range(port: HbaPort, lba: u64, data: Seq<u8>, done: int, io: Io)
    requires
        0 <= done <= data.len() <= usize::MAX,
        data.len() % SECTOR_SIZE as nat == 0,
        done % SECTOR_SIZE as int == 0,
        port.read_run(lba, data, done, io).0 is Ok,
    ensures
        port.read_run(lba, data, done, io).0 == Ok::<usize, HbaError>(data.len() as usize),
        port.read_run(lba, data, done, io).1.len() == data.len(),
        done < data.len() ==> lba + data.len() / SECTOR_SIZE as nat - 1 <= MAX_LBA48,
    decreases data.len() - done,
{
    if done < data.len() {
        let bytes = chunk(data.len() - done);
        let (result, next) = port.issue_run(
            (lba + done / SECTOR_SIZE as int) as u64,
            (bytes / SECTOR_SIZE as int) as u16,
            false,
            io,
        );
        let piece = bytes_answered(next, bytes as nat);
        let after = bytes_loaded(next, port.dma.wrapping_add(DATA_OFFSET), bytes as nat);
        lemma_read_stays_in_range(port, lba, overlaid(data, done, piece), done + bytes, after);
    }
}

/// A write that succeeds sent the whole buffer, and never left the range of
/// 48-bit addresses.
pub proof fn lemma_write_stays_in_range(port: HbaPort, lba: u64, data: Seq<u8>, done: int, io: Io)
    requires
        0 <= done <= data.len() <= usize::MAX,
        data.len() % SECTOR_SIZE as nat == 0,
        done % SECTOR_SIZE as int == 0,
        port.write_run(lba, data, done, io).0 is Ok,
    ensures
        port.write_run(lba, data, done, io).0 == Ok::<usize, HbaError>(data.len() as usize),
        done < data.len() ==> lba + data.len() / SECTOR_SIZE as nat - 1 <= MAX_LBA48,
    decreases data.len() - done,
{
    if done < data.len() {
        let bytes = chunk(data.len() - done);
        let stored = bytes_stored(
            io,
            port.dma.wrapping_add(DATA_OFFSET),
            data.subrange(done, done + bytes),
        );
        let (result, next) = port.issue_run(
            (lba + done / SECTOR_SIZE as int) as u64,
            (bytes / SECTOR_SIZE as int) as u16,
            true,
            stored,
        );
        lemma_write_stays_in_range(port, lba, data, done + bytes, next);
    }
}

pub(crate) proof fn lemma_frame_bytes(lba: u64, sectors: u16)
    by (bit_vector)
    requires
        lba <= 0xFFFF_FFFF_FFFFu64,
    ensures
        (lba as u8) as u64 | (((lba >> 8) as u8) as u64) << 8 | (((lba >> 16) as u8) as u64) << 16
            | (((lba >> 24) as u8) as u64) << 24 | (((lba >> 32) as u8) as u64) << 32 | (((lba >> 40)
            as u8) as u64) << 40 == lba,
        (sectors as u8) as u16 | (((sectors >> 8) as u8) as u16) << 8 == sectors,
{
}

/// The command frame carries the whole 48-bit address and the whole count.
pub proof fn lemma_frame_carries_request(lba: u64, sectors: u16, write: bool)
    requires
        lba <= MAX_LBA48,
    ensures
        ({
            let f = transfer_frame(lba, sectors, write);
            &&& f[4] as u64 | (f[5] as u64) << 8 | (f[6] as u64) << 16 | (f[8] as u64) << 24 | (
            f[9] as u64) << 32 | (f[10] as u64) << 40 == lba
            &&& f[12] as u16 | (f[13] as u16) << 8 == sectors
        }),
{
    lemma_frame_bytes(lba, sectors);
}

} // verus!
