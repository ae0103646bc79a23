//! Memory that the controller reads and writes by itself.
use vstd::prelude::*;
use crate::machine::{
    bytes_stored, clear_bytes, zero_bytes, Io, Machine, Order, Query, FRAME_LIMIT, FRAME_SIZE,
};

verus! {

/// Bytes of a page frame.
pub const PAGE_SIZE: usize = 4096;

#[derive(Clone, Copy, Debug, Eq, PartialEq, Structural)]
pub enum DmaError {
    ZeroLength,
    SizeOverflow,
    OutOfMemory,
    AddressTooHigh,
}

impl DmaError {
    /// The name of the error.
    pub open spec fn text(self) -> Seq<char> {
        match self {
            DmaError::ZeroLength => "ZeroLength"@,
            DmaError::SizeOverflow => "SizeOverflow"@,
            DmaError::OutOfMemory => "OutOfMemory"@,
            DmaError::AddressTooHigh => "AddressTooHigh"@,
        }
    }

    /// The name of the error.
    pub fn name(self) -> (name: &'static str)
        ensures
            name@ == self.text(),
    {
        match self {
            DmaError::ZeroLength => "ZeroLength",
            DmaError::SizeOverflow => "SizeOverflow",
            DmaError::OutOfMemory => "OutOfMemory",
            DmaError::AddressTooHigh => "AddressTooHigh",
        }
    }
}

/// A run of page frames and where the kernel sees it.
#[derive(Debug, Eq, PartialEq, Structural)]
pub struct DmaRegion {
    pub first: u64,
    pub pages: usize,
    pub address: u64,
    pub len: usize,
}

/// The frames that hold some bytes.
pub open spec fn pages_for(len: int) -> int {
    (len + PAGE_SIZE - 1) / PAGE_SIZE as int
}

impl DmaRegion {
    /// Take frames, clear them, and give them back where they lie too high.
    pub open spec fn allocate_run(len: usize, max_address: Option<u64>, io: Io) -> (Result<
        DmaRegion,
        DmaError,
    >, Io) {
        let pages = pages_for(len as int);
        let bytes = pages * PAGE_SIZE;
        if len == 0 {
            (Err(DmaError::ZeroLength), io)
        } else if len + PAGE_SIZE - 1 > usize::MAX {
            (Err(DmaError::SizeOverflow), io)
        } else {
            let (frame, io) = io.ask(Query::AllocateFrames(pages as u64));
            let first = (frame * FRAME_SIZE) as u64;
            if frame >= FRAME_LIMIT {
                (Err(DmaError::OutOfMemory), io)
            } else if max_address is Some && first + bytes - 1 > max_address->0 {
                (
                    Err(DmaError::AddressTooHigh),
                    io.tell(Order::FreeFrames(frame, pages as u64)),
                )
            } else {
                let (address, io) = io.ask(Query::PhysToVirt(first));
                if address == 0 {
                    (Err(DmaError::OutOfMemory), io)
                } else {
                    (
                        Ok(
                            DmaRegion {
                                first,
                                pages: pages as usize,
                                address,
                                len: bytes as usize,
                            },
                        ),
                        bytes_stored(io, address, zero_bytes(bytes as nat)),
                    )
                }
            }
        }
    }

    pub open spec fn release_run(self, io: Io) -> Io {
        io.tell(Order::FreeFrames(self.first / FRAME_SIZE, self.pages as u64))
    }

    /// Take frames for `len` bytes that end at or below `max_address`.
    pub fn allocate<M: Machine>(machine: &mut M, len: usize, max_address: Option<u64>) -> (result:
        Result<Self, DmaError>)
        ensures
            (result, final(machine).io()) == Self::allocate_run(
                len,
                max_address,
                old(machine).io(),
            ),
    {
        if len == 0 {
            return Err(DmaError::ZeroLength);
        }
        let padded: usize = match len.checked_add(PAGE_SIZE - 1) {
            Some(padded) => padded,
            None => {
                return Err(DmaError::SizeOverflow);
            },
        };
        let pages: usize = padded / PAGE_SIZE;
        let allocated_len: usize = pages * PAGE_SIZE;
        let frame: u64 = machine.ask(Query::AllocateFrames(pages as u64));
        if frame >= FRAME_LIMIT {
            return Err(DmaError::OutOfMemory);
        }
        let first: u64 = frame * FRAME_SIZE;
        let end: Option<u64> = first.checked_add(allocated_len as u64 - 1);
        let too_high: bool = match max_address {
            Some(limit) => match end {
                Some(last) => last > limit,
                None => true,
            },
            None => false,
        };
        if too_high {
            machine.tell(Order::FreeFrames(frame, pages as u64));
            return Err(DmaError::AddressTooHigh);
        }
        let address: u64 = machine.ask(Query::PhysToVirt(first));
        if address == 0 {
            return Err(DmaError::OutOfMemory);
        }
        clear_bytes(machine, address, allocated_len);
        Ok(DmaRegion { first, pages, address, len: allocated_len })
    }

    /// Give the frames back.
    pub fn release<M: Machine>(self, machine: &mut M)
        ensures
            final(machine).io() == self.release_run(old(machine).io()),
    {
        machine.tell(Order::FreeFrames(self.first / FRAME_SIZE, self.pages as u64));
    }

    pub fn physical_address(&self) -> (address: u64)
        ensures
            address == self.first,
    {
        self.first
    }

    /// Where the kernel sees the memory.
    pub fn as_ptr(&self) -> (address: u64)
        ensures
            address == self.address,
    {
        self.address
    }

    /// Where the kernel sees the memory, to change it.
    pub fn as_mut_ptr(&mut self) -> (address: u64)
        ensures
            address == old(self).address,
            *final(self) == *old(self),
    {
        self.address
    }

    /// The physical address of a byte.
    pub open spec fn physical(self, offset: int) -> Option<u64> {
        if offset < self.len {
            Some(self.first.wrapping_add(offset as u64))
        } else {
            None
        }
    }

    /// The physical address of a byte of the memory.
    pub fn physical_at(&self, offset: usize) -> (address: Option<u64>)
        ensures
            address == self.physical(offset as int),
    {
        if offset < self.len {
            Some(self.first.wrapping_add(offset as u64))
        } else {
            None
        }
    }

    /// Make what was written visible to the controller.
    pub fn sync_for_device<M: Machine>(&self, machine: &mut M)
        ensures
            final(machine).io() == old(machine).io().tell(Order::Fence),
    {
        machine.tell(Order::Fence);
    }

    /// See what the controller wrote.
    pub fn sync_for_cpu<M: Machine>(&self, machine: &mut M)
        ensures
            final(machine).io() == old(machine).io().tell(Order::Fence),
    {
        machine.tell(Order::Fence);
    }
}

/// A region is made of whole frames, the ones that were handed out, and holds
/// what was asked for; where a limit was given, its last byte is not above it.
pub proof fn lemma_region_holds_request(len: usize, max_address: Option<u64>, io: Io)
    requires
        DmaRegion::allocate_run(len, max_address, io).0 is Ok,
    ensures
        ({
            let region = DmaRegion::allocate_run(len, max_address, io).0->Ok_0;
            &&& region.first == io.ask(Query::AllocateFrames(region.pages as u64)).0 * FRAME_SIZE
            &&& region.first as int % PAGE_SIZE as int == 0
            &&& region.len == region.pages * PAGE_SIZE
            &&& len <= region.len < len + PAGE_SIZE
            &&& max_address is Some ==> region.first + region.len - 1 <= max_address->0
        }),
{
}

/// Giving a region back frees the frames that were handed out for it.
pub proof fn lemma_release_frees_frames(len: usize, max_address: Option<u64>, io: Io, later: Io)
    requires
        DmaRegion::allocate_run(len, max_address, io).0 is Ok,
    ensures
        ({
            let region = DmaRegion::allocate_run(len, max_address, io).0->Ok_0;
            let frame = io.ask(Query::AllocateFrames(region.pages as u64)).0;
            region.release_run(later) == later.tell(
                Order::FreeFrames(frame, region.pages as u64),
            )
        }),
{
}

} // verus!
