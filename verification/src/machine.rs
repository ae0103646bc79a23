//! The machine a driver runs on, and the record of what was done to it.
//!
//! A driver makes accesses one after the other.  Some are answered: a register
//! read, a question to the clock or to the memory manager.  [`Io`] holds the
//! answers the machine gives to its first, second, third ... question and the
//! accesses made so far, so that the behaviour of a driver is a function from
//! one [`Io`] to the next.
use vstd::prelude::*;

verus! {

/// Where a register or a memory cell is.
#[derive(Clone, Copy, Debug, PartialEq, Eq, Structural)]
pub enum Place {
    /// An x86 I/O port.
    Port(u16),
    /// An address in the kernel's address space.
    Memory(u64),
    /// An address in the running program's address space.
    User(u64),
}

/// Bytes of a page frame.
pub const FRAME_SIZE: u64 = 4096;
/// Frames that there can be: a physical address has 52 bits.
pub const FRAME_LIMIT: u64 = 0x100_0000_0000;

/// A question to the kernel, answered with one word.
#[derive(Clone, Copy, Debug, PartialEq, Eq, Structural)]
pub enum Query {
    /// Nanoseconds since boot.
    UptimeNs,
    /// Time-stamp counter.
    TimeStamp,
    /// Whether maskable interrupts are enabled: zero means no.
    InterruptsEnabled,
    /// Mask interrupts on this processor: what puts back the state from before.
    MaskInterrupts,
    /// Whether the memory manager is up: zero means no.
    MemoryReady,
    /// The kernel address at which a physical address is mapped.
    PhysToVirt(u64),
    /// The physical address behind a kernel address; zero when unmapped.
    VirtToPhys(u64),
    /// The number of the first of some contiguous free page frames; a number
    /// that no frame has when there are none.
    AllocateFrames(u64),
    /// Zeroed kernel memory of some size and alignment; zero, where no kernel
    /// memory lies, when there is none.
    AllocateZeroed(u64, u64),
    /// Whether the processor has a random number generator: zero means no.
    HasRandom,
    /// Whether the processor has an entropy source: zero means no.
    HasSeed,
    /// Draw from the random number generator: zero when it is drained.
    DrawRandom,
    /// Draw from the entropy source: zero when it is drained.
    DrawSeed,
    /// The word that was drawn last.
    DrawnWord,
    /// Nanoseconds of wall time; zero when unknown.
    WallClockNs,
    /// The address of something on the stack.
    StackAddress,
    /// The address of the random number generator's state.
    DataAddress,
    /// The address of the code that starts the devices.
    CodeAddress,
    /// Copy the bytes written to a program's memory (address, length): zero
    /// when they did not get there.
    CopyToUser(u64, u64),
    /// Number of I/O interrupt controllers.
    IoApicCount,
    /// Identifier of the running processor's local interrupt controller.
    LocalApicId,
    /// Route an interrupt line to a vector on a processor; zero when no
    /// controller owns the line.
    Route(u32, u8, u8),
    /// Wake a task: zero when it did not sleep, one when it was woken, two
    /// when the scheduler was busy.
    WakeTask(u64),
}

/// A request to the kernel that has no answer.
#[derive(Clone, Copy, Debug, PartialEq, Eq, Structural)]
pub enum Order {
    /// Wait one I/O bus cycle.
    IoWait,
    /// Sleep for some milliseconds on the programmable timer.
    SleepMs(u64),
    /// Put back the state from before interrupts were masked.
    RestoreInterrupts(u64),
    /// Make all earlier memory accesses visible before any later one.
    Fence,
    /// Give a run of page frames back (number of the first, pages).
    FreeFrames(u64, u64),
    /// Give kernel memory back (address, size).
    FreeZeroed(u64, u64),
    /// Unmask a line at the legacy interrupt controller.
    UnmaskLegacy(u8),
    /// Acknowledge the current interrupt at the local interrupt controller.
    EndOfInterrupt,
    /// Acknowledge the current interrupt at the legacy interrupt controller.
    EndOfLegacyInterrupt,
    /// Enter the handler of a vector into the interrupt table.
    InstallHandler(u8),
}

/// One access to the machine.
#[derive(Clone, Copy, Debug, PartialEq, Eq, Structural)]
pub enum Access {
    Read8(Place),
    Read16(Place),
    Read32(Place),
    Read64(Place),
    Write8(Place, u8),
    Write16(Place, u16),
    Write32(Place, u32),
    Write64(Place, u64),
    Ask(Query),
    Tell(Order),
}

/// The state of the conversation with the machine.
///
/// `replies(n)` is the answer to question number `n`, counted from zero;
/// `reads` questions have been asked, and `trace` holds every access so far.
#[verifier::ext_equal]
pub struct Io {
    pub replies: spec_fn(nat) -> u64,
    pub reads: nat,
    pub trace: Seq<Access>,
}

impl Io {
    /// The answer to the next question.
    pub open spec fn reply(self) -> u64 {
        (self.replies)(self.reads)
    }

    /// The state after an access that is answered.
    pub open spec fn asked(self, access: Access) -> Io {
        Io { reads: self.reads + 1, trace: self.trace.push(access), ..self }
    }

    /// The state after an access that is not answered.
    pub open spec fn told(self, access: Access) -> Io {
        Io { trace: self.trace.push(access), ..self }
    }

    pub open spec fn r8(self, place: Place) -> (u8, Io) {
        (self.reply() as u8, self.asked(Access::Read8(place)))
    }

    pub open spec fn r16(self, place: Place) -> (u16, Io) {
        (self.reply() as u16, self.asked(Access::Read16(place)))
    }

    pub open spec fn r32(self, place: Place) -> (u32, Io) {
        (self.reply() as u32, self.asked(Access::Read32(place)))
    }

    pub open spec fn r64(self, place: Place) -> (u64, Io) {
        (self.reply(), self.asked(Access::Read64(place)))
    }

    pub open spec fn w8(self, place: Place, value: u8) -> Io {
        self.told(Access::Write8(place, value))
    }

    pub open spec fn w16(self, place: Place, value: u16) -> Io {
        self.told(Access::Write16(place, value))
    }

    pub open spec fn w32(self, place: Place, value: u32) -> Io {
        self.told(Access::Write32(place, value))
    }

    pub open spec fn w64(self, place: Place, value: u64) -> Io {
        self.told(Access::Write64(place, value))
    }

    pub open spec fn ask(self, query: Query) -> (u64, Io) {
        (self.reply(), self.asked(Access::Ask(query)))
    }

    pub open spec fn tell(self, order: Order) -> Io {
        self.told(Access::Tell(order))
    }
}

/// The state after the bytes of `data` were stored, lowest address first.
pub open spec fn bytes_stored(io: Io, address: u64, data: Seq<u8>) -> Io {
    Io {
        trace: io.trace + Seq::new(
            data.len(),
            |i: int| Access::Write8(Place::Memory(address.wrapping_add(i as u64)), data[i]),
        ),
        ..io
    }
}

/// The bytes answered when `count` bytes are loaded, lowest address first.
pub open spec fn bytes_answered(io: Io, count: nat) -> Seq<u8> {
    Seq::new(count, |i: int| (io.replies)((io.reads + i) as nat) as u8)
}

/// The state after `count` bytes were loaded, lowest address first.
pub open spec fn bytes_loaded(io: Io, address: u64, count: nat) -> Io {
    Io {
        reads: io.reads + count,
        trace: io.trace + Seq::new(
            count,
            |i: int| Access::Read8(Place::Memory(address.wrapping_add(i as u64))),
        ),
        ..io
    }
}

/// What a driver may do.
///
/// Each method appends one access to the record; the methods that answer give
/// the next reply, cut down to the width that was asked for.
pub trait Machine {
    /// The conversation so far, and the replies to come.
    spec fn io(&self) -> Io;

    /// One-byte register read.
    fn read8(&mut self, place: Place) -> (value: u8)
        ensures
            (value, final(self).io()) == old(self).io().r8(place),
    ;

    /// Two-byte register read.
    fn read16(&mut self, place: Place) -> (value: u16)
        ensures
            (value, final(self).io()) == old(self).io().r16(place),
    ;

    /// Four-byte register read.
    fn read32(&mut self, place: Place) -> (value: u32)
        ensures
            (value, final(self).io()) == old(self).io().r32(place),
    ;

    /// Eight-byte memory read.
    fn read64(&mut self, place: Place) -> (value: u64)
        ensures
            (value, final(self).io()) == old(self).io().r64(place),
    ;

    /// One-byte register write.
    fn write8(&mut self, place: Place, value: u8)
        ensures
            final(self).io() == old(self).io().w8(place, value),
    ;

    /// Two-byte register write.
    fn write16(&mut self, place: Place, value: u16)
        ensures
            final(self).io() == old(self).io().w16(place, value),
    ;

    /// Four-byte register write.
    fn write32(&mut self, place: Place, value: u32)
        ensures
            final(self).io() == old(self).io().w32(place, value),
    ;

    /// Eight-byte memory write.
    fn write64(&mut self, place: Place, value: u64)
        ensures
            final(self).io() == old(self).io().w64(place, value),
    ;

    /// Ask the kernel for one word.
    fn ask(&mut self, query: Query) -> (value: u64)
        ensures
            (value, final(self).io()) == old(self).io().ask(query),
    ;

    /// Request something of the kernel.
    fn tell(&mut self, order: Order)
        ensures
            final(self).io() == old(self).io().tell(order),
    ;
}

/// The memory cell `offset` bytes behind `base`.
pub open spec fn cell(base: u64, offset: u64) -> Place {
    Place::Memory(base.wrapping_add(offset))
}

/// The memory cell `offset` bytes behind `base`.
pub fn cell_at(base: u64, offset: u64) -> (place: Place)
    ensures
        place == cell(base, offset),
{
    Place::Memory(base.wrapping_add(offset))
}

/// Read a register until none of the bits in `mask` is set, `limit` times at
/// most; whether they were all clear in the end.
pub open spec fn poll_clear(place: Place, mask: u32, limit: nat, io: Io) -> (bool, Io)
    decreases limit,
{
    if limit == 0 {
        (false, io)
    } else {
        let (value, io) = io.r32(place);
        if value & mask == 0 {
            (true, io)
        } else {
            poll_clear(place, mask, (limit - 1) as nat, io)
        }
    }
}

/// Read a register until none of the bits in `mask` is set.
pub fn wait_clear<M: Machine>(machine: &mut M, place: Place, mask: u32, limit: u32) -> (clear: bool)
    ensures
        (clear, final(machine).io()) == poll_clear(place, mask, limit as nat, old(machine).io()),
{
    let mut left: u32 = limit;
    while left > 0
        invariant
            poll_clear(place, mask, limit as nat, old(machine).io()) == poll_clear(
                place,
                mask,
                left as nat,
                machine.io(),
            ),
        decreases left,
    {
        if machine.read32(place) & mask == 0 {
            return true;
        }
        left = left - 1;
    }
    false
}

/// Store bytes, lowest address first.
pub fn store_bytes<M: Machine>(machine: &mut M, address: u64, data: &[u8])
    ensures
        final(machine).io() == bytes_stored(old(machine).io(), address, data@),
{
    let mut i: usize = 0;
    assert(bytes_stored(machine.io(), address, data@.take(0)) == machine.io());
    while i < data.len()
        invariant
            i <= data@.len(),
            machine.io() == bytes_stored(old(machine).io(), address, data@.take(i as int)),
        decreases data@.len() - i,
    {
        machine.write8(cell_at(address, i as u64), data[i]);
        proof {
            assert(bytes_stored(old(machine).io(), address, data@.take(i + 1)).trace
                =~= bytes_stored(old(machine).io(), address, data@.take(i as int)).trace.push(
                Access::Write8(cell(address, i as u64), data@[i as int]),
            ));
        }
        i = i + 1;
    }
    assert(data@.take(i as int) == data@);
}

/// `data` with `piece` laid over it from `at` on.
pub open spec fn overlaid(data: Seq<u8>, at: int, piece: Seq<u8>) -> Seq<u8> {
    Seq::new(
        data.len(),
        |i: int|
            if at <= i < at + piece.len() {
                piece[i - at]
            } else {
                data[i]
            },
    )
}

/// Lay bytes over a buffer from `at` on.
pub fn overlay(buffer: &mut Vec<u8>, at: usize, piece: &Vec<u8>)
    requires
        at + piece@.len() <= old(buffer)@.len(),
    ensures
        final(buffer)@ == overlaid(old(buffer)@, at as int, piece@),
{
    let total: usize = buffer.len();
    let mut i: usize = 0;
    assert(buffer@ == overlaid(buffer@, at as int, piece@.take(0)));
    while i < piece.len()
        invariant
            i <= piece@.len(),
            at + piece@.len() <= total,
            buffer@.len() == total == old(buffer)@.len(),
            buffer@ == overlaid(old(buffer)@, at as int, piece@.take(i as int)),
        decreases piece@.len() - i,
    {
        buffer.set(at + i, piece[i]);
        assert(buffer@ == overlaid(old(buffer)@, at as int, piece@.take(i + 1)));
        i = i + 1;
    }
    assert(piece@.take(i as int) == piece@);
}

/// A run of zero bytes.
pub open spec fn zero_bytes(count: nat) -> Seq<u8> {
    Seq::new(count, |i: int| 0u8)
}

/// Clear bytes, lowest address first.
pub fn clear_bytes<M: Machine>(machine: &mut M, address: u64, count: usize)
    ensures
        final(machine).io() == bytes_stored(old(machine).io(), address, zero_bytes(count as nat)),
{
    let mut i: usize = 0;
    assert(bytes_stored(machine.io(), address, zero_bytes(0)) == machine.io());
    while i < count
        invariant
            i <= count,
            machine.io() == bytes_stored(old(machine).io(), address, zero_bytes(i as nat)),
        decreases count - i,
    {
        machine.write8(cell_at(address, i as u64), 0);
        proof {
            assert(bytes_stored(old(machine).io(), address, zero_bytes((i + 1) as nat)).trace
                =~= bytes_stored(old(machine).io(), address, zero_bytes(i as nat)).trace.push(
                Access::Write8(cell(address, i as u64), 0),
            ));
        }
        i = i + 1;
    }
}

/// Load bytes, lowest address first.
pub fn load_bytes<M: Machine>(machine: &mut M, address: u64, count: usize) -> (data: Vec<u8>)
    ensures
        data@ == bytes_answered(old(machine).io(), count as nat),
        final(machine).io() == bytes_loaded(old(machine).io(), address, count as nat),
{
    let mut data: Vec<u8> = Vec::new();
    let mut i: usize = 0;
    assert(bytes_loaded(machine.io(), address, 0) == machine.io());
    while i < count
        invariant
            i <= count,
            data@ == bytes_answered(old(machine).io(), i as nat),
            machine.io() == bytes_loaded(old(machine).io(), address, i as nat),
        decreases count - i,
    {
        let value: u8 = machine.read8(cell_at(address, i as u64));
        data.push(value);
        proof {
            let io = old(machine).io();
            assert(bytes_answered(io, (i + 1) as nat) =~= bytes_answered(io, i as nat).push(value));
            assert(bytes_loaded(io, address, (i + 1) as nat).trace =~= bytes_loaded(
                io,
                address,
                i as nat,
            ).trace.push(Access::Read8(cell(address, i as u64))));
        }
        i = i + 1;
    }
    data
}

/// A machine that answers from a list and keeps the record of every access.
///
/// Replies are taken in order; once the list is used up every further question
/// is answered with the fallback word.
pub struct ScriptedMachine {
    replies: Vec<u64>,
    fallback: u64,
    next: usize,
    extra: Ghost<nat>,
    log: Vec<Access>,
}

impl ScriptedMachine {
    /// The answer to question `n` of a machine scripted with `replies`.
    pub open spec fn answer(replies: Seq<u64>, fallback: u64, n: nat) -> u64 {
        if n < replies.len() {
            replies[n as int]
        } else {
            fallback
        }
    }

    /// A machine that has not been touched yet.
    pub fn new(replies: Vec<u64>, fallback: u64) -> (machine: Self)
        ensures
            machine.io().trace == Seq::<Access>::empty(),
            machine.io().reads == 0,
            forall|n: nat| #[trigger]
                (machine.io().replies)(n) == Self::answer(replies@, fallback, n),
    {
        ScriptedMachine { replies, fallback, next: 0, extra: Ghost(0), log: Vec::new() }
    }

    /// Every access made so far, oldest first.
    pub fn accesses(&self) -> (log: &Vec<Access>)
        ensures
            log@ == self.io().trace,
    {
        &self.log
    }

    fn take_reply(&mut self, access: Access) -> (value: u64)
        ensures
            value == old(self).io().reply(),
            final(self).io() == old(self).io().asked(access),
    {
        self.log.push(access);
        if self.next < self.replies.len() {
            let value: u64 = self.replies[self.next];
            self.next = self.next + 1;
            self.extra = Ghost(0);
            value
        } else {
            self.extra = Ghost(self.extra@ + 1);
            self.fallback
        }
    }

    fn record(&mut self, access: Access)
        ensures
            final(self).io() == old(self).io().told(access),
    {
        self.log.push(access);
    }
}

impl Machine for ScriptedMachine {
    closed spec fn io(&self) -> Io {
        Io {
            replies: |n: nat| Self::answer(self.replies@, self.fallback, n),
            reads: if self.next < self.replies@.len() {
                self.next as nat
            } else {
                self.replies@.len() + self.extra@
            },
            trace: self.log@,
        }
    }

    fn read8(&mut self, place: Place) -> (value: u8) {
        self.take_reply(Access::Read8(place)) as u8
    }

    fn read16(&mut self, place: Place) -> (value: u16) {
        self.take_reply(Access::Read16(place)) as u16
    }

    fn read32(&mut self, place: Place) -> (value: u32) {
        self.take_reply(Access::Read32(place)) as u32
    }

    fn read64(&mut self, place: Place) -> (value: u64) {
        self.take_reply(Access::Read64(place))
    }

    fn write8(&mut self, place: Place, value: u8) {
        self.record(Access::Write8(place, value));
    }

    fn write16(&mut self, place: Place, value: u16) {
        self.record(Access::Write16(place, value));
    }

    fn write32(&mut self, place: Place, value: u32) {
        self.record(Access::Write32(place, value));
    }

    fn write64(&mut self, place: Place, value: u64) {
        self.record(Access::Write64(place, value));
    }

    fn ask(&mut self, query: Query) -> (value: u64) {
        self.take_reply(Access::Ask(query))
    }

    fn tell(&mut self, order: Order) {
        self.record(Access::Tell(order));
    }
}

} // verus!
