//! What the disk behind a port sees of the driver.
use vstd::prelude::*;
use crate::ahci::hba::{
    chunk, completion_run, lemma_frame_bytes, plain_frame, ready_run, slot_run, transfer_frame,
    HbaError, HbaPort, CMD_CR, COMMAND_POLL_LIMIT, ENGINE_POLL_LIMIT,
};
use crate::ahci::{port_run, ports_run, HbaMemory, RESET_POLL_LIMIT};
use crate::machine::{
    bytes_answered, bytes_loaded, bytes_stored, cell, overlaid, poll_clear, Access, Io, Order,
    Place, Query,
};
use crate::trace::{
    group_observed, last_answer, last_written, lemma_loaded_last, lemma_poll_shape,
    lemma_poll_writes_nothing, lemma_stored_last, observed,
};

verus! {

/// What lies in the arena and behind it when a command is issued: bytes, halves
/// and words by their offset, and the physical addresses that were looked up.
pub struct DiskCommand {
    pub slots: u32,
    pub bytes: spec_fn(int) -> u8,
    pub halves: spec_fn(int) -> u16,
    pub words: spec_fn(int) -> u32,
    pub physical: spec_fn(u64) -> u64,
}

/// A byte of the transfer buffer that was read: how many commands came before,
/// where it lies, and what it was.
pub struct DiskLoad {
    pub commands: nat,
    pub offset: int,
    pub byte: u8,
}

/// The disk's view of the driver.
pub struct DiskView {
    pub arena: DiskCommand,
    /// Slots that were issued and not yet seen to be done.
    pub pending: u32,
    pub commands: Seq<DiskCommand>,
    pub loads: Seq<DiskLoad>,
    /// No byte of the arena was touched while slot zero was pending.
    pub calm: bool,
}

impl DiskView {
    pub open spec fn start() -> DiskView {
        DiskView {
            arena: DiskCommand {
                slots: 0,
                bytes: |offset: int| 0u8,
                halves: |offset: int| 0u16,
                words: |offset: int| 0u32,
                physical: |address: u64| 0u64,
            },
            pending: 0,
            commands: Seq::empty(),
            loads: Seq::empty(),
            calm: true,
        }
    }
}

/// The disk watches the arena of 17 pages at `dma`, and the command register 56
/// bytes behind `base`.
pub open spec fn disk_step(base: u64, dma: u64) -> spec_fn(DiskView, Access, u64) -> DiskView {
    |view: DiskView, access: Access, reply: u64|
        match access {
            Access::Write8(Place::Memory(at), value) => if dma <= at < dma + 69632 {
                DiskView {
                    arena: DiskCommand {
                        bytes: |offset: int|
                            if offset == at - dma {
                                value
                            } else {
                                (view.arena.bytes)(offset)
                            },
                        ..view.arena
                    },
                    calm: view.calm && view.pending & 1 == 0,
                    ..view
                }
            } else {
                view
            },
            Access::Write16(Place::Memory(at), value) => if dma <= at < dma + 69632 {
                DiskView {
                    arena: DiskCommand {
                        halves: |offset: int|
                            if offset == at - dma {
                                value
                            } else {
                                (view.arena.halves)(offset)
                            },
                        ..view.arena
                    },
                    calm: view.calm && view.pending & 1 == 0,
                    ..view
                }
            } else {
                view
            },
            Access::Write32(Place::Memory(at), value) => if dma <= at < dma + 69632 {
                DiskView {
                    arena: DiskCommand {
                        words: |offset: int|
                            if offset == at - dma {
                                value
                            } else {
                                (view.arena.words)(offset)
                            },
                        ..view.arena
                    },
                    calm: view.calm && view.pending & 1 == 0,
                    ..view
                }
            } else if at == base + 56 {
                DiskView {
                    commands: view.commands.push(DiskCommand { slots: value, ..view.arena }),
                    pending: view.pending | value,
                    ..view
                }
            } else {
                view
            },
            Access::Read32(Place::Memory(at)) => if at == base + 56 {
                DiskView { pending: view.pending & (reply as u32), ..view }
            } else {
                view
            },
            Access::Read8(Place::Memory(at)) => if dma <= at < dma + 69632 {
                DiskView {
                    loads: view.loads.push(
                        DiskLoad {
                            commands: view.commands.len(),
                            offset: at - dma,
                            byte: reply as u8,
                        },
                    ),
                    calm: view.calm && view.pending & 1 == 0,
                    ..view
                }
            } else {
                view
            },
            Access::Ask(Query::VirtToPhys(address)) => DiskView {
                arena: DiskCommand {
                    physical: |other: u64|
                        if other == address {
                            reply
                        } else {
                            (view.arena.physical)(other)
                        },
                    ..view.arena
                },
                ..view
            },
            _ => view,
        }
}

/// What the disk has seen.
pub open spec fn disk_view(base: u64, dma: u64, io: Io) -> DiskView {
    observed(io, DiskView::start(), disk_step(base, dma))
}

/// Whether the arena and the registers of a port lie apart.
pub open spec fn is_placed(port: HbaPort) -> bool {
    &&& port.dma + 69632 <= u64::MAX
    &&& port.base + 128 <= u64::MAX
    &&& port.dma + 69632 <= port.base || port.base + 128 <= port.dma
}

/// The sector address in a command frame, which starts 1280 bytes into the
/// arena.
pub open spec fn frame_lba(command: DiskCommand) -> u64 {
    (command.bytes)(1284) as u64 | ((command.bytes)(1285) as u64) << 8 | ((command.bytes)(
        1286,
    ) as u64) << 16 | ((command.bytes)(1288) as u64) << 24 | ((command.bytes)(1289) as u64) << 32
        | ((command.bytes)(1290) as u64) << 40
}

/// Whether a command moves some sectors between the disk and the buffer 4096
/// bytes into the arena: a register frame of five words with the command in it,
/// one descriptor of the whole length, and the direction in the header.
pub open spec fn moves_sectors(
    command: DiskCommand,
    dma: u64,
    to_disk: bool,
    lba: int,
    sectors: int,
) -> bool {
    &&& command.slots == 1
    &&& (command.halves)(0) == (if to_disk {
        0x45u16
    } else {
        0x05u16
    })
    &&& (command.halves)(2) == 1
    &&& (command.bytes)(1280) == 0x27
    &&& (command.bytes)(1281) == 0x80
    &&& (command.bytes)(1282) == (if to_disk {
        0x35u8
    } else {
        0x25u8
    })
    &&& (command.bytes)(1287) == 0x40
    &&& frame_lba(command) == lba
    &&& (command.bytes)(1292) as u16 | ((command.bytes)(1293) as u16) << 8 == sectors
    &&& (command.words)(1408) == (command.physical)((dma + 4096) as u64) as u32
    &&& (command.words)(1412) == ((command.physical)((dma + 4096) as u64) >> 32) as u32
    &&& (command.words)(1420) & 0x3F_FFFF == 512 * sectors - 1
}

/// Whether two views differ in nothing but what is pending.
pub open spec fn same_but_pending(a: DiskView, b: DiskView) -> bool {
    &&& a.arena == b.arena
    &&& a.commands == b.commands
    &&& a.loads == b.loads
    &&& a.calm == b.calm
}

proof fn lemma_bits(pending: u32, reply: u32)
    by (bit_vector)
    ensures
        pending & 1 == 0 ==> (pending & reply) & 1 == 0,
        reply & 1 == 0 ==> (pending & reply) & 1 == 0,
        reply < 0x1_0000 ==> ((reply & 0x3F_FFFF) | 0x8000_0000) & 0x3F_FFFF == reply,
        5u16 | 0x40u16 == 0x45u16,
        5u16 | 0u16 == 5u16,
{
}

proof fn lemma_ready_view(port: HbaPort, limit: nat, io: Io)
    requires
        is_placed(port),
    ensures
        disk_view(port.base, port.dma, ready_run(port.base, limit, io).1) == disk_view(
            port.base,
            port.dma,
            io,
        ),
    decreases limit,
{
    broadcast use group_observed;

    if limit > 0 {
        let next = io.r32(cell(port.base, 0x20)).1;
        assert(disk_view(port.base, port.dma, next) == disk_view(port.base, port.dma, io));
        lemma_ready_view(port, (limit - 1) as nat, next);
    }
}

proof fn lemma_slot_view(port: HbaPort, limit: nat, io: Io)
    requires
        is_placed(port),
        disk_view(port.base, port.dma, io).pending & 1 == 0,
    ensures
        ({
            let after = disk_view(port.base, port.dma, slot_run(port.base, limit, io).1);
            same_but_pending(after, disk_view(port.base, port.dma, io)) && after.pending & 1 == 0
        }),
    decreases limit,
{
    broadcast use group_observed;

    if limit > 0 {
        let issued = io.r32(cell(port.base, 0x38)).1;
        let next = issued.r32(cell(port.base, 0x34)).1;
        lemma_bits(disk_view(port.base, port.dma, io).pending, io.reply() as u32);
        assert(same_but_pending(
            disk_view(port.base, port.dma, next),
            disk_view(port.base, port.dma, io),
        ));
        lemma_slot_view(port, (limit - 1) as nat, next);
    }
}

/// A command counts as done only after the command register was read with the
/// bit of slot zero clear, and after the port's causes showed no error.
pub proof fn lemma_done_was_seen(port: HbaPort, limit: nat, io: Io)
    requires
        is_placed(port),
        completion_run(port.base, limit, io).0 is Ok,
    ensures
        ({
            let later = completion_run(port.base, limit, io).1;
            let register = |offset: int| Place::Memory((port.base + offset) as u64);
            let answer = |offset: int| last_answer(later, Access::Read32(register(offset)))->0;
            &&& last_answer(later, Access::Read32(register(0x38))) is Some
            &&& answer(0x38) as u32 & 1 == 0
            &&& answer(0x20) as u32 & 0x01 == 0
            &&& answer(0x10) as u32 & 0x4000_0000 == 0
            &&& last_written(later, register(0x10)) == Some(
                Access::Write32(register(0x10), answer(0x10) as u32),
            )
            &&& disk_view(port.base, port.dma, later).pending & 1 == 0
            &&& same_but_pending(
                disk_view(port.base, port.dma, later),
                disk_view(port.base, port.dma, io),
            )
        }),
    decreases limit,
{
    broadcast use group_observed;

    if limit > 0 {
        let causes = io.r32(cell(port.base, 0x10)).1;
        let task = causes.r32(cell(port.base, 0x20)).1;
        let next = task.r32(cell(port.base, 0x38)).1;
        lemma_bits(disk_view(port.base, port.dma, task).pending, task.reply() as u32);
        assert(same_but_pending(
            disk_view(port.base, port.dma, next),
            disk_view(port.base, port.dma, io),
        ));
        if task.reply() as u32 & 1 != 0 {
            lemma_done_was_seen(port, (limit - 1) as nat, next);
        }
    }
}

/// A command that is never seen to be done is never reported as done.
pub proof fn lemma_undone_is_not_done(port: HbaPort, limit: nat, io: Io)
    requires
        forall|n: nat| n >= io.reads ==> #[trigger] (io.replies)(n) as u32 & 1 == 1,
    ensures
        !(completion_run(port.base, limit, io).0 is Ok),
    decreases limit,
{
    if limit > 0 {
        let next = io.r32(cell(port.base, 0x10)).1.r32(cell(port.base, 0x20)).1.r32(
            cell(port.base, 0x38),
        ).1;
        assert((io.replies)(io.reads + 2) as u32 & 1 == 1);
        lemma_undone_is_not_done(port, (limit - 1) as nat, next);
    }
}

proof fn lemma_view_stored(port: HbaPort, io: Io, offset: int, data: Seq<u8>)
    requires
        is_placed(port),
        0 <= offset,
        offset + data.len() <= 69632,
        disk_view(port.base, port.dma, io).pending & 1 == 0,
    ensures
        ({
            let before = disk_view(port.base, port.dma, io);
            let after = disk_view(
                port.base,
                port.dma,
                bytes_stored(io, (port.dma + offset) as u64, data),
            );
            &&& after.pending == before.pending
            &&& after.commands == before.commands
            &&& after.loads == before.loads
            &&& after.calm == before.calm
            &&& after.arena.slots == before.arena.slots
            &&& after.arena.halves == before.arena.halves
            &&& after.arena.words == before.arena.words
            &&& after.arena.physical == before.arena.physical
            &&& forall|i: int| #[trigger]
                (after.arena.bytes)(i) == (if offset <= i < offset + data.len() {
                    data[i - offset]
                } else {
                    (before.arena.bytes)(i)
                })
        }),
    decreases data.len(),
{
    broadcast use group_observed;

    lemma_stored_last(io, (port.dma + offset) as u64, data);
    if data.len() > 0 {
        lemma_view_stored(port, io, offset, data.drop_last());
    }
}

proof fn lemma_view_loaded(port: HbaPort, io: Io, offset: int, count: nat)
    requires
        is_placed(port),
        0 <= offset,
        offset + count <= 69632,
        disk_view(port.base, port.dma, io).pending & 1 == 0,
    ensures
        ({
            let before = disk_view(port.base, port.dma, io);
            let after = disk_view(
                port.base,
                port.dma,
                bytes_loaded(io, (port.dma + offset) as u64, count),
            );
            &&& after.pending == before.pending
            &&& after.commands == before.commands
            &&& after.arena == before.arena
            &&& after.calm == before.calm
            &&& after.loads.len() == before.loads.len() + count
            &&& forall|i: int|
                0 <= i < before.loads.len() ==> #[trigger] after.loads[i] == before.loads[i]
            &&& forall|i: int|
                before.loads.len() <= i < after.loads.len() ==> #[trigger] after.loads[i]
                    == (DiskLoad {
                    commands: before.commands.len(),
                    offset: offset + (i - before.loads.len()),
                    byte: bytes_answered(io, count)[i - before.loads.len()],
                })
        }),
    decreases count,
{
    broadcast use group_observed;

    lemma_loaded_last(io, (port.dma + offset) as u64, count);
    if count > 0 {
        lemma_view_loaded(port, io, offset, (count - 1) as nat);
    }
}

proof fn lemma_prepare_view(port: HbaPort, lba: u64, sectors: u16, write: bool, io: Io)
    requires
        is_placed(port),
        lba <= 0xFFFF_FFFF_FFFF,
        0 < sectors <= 128,
        disk_view(port.base, port.dma, io).pending & 1 == 0,
    ensures
        ({
            let before = disk_view(port.base, port.dma, io);
            let after = disk_view(
                port.base,
                port.dma,
                port.prepare_run(lba, sectors, write, io),
            );
            &&& after.pending == before.pending
            &&& after.commands == before.commands
            &&& after.loads == before.loads
            &&& after.calm == before.calm
            &&& moves_sectors(
                DiskCommand { slots: 1, ..after.arena },
                port.dma,
                write,
                lba as int,
                sectors as int,
            )
            &&& forall|i: int|
                4096 <= i ==> #[trigger] (after.arena.bytes)(i) == (before.arena.bytes)(i)
        }),
{
    broadcast use group_observed;

    let dma = port.dma;
    let data = io.ask(Query::VirtToPhys((dma + 4096) as u64));
    let flags: u16 = if write {
        0x45
    } else {
        0x05
    };
    lemma_bits(0, (sectors * 512 - 1) as u32);
    lemma_frame_bytes(lba, sectors);
    let header = data.1.w16(cell(dma, 0), flags).w16(cell(dma, 2), 1).w32(cell(dma, 4), 0);
    lemma_view_stored(port, header, 1280, transfer_frame(lba, sectors, write));
    let framed = bytes_stored(header, (dma + 1280) as u64, transfer_frame(lba, sectors, write));
    let last = framed.w32(cell(dma, 1408), data.0 as u32).w32(
        cell(dma, 1412),
        (data.0 >> 32) as u32,
    ).w32(cell(dma, 1416), 0).w32(
        cell(dma, 1420),
        (((sectors * 512 - 1) as u32) & 0x3F_FFFF) | 0x8000_0000,
    );
    assert(last == port.prepare_run(lba, sectors, write, io));
}

/// A transfer that ends well put one command to the disk, and it was the one that
/// was asked for.
pub proof fn lemma_transfer_is_put(port: HbaPort, lba: u64, sectors: u16, write: bool, io: Io)
    requires
        is_placed(port),
        0 < sectors <= 128,
        disk_view(port.base, port.dma, io).pending & 1 == 0,
        port.issue_run(lba, sectors, write, io).0 is Ok,
    ensures
        ({
            let before = disk_view(port.base, port.dma, io);
            let after = disk_view(
                port.base,
                port.dma,
                port.issue_run(lba, sectors, write, io).1,
            );
            &&& after.commands.len() == before.commands.len() + 1
            &&& after.commands.drop_last() == before.commands
            &&& moves_sectors(
                after.commands.last(),
                port.dma,
                write,
                lba as int,
                sectors as int,
            )
            &&& forall|i: int|
                4096 <= i ==> #[trigger] (after.commands.last().bytes)(i) == (before.arena.bytes)(
                    i,
                )
            &&& after.loads == before.loads
            &&& after.calm == before.calm
            &&& after.pending & 1 == 0
        }),
{
    broadcast use group_observed;

    let present = port.present_run(io).1;
    assert(disk_view(port.base, port.dma, present) == disk_view(port.base, port.dma, io));
    lemma_ready_view(port, 2_000_000, present);
    let ready = ready_run(port.base, 2_000_000, present).1;
    lemma_slot_view(port, 2_000_000, ready);
    let free = slot_run(port.base, 2_000_000, ready).1;
    lemma_prepare_view(port, lba, sectors, write, free);
    let prepared = port.prepare_run(lba, sectors, write, free);
    let cleared = prepared.w32(cell(port.base, 0x10), u32::MAX).tell(Order::Fence);
    assert(disk_view(port.base, port.dma, cleared) == disk_view(port.base, port.dma, prepared));
    let issued = cleared.w32(cell(port.base, 0x38), 1);
    assert(disk_view(port.base, port.dma, issued).commands == disk_view(
        port.base,
        port.dma,
        cleared,
    ).commands.push(DiskCommand { slots: 1, ..disk_view(port.base, port.dma, cleared).arena }));
    lemma_done_was_seen(port, 50_000_000, issued);
    assert(disk_view(port.base, port.dma, issued).commands.drop_last() =~= disk_view(
        port.base,
        port.dma,
        io,
    ).commands);
}

/// The sectors that command number `k` of a transfer of `total` bytes moves.
pub open spec fn sectors_of(total: int, k: int) -> int {
    if total - 65536 * k < 65536 {
        (total - 65536 * k) / 512
    } else {
        128
    }
}

/// Whether the commands from number `first` on move `total` bytes between the
/// disk, from sector `lba` on, and the buffer: 128 sectors each, the last one
/// what is left, one behind the other.
pub open spec fn moves_all(
    commands: Seq<DiskCommand>,
    first: int,
    dma: u64,
    to_disk: bool,
    lba: int,
    total: int,
) -> bool {
    &&& commands.len() == first + (total + 65535) / 65536
    &&& forall|k: int|
        0 <= k < (total + 65535) / 65536 ==> moves_sectors(
            #[trigger] commands[first + k],
            dma,
            to_disk,
            lba + 128 * k,
            sectors_of(total, k),
        )
}

spec fn is_kept<T>(before: Seq<T>, after: Seq<T>) -> bool {
    &&& before.len() <= after.len()
    &&& forall|i: int| 0 <= i < before.len() ==> #[trigger] after[i] == before[i]
}

proof fn lemma_read_view(port: HbaPort, lba: u64, data: Seq<u8>, done: int, io: Io)
    requires
        is_placed(port),
        0 <= done <= data.len() <= usize::MAX,
        data.len() % 512 == 0,
        done % 65536 == 0 || done == data.len(),
        disk_view(port.base, port.dma, io).pending & 1 == 0,
        port.read_run(lba, data, done, io).0 is Ok,
    ensures
        ({
            let (result, bytes, later) = port.read_run(lba, data, done, io);
            let before = disk_view(port.base, port.dma, io);
            let after = disk_view(port.base, port.dma, later);
            let start = before.loads.len();
            &&& result == Ok::<usize, HbaError>(data.len() as usize)
            &&& bytes.len() == data.len()
            &&& forall|i: int| 0 <= i < done ==> #[trigger] bytes[i] == data[i]
            &&& is_kept(before.commands, after.commands)
            &&& moves_all(
                after.commands,
                before.commands.len() as int,
                port.dma,
                false,
                lba + done / 512,
                data.len() - done,
            )
            &&& is_kept(before.loads, after.loads)
            &&& after.loads.len() == start + (data.len() - done)
            &&& forall|i: int|
                start <= i < after.loads.len() ==> #[trigger] after.loads[i] == (DiskLoad {
                    commands: (before.commands.len() + (i - start) / 65536 + 1) as nat,
                    offset: 4096 + (i - start) % 65536,
                    byte: bytes[done + (i - start)],
                })
            &&& after.calm == before.calm
            &&& after.pending & 1 == 0
        }),
    decreases data.len() - done,
{
    if done < data.len() {
        let bytes = chunk(data.len() - done);
        let sectors = (bytes / 512) as u16;
        let command_lba = (lba + done / 512) as u64;
        lemma_transfer_is_put(port, command_lba, sectors, false, io);
        let issued = port.issue_run(command_lba, sectors, false, io).1;
        lemma_view_loaded(port, issued, 4096, bytes as nat);
        let piece = bytes_answered(issued, bytes as nat);
        let loaded = bytes_loaded(issued, (port.dma + 4096) as u64, bytes as nat);
        let next = overlaid(data, done, piece);
        lemma_read_view(port, lba, next, done + bytes, loaded);
        let before = disk_view(port.base, port.dma, io);
        let middle = disk_view(port.base, port.dma, loaded);
        let (result, end, later) = port.read_run(lba, next, done + bytes, loaded);
        let after = disk_view(port.base, port.dma, later);
        assert(port.read_run(lba, data, done, io) == port.read_run(
            lba,
            next,
            done + bytes,
            loaded,
        ));
        assert forall|i: int| 0 <= i < before.commands.len() implies #[trigger] after.commands[i]
            == before.commands[i] by {
            assert(middle.commands.drop_last()[i] == before.commands[i]);
            assert(middle.commands[i] == before.commands[i]);
        }
        let first = before.commands.len() as int;
        let total = data.len() - done;
        assert forall|k: int| 0 <= k < (total + 65535) / 65536 implies moves_sectors(
            #[trigger] after.commands[first + k],
            port.dma,
            false,
            lba + done / 512 + 128 * k,
            sectors_of(total, k),
        ) by {
            if k == 0 {
                assert(after.commands[first] == middle.commands[first]);
            } else {
                assert(after.commands[(first + 1) + (k - 1)] == after.commands[first + k]);
                assert(sectors_of(total, k) == sectors_of(total - bytes, k - 1));
            }
        }
        let start = before.loads.len();
        assert forall|i: int| start <= i < after.loads.len() implies #[trigger] after.loads[i] == (
        DiskLoad {
            commands: (before.commands.len() + (i - start) / 65536 + 1) as nat,
            offset: 4096 + (i - start) % 65536,
            byte: end[done + (i - start)],
        }) by {
            if i < start + bytes {
                assert(after.loads[i] == middle.loads[i]);
                assert(end[done + (i - start)] == next[done + (i - start)]);
            }
        }
        assert forall|i: int| 0 <= i < done implies #[trigger] end[i] == data[i] by {
            assert(next[i] == data[i]);
        }
    }
}

/// A read that ends well gives back, in order, the bytes that the disk put into
/// the buffer: they are loaded after the command that fetched them was seen to be
/// done, and the commands fetch the sectors that were asked for.
pub proof fn lemma_read_fetches_sectors(port: HbaPort, lba: u64, data: Seq<u8>, io: Io)
    requires
        is_placed(port),
        0 < data.len() <= usize::MAX,
        data.len() % 512 == 0,
        disk_view(port.base, port.dma, io).pending & 1 == 0,
        disk_view(port.base, port.dma, io).calm,
        port.read_run(lba, data, 0, io).0 is Ok,
    ensures
        ({
            let (result, bytes, later) = port.read_run(lba, data, 0, io);
            let before = disk_view(port.base, port.dma, io);
            let after = disk_view(port.base, port.dma, later);
            let start = before.loads.len();
            &&& result == Ok::<usize, HbaError>(data.len() as usize)
            &&& bytes.len() == data.len()
            &&& moves_all(
                after.commands,
                before.commands.len() as int,
                port.dma,
                false,
                lba as int,
                data.len() as int,
            )
            &&& after.loads.len() == start + data.len()
            &&& forall|i: int|
                0 <= i < data.len() ==> after.loads[start + i] == (DiskLoad {
                    commands: (before.commands.len() + i / 65536 + 1) as nat,
                    offset: 4096 + i % 65536,
                    byte: #[trigger] bytes[i],
                })
            &&& after.calm
            &&& after.pending & 1 == 0
        }),
{
    lemma_read_view(port, lba, data, 0, io);
}

proof fn lemma_write_view(port: HbaPort, lba: u64, data: Seq<u8>, done: int, io: Io)
    requires
        is_placed(port),
        0 <= done <= data.len() <= usize::MAX,
        data.len() % 512 == 0,
        done % 65536 == 0 || done == data.len(),
        disk_view(port.base, port.dma, io).pending & 1 == 0,
        port.write_run(lba, data, done, io).0 is Ok,
    ensures
        ({
            let (result, later) = port.write_run(lba, data, done, io);
            let before = disk_view(port.base, port.dma, io);
            let after = disk_view(port.base, port.dma, later);
            let first = before.commands.len() as int;
            &&& result == Ok::<usize, HbaError>(data.len() as usize)
            &&& is_kept(before.commands, after.commands)
            &&& moves_all(
                after.commands,
                first,
                port.dma,
                true,
                lba + done / 512,
                data.len() - done,
            )
            &&& forall|k: int, j: int|
                0 <= k < (data.len() - done + 65535) / 65536 && 0 <= j < 512 * sectors_of(
                    data.len() - done,
                    k,
                ) ==> (#[trigger] after.commands[first + k].bytes)(#[trigger] (4096 + j))
                    == data[done + 65536 * k + j]
            &&& after.loads == before.loads
            &&& after.calm == before.calm
            &&& after.pending & 1 == 0
        }),
    decreases data.len() - done,
{
    if done < data.len() {
        let bytes = chunk(data.len() - done);
        let sectors = (bytes / 512) as u16;
        let command_lba = (lba + done / 512) as u64;
        let piece = data.subrange(done, done + bytes);
        lemma_view_stored(port, io, 4096, piece);
        let stored = bytes_stored(io, (port.dma + 4096) as u64, piece);
        lemma_transfer_is_put(port, command_lba, sectors, true, stored);
        let issued = port.issue_run(command_lba, sectors, true, stored).1;
        lemma_write_view(port, lba, data, done + bytes, issued);
        let before = disk_view(port.base, port.dma, io);
        let middle = disk_view(port.base, port.dma, issued);
        let (result, later) = port.write_run(lba, data, done + bytes, issued);
        let after = disk_view(port.base, port.dma, later);
        assert(port.write_run(lba, data, done, io) == port.write_run(
            lba,
            data,
            done + bytes,
            issued,
        ));
        assert forall|i: int| 0 <= i < before.commands.len() implies #[trigger] after.commands[i]
            == before.commands[i] by {
            assert(middle.commands.drop_last()[i] == before.commands[i]);
            assert(middle.commands[i] == before.commands[i]);
        }
        let first = before.commands.len() as int;
        let total = data.len() - done;
        assert(after.commands[first] == middle.commands[first]);
        assert forall|k: int| 0 <= k < (total + 65535) / 65536 implies moves_sectors(
            #[trigger] after.commands[first + k],
            port.dma,
            true,
            lba + done / 512 + 128 * k,
            sectors_of(total, k),
        ) by {
            if k > 0 {
                assert(after.commands[(first + 1) + (k - 1)] == after.commands[first + k]);
                assert(sectors_of(total, k) == sectors_of(total - bytes, k - 1));
            }
        }
        assert forall|k: int, j: int|
            0 <= k < (total + 65535) / 65536 && 0 <= j < 512 * sectors_of(total, k) implies (
        #[trigger] after.commands[first + k].bytes)(#[trigger] (4096 + j)) == data[done + 65536 * k
            + j] by {
            if k == 0 {
                assert((after.commands[first].bytes)(4096 + j) == piece[j]);
            } else {
                assert(after.commands[(first + 1) + (k - 1)] == after.commands[first + k]);
                assert(sectors_of(total, k) == sectors_of(total - bytes, k - 1));
                assert((after.commands[(first + 1) + (k - 1)].bytes)(4096 + j) == data[done + bytes
                    + 65536 * (k - 1) + j]);
            }
        }
    }
}

/// A write that ends well put commands to the disk that store the sectors that
/// were asked for, each issued when the buffer held its part of the data, and all
/// seen to be done.
pub proof fn lemma_write_stores_sectors(port: HbaPort, lba: u64, data: Seq<u8>, io: Io)
    requires
        is_placed(port),
        0 < data.len() <= usize::MAX,
        data.len() % 512 == 0,
        disk_view(port.base, port.dma, io).pending & 1 == 0,
        disk_view(port.base, port.dma, io).calm,
        port.write_run(lba, data, 0, io).0 is Ok,
    ensures
        ({
            let (result, later) = port.write_run(lba, data, 0, io);
            let before = disk_view(port.base, port.dma, io);
            let after = disk_view(port.base, port.dma, later);
            let first = before.commands.len() as int;
            &&& result == Ok::<usize, HbaError>(data.len() as usize)
            &&& moves_all(
                after.commands,
                first,
                port.dma,
                true,
                lba as int,
                data.len() as int,
            )
            &&& forall|k: int, j: int|
                0 <= k < (data.len() + 65535) / 65536 && 0 <= j < 512 * sectors_of(
                    data.len() as int,
                    k,
                ) ==> (#[trigger] after.commands[first + k].bytes)(#[trigger] (4096 + j))
                    == data[65536 * k + j]
            &&& after.calm
            &&& after.pending & 1 == 0
        }),
{
    lemma_write_view(port, lba, data, 0, io);
}

/// A flush that ends well put the command that empties the cache to the disk, and
/// saw it done.
pub proof fn lemma_flush_is_put(port: HbaPort, io: Io)
    requires
        is_placed(port),
        disk_view(port.base, port.dma, io).pending & 1 == 0,
        port.flush_run(io).0 is Ok,
    ensures
        ({
            let before = disk_view(port.base, port.dma, io);
            let after = disk_view(port.base, port.dma, port.flush_run(io).1);
            let command = after.commands.last();
            &&& after.commands.len() == before.commands.len() + 1
            &&& command.slots == 1
            &&& (command.halves)(0) == 5
            &&& (command.halves)(2) == 0
            &&& (command.bytes)(1280) == 0x27
            &&& (command.bytes)(1281) == 0x80
            &&& (command.bytes)(1282) == 0xEA
            &&& after.pending & 1 == 0
            &&& after.calm == before.calm
        }),
{
    broadcast use group_observed;

    let present = port.present_run(io).1;
    assert(disk_view(port.base, port.dma, present) == disk_view(port.base, port.dma, io));
    lemma_ready_view(port, 2_000_000, present);
    let ready = ready_run(port.base, 2_000_000, present).1;
    lemma_slot_view(port, 2_000_000, ready);
    let free = slot_run(port.base, 2_000_000, ready).1;
    let dma = port.dma;
    let header = free.w16(cell(dma, 0), 5).w16(cell(dma, 2), 0).w32(cell(dma, 4), 0);
    lemma_view_stored(port, header, 1280, plain_frame(0xEA));
    let framed = bytes_stored(header, (dma + 1280) as u64, plain_frame(0xEA));
    let prepared = framed.w32(cell(dma, 1408), 0).w32(cell(dma, 1412), 0).w32(
        cell(dma, 1416),
        0,
    ).w32(cell(dma, 1420), 0);
    assert(prepared == port.prepare_plain_run(0xEA, free));
    let issued = prepared.w32(cell(port.base, 0x10), u32::MAX).tell(Order::Fence).w32(
        cell(port.base, 0x38),
        1,
    );
    lemma_done_was_seen(port, 50_000_000, issued);
}

/// A port that comes up knows its memory by the physical addresses that were looked
/// up for it: the command list, the received frames, and in the list's first header
/// the command table.  Its interrupts are off, old causes and errors are cleared, and
/// last of all both of its engines are switched on.
pub proof fn lemma_port_is_configured(port: HbaPort, io: Io)
    requires
        is_placed(port),
        port.configure_run(io).0 is Ok,
    ensures
        ({
            let later = port.configure_run(io).1;
            let register = |offset: int| Place::Memory((port.base + offset) as u64);
            let arena = |offset: int| Place::Memory((port.dma + offset) as u64);
            let physical = |offset: int|
                last_answer(
                    later,
                    Access::Ask(Query::VirtToPhys((port.dma + offset) as u64)),
                )->0;
            let set = |place: Place, value: u32|
                last_written(later, place) == Some(Access::Write32(place, value));
            let end = later.trace.len() as int;
            &&& set(register(0x00), physical(0) as u32)
            &&& set(register(0x04), (physical(0) >> 32) as u32)
            &&& set(register(0x08), physical(1024) as u32)
            &&& set(register(0x0C), (physical(1024) >> 32) as u32)
            &&& set(arena(8), physical(1280) as u32)
            &&& set(arena(12), (physical(1280) >> 32) as u32)
            &&& set(register(0x14), 0)
            &&& set(register(0x10), 0xFFFF_FFFF)
            &&& set(register(0x30), 0xFFFF_FFFF)
            &&& later.trace[end - 2] == Access::Read32(register(0x18))
            &&& later.trace[end - 1] == Access::Write32(
                register(0x18),
                (later.replies)((later.reads - 1) as nat) as u32 | 0x10u32 | 0x01u32,
            )
        }),
{
    broadcast use group_observed;

    let fitted = port.fits_run(io).1;
    let stopped = port.stop_run(fitted).1;
    let (list, a) = stopped.ask(Query::VirtToPhys(port.dma));
    let (fis, b) = a.ask(Query::VirtToPhys((port.dma + 1024) as u64));
    let (table, c) = b.ask(Query::VirtToPhys((port.dma + 1280) as u64));
    let d = c.w32(cell(port.base, 0x00), list as u32).w32(
        cell(port.base, 0x04),
        (list >> 32) as u32,
    ).w32(cell(port.base, 0x08), fis as u32).w32(cell(port.base, 0x0C), (fis >> 32) as u32);
    let e = d.w32(cell(port.dma, 8), table as u32).w32(
        cell(port.dma, 12),
        (table >> 32) as u32,
    ).w16(cell(port.dma, 2), 1);
    let f = e.w32(cell(port.base, 0x14), 0).w32(cell(port.base, 0x10), u32::MAX).w32(
        cell(port.base, 0x30),
        u32::MAX,
    );
    assert(port.configure_run(io) == port.start_run(f));
    let place = cell(port.base, 0x18);
    let idle = poll_clear(place, CMD_CR, ENGINE_POLL_LIMIT as nat, f).1;
    let later = port.configure_run(io).1;
    assert forall|offset: int| 0 <= offset < 69632 implies #[trigger] last_answer(
        later,
        Access::Ask(Query::VirtToPhys((port.dma + offset) as u64)),
    ) == last_answer(f, Access::Ask(Query::VirtToPhys((port.dma + offset) as u64))) by {
        lemma_poll_writes_nothing(
            place,
            CMD_CR,
            ENGINE_POLL_LIMIT as nat,
            f,
            place,
            Query::VirtToPhys((port.dma + offset) as u64),
        );
    }
    assert forall|watched: Place| watched != place implies #[trigger] last_written(later, watched)
        == last_written(f, watched) by {
        lemma_poll_writes_nothing(
            place,
            CMD_CR,
            ENGINE_POLL_LIMIT as nat,
            f,
            watched,
            Query::UptimeNs,
        );
    }
}

/// A port is kept only where the last reading of its link, 0x28 bytes into its
/// registers, shows a device and an active state, and its signature is a disk's.
pub proof fn lemma_kept_port_has_disk(abar: u64, index: int, slots: u8, wide: bool, io: Io)
    requires
        0 <= index < 32,
        abar + 0x1100 <= u64::MAX,
        port_run(abar, index, slots, wide, io).0 is Some,
    ensures
        ({
            let (kept, later) = port_run(abar, index, slots, wide, io);
            let port = kept->0;
            let read = |offset: int|
                last_answer(
                    later,
                    Access::Read32(Place::Memory((abar + 0x100 + 0x80 * index + offset) as u64)),
                );
            &&& port.base == abar + 0x100 + 0x80 * index
            &&& port.index == index
            &&& port.supports_64bit == wide
            &&& port.command_slots == (if slots == 0 {
                1
            } else if slots > 32 {
                32
            } else {
                slots as int
            })
            &&& port.dma != 0
            &&& read(0x28) is Some
            &&& read(0x28)->0 as u32 & 0x0F == 3
            &&& read(0x28)->0 as u32 & 0xF00 == 0x100
            &&& read(0x24) is Some
            &&& read(0x24)->0 as u32 == 0x0000_0101
        }),
{
    broadcast use group_observed;

}

proof fn lemma_ports_are_numbered(
    abar: u64,
    implemented: u32,
    slots: u8,
    wide: bool,
    ports: Seq<Option<HbaPort>>,
    io: Io,
)
    requires
        abar + 0x1100 <= u64::MAX,
        ports.len() <= 32,
        forall|i: int|
            0 <= i < ports.len() && (#[trigger] ports[i]) is Some ==> implemented & (1u32 << (
            i as u32)) != 0 && ports[i]->0.base == abar + 0x100 + 0x80 * i && ports[i]->0.index
                == i,
    ensures
        ({
            let all = ports_run(abar, implemented, slots, wide, ports, io).0;
            &&& all.len() == 32
            &&& forall|i: int|
                0 <= i < 32 && (#[trigger] all[i]) is Some ==> implemented & (1u32 << (i as u32))
                    != 0 && all[i]->0.base == abar + 0x100 + 0x80 * i && all[i]->0.index == i
        }),
    decreases 32 - ports.len(),
{
    if ports.len() < 32 {
        let index = ports.len() as int;
        if implemented & (1u32 << (ports.len() as u32)) == 0 {
            lemma_ports_are_numbered(abar, implemented, slots, wide, ports.push(None), io);
        } else {
            let (port, next) = port_run(abar, index, slots, wide, io);
            if port is Some {
                lemma_kept_port_has_disk(abar, index, slots, wide, io);
            }
            lemma_ports_are_numbered(abar, implemented, slots, wide, ports.push(port), next);
        }
    }
}

/// A controller has 32 places for ports.  A place is filled only where the controller
/// has that port, and the registers of port `i` lie 0x100 and 0x80 times `i` bytes
/// into the window.
pub proof fn lemma_ports_are_where_they_are(
    abar: u64,
    implemented: u32,
    slots: u8,
    wide: bool,
    io: Io,
)
    requires
        abar + 0x1100 <= u64::MAX,
    ensures
        ({
            let all = ports_run(abar, implemented, slots, wide, Seq::empty(), io).0;
            &&& all.len() == 32
            &&& forall|i: int|
                0 <= i < 32 && (#[trigger] all[i]) is Some ==> implemented & (1u32 << (i as u32))
                    != 0 && all[i]->0.base == abar + 0x100 + 0x80 * i && all[i]->0.index == i
        }),
{
    lemma_ports_are_numbered(abar, implemented, slots, wide, Seq::empty(), io);
}

/// A device counts as ready exactly where the last reading of its task file shows
/// neither an error nor that it is busy or wants data.
pub proof fn lemma_ready_reason(port: HbaPort, limit: nat, io: Io)
    requires
        is_placed(port),
        limit > 0,
    ensures
        ({
            let (result, later) = ready_run(port.base, limit, io);
            let read = last_answer(
                later,
                Access::Read32(Place::Memory((port.base + 0x20) as u64)),
            );
            &&& read is Some
            &&& result is Ok <==> read->0 as u32 & 0x01 == 0 && read->0 as u32 & (0x80u32
                | 0x08u32) == 0
            &&& result == Err::<(), HbaError>(HbaError::TaskFileError) <==> read->0 as u32 & 0x01
                != 0
        }),
    decreases limit,
{
    broadcast use group_observed;

    reveal_with_fuel(ready_run, 2);
    let (task, next) = io.r32(cell(port.base, 0x20));
    if task & 0x01 == 0 && task & (0x80u32 | 0x08u32) != 0 && limit > 1 {
        lemma_ready_reason(port, (limit - 1) as nat, next);
    }
}

proof fn lemma_slot_outcome(base: u64, limit: nat, io: Io)
    ensures
        slot_run(base, limit, io).0 is Ok || slot_run(base, limit, io).0 == Err::<(), HbaError>(
            HbaError::DeviceBusy,
        ),
    decreases limit,
{
    if limit > 0 {
        let next = io.r32(cell(base, 0x38)).1.r32(cell(base, 0x34)).1;
        lemma_slot_outcome(base, (limit - 1) as nat, next);
    }
}

proof fn lemma_completion_outcome(base: u64, limit: nat, io: Io)
    ensures
        ({
            let result = completion_run(base, limit, io).0;
            result is Ok || result == Err::<(), HbaError>(HbaError::TaskFileError) || result
                == Err::<(), HbaError>(HbaError::CommandTimeout)
        }),
    decreases limit,
{
    if limit > 0 {
        let next = io.r32(cell(base, 0x10)).1.r32(cell(base, 0x20)).1.r32(cell(base, 0x38)).1;
        lemma_completion_outcome(base, (limit - 1) as nat, next);
    }
}

/// A transfer finds no port exactly where the link, which is read first, shows no
/// device or no active state, and no sectors exactly where they lie past 48 bits.
pub proof fn lemma_refusal_has_a_reason(
    port: HbaPort,
    lba: u64,
    sectors: u16,
    write: bool,
    io: Io,
)
    requires
        is_placed(port),
        sectors > 0,
    ensures
        ({
            let (result, later) = port.issue_run(lba, sectors, write, io);
            let link = io.reply() as u32;
            let present = link & 0x0F == 3 && link & 0xF00 == 0x100;
            &&& result == Err::<(), HbaError>(HbaError::PortUnavailable) <==> !present
            &&& result == Err::<(), HbaError>(HbaError::InvalidLba) <==> present && lba + sectors
                - 1 >= 0x1_0000_0000_0000
        }),
{
    let limit = ENGINE_POLL_LIMIT as nat;
    let present = port.present_run(io).1;
    lemma_ready_reason(port, limit, present);
    let ready = ready_run(port.base, limit, present).1;
    lemma_slot_outcome(port.base, limit, ready);
    let free = slot_run(port.base, limit, ready).1;
    let issued = port.prepare_run(lba, sectors, write, free).w32(
        cell(port.base, 0x10),
        u32::MAX,
    ).tell(Order::Fence).w32(cell(port.base, 0x38), 1);
    lemma_completion_outcome(port.base, COMMAND_POLL_LIMIT as nat, issued);
    lemma_ready_outcome(port.base, limit, present);
}

proof fn lemma_ready_outcome(base: u64, limit: nat, io: Io)
    ensures
        ({
            let result = ready_run(base, limit, io).0;
            result is Ok || result == Err::<(), HbaError>(HbaError::TaskFileError) || result
                == Err::<(), HbaError>(HbaError::DeviceBusy)
        }),
    decreases limit,
{
    if limit > 0 {
        lemma_ready_outcome(base, (limit - 1) as nat, io.r32(cell(base, 0x20)).1);
    }
}

/// A controller that was reset was asked for it by bit zero of its control register, 4
/// bytes into the window, showed that bit clear, and was then put into its own mode by
/// the top bit.
pub proof fn lemma_controller_is_reset(host: HbaMemory, io: Io)
    requires
        host.base + 0x100 <= u64::MAX,
        host.reset_run(io).0 is Ok,
    ensures
        ({
            let later = host.reset_run(io).1;
            let control = Place::Memory((host.base + 4) as u64);
            let end = later.trace.len() as int;
            &&& later.trace[io.trace.len() as int] == Access::Read32(control)
            &&& later.trace[io.trace.len() as int + 1] == Access::Write32(
                control,
                io.reply() as u32 | 0x01u32,
            )
            &&& later.trace[end - 2] == Access::Read32(control)
            &&& later.trace[end - 1] == Access::Write32(
                control,
                (later.replies)((later.reads - 1) as nat) as u32 | 0x8000_0000u32,
            )
            &&& (later.replies)((later.reads - 2) as nat) as u32 & 0x01 == 0
        }),
{
    let place = host.register(4);
    let (current, read) = io.r32(place);
    let asked = read.w32(place, current | 0x01u32);
    lemma_poll_shape(place, 0x01, RESET_POLL_LIMIT as nat, asked);
}


/// A command fails only for a reason that was read: an error among the port's causes or
/// in the task file, or slot zero still busy at the last look.
pub proof fn lemma_failure_has_a_reason(port: HbaPort, limit: nat, io: Io)
    requires
        is_placed(port),
        limit > 0,
        completion_run(port.base, limit, io).0 is Err,
    ensures
        ({
            let (result, later) = completion_run(port.base, limit, io);
            let read = |offset: int|
                last_answer(
                    later,
                    Access::Read32(Place::Memory((port.base + offset) as u64)),
                );
            &&& read(0x10) is Some
            &&& result == Err::<(), HbaError>(HbaError::TaskFileError) ==> read(0x10)->0 as u32
                & 0x4000_0000 != 0 || (read(0x20) is Some && read(0x20)->0 as u32 & 0x01 != 0)
            &&& result == Err::<(), HbaError>(HbaError::CommandTimeout) ==> read(0x38) is Some
                && read(0x38)->0 as u32 & 0x01 != 0
            &&& result == Err::<(), HbaError>(HbaError::TaskFileError) || result == Err::<
                (),
                HbaError,
            >(HbaError::CommandTimeout)
        }),
    decreases limit,
{
    broadcast use group_observed;

    reveal_with_fuel(completion_run, 2);
    let next = io.r32(cell(port.base, 0x10)).1.r32(cell(port.base, 0x20)).1.r32(
        cell(port.base, 0x38),
    ).1;
    let causes = io.reply() as u32;
    let task = (io.replies)(io.reads + 1) as u32;
    if causes & 0x4000_0000 == 0 && task & 0x01 == 0 && limit > 1 {
        lemma_failure_has_a_reason(port, (limit - 1) as nat, next);
    }
}

} // verus!
