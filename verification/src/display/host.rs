//! What the host behind the adapter sees of the driver.
use vstd::prelude::*;
use crate::display::protocol::{
    lemma_moved_stays_in_ring, lemma_moves_add_up, CopyRect, FifoLayout, ModeLimits, Rect,
};
use crate::display::svga2::{
    fence_run, idle_run, mode_run, ring_word, words_run, Fifo, Registers, Svga2,
    DEFAULT_SYNC_POLL_LIMIT,
};
use crate::machine::{cell, Access, Io, Order, Place};
use crate::trace::{group_observed, last_answer, last_written, observed};

verus! {

/// The host's view of the command ring.
pub struct HostView {
    /// The ring's memory, by offset.
    pub words: spec_fn(int) -> u32,
    /// Where the next word is expected.
    pub next: int,
    /// Every word that was made known, in order.
    pub delivered: Seq<u32>,
}

impl HostView {
    pub open spec fn start() -> HostView {
        HostView { words: |offset: int| 0u32, next: 0, delivered: Seq::empty() }
    }
}

/// The words of a ring from one offset up to another, round its end.
pub open spec fn span(
    words: spec_fn(int) -> u32,
    lower: int,
    upper: int,
    from: int,
    to: int,
) -> Seq<u32> {
    Seq::new(
        ((to - from) % (upper - lower) / 4) as nat,
        |i: int| words(lower + (from - lower + 4 * i) % (upper - lower)),
    )
}

/// The host watches the memory at `base`: the ring from `lower` to `upper`, and
/// the word eight bytes in, which says how far the ring is filled.
pub open spec fn host_step(base: u64, lower: int, upper: int) -> spec_fn(
    HostView,
    Access,
    u64,
) -> HostView {
    |view: HostView, access: Access, reply: u64|
        match access {
            Access::Write32(Place::Memory(at), value) => if base + lower <= at < base + upper {
                HostView {
                    words: |offset: int|
                        if offset == at - base {
                            value
                        } else {
                            (view.words)(offset)
                        },
                    ..view
                }
            } else if at == base + 8 {
                HostView {
                    next: value as int,
                    delivered: view.delivered + span(
                        view.words,
                        lower,
                        upper,
                        view.next,
                        value as int,
                    ),
                    ..view
                }
            } else {
                view
            },
            Access::Read32(Place::Memory(at)) => if at == base + 8 {
                HostView { next: (reply as u32) as int, ..view }
            } else {
                view
            },
            _ => view,
        }
}

/// What the host has seen of a ring.
pub open spec fn host_view(fifo: Fifo, io: Io) -> HostView {
    observed(
        io,
        HostView::start(),
        host_step(fifo.virtual_base, fifo.layout.lower(), fifo.layout.upper()),
    )
}

/// Whether a ring lies in memory as a whole.
pub open spec fn is_placed(fifo: Fifo) -> bool {
    fifo.layout.is_valid() && fifo.virtual_base + fifo.layout.upper() <= u64::MAX
}

proof fn lemma_round(x: int, d: int, size: int)
    requires
        0 <= x < size,
        0 <= d < size,
    ensures
        (x + d) % size == (if x + d < size {
            x + d
        } else {
            x + d - size
        }),
        ((x + d) % size - x) % size == d,
{
    if x + d < size {
        vstd::arithmetic::div_mod::lemma_small_mod((x + d) as nat, size as nat);
        vstd::arithmetic::div_mod::lemma_small_mod(d as nat, size as nat);
    } else {
        vstd::arithmetic::div_mod::lemma_fundamental_div_mod_converse(
            x + d,
            size,
            1,
            x + d - size,
        );
        vstd::arithmetic::div_mod::lemma_fundamental_div_mod_converse(d - size, size, -1, d);
    }
}

proof fn lemma_words_wait(fifo: Fifo, words: Seq<u32>, from: int, cursor: u32, io: Io)
    requires
        is_placed(fifo),
        fifo.layout.holds(cursor),
        0 <= from <= words.len(),
        4 * (words.len() - from) < fifo.layout.size(),
    ensures
        ({
            let lower = fifo.layout.lower();
            let size = fifo.layout.size();
            let before = host_view(fifo, io);
            let after = host_view(
                fifo,
                words_run(fifo.virtual_base, fifo.layout, words, from, cursor, true, io).1,
            );
            &&& after.next == before.next
            &&& after.delivered == before.delivered
            &&& forall|i: int|
                from <= i < words.len() ==> (after.words)(
                    lower + (cursor - lower + 4 * (i - from)) % size,
                ) == #[trigger] words[i]
            &&& forall|offset: int|
                (forall|i: int|
                    from <= i < words.len() ==> offset != lower + (cursor - lower + 4 * (
                    #[trigger] (i - from))) % size) ==> #[trigger] (after.words)(offset) == (
                before.words)(offset)
        }),
    decreases words.len() - from,
{
    broadcast use group_observed;

    if from < words.len() {
        let layout = fifo.layout;
        let lower = layout.lower();
        let size = layout.size();
        let written = io.w32(ring_word(fifo.virtual_base, cursor / 4), words[from]);
        let next = layout.moved(cursor, 4);
        lemma_moved_stays_in_ring(layout, cursor, 4);
        lemma_words_wait(fifo, words, from + 1, next, written);
        let before = host_view(fifo, io);
        let middle = host_view(fifo, written);
        let after = host_view(
            fifo,
            words_run(fifo.virtual_base, layout, words, from, cursor, true, io).1,
        );
        lemma_round(cursor - lower, 0, size);
        assert forall|i: int| from < i < words.len() implies lower + (next - lower + 4 * (i - (from
            + 1))) % size == lower + (cursor - lower + 4 * #[trigger] (i - from)) % size by {
            lemma_moves_add_up(layout, cursor, 4, 4 * (i - (from + 1)));
            lemma_round(next - lower, 4 * (i - (from + 1)), size);
            lemma_round(cursor - lower, 4 * (i - from), size);
            lemma_round(cursor - lower, 4, size);
        }
        assert forall|i: int| from <= i < words.len() implies (after.words)(
            lower + (cursor - lower + 4 * (i - from)) % size,
        ) == #[trigger] words[i] by {
            if i == from {
                assert forall|j: int| from + 1 <= j < words.len() implies cursor != lower + (next
                    - lower + 4 * (#[trigger] (j - (from + 1)))) % size by {
                    assert(j - from == (j - (from + 1)) + 1);
                    lemma_round(cursor - lower, 4 * (j - from), size);
                }
                assert((after.words)(cursor as int) == (middle.words)(cursor as int));
            } else {
                assert(lower + (next - lower + 4 * (i - (from + 1))) % size == lower + (cursor
                    - lower + 4 * (i - from)) % size);
            }
        }
        assert forall|offset: int|
            (forall|i: int|
                from <= i < words.len() ==> offset != lower + (cursor - lower + 4 * (
                #[trigger] (i - from))) % size) implies #[trigger] (after.words)(offset) == (
        before.words)(offset) by {
            assert forall|j: int| from + 1 <= j < words.len() implies offset != lower + (next
                - lower + 4 * (#[trigger] (j - (from + 1)))) % size by {
                assert(j - from == (j - (from + 1)) + 1);
            }
            assert(from - from == 0);
            assert((after.words)(offset) == (middle.words)(offset));
        }
    }
}

proof fn lemma_words_go(fifo: Fifo, words: Seq<u32>, from: int, cursor: u32, io: Io)
    requires
        is_placed(fifo),
        fifo.layout.holds(cursor),
        0 <= from <= words.len(),
        4 * (words.len() - from) < fifo.layout.size(),
        host_view(fifo, io).next == cursor,
    ensures
        host_view(
            fifo,
            words_run(fifo.virtual_base, fifo.layout, words, from, cursor, false, io).1,
        ).delivered == host_view(fifo, io).delivered + words.skip(from),
    decreases words.len() - from,
{
    broadcast use group_observed;

    let before = host_view(fifo, io);
    if from < words.len() {
        let layout = fifo.layout;
        let lower = layout.lower();
        let size = layout.size();
        let written = io.w32(ring_word(fifo.virtual_base, cursor / 4), words[from]);
        let next = layout.moved(cursor, 4);
        lemma_moved_stays_in_ring(layout, cursor, 4);
        lemma_round(cursor - lower, 4, size);
        lemma_round(cursor - lower, 0, size);
        let fenced = written.tell(Order::Fence);
        let known = fenced.w32(cell(fifo.virtual_base, 8), next).tell(Order::Fence);
        assert(host_view(fifo, fenced).next == cursor);
        assert((host_view(fifo, fenced).words)(cursor as int) == words[from]);
        assert(span(
            host_view(fifo, fenced).words,
            lower,
            layout.upper(),
            cursor as int,
            next as int,
        ) =~= seq![words[from]]);
        assert(host_view(fifo, known).delivered == before.delivered + seq![words[from]]);
        lemma_words_go(fifo, words, from + 1, next, known);
        assert(before.delivered + seq![words[from]] + words.skip(from + 1) =~= before.delivered
            + words.skip(from));
    } else {
        assert(before.delivered + words.skip(from) =~= before.delivered);
    }
}

/// A command that is put into the ring reaches the host word by word, once, and
/// in order; one that is not leaves nothing there.
pub proof fn lemma_command_is_delivered(fifo: Fifo, words: Seq<u32>, io: Io)
    requires
        is_placed(fifo),
    ensures
        ({
            let (result, later) = fifo.enqueue_run(words, io);
            let before = host_view(fifo, io);
            let after = host_view(fifo, later);
            after.delivered == before.delivered + (if result is Ok {
                words
            } else {
                Seq::empty()
            })
        }),
{
    broadcast use group_observed;

    let before = host_view(fifo, io);
    let (result, later) = fifo.enqueue_run(words, io);
    assert(before.delivered + Seq::<u32>::empty() =~= before.delivered);
    if words.len() > 0 && 4 * words.len() <= u32::MAX {
        let bytes = 4 * words.len();
        let (claim, claimed) = fifo.claim_run(bytes as int, io);
        assert(host_view(fifo, claimed).delivered == before.delivered);
        if let Ok((cursor, end)) = claim {
            assert(host_view(fifo, claimed).next == cursor);
            let layout = fifo.layout;
            let lower = layout.lower();
            let size = layout.size();
            let reserve = fifo.capabilities.has_reserve() && fifo.has_word(14);
            if reserve {
                let begun = fifo.write_cell_run(14, bytes as u32, claimed).tell(Order::Fence);
                assert(host_view(fifo, begun) == host_view(fifo, claimed));
                lemma_words_wait(fifo, words, 0, cursor, begun);
                let filled = words_run(fifo.virtual_base, layout, words, 0, cursor, true, begun).1;
                lemma_moved_stays_in_ring(layout, cursor, bytes as int);
                lemma_round(cursor - lower, bytes as int, size);
                let full = host_view(fifo, filled);
                assert(span(full.words, lower, layout.upper(), cursor as int, end as int)
                    =~= words);
            } else {
                lemma_words_go(fifo, words, 0, cursor, claimed);
                assert(words.skip(0) =~= words);
            }
        }
    }
}

proof fn lemma_idle_view(fifo: Fifo, registers: Registers, limit: nat, io: Io)
    ensures
        host_view(fifo, idle_run(registers, limit, io).1) == host_view(fifo, io),
    decreases limit,
{
    broadcast use group_observed;

    if limit > 0 {
        let next = registers.read_run(22, io).1;
        assert(host_view(fifo, next) == host_view(fifo, io));
        lemma_idle_view(fifo, registers, (limit - 1) as nat, next);
    }
}

/// Waiting for an idle adapter ends well only after its busy register, number 22,
/// was read as zero.
pub proof fn lemma_idle_was_seen(registers: Registers, limit: nat, io: Io)
    requires
        idle_run(registers, limit, io).0 is Ok,
        registers.index != registers.value,
    ensures
        ({
            let later = idle_run(registers, limit, io).1;
            let busy = last_answer(later, Access::Read32(Place::Port(registers.value)));
            &&& last_written(later, Place::Port(registers.index)) == Some(
                Access::Write32(Place::Port(registers.index), 22),
            )
            &&& busy is Some
            &&& busy->0 as u32 == 0
        }),
    decreases limit,
{
    broadcast use group_observed;

    if limit > 0 {
        let (busy, next) = registers.read_run(22, io);
        if busy != 0 {
            lemma_idle_was_seen(registers, (limit - 1) as nat, next);
        }
    }
}

proof fn lemma_kick_view(adapter: Svga2, fifo: Fifo, io: Io)
    ensures
        host_view(fifo, adapter.kick_run(io)) == host_view(fifo, io),
        is_kicked(adapter.registers, adapter.kick_run(io)),
{
    broadcast use group_observed;

}

/// A command that is sent reaches the host once, also where the driver had to
/// wait for room.
pub proof fn lemma_sent_is_delivered(adapter: Svga2, words: Seq<u32>, io: Io)
    requires
        is_placed(adapter.fifo),
    ensures
        ({
            let (result, later) = adapter.send_run(words, io);
            host_view(adapter.fifo, later).delivered == host_view(adapter.fifo, io).delivered + (
            if result is Ok {
                words
            } else {
                Seq::empty()
            })
        }),
{
    let fifo = adapter.fifo;
    let before = host_view(fifo, io);
    assert(before.delivered + Seq::<u32>::empty() =~= before.delivered);
    lemma_command_is_delivered(fifo, words, io);
    let (first, tried) = fifo.enqueue_run(words, io);
    if first is Err {
        let kicked = adapter.kick_run(tried);
        lemma_kick_view(adapter, fifo, tried);
        lemma_idle_view(fifo, adapter.registers, DEFAULT_SYNC_POLL_LIMIT as nat, kicked);
        let idle = idle_run(adapter.registers, DEFAULT_SYNC_POLL_LIMIT as nat, kicked).1;
        lemma_command_is_delivered(fifo, words, idle);
    }
}

/// The words that show some rectangles, one after the other: the number one, then
/// the corner and the extent of each.
pub open spec fn shown_words(rectangles: Seq<Rect>) -> Seq<u32> {
    Seq::new(
        5 * rectangles.len(),
        |i: int|
            {
                let rect = rectangles[i / 5];
                if i % 5 == 0 {
                    1
                } else if i % 5 == 1 {
                    rect.x
                } else if i % 5 == 2 {
                    rect.y
                } else if i % 5 == 3 {
                    rect.width
                } else {
                    rect.height
                }
            },
    )
}

proof fn lemma_updates_are_delivered(adapter: Svga2, rectangles: Seq<Rect>, from: int, io: Io)
    requires
        is_placed(adapter.fifo),
        0 <= from <= rectangles.len(),
        adapter.updates_run(rectangles, from, io).0 is Ok,
    ensures
        host_view(adapter.fifo, adapter.updates_run(rectangles, from, io).1).delivered
            == host_view(adapter.fifo, io).delivered + shown_words(rectangles.skip(from)),
    decreases rectangles.len() - from,
{
    let before = host_view(adapter.fifo, io);
    if from < rectangles.len() {
        let rect = rectangles[from];
        let words = seq![1u32, rect.x, rect.y, rect.width, rect.height];
        lemma_sent_is_delivered(adapter, words, io);
        let sent = adapter.send_run(words, io).1;
        lemma_updates_are_delivered(adapter, rectangles, from + 1, sent);
        assert(before.delivered + words + shown_words(rectangles.skip(from + 1))
            =~= before.delivered + shown_words(rectangles.skip(from)));
    } else {
        assert(before.delivered + shown_words(rectangles.skip(from)) =~= before.delivered);
    }
}

/// Whether the last thing an adapter was told is that there is work: register 21
/// is set to one.
pub open spec fn is_kicked(registers: Registers, io: Io) -> bool {
    &&& io.trace.len() >= 2
    &&& io.trace[io.trace.len() - 2] == Access::Write32(Place::Port(registers.index), 21)
    &&& io.trace.last() == Access::Write32(Place::Port(registers.value), 1)
}

/// Showing parts of the screen brings the host one update for each of them, with
/// its own corner and extent, in order; without any, one update of the whole
/// screen.  Then the host is told, and where that was asked, waited for.
pub proof fn lemma_presented_is_shown(adapter: Svga2, rectangles: Seq<Rect>, wait: bool, io: Io)
    requires
        is_placed(adapter.fifo),
        adapter.registers.index != adapter.registers.value,
        adapter.present_run(rectangles, wait, io).0 is Ok,
    ensures
        ({
            let later = adapter.present_run(rectangles, wait, io).1;
            let delivered = host_view(adapter.fifo, later).delivered;
            let before = host_view(adapter.fifo, io).delivered;
            let mode = adapter.info.mode;
            &&& rectangles.len() > 0 ==> delivered == before + shown_words(rectangles)
            &&& rectangles.len() == 0 ==> delivered == before + seq![
                1u32,
                0,
                0,
                mode.width,
                mode.height,
            ]
            &&& forall|i: int|
                0 <= i < rectangles.len() ==> (#[trigger] rectangles[i]).x + rectangles[i].width
                    <= mode.width && rectangles[i].y + rectangles[i].height <= mode.height
            &&& !wait ==> is_kicked(adapter.registers, later)
            &&& wait ==> last_answer(
                later,
                Access::Read32(Place::Port(adapter.registers.value)),
            ) is Some && last_answer(
                later,
                Access::Read32(Place::Port(adapter.registers.value)),
            )->0 as u32 == 0
        }),
{
    let fifo = adapter.fifo;
    let shown = adapter.shown(rectangles);
    let fenced = io.tell(Order::Fence);
    assert(host_view(fifo, fenced) == host_view(fifo, io)) by {
        broadcast use group_observed;

    }
    lemma_updates_are_delivered(adapter, shown, 0, fenced);
    assert(shown.skip(0) =~= shown);
    let sent = adapter.updates_run(shown, 0, fenced).1;
    let kicked = adapter.kick_run(sent);
    lemma_kick_view(adapter, fifo, sent);
    if rectangles.len() == 0 {
        assert(shown_words(shown) =~= seq![
            1u32,
            0,
            0,
            adapter.info.mode.width,
            adapter.info.mode.height,
        ]);
    }
    assert forall|i: int| 0 <= i < rectangles.len() implies (#[trigger] rectangles[i]).x
        + rectangles[i].width <= adapter.info.mode.width && rectangles[i].y + rectangles[i].height
        <= adapter.info.mode.height by {
        assert(shown[i].is_on(adapter.info.mode));
    }
    if wait {
        let again = adapter.kick_run(kicked);
        lemma_kick_view(adapter, fifo, kicked);
        lemma_idle_view(fifo, adapter.registers, DEFAULT_SYNC_POLL_LIMIT as nat, again);
        lemma_idle_was_seen(adapter.registers, DEFAULT_SYNC_POLL_LIMIT as nat, again);
    }
}

/// Copying a part of the screen brings the host one copy from the source to the
/// destination.
pub proof fn lemma_copy_is_delivered(adapter: Svga2, copy: CopyRect, wait: bool, io: Io)
    requires
        is_placed(adapter.fifo),
        adapter.copy_run(copy, wait, io).0 is Ok,
    ensures
        ({
            let later = adapter.copy_run(copy, wait, io).1;
            &&& host_view(adapter.fifo, later).delivered == host_view(
                adapter.fifo,
                io,
            ).delivered + seq![
                3u32,
                copy.source_x,
                copy.source_y,
                copy.destination_x,
                copy.destination_y,
                copy.width,
                copy.height,
            ]
            &&& copy.source_x + copy.width <= adapter.info.mode.width
            &&& copy.source_y + copy.height <= adapter.info.mode.height
            &&& copy.destination_x + copy.width <= adapter.info.mode.width
            &&& copy.destination_y + copy.height <= adapter.info.mode.height
            &&& !wait ==> is_kicked(adapter.registers, later)
        }),
{
    let fifo = adapter.fifo;
    let fenced = io.tell(Order::Fence);
    assert(host_view(fifo, fenced) == host_view(fifo, io)) by {
        broadcast use group_observed;

    }
    let words = seq![
        3u32,
        copy.source_x,
        copy.source_y,
        copy.destination_x,
        copy.destination_y,
        copy.width,
        copy.height,
    ];
    lemma_sent_is_delivered(adapter, words, fenced);
    let sent = adapter.send_run(words, fenced).1;
    let kicked = adapter.kick_run(sent);
    lemma_kick_view(adapter, fifo, sent);
    if wait {
        let again = adapter.kick_run(kicked);
        lemma_kick_view(adapter, fifo, kicked);
        lemma_idle_view(fifo, adapter.registers, DEFAULT_SYNC_POLL_LIMIT as nat, again);
    }
}

/// A fence brings the host a number that is not zero and not the one before it,
/// and the host is told.
pub proof fn lemma_fence_is_delivered(adapter: Svga2, io: Io)
    requires
        is_placed(adapter.fifo),
        adapter.insert_run(io).0 is Ok,
    ensures
        ({
            let (result, after, later) = adapter.insert_run(io);
            let number = result->Ok_0;
            &&& number != 0
            &&& after.fifo.fences.next != number
            &&& host_view(adapter.fifo, later).delivered == host_view(
                adapter.fifo,
                io,
            ).delivered + seq![30u32, number]
            &&& is_kicked(adapter.registers, later)
        }),
{
    broadcast use group_observed;

    let (result, after, later) = adapter.insert_run(io);
    let number = result->Ok_0;
    let words = seq![30u32, number];
    assert(host_view(after.fifo, io) == host_view(adapter.fifo, io));
    lemma_sent_is_delivered(after, words, io);
    let sent = after.send_run(words, io).1;
    let kicked = after.kick_run(sent);
    lemma_kick_view(after, after.fifo, sent);
    assert(host_view(after.fifo, later) == host_view(adapter.fifo, later));
}

/// Waiting for a fence ends well only after the host reported a number that is
/// the fence's, or at most half the range past it.
pub proof fn lemma_fence_was_seen(fifo: Fifo, sequence: u32, limit: nat, io: Io)
    requires
        fifo.virtual_base + 24 <= u64::MAX,
        fence_run(fifo, sequence, limit, io).0 is Ok,
    ensures
        ({
            let later = fence_run(fifo, sequence, limit, io).1;
            let reported = last_answer(
                later,
                Access::Read32(Place::Memory((fifo.virtual_base + 24) as u64)),
            );
            let past = (reported->0 as u32 - sequence) % 0x1_0000_0000;
            &&& reported is Some
            &&& 0 <= past < 0x8000_0000
        }),
    decreases limit,
{
    broadcast use group_observed;

    if limit > 0 && fifo.supports_fences() {
        let (completed, next) = fifo.read_cell_run(6, io);
        if completed.wrapping_sub(sequence) >= 0x8000_0000 {
            lemma_fence_was_seen(fifo, sequence, (limit - 1) as nat, next);
        }
    }
}

/// A ring that comes up says in its first four words where it begins and ends, and
/// that it is empty; the adapter was told of it by register 20, and showed that it
/// took it.
pub proof fn lemma_ring_is_initialized(
    registers: Registers,
    virtual_base: u64,
    mapped_bytes: u32,
    layout: FifoLayout,
    io: Io,
)
    requires
        layout.is_valid(),
        virtual_base + 4096 <= u64::MAX,
        registers.index != registers.value,
        Fifo::initialize_run(registers, virtual_base, mapped_bytes, layout, io).0 is Ok,
    ensures
        ({
            let (result, later) = Fifo::initialize_run(
                registers,
                virtual_base,
                mapped_bytes,
                layout,
                io,
            );
            let fifo = result->Ok_0;
            let word = |offset: int| Place::Memory((virtual_base + offset) as u64);
            let set = |offset: int, value: int|
                last_written(later, word(offset)) == Some(
                    Access::Write32(word(offset), value as u32),
                );
            let shown = |offset: int| last_answer(later, Access::Read32(word(offset)));
            &&& fifo.virtual_base == virtual_base
            &&& fifo.layout == layout
            &&& fifo.fences.next == 1
            &&& set(0, layout.lower())
            &&& set(4, layout.upper())
            &&& set(8, layout.lower())
            &&& set(12, layout.lower())
            &&& last_written(later, Place::Port(registers.index)) == Some(
                Access::Write32(Place::Port(registers.index), 20),
            )
            &&& last_written(later, Place::Port(registers.value)) == Some(
                Access::Write32(Place::Port(registers.value), 1),
            )
            &&& last_answer(later, Access::Read32(Place::Port(registers.value))) is Some
            &&& last_answer(later, Access::Read32(Place::Port(registers.value)))->0 as u32 == 1
            &&& shown(0) is Some && shown(0)->0 as u32 == layout.lower()
            &&& shown(4) is Some && shown(4)->0 as u32 == layout.upper()
            &&& layout.lower() >= 20 && mapped_bytes >= 20 ==> shown(16) is Some
                && fifo.capabilities.bits == shown(16)->0 as u32
        }),
{
    broadcast use group_observed;

}

/// When nothing is shown at all: more than 64 parts, or one that is empty or not on the
/// screen; the host is told nothing then.
pub proof fn lemma_present_refuses(adapter: Svga2, rectangles: Seq<Rect>, wait: bool, io: Io)
    requires
        rectangles.len() > 0,
    ensures
        ({
            let (result, later) = adapter.present_run(rectangles, wait, io);
            let mode = adapter.info.mode;
            let fits = |r: Rect|
                0 < r.width && 0 < r.height && r.x + r.width <= mode.width && r.y + r.height
                    <= mode.height;
            let off = exists|i: int| 0 <= i < rectangles.len() && !fits(#[trigger] rectangles[i]);
            rectangles.len() > 64 || off ==> result is Err && later == io
        }),
{
    if exists|i: int|
        0 <= i < rectangles.len() && !(#[trigger] rectangles[i]).is_on(adapter.info.mode) {
        assert(!adapter.all_on(adapter.shown(rectangles)));
    }
}

/// The register that is selected, and whether every reading gave what a register holds.
pub struct RegisterView {
    pub selected: u32,
    pub faithful: bool,
}

pub open spec fn register_step(registers: Registers, held: spec_fn(u32) -> u32) -> spec_fn(
    RegisterView,
    Access,
    u64,
) -> RegisterView {
    |view: RegisterView, access: Access, reply: u64|
        match access {
            Access::Write32(Place::Port(at), value) => if at == registers.index {
                RegisterView { selected: value, ..view }
            } else {
                view
            },
            Access::Read32(Place::Port(at)) => if at == registers.value {
                RegisterView {
                    faithful: view.faithful && reply as u32 == held(view.selected),
                    ..view
                }
            } else {
                view
            },
            _ => view,
        }
}

pub open spec fn register_view(registers: Registers, held: spec_fn(u32) -> u32, io: Io) -> RegisterView {
    observed(
        io,
        RegisterView { selected: 0, faithful: true },
        register_step(registers, held),
    )
}

proof fn lemma_register_is_read(
    registers: Registers,
    held: spec_fn(u32) -> u32,
    register: u32,
    io: Io,
)
    requires
        register_view(registers, held, registers.read_run(register, io).1).faithful,
    ensures
        register_view(registers, held, io).faithful,
        registers.read_run(register, io).0 == held(register),
{
    broadcast use group_observed;

}

/// The mode is what the adapter's registers hold: width, height, depth and bits of a
/// pixel in 2, 3, 6 and 7, the masks of red, green and blue in 9, 10 and 11, the length
/// of a line in 12, and where the picture begins and how long it is in 14 and 16.  It is
/// taken only where the whole picture lies in the adapter's memory.
pub proof fn lemma_mode_is_read(
    registers: Registers,
    limits: ModeLimits,
    held: spec_fn(u32) -> u32,
    io: Io,
)
    requires
        mode_run(registers, limits, io).0 is Ok,
        register_view(registers, held, mode_run(registers, limits, io).1).faithful,
    ensures
        ({
            let mode = mode_run(registers, limits, io).0->Ok_0;
            &&& mode.width == held(2)
            &&& mode.height == held(3)
            &&& mode.depth == held(6)
            &&& mode.bits_per_pixel == held(7)
            &&& mode.red_mask == held(9)
            &&& mode.green_mask == held(10)
            &&& mode.blue_mask == held(11)
            &&& mode.pitch == held(12)
            &&& mode.framebuffer_offset == held(14)
            &&& mode.framebuffer_bytes == held(16)
            &&& mode.pitch >= 4 * mode.width
            &&& mode.framebuffer_offset + mode.pitch * mode.height <= limits.vram_bytes
        }),
{
    let a = registers.read_run(2, io).1;
    let b = registers.read_run(3, a).1;
    let c = registers.read_run(7, b).1;
    let d = registers.read_run(6, c).1;
    let e = registers.read_run(12, d).1;
    let f = registers.read_run(14, e).1;
    let g = registers.read_run(16, f).1;
    let h = registers.read_run(9, g).1;
    let i = registers.read_run(10, h).1;
    lemma_register_is_read(registers, held, 11, i);
    lemma_register_is_read(registers, held, 10, h);
    lemma_register_is_read(registers, held, 9, g);
    lemma_register_is_read(registers, held, 16, f);
    lemma_register_is_read(registers, held, 14, e);
    lemma_register_is_read(registers, held, 12, d);
    lemma_register_is_read(registers, held, 6, c);
    lemma_register_is_read(registers, held, 7, b);
    lemma_register_is_read(registers, held, 3, a);
    lemma_register_is_read(registers, held, 2, io);
}

} // verus!
