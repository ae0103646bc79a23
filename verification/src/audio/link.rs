//! What the audio controller sees of a command.
use vstd::prelude::*;
use crate::audio::codec::{
    group_of, lemma_verb_round_trip, lemma_word_has_verb, verb_word, CodecModel, Verb,
};
use crate::audio::{codec_run, groups_run, parameter_run, verb_of, HdaError};
use crate::audio::registers::Mmio;
use crate::audio::ring::{
    lemma_pointer_wraps, CommandRings, Response, COMMAND_TIMEOUT_MS, FAST_POLL_COUNT,
};
use crate::audio::stream::{lemma_program_bits, StreamConfig, StreamDescriptor};
use crate::audio::wait::{clock_run, delay_run, later, sleeps_run, CLOCK_LOOKS};
use crate::machine::{cell, Access, Io, Order, Place, Query};
use crate::trace::{group_observed, last_answer, observed};

verus! {

/// The controller's view: the words of the command ring, and each word that the
/// write pointer was moved to, with the pointer.
pub struct LinkView {
    pub words: spec_fn(int) -> u32,
    pub verbs: Seq<(u16, u32)>,
}

/// The controller watches the ring at `ring` and its write pointer, 72 bytes behind
/// `base`.
pub open spec fn link_step(base: u64, ring: u64) -> spec_fn(LinkView, Access, u64) -> LinkView {
    |view: LinkView, access: Access, reply: u64|
        match access {
            Access::Write32(Place::Memory(at), value) => if ring <= at < ring + 1024 {
                LinkView {
                    words: |entry: int|
                        if 4 * entry == at - ring {
                            value
                        } else {
                            (view.words)(entry)
                        },
                    ..view
                }
            } else {
                view
            },
            Access::Write16(Place::Memory(at), pointer) => if at == base + 72 {
                LinkView {
                    verbs: view.verbs.push((pointer, (view.words)(pointer as int))),
                    ..view
                }
            } else {
                view
            },
            _ => view,
        }
}

pub open spec fn link_view(base: u64, ring: u64, io: Io) -> LinkView {
    observed(
        io,
        LinkView { words: |entry: int| 0u32, verbs: Seq::empty() },
        link_step(base, ring),
    )
}

proof fn lemma_clock_view(base: u64, ring: u64, deadline: u64, looks: nat, io: Io)
    ensures
        link_view(base, ring, clock_run(deadline, looks, io)) == link_view(base, ring, io),
    decreases looks,
{
    broadcast use group_observed;

    if looks > 0 {
        let next = io.ask(Query::UptimeNs).1;
        assert(link_view(base, ring, next) == link_view(base, ring, io));
        lemma_clock_view(base, ring, deadline, (looks - 1) as nat, next);
    }
}

proof fn lemma_sleeps_view(base: u64, ring: u64, milliseconds: nat, io: Io)
    ensures
        link_view(base, ring, sleeps_run(milliseconds, io)) == link_view(base, ring, io),
    decreases milliseconds,
{
    broadcast use group_observed;

    if milliseconds > 0 {
        let next = io.tell(Order::SleepMs(1));
        assert(link_view(base, ring, next) == link_view(base, ring, io));
        lemma_sleeps_view(base, ring, (milliseconds - 1) as nat, next);
    }
}

proof fn lemma_delay_view(base: u64, ring: u64, milliseconds: u16, io: Io)
    ensures
        link_view(base, ring, delay_run(milliseconds, io)) == link_view(base, ring, io),
{
    broadcast use group_observed;

    let (enabled, asked) = io.ask(Query::InterruptsEnabled);
    assert(link_view(base, ring, asked) == link_view(base, ring, io));
    let (now, timed) = asked.ask(Query::UptimeNs);
    assert(link_view(base, ring, timed) == link_view(base, ring, io));
    lemma_clock_view(base, ring, later(now, milliseconds), CLOCK_LOOKS as nat, timed);
    lemma_sleeps_view(base, ring, milliseconds as nat, asked);
}

proof fn lemma_room_view(
    registers: Mmio,
    ring: u64,
    next: u16,
    mask: u16,
    fast: nat,
    slow: nat,
    io: Io,
)
    ensures
        ({
            let (result, later) = CommandRings::room_run(registers, next, mask, fast, slow, io);
            &&& link_view(registers.base, ring, later) == link_view(registers.base, ring, io)
            &&& result is Ok && registers.base + 0x4a <= u64::MAX ==> {
                let read = last_answer(
                    later,
                    Access::Read16(Place::Memory((registers.base + 0x4a) as u64)),
                );
                read is Some && read->0 as u16 & mask != next
            }
        }),
    decreases fast + slow,
{
    broadcast use group_observed;

    let base = registers.base;
    let (space, looked) = CommandRings::space_run(registers, next, mask, io);
    assert(link_view(base, ring, looked) == link_view(base, ring, io));
    if space is Ok && !space->Ok_0 {
        if fast > 0 {
            lemma_room_view(registers, ring, next, mask, (fast - 1) as nat, slow, looked);
        } else if slow > 0 {
            lemma_delay_view(base, ring, 1, looked);
            lemma_room_view(
                registers,
                ring,
                next,
                mask,
                0,
                (slow - 1) as nat,
                delay_run(1, looked),
            );
        }
    }
}

/// Whether a response is what the controller stored in the entry of the response
/// ring that its reader stands at: the data in the lower half, the codec in the
/// lowest bits of the upper one, where bit four marks what nobody asked for.
pub open spec fn is_stored(rings: CommandRings, response: Response, io: Io) -> bool {
    let stored = last_answer(
        io,
        Access::Read64(
            Place::Memory((rings.dma.address + 0x800 + 8 * rings.rirb_read_pointer) as u64),
        ),
    );
    &&& stored is Some
    &&& response.data == stored->0 as u32
    &&& response.codec == (((stored->0 >> 32) as u32) & 0x0f) as u8
    &&& ((stored->0 >> 32) as u32) & 0x10 == 0
}

proof fn lemma_answer_view(
    rings: CommandRings,
    registers: Mmio,
    verb: Verb,
    fast: nat,
    slow: nat,
    io: Io,
)
    requires
        rings.dma.address + 0x1000 <= u64::MAX,
        registers.base + 0x80 <= u64::MAX,
        rings.rirb_read_pointer < rings.rirb_size.count(),
    ensures
        ({
            let (result, after, later) = rings.answer_run(registers, verb, fast, slow, io);
            let ring = rings.dma.address;
            &&& link_view(registers.base, ring, later) == link_view(registers.base, ring, io)
            &&& after.dma == rings.dma
            &&& after.corb_write_pointer == rings.corb_write_pointer
            &&& after.corb_size == rings.corb_size
            &&& after.rirb_size == rings.rirb_size
            &&& after.rirb_read_pointer < rings.rirb_size.count()
            &&& result is Ok ==> is_stored(after, result->Ok_0, later) && result->Ok_0.codec == (
            verb.sent() >> 28) as u8
        }),
    decreases fast + slow,
{
    broadcast use group_observed;

    if fast > 0 || slow > 0 {
        let base = registers.base;
        let ring = rings.dma.address;
        lemma_delay_view(base, ring, 1, io);
        let begun = if fast > 0 {
            io
        } else {
            delay_run(1, io)
        };
        lemma_pointer_wraps(rings.rirb_size, rings.rirb_read_pointer);
        let (result, next, looked) = rings.response_run(registers, verb, begun);
        assert(link_view(base, ring, looked) == link_view(base, ring, begun));
        if result is Ok && result->Ok_0 is None {
            if fast > 0 {
                lemma_answer_view(next, registers, verb, (fast - 1) as nat, slow, looked);
            } else {
                lemma_answer_view(next, registers, verb, 0, (slow - 1) as nat, looked);
            }
        }
    }
}

/// A command that is answered reached the controller once: its word lies in the next
/// entry of the ring when the write pointer, 0x48 bytes into the registers, moves
/// there, and that entry was free.  The answer is what the controller stored, it
/// comes from the codec that was asked, and somebody asked for it.
pub proof fn lemma_command_is_put(rings: CommandRings, registers: Mmio, verb: Verb, io: Io)
    requires
        rings.dma.address + 0x1000 <= u64::MAX,
        registers.base + 0x80 <= u64::MAX,
        rings.corb_write_pointer < rings.corb_size.count(),
        rings.rirb_read_pointer < rings.rirb_size.count(),
        rings.command_run(registers, verb, io).0 is Ok,
    ensures
        ({
            let (result, after, later) = rings.command_run(registers, verb, io);
            let ring = rings.dma.address;
            let next = (rings.corb_write_pointer + 1) % (rings.corb_size.count() as int);
            &&& link_view(registers.base, ring, later).verbs == link_view(
                registers.base,
                ring,
                io,
            ).verbs.push((next as u16, verb.sent()))
            &&& after.corb_write_pointer == next
            &&& next < rings.corb_size.count()
            &&& after.dma == rings.dma
            &&& after.corb_size == rings.corb_size
            &&& after.rirb_size == rings.rirb_size
            &&& after.rirb_read_pointer < rings.rirb_size.count()
            &&& is_stored(after, result->Ok_0, later)
            &&& result->Ok_0.codec == (verb.sent() >> 28) as u8
        }),
{
    broadcast use group_observed;

    let base = registers.base;
    let ring = rings.dma.address;
    let checked = CommandRings::status_run(registers, io).1;
    assert(link_view(base, ring, checked) == link_view(base, ring, io));
    let mask = rings.corb_size.mask();
    let next = rings.corb_write_pointer.wrapping_add(1) & mask;
    lemma_pointer_wraps(rings.corb_size, rings.corb_write_pointer);
    assert((rings.corb_write_pointer + 1) % (rings.corb_size.count() as int) == next) by {
        let count = rings.corb_size.count() as int;
        if rings.corb_write_pointer + 1 < count {
            vstd::arithmetic::div_mod::lemma_small_mod(
                (rings.corb_write_pointer + 1) as nat,
                count as nat,
            );
        } else {
            vstd::arithmetic::div_mod::lemma_mod_self_0(count);
        }
    }
    lemma_room_view(
        registers,
        ring,
        next,
        mask,
        FAST_POLL_COUNT as nat,
        COMMAND_TIMEOUT_MS as nat,
        checked,
    );
    let free = CommandRings::room_run(
        registers,
        next,
        mask,
        FAST_POLL_COUNT as nat,
        COMMAND_TIMEOUT_MS as nat,
        checked,
    ).1;
    let put = free.w32(cell(ring, (4 * next) as u64), verb.sent());
    assert((link_view(base, ring, put).words)(next as int) == verb.sent());
    let known = put.tell(Order::Fence).w16(cell(base, 0x48), next);
    assert(link_view(base, ring, known).verbs == link_view(base, ring, io).verbs.push(
        (next, verb.sent()),
    ));
    assert(known == free.w32(cell(ring, (4 * next) as u64), verb.sent()).tell(Order::Fence).w16(
        registers.register(0x48),
        next,
    ));
    lemma_answer_view(
        CommandRings { corb_write_pointer: next, ..rings },
        registers,
        verb,
        FAST_POLL_COUNT as nat,
        COMMAND_TIMEOUT_MS as nat,
        known,
    );
}

/// A stream that was programmed has its buffer's length, the number of its last
/// descriptor, its format and the address of its descriptors in its registers, and
/// its tag in the top bits of its control register, which neither lets it run nor
/// lets it interrupt.
pub proof fn lemma_stream_is_programmed(stream: StreamDescriptor, config: StreamConfig, io: Io)
    requires
        stream.registers.mmio.base + stream.registers.offset + 0x20 <= u64::MAX,
        stream.program_run(config, io).0 is Ok,
    ensures
        ({
            let later = stream.program_run(config, io).1;
            let end = later.trace.len() as int;
            let base = stream.registers.mmio.base + stream.registers.offset;
            let at = |offset: int| Place::Memory((base + offset) as u64);
            let low = match later.trace[end - 2] {
                Access::Write16(_, value) => value,
                _ => 0,
            };
            let high = match later.trace[end - 1] {
                Access::Write8(_, value) => value,
                _ => 0,
            };
            &&& 2 <= config.descriptor_count <= 256
            &&& 1 <= config.stream_tag <= 15
            &&& later.trace[end - 10] == Access::Write8(at(3), 0x1c)
            &&& later.trace[end - 9] == Access::Write32(at(8), config.cyclic_buffer_bytes)
            &&& later.trace[end - 8] == Access::Write16(
                at(0x0c),
                (config.descriptor_count - 1) as u16,
            )
            &&& later.trace[end - 7] == Access::Write16(at(0x12), config.format.word())
            &&& later.trace[end - 6] == Access::Write32(at(0x18), config.bdl_address as u32)
            &&& later.trace[end - 5] == Access::Write32(
                at(0x1c),
                (config.bdl_address >> 32) as u32,
            )
            &&& later.trace[end - 2] == Access::Write16(at(0), low)
            &&& later.trace[end - 1] == Access::Write8(at(2), high)
            &&& low & 0x1e == 0
            &&& high / 16 == config.stream_tag
        }),
{
    let r = stream.registers;
    let reset = stream.reset_run(io).1;
    let set = reset.w8(r.register(3), 0x1c).w32(r.register(8), config.cyclic_buffer_bytes).w16(
        r.register(0x0c),
        (config.descriptor_count - 1) as u16,
    ).w16(r.register(0x12), config.format.word());
    let placed = r.write_bdl_run(config.bdl_address, set);
    let control = r.control_run(placed).0;
    lemma_program_bits(control, config.stream_tag);
}

/// Whether rings are in memory, and their pointers inside them.
pub open spec fn is_sound(rings: CommandRings, registers: Mmio) -> bool {
    &&& rings.dma.address + 0x1000 <= u64::MAX
    &&& registers.base + 0x80 <= u64::MAX
    &&& rings.corb_write_pointer < rings.corb_size.count()
    &&& rings.rirb_read_pointer < rings.rirb_size.count()
}

/// The words that were put, without the pointers.
pub open spec fn words_put(base: u64, ring: u64, io: Io) -> Seq<u32> {
    link_view(base, ring, io).verbs.map_values(|verb: (u16, u32)| verb.1)
}

/// Whether a word asks a node of a codec for a parameter: the codec in the top four
/// bits, the node in the next eight, the verb 0xF00, and the parameter at the end.
pub open spec fn asks(word: u32, codec: u8, node: int, parameter: u8) -> bool {
    &&& (word >> 28) as u8 == codec
    &&& ((word >> 20) & 0xff) as u8 == node
    &&& ((word >> 8) & 0xfff) as u16 == 0xF00
    &&& word as u8 == parameter
}

/// Asking for a parameter puts one word that asks for it, and gives what was answered.
pub proof fn lemma_parameter_is_asked(
    registers: Mmio,
    rings: CommandRings,
    codec: u8,
    node: u8,
    parameter: u8,
    io: Io,
)
    requires
        is_sound(rings, registers),
        parameter_run(registers, rings, codec, node, parameter, io).0 is Ok,
    ensures
        ({
            let (result, after, later) = parameter_run(
                registers,
                rings,
                codec,
                node,
                parameter,
                io,
            );
            let before = words_put(registers.base, rings.dma.address, io);
            let words = words_put(registers.base, rings.dma.address, later);
            let stored = last_answer(
                later,
                Access::Read64(
                    Place::Memory((after.dma.address + 0x800 + 8 * after.rirb_read_pointer) as u64),
                ),
            );
            &&& words.len() == before.len() + 1
            &&& words.drop_last() == before
            &&& asks(words.last(), codec, node as int, parameter)
            &&& stored is Some
            &&& result->Ok_0 == stored->0 as u32
            &&& is_sound(after, registers)
            &&& after.dma == rings.dma
        }),
{
    let word = verb_word(codec, node, 0x0f00, parameter);
    lemma_word_has_verb(word);
    let verb = verb_of(word);
    lemma_verb_round_trip(codec, node, 0x0f00, parameter);
    lemma_command_is_put(rings, registers, verb, io);
    let later = rings.command_run(registers, verb, io).2;
    assert(words_put(registers.base, rings.dma.address, later).drop_last() =~= words_put(
        registers.base,
        rings.dma.address,
        io,
    ));
}

proof fn lemma_groups_are_asked(
    registers: Mmio,
    rings: CommandRings,
    info: CodecModel,
    start: u8,
    from: int,
    count: int,
    io: Io,
)
    requires
        is_sound(rings, registers),
        0 <= from <= count,
        start + count <= 256,
        info.groups.len() + (count - from) <= 32,
        groups_run(registers, rings, info, start, from, count, io).0 is Ok,
    ensures
        ({
            let (result, after, later) = groups_run(
                registers,
                rings,
                info,
                start,
                from,
                count,
                io,
            );
            let found = result->Ok_0;
            let before = words_put(registers.base, rings.dma.address, io);
            let words = words_put(registers.base, rings.dma.address, later);
            let had = info.groups.len() as int;
            &&& words.len() == before.len() + (count - from)
            &&& words.take(before.len() as int) == before
            &&& forall|i: int|
                0 <= i < count - from ==> asks(
                    #[trigger] words[before.len() + i],
                    info.address,
                    start + from + i,
                    5,
                )
            &&& found.groups.len() == had + (count - from)
            &&& forall|i: int| 0 <= i < had ==> #[trigger] found.groups[i] == info.groups[i]
            &&& forall|i: int|
                had <= i < found.groups.len() ==> (#[trigger] found.groups[i]).node_id == start
                    + from + (i - had)
            &&& found.address == info.address
            &&& found.vendor_device_id == info.vendor_device_id
            &&& found.revision_id == info.revision_id
            &&& found.groups_truncated == info.groups_truncated
        }),
    decreases count - from,
{
    let base = registers.base;
    let ring = rings.dma.address;
    let before = words_put(base, ring, io);
    assert(before.take(before.len() as int) =~= before);
    if from < count {
        let node = (start + from) as u8;
        lemma_parameter_is_asked(registers, rings, info.address, node, 5, io);
        let (answer, next, asked) = parameter_run(registers, rings, info.address, node, 5, io);
        let more = info.with_group(group_of(node, answer->Ok_0));
        lemma_groups_are_asked(registers, next, more, start, from + 1, count, asked);
        let (result, after, later) = groups_run(registers, rings, info, start, from, count, io);
        let middle = words_put(base, ring, asked);
        let words = words_put(base, ring, later);
        assert(words.take(before.len() as int) =~= words.take(middle.len() as int).take(
            before.len() as int,
        ));
        assert(middle.take(before.len() as int) =~= middle.drop_last());
        assert forall|i: int| 0 <= i < count - from implies asks(
            #[trigger] words[before.len() + i],
            info.address,
            start + from + i,
            5,
        ) by {
            if i == 0 {
                assert(words.take(middle.len() as int)[before.len() as int]
                    == middle[before.len() as int]);
            } else {
                assert(words[middle.len() + (i - 1)] == words[before.len() + i]);
            }
        }
        let found = result->Ok_0;
        let had = info.groups.len() as int;
        assert(more.groups[had].node_id == node);
        assert forall|i: int| 0 <= i < had implies #[trigger] found.groups[i]
            == info.groups[i] by {
            assert(found.groups[i] == more.groups[i]);
        }
        assert forall|i: int| had <= i < found.groups.len() implies (
        #[trigger] found.groups[i]).node_id == start + from + (i - had) by {
            if i == had {
                assert(found.groups[i] == more.groups[i]);
            }
        }
    }
}

/// What is known of a codec was asked of it: vendor, revision and its nodes, parameters
/// 0, 2 and 4 of the root, and then the sort of each group, parameter 5 of each node
/// that the root named, in order.  No more than 32 groups are asked for, and it is
/// noted where there are more.
pub proof fn lemma_codec_is_asked(registers: Mmio, rings: CommandRings, address: u8, io: Io)
    requires
        is_sound(rings, registers),
        codec_run(registers, rings, address, io).0 is Ok,
        ({
            let (_, r1, a) = parameter_run(registers, rings, address, 0, 0, io);
            let (_, r2, b) = parameter_run(registers, r1, address, 0, 2, a);
            let nodes = parameter_run(registers, r2, address, 0, 4, b).0->Ok_0;
            ((nodes >> 16) & 0xff) as u8 + (nodes & 0xff) as u8 <= 256
        }),
    ensures
        ({
            let (result, after, later) = codec_run(registers, rings, address, io);
            let info = result->Ok_0;
            let (vendor, r1, a) = parameter_run(registers, rings, address, 0, 0, io);
            let (revision, r2, b) = parameter_run(registers, r1, address, 0, 2, a);
            let (nodes, r3, c) = parameter_run(registers, r2, address, 0, 4, b);
            let start = ((nodes->Ok_0 >> 16) & 0xff) as u8;
            let count = (nodes->Ok_0 & 0xff) as u8;
            let kept = if count < 32 {
                count as int
            } else {
                32
            };
            let before = words_put(registers.base, rings.dma.address, io).len() as int;
            let words = words_put(registers.base, rings.dma.address, later);
            &&& words.len() == before + 3 + kept
            &&& asks(words[before], address, 0, 0)
            &&& asks(words[before + 1], address, 0, 2)
            &&& asks(words[before + 2], address, 0, 4)
            &&& forall|i: int|
                0 <= i < kept ==> asks(#[trigger] words[before + 3 + i], address, start + i, 5)
            &&& info.address == address
            &&& vendor == Ok::<u32, HdaError>(info.vendor_device_id)
            &&& revision == Ok::<u32, HdaError>(info.revision_id)
            &&& info.groups.len() == kept
            &&& forall|i: int| 0 <= i < kept ==> (#[trigger] info.groups[i]).node_id == start + i
            &&& info.groups_truncated == (count > 32)
        }),
{
    let base = registers.base;
    let ring = rings.dma.address;
    lemma_parameter_is_asked(registers, rings, address, 0, 0, io);
    let (vendor, r1, a) = parameter_run(registers, rings, address, 0, 0, io);
    lemma_parameter_is_asked(registers, r1, address, 0, 2, a);
    let (revision, r2, b) = parameter_run(registers, r1, address, 0, 2, a);
    lemma_parameter_is_asked(registers, r2, address, 0, 4, b);
    let (nodes, r3, c) = parameter_run(registers, r2, address, 0, 4, b);
    let start = ((nodes->Ok_0 >> 16) & 0xff) as u8;
    let count = (nodes->Ok_0 & 0xff) as u8;
    let kept = if count < 32 {
        count as int
    } else {
        32
    };
    let info = CodecModel {
        address,
        vendor_device_id: vendor->Ok_0,
        revision_id: revision->Ok_0,
        groups: Seq::empty(),
        groups_truncated: count > 32,
    };
    lemma_groups_are_asked(registers, r3, info, start, 0, kept, c);
    let words = words_put(base, ring, codec_run(registers, rings, address, io).2);
    let before = words_put(base, ring, io).len() as int;
    let w1 = words_put(base, ring, a);
    let w2 = words_put(base, ring, b);
    let w3 = words_put(base, ring, c);
    assert(words.take(before + 3) == w3);
    assert(words[before] == words.take(before + 3)[before]);
    assert(words[before + 1] == words.take(before + 3)[before + 1]);
    assert(words[before + 2] == words.take(before + 3)[before + 2]);
    assert(w3[before] == w3.drop_last()[before]);
    assert(w3[before + 1] == w3.drop_last()[before + 1]);
    assert(w2[before] == w2.drop_last()[before]);
}

} // verus!
