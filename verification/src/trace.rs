//! A conversation as the other end sees it.
//!
//! An observer looks at one access after the other, each with its reply.  What a
//! device makes of a driver can be said with observers alone, without the
//! driver's own notions.
use vstd::prelude::*;
use crate::machine::{bytes_loaded, bytes_stored, cell, poll_clear, Access, Io, Place, Query};

verus! {

/// Whether an access has a reply.
pub open spec fn is_answered(access: Access) -> bool {
    match access {
        Access::Read8(_) | Access::Read16(_) | Access::Read32(_) | Access::Read64(_)
        | Access::Ask(_) => true,
        _ => false,
    }
}

/// The conversation before its last access.
pub open spec fn past(io: Io) -> Io {
    Io {
        replies: io.replies,
        reads: if is_answered(io.trace.last()) {
            (io.reads - 1) as nat
        } else {
            io.reads
        },
        trace: io.trace.drop_last(),
    }
}

/// What an observer made of a whole conversation.
pub open spec fn observed<S>(io: Io, start: S, step: spec_fn(S, Access, u64) -> S) -> S
    decreases io.trace.len(),
{
    if io.trace.len() == 0 {
        start
    } else {
        step(
            observed(past(io), start, step),
            io.trace.last(),
            if is_answered(io.trace.last()) {
                (io.replies)(past(io).reads)
            } else {
                0
            },
        )
    }
}

pub broadcast proof fn lemma_observed_told<S>(
    io: Io,
    access: Access,
    start: S,
    step: spec_fn(S, Access, u64) -> S,
)
    requires
        !is_answered(access),
    ensures
        #[trigger] observed(io.told(access), start, step) == step(
            observed(io, start, step),
            access,
            0,
        ),
{
    assert(past(io.told(access)) =~= io);
}

pub broadcast proof fn lemma_observed_asked<S>(
    io: Io,
    access: Access,
    start: S,
    step: spec_fn(S, Access, u64) -> S,
)
    requires
        is_answered(access),
    ensures
        #[trigger] observed(io.asked(access), start, step) == step(
            observed(io, start, step),
            access,
            io.reply(),
        ),
{
    assert(past(io.asked(access)) =~= io);
}

pub broadcast group group_observed {
    lemma_observed_told,
    lemma_observed_asked,
}

/// Storing bytes is storing all but the last, and then the last.
pub proof fn lemma_stored_last(io: Io, address: u64, data: Seq<u8>)
    ensures
        data.len() == 0 ==> bytes_stored(io, address, data) == io,
        data.len() > 0 ==> bytes_stored(io, address, data) == bytes_stored(
            io,
            address,
            data.drop_last(),
        ).w8(cell(address, (data.len() - 1) as u64), data.last()),
{
    if data.len() == 0 {
        assert(bytes_stored(io, address, data) =~= io);
    } else {
        assert(bytes_stored(io, address, data) =~= bytes_stored(io, address, data.drop_last()).w8(
            cell(address, (data.len() - 1) as u64),
            data.last(),
        ));
    }
}

/// Loading bytes is loading all but the last, and then the last.
pub proof fn lemma_loaded_last(io: Io, address: u64, count: nat)
    ensures
        count == 0 ==> bytes_loaded(io, address, count) == io,
        count > 0 ==> bytes_loaded(io, address, count) == bytes_loaded(
            io,
            address,
            (count - 1) as nat,
        ).r8(cell(address, (count - 1) as u64)).1,
{
    if count == 0 {
        assert(bytes_loaded(io, address, count) =~= io);
    } else {
        assert(bytes_loaded(io, address, count) =~= bytes_loaded(
            io,
            address,
            (count - 1) as nat,
        ).r8(cell(address, (count - 1) as u64)).1);
    }
}

/// The last thing written to a place.
pub open spec fn last_written(io: Io, place: Place) -> Option<Access> {
    observed(io, None, last_written_step(place))
}

pub open spec fn last_written_step(place: Place) -> spec_fn(
    Option<Access>,
    Access,
    u64,
) -> Option<Access> {
    |last: Option<Access>, access: Access, reply: u64|
        match access {
            Access::Write8(at, _) | Access::Write16(at, _) | Access::Write32(at, _)
            | Access::Write64(at, _) => if at == place {
                Some(access)
            } else {
                last
            },
            _ => last,
        }
}

/// What the last access of a sort was answered.
pub open spec fn last_answer(io: Io, wanted: Access) -> Option<u64> {
    observed(io, None, last_answer_step(wanted))
}

pub open spec fn last_answer_step(wanted: Access) -> spec_fn(Option<u64>, Access, u64) -> Option<
    u64,
> {
    |last: Option<u64>, access: Access, reply: u64|
        if access == wanted {
            Some(reply)
        } else {
            last
        }
}

/// Polling writes nothing.
pub proof fn lemma_poll_writes_nothing(
    place: Place,
    mask: u32,
    limit: nat,
    io: Io,
    watched: Place,
    query: Query,
)
    ensures
        ({
            let later = poll_clear(place, mask, limit, io).1;
            &&& last_written(later, watched) == last_written(io, watched)
            &&& last_answer(later, Access::Ask(query)) == last_answer(io, Access::Ask(query))
        }),
    decreases limit,
{
    broadcast use group_observed;

    if limit > 0 {
        let next = io.r32(place).1;
        assert(last_written(next, watched) == last_written(io, watched));
        assert(last_answer(next, Access::Ask(query)) == last_answer(io, Access::Ask(query)));
        lemma_poll_writes_nothing(place, mask, (limit - 1) as nat, next, watched, query);
    }
}

/// Polling ends well only after the bits were read as clear.
pub proof fn lemma_poll_saw_clear(place: Place, mask: u32, limit: nat, io: Io)
    requires
        poll_clear(place, mask, limit, io).0,
    ensures
        ({
            let read = last_answer(poll_clear(place, mask, limit, io).1, Access::Read32(place));
            read is Some && read->0 as u32 & mask == 0
        }),
    decreases limit,
{
    broadcast use group_observed;

    if limit > 0 {
        let (value, next) = io.r32(place);
        if value & mask != 0 {
            lemma_poll_saw_clear(place, mask, (limit - 1) as nat, next);
        }
    }
}

/// Polling goes on from what was, and where it ends well the last reply shows the
/// bits clear.
pub proof fn lemma_poll_shape(place: Place, mask: u32, limit: nat, io: Io)
    ensures
        ({
            let (clear, later) = poll_clear(place, mask, limit, io);
            &&& later.replies == io.replies
            &&& later.trace.len() >= io.trace.len()
            &&& forall|i: int|
                0 <= i < io.trace.len() ==> #[trigger] later.trace[i] == io.trace[i]
            &&& clear ==> later.reads > 0 && (io.replies)((later.reads - 1) as nat) as u32 & mask
                == 0
        }),
    decreases limit,
{
    if limit > 0 {
        let next = io.r32(place).1;
        lemma_poll_shape(place, mask, (limit - 1) as nat, next);
        let later = poll_clear(place, mask, limit, io).1;
        assert forall|i: int| 0 <= i < io.trace.len() implies #[trigger] later.trace[i]
            == io.trace[i] by {
            assert(next.trace[i] == io.trace[i]);
        }
    }
}

} // verus!
