//! What programs get of the generator.
use vstd::prelude::*;
use crate::machine::{Access, Io, Place, Query};
use crate::rng::chacha::{lemma_stream_has_no_seams, lemma_stream_length};
use crate::rng::{copy_run, entropy_run, random_run, RngState};
use crate::trace::{group_observed, observed};

verus! {

/// Two requests get what one for both would get: no byte is given twice, and none is
/// left out, as long as the key is not renewed between them, which comes after a
/// mebibyte.
pub proof fn lemma_requests_share_a_stream(rng: RngState, first: nat, second: nat, io: Io)
    requires
        rng.seeded,
        rng.wf(),
        rng.bytes_since_reseed + first + second < 0x10_0000,
    ensures
        ({
            let (a, middle, _) = rng.fill_run(first, io);
            let (b, end, later) = middle.fill_run(second, io);
            let (both, after, _) = rng.fill_run(first + second, io);
            &&& a.len() == first
            &&& b.len() == second
            &&& both == a + b
            &&& after.chacha == end.chacha
            &&& later == io
        }),
{
    let stream = rng.chacha->0;
    lemma_stream_has_no_seams(stream, first, second);
    lemma_stream_length(stream, first);
    lemma_stream_length(stream.after(first), second);
}

/// Every byte that was put into a program's memory, with its address.
pub open spec fn user_bytes(io: Io) -> Seq<(u64, u8)> {
    observed(io, Seq::empty(), user_step())
}

pub open spec fn user_step() -> spec_fn(Seq<(u64, u8)>, Access, u64) -> Seq<(u64, u8)> {
    |bytes: Seq<(u64, u8)>, access: Access, reply: u64|
        match access {
            Access::Write8(Place::User(address), byte) => bytes.push((address, byte)),
            _ => bytes,
        }
}

/// Bytes with the addresses from one on.
pub open spec fn placed(address: int, bytes: Seq<u8>) -> Seq<(u64, u8)> {
    Seq::new(bytes.len(), |i: int| ((address + i) as u64, bytes[i]))
}

spec fn put(io: Io, address: u64, bytes: Seq<u8>) -> Io {
    Io {
        trace: io.trace + Seq::new(
            bytes.len(),
            |i: int| Access::Write8(Place::User((address + i) as u64), bytes[i]),
        ),
        ..io
    }
}

proof fn lemma_put_view(io: Io, address: u64, bytes: Seq<u8>)
    ensures
        user_bytes(put(io, address, bytes)) == user_bytes(io) + placed(address as int, bytes),
    decreases bytes.len(),
{
    broadcast use group_observed;

    if bytes.len() == 0 {
        assert(put(io, address, bytes) =~= io);
        assert(user_bytes(io) + placed(address as int, bytes) =~= user_bytes(io));
    } else {
        let most = bytes.drop_last();
        lemma_put_view(io, address, most);
        assert(put(io, address, bytes) =~= put(io, address, most).w8(
            Place::User((address + most.len()) as u64),
            bytes.last(),
        ));
        assert(user_bytes(io) + placed(address as int, bytes) =~= (user_bytes(io) + placed(
            address as int,
            most,
        )).push(((address + most.len()) as u64, bytes.last())));
    }
}

proof fn lemma_copy_view(address: u64, bytes: Seq<u8>, io: Io)
    ensures
        user_bytes(copy_run(address, bytes, io).1) == user_bytes(io) + placed(
            address as int,
            bytes,
        ),
{
    broadcast use group_observed;

    lemma_put_view(io, address, bytes);
    let written = put(io, address, bytes);
    assert(copy_run(address, bytes, io).1 == written.ask(
        Query::CopyToUser(address, bytes.len() as u64),
    ).1);
}

proof fn lemma_hand_out_view(rng: RngState, buf: u64, written: nat, length: nat, io: Io)
    requires
        rng.seeded,
        rng.wf(),
        written <= length <= 0x10_0000,
        buf + length <= u64::MAX,
        rng.bytes_since_reseed + (length - written) < 0x10_0000,
        rng.hand_out_run(buf, written, length, io).0 == length,
    ensures
        user_bytes(rng.hand_out_run(buf, written, length, io).2) == user_bytes(io) + placed(
            buf + written,
            rng.chacha->0.bytes((length - written) as nat),
        ),
    decreases length - written,
{
    let stream = rng.chacha->0;
    let left = (length - written) as nat;
    lemma_stream_length(stream, left);
    if written < length {
        let count = if left < 64 {
            left
        } else {
            64
        };
        let (bytes, after, filled) = rng.fill_run(count, io);
        let address = (buf + written) as u64;
        lemma_copy_view(address, bytes, filled);
        let copied = copy_run(address, bytes, filled).1;
        lemma_hand_out_view(after, buf, written + count, length, copied);
        let rest = (left - count) as nat;
        lemma_stream_has_no_seams(stream, count, rest);
        lemma_stream_length(stream, count);
        lemma_stream_length(stream.after(count), rest);
        assert(user_bytes(io) + placed(address as int, stream.bytes(count)) + placed(
            buf + (written + count),
            stream.after(count).bytes(rest),
        ) =~= user_bytes(io) + placed(buf + written, stream.bytes(left)));
    } else {
        assert(user_bytes(io) + placed(buf + written, stream.bytes(left)) =~= user_bytes(io));
    }
}

/// A program that gets all it asked for has the next bytes of the stream in its
/// memory, in order and once, from the address that it gave.
pub proof fn lemma_program_gets_stream(rng: RngState, buf: u64, length: u64, flags: u64, io: Io)
    requires
        rng.seeded,
        rng.wf(),
        length > 0,
        rng.bytes_since_reseed + length < 0x10_0000,
        rng.getrandom_run(buf, length, flags, io).0 == length,
    ensures
        user_bytes(rng.getrandom_run(buf, length, flags, io).2) == user_bytes(io) + placed(
            buf as int,
            rng.chacha->0.bytes(length as nat),
        ),
        buf != 0,
        buf + length - 1 <= 0x7fff_ffff_ffff,
{
    lemma_hand_out_view(rng, buf, 0, length as nat, io);
}

/// The entropy source is preferred, and the random number generator stands in for it;
/// where the processor has neither, there is nothing.
pub proof fn lemma_entropy_sources(io: Io)
    ensures
        io.reply() == 0 ==> entropy_run(io) == random_run(io.ask(Query::HasSeed).1),
        io.reply() == 0 && (io.replies)(io.reads + 1) == 0 ==> entropy_run(io).0 is None,
        io.reply() == 0 ==> random_run(io).0 is None,
        io.reply() != 0 && (io.replies)(io.reads + 1) != 0 ==> entropy_run(io).0 == Some(
            (io.replies)(io.reads + 2),
        ),
        io.reply() != 0 && (io.replies)(io.reads + 1) != 0 ==> random_run(io).0 == Some(
            (io.replies)(io.reads + 2),
        ),
{
}

} // verus!
