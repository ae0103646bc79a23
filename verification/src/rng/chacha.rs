//! The stream cipher that makes random bytes out of a key and a nonce.
use vstd::prelude::*;

verus! {

/// "expand 32-byte k" as four words.
pub const SIGMA_0: u32 = 0x6170_7865;
pub const SIGMA_1: u32 = 0x3320_646e;
pub const SIGMA_2: u32 = 0x7962_2d32;
pub const SIGMA_3: u32 = 0x6b20_6574;
pub const CHACHA8_DOUBLE_ROUNDS: usize = 4;
/// Bytes in a block of the key stream.
pub const BLOCK_BYTES: usize = 64;

/// A byte of a word, the lowest first.
pub open spec fn byte_of(word: u32, index: int) -> u8 {
    (word >> ((8 * index) as u32)) as u8
}

/// The word of the four bytes at some index, the lowest first.
pub open spec fn word_at(bytes: Seq<u8>, index: int) -> u32 {
    (bytes[index] as u32) | ((bytes[index + 1] as u32) << 8) | ((bytes[index + 2] as u32) << 16) | ((
    bytes[index + 3] as u32) << 24)
}

/// The eight words of a key.
pub open spec fn key_words(key: Seq<u8>) -> Seq<u32> {
    Seq::new(8, |i: int| word_at(key, 4 * i))
}

/// Turn a word to the left.
pub open spec fn rotated(word: u32, count: u32) -> u32 {
    (word << count) | (word >> ((32 - count) as u32))
}

/// Add one word of a matrix to another, then mix the sum into a third and turn
/// that.
pub open spec fn stirred_in(m: Seq<u32>, sum: int, term: int, target: int, turn: u32) -> Seq<u32> {
    let m = m.update(sum, m[sum].wrapping_add(m[term]));
    m.update(target, rotated(m[target] ^ m[sum], turn))
}

/// Mix four words of a matrix.
pub open spec fn quarter(m: Seq<u32>, a: int, b: int, c: int, d: int) -> Seq<u32> {
    let m = stirred_in(m, a, b, d, 16);
    let m = stirred_in(m, c, d, b, 12);
    let m = stirred_in(m, a, b, d, 8);
    stirred_in(m, c, d, b, 7)
}

/// Mix the columns.
pub open spec fn column_round(m: Seq<u32>) -> Seq<u32> {
    let m = quarter(m, 0, 4, 8, 12);
    let m = quarter(m, 1, 5, 9, 13);
    let m = quarter(m, 2, 6, 10, 14);
    quarter(m, 3, 7, 11, 15)
}

/// Mix the diagonals.
pub open spec fn diagonal_round(m: Seq<u32>) -> Seq<u32> {
    let m = quarter(m, 0, 5, 10, 15);
    let m = quarter(m, 1, 6, 11, 12);
    let m = quarter(m, 2, 7, 8, 13);
    quarter(m, 3, 4, 9, 14)
}

/// Mix a matrix a number of times.
pub open spec fn permuted(m: Seq<u32>, double_rounds: nat) -> Seq<u32>
    decreases double_rounds,
{
    if double_rounds == 0 {
        m
    } else {
        diagonal_round(column_round(permuted(m, (double_rounds - 1) as nat)))
    }
}

/// The block of the key stream that a matrix stands for.
pub open spec fn block(m: Seq<u32>) -> Seq<u8> {
    let mixed = permuted(m, CHACHA8_DOUBLE_ROUNDS as nat);
    Seq::new(
        BLOCK_BYTES as nat,
        |i: int| byte_of(mixed[i / 4].wrapping_add(m[i / 4]), i % 4),
    )
}

/// The number of the block that a matrix stands for.
pub open spec fn block_number(m: Seq<u32>) -> int {
    m[12] + m[13] * 0x1_0000_0000
}

/// The matrix of the next block.
pub open spec fn counted(m: Seq<u32>) -> Seq<u32> {
    let next = (block_number(m) + 1) % 0x1_0000_0000_0000_0000;
    m.update(12, (next % 0x1_0000_0000) as u32).update(13, (next / 0x1_0000_0000) as u32)
}

/// A stream: the matrix of the block after the current one, the current block,
/// and how much of that is used up.
#[verifier::ext_equal]
pub struct Stream {
    pub state: Seq<u32>,
    pub keystream: Seq<u8>,
    pub pos: int,
}

impl Stream {
    /// The stream of a key and a nonce, before its first block.
    pub open spec fn keyed(key: Seq<u8>, nonce: Seq<u8>) -> Stream {
        Stream {
            state: seq![SIGMA_0, SIGMA_1, SIGMA_2, SIGMA_3] + key_words(key) + seq![
                0u32,
                0u32,
                word_at(nonce, 0),
                word_at(nonce, 4),
            ],
            keystream: Seq::new(BLOCK_BYTES as nat, |i: int| 0u8),
            pos: BLOCK_BYTES as int,
        }
    }

    /// With the next block.
    pub open spec fn advanced(self) -> Stream {
        Stream { state: counted(self.state), keystream: block(self.state), pos: 0 }
    }

    /// With a block of which something is left.
    pub open spec fn ready(self) -> Stream {
        if self.pos >= BLOCK_BYTES {
            self.advanced()
        } else {
            self
        }
    }

    /// With another key and from its first block; what is left of the current
    /// block is not used.
    pub open spec fn rekeyed(self, key: Seq<u8>) -> Stream {
        Stream {
            state: self.state.take(4) + key_words(key) + seq![0u32, 0u32] + self.state.skip(14),
            pos: BLOCK_BYTES as int,
            ..self
        }
    }

    /// The next bytes.
    pub open spec fn bytes(self, count: nat) -> Seq<u8>
        decreases count,
    {
        if count == 0 {
            Seq::empty()
        } else {
            let before = self.after((count - 1) as nat).ready();
            self.bytes((count - 1) as nat).push(before.keystream[before.pos])
        }
    }

    /// The stream after its next bytes.
    pub open spec fn after(self, count: nat) -> Stream
        decreases count,
    {
        if count == 0 {
            self
        } else {
            let before = self.after((count - 1) as nat).ready();
            Stream { pos: before.pos + 1, ..before }
        }
    }
}

/// How a request is cut into pieces does not change the bytes of a stream.
pub proof fn lemma_stream_has_no_seams(stream: Stream, first: nat, second: nat)
    ensures
        stream.bytes(first + second) == stream.bytes(first) + stream.after(first).bytes(second),
        stream.after(first + second) == stream.after(first).after(second),
    decreases second,
{
    if second > 0 {
        lemma_stream_has_no_seams(stream, first, (second - 1) as nat);
        assert((first + second - 1) as nat == first + (second - 1) as nat);
        assert(stream.bytes(first + second) =~= stream.bytes(first) + stream.after(first).bytes(
            second,
        ));
    } else {
        assert(stream.bytes(first + second) =~= stream.bytes(first) + stream.after(first).bytes(
            second,
        ));
    }
}

/// There are as many bytes as were asked for.
pub proof fn lemma_stream_length(stream: Stream, count: nat)
    ensures
        stream.bytes(count).len() == count,
    decreases count,
{
    if count > 0 {
        lemma_stream_length(stream, (count - 1) as nat);
    }
}

/// The next block has the next number, and nothing else of the matrix changes.
pub proof fn lemma_blocks_are_numbered(m: Seq<u32>)
    requires
        m.len() == 16,
    ensures
        block_number(counted(m)) == (block_number(m) + 1) % 0x1_0000_0000_0000_0000,
        forall|i: int| 0 <= i < 16 && i != 12 && i != 13 ==> counted(m)[i] == m[i],
{
}

/// The stream generator.
#[derive(Debug)]
pub struct ChaCha8 {
    pub state: [u32; 16],
    pub keystream: [u8; 64],
    pub pos: usize,
}

impl View for ChaCha8 {
    type V = Stream;

    open spec fn view(&self) -> Stream {
        Stream { state: self.state@, keystream: self.keystream@, pos: self.pos as int }
    }
}

fn rotl32(x: u32, n: u32) -> (word: u32)
    requires
        0 < n < 32,
    ensures
        word == rotated(x, n),
{
    (x << n) | (x >> (32 - n))
}

/// Mix four words of a matrix.
pub fn quarter_round(state: &mut [u32; 16], a: usize, b: usize, c: usize, d: usize)
    requires
        a < 16,
        b < 16,
        c < 16,
        d < 16,
    ensures
        final(state)@ == quarter(old(state)@, a as int, b as int, c as int, d as int),
{
    state[a] = state[a].wrapping_add(state[b]);
    state[d] = rotl32(state[d] ^ state[a], 16);
    state[c] = state[c].wrapping_add(state[d]);
    state[b] = rotl32(state[b] ^ state[c], 12);
    state[a] = state[a].wrapping_add(state[b]);
    state[d] = rotl32(state[d] ^ state[a], 8);
    state[c] = state[c].wrapping_add(state[d]);
    state[b] = rotl32(state[b] ^ state[c], 7);
}

fn load_word(bytes: &[u8], index: usize) -> (word: u32)
    requires
        index + 4 <= bytes@.len(),
    ensures
        word == word_at(bytes@, index as int),
{
    (bytes[index] as u32) | ((bytes[index + 1] as u32) << 8) | ((bytes[index + 2] as u32) << 16) | ((
    bytes[index + 3] as u32) << 24)
}

impl ChaCha8 {
    /// The stream of a key and a nonce.
    pub fn new(key: &[u8; 32], nonce: &[u8; 8]) -> (stream: Self)
        ensures
            stream@ == Stream::keyed(key@, nonce@),
    {
        let state: [u32; 16] = [
            SIGMA_0,
            SIGMA_1,
            SIGMA_2,
            SIGMA_3,
            load_word(key, 0),
            load_word(key, 4),
            load_word(key, 8),
            load_word(key, 12),
            load_word(key, 16),
            load_word(key, 20),
            load_word(key, 24),
            load_word(key, 28),
            0,
            0,
            load_word(nonce, 0),
            load_word(nonce, 4),
        ];
        let keystream: [u8; 64] = [0u8; 64];
        proof {
            assert(key_words(key@).len() == 8);
            assert(state@ =~= Stream::keyed(key@, nonce@).state);
            assert forall|i: int| 0 <= i < 64 implies keystream@[i] == 0 by {
                assert(keystream@[i] == vstd::array::spec_array_fill_for_copy_type::<u8, 64>(
                    0u8,
                )@[i]);
            }
            assert(keystream@ =~= Stream::keyed(key@, nonce@).keystream);
        }
        ChaCha8 { state, keystream, pos: BLOCK_BYTES }
    }

    /// Go to the next block number.
    fn bump_counter(&mut self)
        ensures
            final(self)@ == (Stream { state: counted(old(self)@.state), ..old(self)@ }),
    {
        if self.state[12] == 0xffff_ffff {
            self.state[12] = 0;
            self.state[13] = self.state[13].wrapping_add(1);
        } else {
            self.state[12] = self.state[12] + 1;
        }
        assert(self.state@ =~= counted(old(self)@.state));
    }

    /// Make the next block.
    pub fn generate_block(&mut self)
        ensures
            final(self)@ == old(self)@.advanced(),
    {
        let mut working: [u32; 16] = self.state;
        let mut round: usize = 0;
        while round < CHACHA8_DOUBLE_ROUNDS
            invariant
                round <= CHACHA8_DOUBLE_ROUNDS,
                working@ == permuted(self.state@, round as nat),
            decreases CHACHA8_DOUBLE_ROUNDS - round,
        {
            quarter_round(&mut working, 0, 4, 8, 12);
            quarter_round(&mut working, 1, 5, 9, 13);
            quarter_round(&mut working, 2, 6, 10, 14);
            quarter_round(&mut working, 3, 7, 11, 15);
            quarter_round(&mut working, 0, 5, 10, 15);
            quarter_round(&mut working, 1, 6, 11, 12);
            quarter_round(&mut working, 2, 7, 8, 13);
            quarter_round(&mut working, 3, 4, 9, 14);
            round = round + 1;
        }
        let mut i: usize = 0;
        while i < BLOCK_BYTES
            invariant
                i <= BLOCK_BYTES,
                self.state@ == old(self).state@,
                working@ == permuted(self.state@, CHACHA8_DOUBLE_ROUNDS as nat),
                forall|j: int| 0 <= j < i ==> self.keystream@[j] == block(self.state@)[j],
            decreases BLOCK_BYTES - i,
        {
            let sum: u32 = working[i / 4].wrapping_add(self.state[i / 4]);
            let shift: u32 = 8 * (i % 4) as u32;
            self.keystream[i] = (sum >> shift) as u8;
            i = i + 1;
        }
        assert(self.keystream@ =~= block(self.state@));
        self.bump_counter();
        self.pos = 0;
    }

    /// Fill a buffer with the next bytes.
    pub fn fill(&mut self, out: &mut [u8])
        ensures
            final(out)@ == old(self)@.bytes(old(out)@.len()),
            final(self)@ == old(self)@.after(old(out)@.len()),
    {
        let mut off: usize = 0;
        let ghost length = out@.len();
        while off < out.len()
            invariant
                off <= out@.len(),
                out@.len() == length,
                out@.take(off as int) == old(self)@.bytes(off as nat),
                self@ == old(self)@.after(off as nat),
            decreases out@.len() - off,
        {
            if self.pos >= BLOCK_BYTES {
                self.generate_block();
            }
            let ghost before = out@;
            out[off] = self.keystream[self.pos];
            self.pos = self.pos + 1;
            off = off + 1;
            proof {
                assert(out@.take(off as int) =~= before.take(off - 1).push(out@[off - 1]));
            }
        }
        assert(out@.take(off as int) =~= out@);
    }

    /// The next eight bytes as one word, the lowest first.
    pub fn next_u64(&mut self) -> (word: u64)
        ensures
            word == wide_word(old(self)@.bytes(8)),
            final(self)@ == old(self)@.after(8),
    {
        let mut buf: [u8; 8] = [0u8; 8];
        self.fill(&mut buf);
        (buf[0] as u64) | ((buf[1] as u64) << 8) | ((buf[2] as u64) << 16) | ((buf[3] as u64) << 24)
            | ((buf[4] as u64) << 32) | ((buf[5] as u64) << 40) | ((buf[6] as u64) << 48) | ((
        buf[7] as u64) << 56)
    }

    /// Take another key, from its first block.
    pub fn rekey(&mut self, key: &[u8; 32])
        ensures
            final(self)@ == old(self)@.rekeyed(key@),
    {
        self.state[4] = load_word(key, 0);
        self.state[5] = load_word(key, 4);
        self.state[6] = load_word(key, 8);
        self.state[7] = load_word(key, 12);
        self.state[8] = load_word(key, 16);
        self.state[9] = load_word(key, 20);
        self.state[10] = load_word(key, 24);
        self.state[11] = load_word(key, 28);
        self.state[12] = 0;
        self.state[13] = 0;
        self.pos = BLOCK_BYTES;
        proof {
            assert(key_words(key@).len() == 8);
            assert(self.state@ =~= old(self)@.rekeyed(key@).state);
        }
    }
}

/// Eight bytes as one word, the lowest first.
pub open spec fn wide_word(bytes: Seq<u8>) -> u64 {
    (bytes[0] as u64) | ((bytes[1] as u64) << 8) | ((bytes[2] as u64) << 16) | ((bytes[3] as u64)
        << 24) | ((bytes[4] as u64) << 32) | ((bytes[5] as u64) << 40) | ((bytes[6] as u64) << 48)
        | ((bytes[7] as u64) << 56)
}

} // verus!
