//! Random bytes: a stream cipher whose key comes from the processor's entropy
//! source, or from clocks where there is none.
use vstd::prelude::*;
use crate::machine::{Access, Io, Machine, Place, Query};
use crate::rng::chacha::{byte_of, wide_word, word_at, ChaCha8, Stream, BLOCK_BYTES};

pub mod chacha;
pub mod output;

verus! {

/// Bytes after which fresh entropy goes into the key.
pub const REKEY_BYTES: u64 = 0x10_0000;
pub const RDRAND_RETRIES: u32 = 10;
pub const RDSEED_RETRIES: u32 = 64;
/// The largest request of a program.
pub const GETRANDOM_MAX: u64 = 0x10_0000;
/// The highest address of a program.
pub const USER_MAX: u64 = 0x0000_7fff_ffff_ffff;
/// Give up instead of waiting; there is never anything to wait for.
pub const GRND_NONBLOCK: u32 = 0x0001;
pub const EINVAL: i64 = -22;
pub const EFAULT: i64 = -14;
pub const KEY_WORDS: usize = 4;

/// Draw until something comes, a number of times at most.
pub open spec fn draw_run(source: Query, tries: nat, io: Io) -> (Option<u64>, Io)
    decreases tries,
{
    if tries == 0 {
        (None, io)
    } else {
        let (drawn, io) = io.ask(source);
        if drawn != 0 {
            let (word, io) = io.ask(Query::DrawnWord);
            (Some(word), io)
        } else {
            draw_run(source, (tries - 1) as nat, io)
        }
    }
}

fn draw<M: Machine>(machine: &mut M, source: Query, tries: u32) -> (word: Option<u64>)
    ensures
        (word, final(machine).io()) == draw_run(source, tries as nat, old(machine).io()),
{
    let mut left: u32 = tries;
    while left > 0
        invariant
            draw_run(source, tries as nat, old(machine).io()) == draw_run(
                source,
                left as nat,
                machine.io(),
            ),
        decreases left,
    {
        if machine.ask(source) != 0 {
            let word: u64 = machine.ask(Query::DrawnWord);
            return Some(word);
        }
        left = left - 1;
    }
    None
}

/// A word from the random number generator, where there is one.
pub open spec fn random_run(io: Io) -> (Option<u64>, Io) {
    let (has, io) = io.ask(Query::HasRandom);
    if has == 0 {
        (None, io)
    } else {
        draw_run(Query::DrawRandom, RDRAND_RETRIES as nat, io)
    }
}

/// A word from the entropy source, or else from the random number generator.
pub open spec fn entropy_run(io: Io) -> (Option<u64>, Io) {
    let (has, io) = io.ask(Query::HasSeed);
    if has == 0 {
        random_run(io)
    } else {
        match draw_run(Query::DrawSeed, RDSEED_RETRIES as nat, io) {
            (Some(word), io) => (Some(word), io),
            (None, io) => random_run(io),
        }
    }
}

/// Words of entropy, as many as come, a number at most.
pub open spec fn entropy_words_run(count: nat, io: Io) -> (Seq<u64>, Io)
    decreases count,
{
    if count == 0 {
        (Seq::empty(), io)
    } else {
        match entropy_run(io) {
            (None, io) => (Seq::empty(), io),
            (Some(word), io) => {
                let (rest, io) = entropy_words_run((count - 1) as nat, io);
                (seq![word] + rest, io)
            },
        }
    }
}

/// Words, and zeros after them.
pub open spec fn zero_padded(words: Seq<u64>, count: nat) -> Seq<u64> {
    Seq::new(
        count,
        |i: int|
            if i < words.len() {
                words[i]
            } else {
                0
            },
    )
}

/// The bytes of some words, the lowest first.
pub open spec fn wide_bytes(words: Seq<u64>) -> Seq<u8> {
    Seq::new(8 * words.len(), |i: int| (words[i / 8] >> ((8 * (i % 8)) as u64)) as u8)
}

/// Spread every bit of a word over all of it.
pub open spec fn mixed(x: u64) -> u64 {
    let x = x ^ (x >> 30);
    let x = x.wrapping_mul(0xbf58_476d_1ce4_e5b9u64);
    let x = x ^ (x >> 27);
    let x = x.wrapping_mul(0x94d0_49bb_1331_11ebu64);
    x ^ (x >> 31)
}

/// A key and a nonce from clocks and places: eight words, folded into four, and
/// one more for the nonce.
pub open spec fn software_seed_run(boot_nonce: u64, io: Io) -> ((Seq<u8>, Seq<u8>), Io) {
    let (wall, io) = io.ask(Query::WallClockNs);
    let (uptime, io) = io.ask(Query::UptimeNs);
    let (stamp, io) = io.ask(Query::TimeStamp);
    let (apic, io) = io.ask(Query::LocalApicId);
    let (stack, io) = io.ask(Query::StackAddress);
    let (data, io) = io.ask(Query::DataAddress);
    let (code, io) = io.ask(Query::CodeAddress);
    let (later, io) = io.ask(Query::TimeStamp);
    let words = seq![
        mixed(wall) ^ mixed(stack.wrapping_add(4)),
        mixed(uptime.wrapping_add(1)) ^ mixed(boot_nonce.wrapping_add(5)),
        mixed(stamp.wrapping_add(2)) ^ mixed(data.wrapping_add(6)),
        mixed(apic.wrapping_add(3)) ^ mixed(code.wrapping_add(7)),
    ];
    let nonce = mixed(later.wrapping_add(0x9e37_79b9)) ^ boot_nonce.wrapping_add(1);
    ((wide_bytes(words), wide_bytes(seq![nonce])), io)
}

/// A word from the processor's random number generator, where there is one.
pub fn get_random_u64<M: Machine>(machine: &mut M) -> (word: Option<u64>)
    ensures
        (word, final(machine).io()) == random_run(old(machine).io()),
{
    if machine.ask(Query::HasRandom) == 0 {
        return None;
    }
    draw(machine, Query::DrawRandom, RDRAND_RETRIES)
}

/// A word from the entropy source, or else from the random number generator.
pub fn raw_entropy_u64<M: Machine>(machine: &mut M) -> (word: Option<u64>)
    ensures
        (word, final(machine).io()) == entropy_run(old(machine).io()),
{
    if machine.ask(Query::HasSeed) != 0 {
        match draw(machine, Query::DrawSeed, RDSEED_RETRIES) {
            Some(word) => {
                return Some(word);
            },
            None => {},
        }
    }
    get_random_u64(machine)
}

/// Put words of entropy into a zeroed buffer, as many as come; whether there
/// was any.
pub fn fill_raw_entropy<M: Machine>(machine: &mut M, out: &mut [u64]) -> (any: bool)
    ensures
        ({
            let (words, io) = entropy_words_run(old(out)@.len(), old(machine).io());
            &&& words.len() <= old(out)@.len()
            &&& any == (words.len() > 0)
            &&& final(machine).io() == io
            &&& final(out)@ == words + old(out)@.skip(words.len() as int)
        }),
{
    let mut i: usize = 0;
    let ghost before = out@;
    let ghost whole = entropy_words_run(before.len(), machine.io());
    let ghost mut drawn: Seq<u64> = Seq::empty();
    assert(drawn + entropy_words_run(before.len(), machine.io()).0 =~= whole.0);
    assert(out@ =~= drawn + before.skip(0));
    while i < out.len()
        invariant
            i <= out@.len(),
            out@.len() == before.len(),
            drawn.len() == i,
            out@ == drawn + before.skip(i as int),
            whole.0 == drawn + entropy_words_run((before.len() - i) as nat, machine.io()).0,
            whole.1 == entropy_words_run((before.len() - i) as nat, machine.io()).1,
            before == old(out)@,
            whole == entropy_words_run(before.len(), old(machine).io()),
        decreases out@.len() - i,
    {
        let ghost rest = entropy_words_run((before.len() - i - 1) as nat, entropy_run(
            machine.io(),
        ).1).0;
        match raw_entropy_u64(machine) {
            Some(word) => {
                out[i] = word;
                i = i + 1;
                proof {
                    assert(drawn + (seq![word] + rest) =~= drawn.push(word) + rest);
                    drawn = drawn.push(word);
                    assert(out@ =~= drawn + before.skip(i as int));
                }
            },
            None => {
                assert(whole.0 =~= drawn);
                return i > 0;
            },
        }
    }
    assert(whole.0 =~= drawn);
    i > 0
}

/// Spread every bit of a word over all of it.
pub fn mix64(x: u64) -> (word: u64)
    ensures
        word == mixed(x),
{
    let a: u64 = x ^ (x >> 30);
    let b: u64 = a.wrapping_mul(0xbf58_476d_1ce4_e5b9);
    let c: u64 = b ^ (b >> 27);
    let d: u64 = c.wrapping_mul(0x94d0_49bb_1331_11eb);
    d ^ (d >> 31)
}

fn key_bytes(words: &[u64; 4]) -> (key: [u8; 32])
    ensures
        key@ == wide_bytes(words@),
{
    let mut key: [u8; 32] = [0u8; 32];
    let mut i: usize = 0;
    while i < 32
        invariant
            i <= 32,
            forall|j: int| 0 <= j < i ==> key@[j] == wide_bytes(words@)[j],
        decreases 32 - i,
    {
        let shift: u64 = 8 * (i % 8) as u64;
        key[i] = (words[i / 8] >> shift) as u8;
        i = i + 1;
    }
    assert(key@ =~= wide_bytes(words@));
    key
}

fn nonce_bytes(word: u64) -> (nonce: [u8; 8])
    ensures
        nonce@ == wide_bytes(seq![word]),
{
    let mut nonce: [u8; 8] = [0u8; 8];
    let mut i: usize = 0;
    while i < 8
        invariant
            i <= 8,
            forall|j: int| 0 <= j < i ==> nonce@[j] == wide_bytes(seq![word])[j],
        decreases 8 - i,
    {
        let shift: u64 = 8 * i as u64;
        nonce[i] = (word >> shift) as u8;
        i = i + 1;
    }
    assert(nonce@ =~= wide_bytes(seq![word]));
    nonce
}

/// A key and a nonce from clocks and places.
pub fn software_seed<M: Machine>(machine: &mut M, boot_nonce: u64) -> (seed: ([u8; 32], [u8; 8]))
    ensures
        ((seed.0@, seed.1@), final(machine).io()) == software_seed_run(
            boot_nonce,
            old(machine).io(),
        ),
{
    let wall: u64 = machine.ask(Query::WallClockNs);
    let uptime: u64 = machine.ask(Query::UptimeNs);
    let stamp: u64 = machine.ask(Query::TimeStamp);
    let apic: u64 = machine.ask(Query::LocalApicId);
    let stack: u64 = machine.ask(Query::StackAddress);
    let data: u64 = machine.ask(Query::DataAddress);
    let code: u64 = machine.ask(Query::CodeAddress);
    let words: [u64; 4] = [
        mix64(wall) ^ mix64(stack.wrapping_add(4)),
        mix64(uptime.wrapping_add(1)) ^ mix64(boot_nonce.wrapping_add(5)),
        mix64(stamp.wrapping_add(2)) ^ mix64(data.wrapping_add(6)),
        mix64(apic.wrapping_add(3)) ^ mix64(code.wrapping_add(7)),
    ];
    let later: u64 = machine.ask(Query::TimeStamp);
    let nonce: u64 = mix64(later.wrapping_add(0x9e37_79b9)) ^ boot_nonce.wrapping_add(1);
    assert(words@ =~= seq![words@[0], words@[1], words@[2], words@[3]]);
    (key_bytes(&words), nonce_bytes(nonce))
}

/// What a generator knows.
#[verifier::ext_equal]
pub struct RngState {
    pub chacha: Option<Stream>,
    pub bytes_since_reseed: u64,
    pub seeded: bool,
    pub boot_nonce: u64,
}

/// A sum that stops at the largest word.
pub open spec fn capped_sum(a: u64, b: int) -> u64 {
    if a + b > u64::MAX {
        u64::MAX
    } else {
        (a + b) as u64
    }
}

impl RngState {
    pub open spec fn fresh() -> RngState {
        RngState { chacha: None, bytes_since_reseed: 0, seeded: false, boot_nonce: 0 }
    }

    /// A generator that counts as seeded has a stream.
    pub open spec fn wf(self) -> bool {
        self.seeded ==> self.chacha is Some
    }

    /// Start a stream under a key of entropy words, or of clocks where no
    /// word comes.
    pub open spec fn seed_run(self, io: Io) -> (RngState, Io) {
        match entropy_words_run(KEY_WORDS as nat, io) {
            (words, io) => if words.len() > 0 {
                let (stamp, io) = io.ask(Query::TimeStamp);
                let (apic, io) = io.ask(Query::LocalApicId);
                let key = wide_bytes(zero_padded(words, KEY_WORDS as nat));
                let nonce = wide_bytes(seq![mixed(stamp) ^ mixed(apic)]);
                (
                    RngState {
                        chacha: Some(Stream::keyed(key, nonce)),
                        bytes_since_reseed: 0,
                        seeded: true,
                        ..self
                    },
                    io,
                )
            } else {
                let ((key, nonce), io) = software_seed_run(self.boot_nonce, io);
                (
                    RngState {
                        chacha: Some(Stream::keyed(key, nonce)),
                        bytes_since_reseed: 0,
                        seeded: true,
                        boot_nonce: self.boot_nonce.wrapping_add(1),
                    },
                    io,
                )
            },
        }
    }

    pub open spec fn ensure_run(self, io: Io) -> (RngState, Io) {
        if self.seeded {
            (self, io)
        } else {
            self.seed_run(io)
        }
    }

    /// The stream under another key and nonce.
    pub open spec fn restarted(self, key: Seq<u8>, nonce: Seq<u8>) -> RngState {
        RngState {
            chacha: Some(
                match self.chacha {
                    Some(stream) => {
                        let stream = stream.rekeyed(key);
                        Stream {
                            state: stream.state.update(14, word_at(nonce, 0)).update(
                                15,
                                word_at(nonce, 4),
                            ),
                            ..stream
                        }
                    },
                    None => Stream::keyed(key, nonce),
                },
            ),
            bytes_since_reseed: 0,
            ..self
        }
    }

    /// Entropy, added to the key that is in use.
    pub open spec fn stirred(self, key: Seq<u8>) -> Seq<u8> {
        match self.chacha {
            Some(stream) => Seq::new(
                32,
                |i: int| key[i] ^ byte_of(stream.state[4 + i / 4], i % 4),
            ),
            None => key,
        }
    }

    /// Take a new key: entropy added to the old one, or clocks where no word
    /// comes; and a new nonce.
    pub open spec fn reseed_run(self, io: Io) -> (RngState, Io) {
        let (stamp, io) = io.ask(Query::TimeStamp);
        let (uptime, io) = io.ask(Query::UptimeNs);
        let nonce = wide_bytes(seq![mixed(stamp) ^ mixed(uptime)]);
        match entropy_words_run(KEY_WORDS as nat, io) {
            (words, io) => if words.len() > 0 {
                let key = self.stirred(wide_bytes(zero_padded(words, KEY_WORDS as nat)));
                (self.restarted(key, nonce), io)
            } else {
                let ((key, _), io) = software_seed_run(self.boot_nonce, io);
                (
                    RngState {
                        boot_nonce: self.boot_nonce.wrapping_add(1),
                        ..self.restarted(key, nonce)
                    },
                    io,
                )
            },
        }
    }

    /// After some bytes were handed out: a new key where it is due.
    pub open spec fn account_run(self, count: int, io: Io) -> (RngState, Io) {
        let spent = RngState {
            bytes_since_reseed: capped_sum(self.bytes_since_reseed, count),
            ..self
        };
        if spent.bytes_since_reseed >= REKEY_BYTES {
            spent.reseed_run(io)
        } else {
            (spent, io)
        }
    }

    /// Hand out some bytes.
    pub open spec fn fill_run(self, count: nat, io: Io) -> (Seq<u8>, RngState, Io) {
        let (ready, io) = self.ensure_run(io);
        let stream = ready.chacha->0;
        let (after, io) = RngState { chacha: Some(stream.after(count)), ..ready }.account_run(
            count as int,
            io,
        );
        (stream.bytes(count), after, io)
    }
}

/// A generator.
#[derive(Debug)]
pub struct KernelRng {
    pub chacha: Option<ChaCha8>,
    pub bytes_since_reseed: u64,
    pub seeded: bool,
    pub boot_nonce: u64,
}

impl View for KernelRng {
    type V = RngState;

    open spec fn view(&self) -> RngState {
        RngState {
            chacha: match self.chacha {
                Some(stream) => Some(stream@),
                None => None,
            },
            bytes_since_reseed: self.bytes_since_reseed,
            seeded: self.seeded,
            boot_nonce: self.boot_nonce,
        }
    }
}

fn entropy_key<M: Machine>(machine: &mut M) -> (key: Option<[u8; 32]>)
    ensures
        ({
            let (words, io) = entropy_words_run(KEY_WORDS as nat, old(machine).io());
            &&& final(machine).io() == io
            &&& key is Some == (words.len() > 0)
            &&& key is Some ==> key->0@ == wide_bytes(zero_padded(words, KEY_WORDS as nat))
        }),
{
    let mut words: [u64; 4] = [0u64, 0u64, 0u64, 0u64];
    let ghost drawn = entropy_words_run(KEY_WORDS as nat, machine.io()).0;
    assert(words@ =~= Seq::new(4, |i: int| 0u64));
    if fill_raw_entropy(machine, &mut words) {
        assert(words@ =~= zero_padded(drawn, KEY_WORDS as nat));
        Some(key_bytes(&words))
    } else {
        None
    }
}

impl KernelRng {
    pub fn unseeded() -> (rng: Self)
        ensures
            rng@ == RngState::fresh(),
    {
        KernelRng { chacha: None, bytes_since_reseed: 0, seeded: false, boot_nonce: 0 }
    }

    /// Start a stream under a fresh key.
    pub fn seed<M: Machine>(&mut self, machine: &mut M)
        ensures
            (final(self)@, final(machine).io()) == old(self)@.seed_run(old(machine).io()),
            final(self)@.seeded,
            final(self)@.wf(),
    {
        match entropy_key(machine) {
            Some(key) => {
                let stamp: u64 = machine.ask(Query::TimeStamp);
                let apic: u64 = machine.ask(Query::LocalApicId);
                let nonce: [u8; 8] = nonce_bytes(mix64(stamp) ^ mix64(apic));
                self.chacha = Some(ChaCha8::new(&key, &nonce));
            },
            None => {
                let (key, nonce): ([u8; 32], [u8; 8]) = software_seed(machine, self.boot_nonce);
                self.boot_nonce = self.boot_nonce.wrapping_add(1);
                self.chacha = Some(ChaCha8::new(&key, &nonce));
            },
        }
        self.bytes_since_reseed = 0;
        self.seeded = true;
    }

    fn ensure_seeded<M: Machine>(&mut self, machine: &mut M)
        requires
            old(self)@.wf(),
        ensures
            (final(self)@, final(machine).io()) == old(self)@.ensure_run(old(machine).io()),
            final(self)@.seeded,
            final(self)@.wf(),
    {
        if !self.seeded {
            self.seed(machine);
        }
    }

    /// Take a new key.
    pub fn reseed<M: Machine>(&mut self, machine: &mut M)
        ensures
            (final(self)@, final(machine).io()) == old(self)@.reseed_run(old(machine).io()),
            final(self)@.chacha is Some,
    {
        let stamp: u64 = machine.ask(Query::TimeStamp);
        let uptime: u64 = machine.ask(Query::UptimeNs);
        let nonce: [u8; 8] = nonce_bytes(mix64(stamp) ^ mix64(uptime));
        let key: [u8; 32] = match entropy_key(machine) {
            Some(key) => self.stir(key),
            None => {
                let (key, _nonce): ([u8; 32], [u8; 8]) = software_seed(machine, self.boot_nonce);
                self.boot_nonce = self.boot_nonce.wrapping_add(1);
                key
            },
        };
        self.restart(&key, &nonce);
    }

    fn stir(&self, key: [u8; 32]) -> (stirred: [u8; 32])
        ensures
            stirred@ == self@.stirred(key@),
    {
        let mut stirred: [u8; 32] = key;
        match &self.chacha {
            Some(stream) => {
                let mut i: usize = 0;
                while i < 32
                    invariant
                        i <= 32,
                        self.chacha == Some(*stream),
                        forall|j: int| 0 <= j < i ==> stirred@[j] == self@.stirred(key@)[j],
                        forall|j: int| i <= j < 32 ==> stirred@[j] == key@[j],
                    decreases 32 - i,
                {
                    let shift: u32 = 8 * (i % 4) as u32;
                    stirred[i] = stirred[i] ^ (stream.state[4 + i / 4] >> shift) as u8;
                    i = i + 1;
                }
            },
            None => {},
        }
        assert(stirred@ =~= self@.stirred(key@));
        stirred
    }

    fn restart(&mut self, key: &[u8; 32], nonce: &[u8; 8])
        ensures
            final(self)@ == old(self)@.restarted(key@, nonce@),
    {
        match self.chacha.take() {
            Some(stream) => {
                let mut stream: ChaCha8 = stream;
                stream.rekey(key);
                let low: u32 = (nonce[0] as u32) | ((nonce[1] as u32) << 8) | ((nonce[2] as u32)
                    << 16) | ((nonce[3] as u32) << 24);
                let high: u32 = (nonce[4] as u32) | ((nonce[5] as u32) << 8) | ((nonce[6] as u32)
                    << 16) | ((nonce[7] as u32) << 24);
                stream.state[14] = low;
                stream.state[15] = high;
                self.chacha = Some(stream);
            },
            None => {
                self.chacha = Some(ChaCha8::new(key, nonce));
            },
        }
        self.bytes_since_reseed = 0;
    }

    fn account<M: Machine>(&mut self, machine: &mut M, count: u64)
        requires
            old(self)@.wf(),
        ensures
            (final(self)@, final(machine).io()) == old(self)@.account_run(
                count as int,
                old(machine).io(),
            ),
            final(self)@.wf(),
    {
        self.bytes_since_reseed = self.bytes_since_reseed.saturating_add(count);
        if self.bytes_since_reseed >= REKEY_BYTES {
            self.reseed(machine);
        }
    }

    /// Fill a buffer.
    pub fn fill_bytes<M: Machine>(&mut self, machine: &mut M, out: &mut [u8])
        requires
            old(self)@.wf(),
        ensures
            (final(out)@, final(self)@, final(machine).io()) == old(self)@.fill_run(
                old(out)@.len(),
                old(machine).io(),
            ),
            final(self)@.wf(),
            final(out)@.len() == old(out)@.len(),
    {
        self.ensure_seeded(machine);
        match self.chacha.take() {
            Some(stream) => {
                let mut stream: ChaCha8 = stream;
                proof {
                    chacha::lemma_stream_length(stream@, out@.len());
                }
                stream.fill(out);
                self.chacha = Some(stream);
            },
            None => {},
        }
        let count: u64 = out.len() as u64;
        self.account(machine, count);
    }

    /// One word.
    pub fn next_u64<M: Machine>(&mut self, machine: &mut M) -> (word: u64)
        requires
            old(self)@.wf(),
        ensures
            ({
                let (bytes, after, io) = old(self)@.fill_run(8, old(machine).io());
                &&& word == wide_word(bytes)
                &&& final(self)@ == after
                &&& final(machine).io() == io
            }),
            final(self)@.wf(),
    {
        self.ensure_seeded(machine);
        let mut word: u64 = 0;
        match self.chacha.take() {
            Some(stream) => {
                let mut stream: ChaCha8 = stream;
                word = stream.next_u64();
                self.chacha = Some(stream);
            },
            None => {},
        }
        self.account(machine, 8);
        word
    }
}

/// Start the generator.
pub fn init<M: Machine>(rng: &mut KernelRng, machine: &mut M)
    ensures
        (final(rng)@, final(machine).io()) == old(rng)@.seed_run(old(machine).io()),
        final(rng)@.seeded,
        final(rng)@.wf(),
{
    rng.seed(machine);
}

/// Fill a buffer.
pub fn fill_bytes<M: Machine>(rng: &mut KernelRng, machine: &mut M, out: &mut [u8])
    requires
        old(rng)@.wf(),
    ensures
        (final(out)@, final(rng)@, final(machine).io()) == old(rng)@.fill_run(
            old(out)@.len(),
            old(machine).io(),
        ),
        final(rng)@.wf(),
{
    rng.fill_bytes(machine, out);
}

/// One word.
pub fn next_u64<M: Machine>(rng: &mut KernelRng, machine: &mut M) -> (word: u64)
    requires
        old(rng)@.wf(),
    ensures
        ({
            let (bytes, after, io) = old(rng)@.fill_run(8, old(machine).io());
            &&& word == wide_word(bytes)
            &&& final(rng)@ == after
            &&& final(machine).io() == io
        }),
        final(rng)@.wf(),
{
    rng.next_u64(machine)
}

/// Whether a request has only flags that are known.
pub fn getrandom_flags_supported(flags: u64) -> (supported: bool)
    ensures
        supported == (flags & !(GRND_NONBLOCK as u64) == 0),
{
    flags & !(GRND_NONBLOCK as u64) == 0
}

/// Hand bytes to a program: whether they got there.
pub open spec fn copy_run(address: u64, bytes: Seq<u8>, io: Io) -> (bool, Io) {
    let written = Io {
        trace: io.trace + Seq::new(
            bytes.len(),
            |i: int| Access::Write8(Place::User((address + i) as u64), bytes[i]),
        ),
        ..io
    };
    let (copied, io) = written.ask(Query::CopyToUser(address, bytes.len() as u64));
    (copied != 0, io)
}

fn copy_to_user<M: Machine>(machine: &mut M, address: u64, bytes: &[u8]) -> (copied: bool)
    requires
        address + bytes@.len() <= u64::MAX,
    ensures
        (copied, final(machine).io()) == copy_run(address, bytes@, old(machine).io()),
{
    let ghost start = machine.io();
    let ghost writes = Seq::new(
        bytes@.len(),
        |i: int| Access::Write8(Place::User((address + i) as u64), bytes@[i]),
    );
    let mut i: usize = 0;
    assert(start.trace + writes.take(0) =~= start.trace);
    while i < bytes.len()
        invariant
            i <= bytes@.len(),
            address + bytes@.len() <= u64::MAX,
            writes == Seq::new(
                bytes@.len(),
                |i: int| Access::Write8(Place::User((address + i) as u64), bytes@[i]),
            ),
            machine.io() == (Io { trace: start.trace + writes.take(i as int), ..start }),
        decreases bytes@.len() - i,
    {
        machine.write8(Place::User(address + i as u64), bytes[i]);
        proof {
            assert(start.trace + writes.take(i + 1) =~= (start.trace + writes.take(i as int)).push(
                writes[i as int],
            ));
        }
        i = i + 1;
    }
    assert(writes.take(i as int) =~= writes);
    machine.ask(Query::CopyToUser(address, bytes.len() as u64)) != 0
}

impl RngState {
    /// Hand a program the rest of its bytes, one block at a time, until a
    /// block does not get there.
    pub open spec fn hand_out_run(self, buf: u64, written: nat, length: nat, io: Io) -> (
        i64,
        RngState,
        Io,
    )
        decreases length - written,
    {
        if written >= length {
            (written as i64, self, io)
        } else {
            let count = if length - written < BLOCK_BYTES {
                (length - written) as nat
            } else {
                BLOCK_BYTES as nat
            };
            let (bytes, after, io) = self.fill_run(count, io);
            let (copied, io) = copy_run((buf + written) as u64, bytes, io);
            if copied {
                after.hand_out_run(buf, written + count, length, io)
            } else if written == 0 {
                (EFAULT, after, io)
            } else {
                (written as i64, after, io)
            }
        }
    }

    /// Answer a program's request.
    pub open spec fn getrandom_run(self, buf: u64, buflen: u64, flags: u64, io: Io) -> (
        i64,
        RngState,
        Io,
    ) {
        if flags & !(GRND_NONBLOCK as u64) != 0 {
            (EINVAL, self, io)
        } else if buflen == 0 {
            (0, self, io)
        } else if buflen > GETRANDOM_MAX {
            (EINVAL, self, io)
        } else if buf == 0 || buf + buflen - 1 > USER_MAX {
            (EFAULT, self, io)
        } else {
            self.hand_out_run(buf, 0, buflen as nat, io)
        }
    }
}

/// Whatever is handed out, the key is never older than the bytes it may serve.
pub proof fn lemma_keys_are_renewed(rng: RngState, count: nat, io: Io)
    requires
        rng.wf(),
    ensures
        rng.fill_run(count, io).1.bytes_since_reseed < REKEY_BYTES,
        rng.fill_run(count, io).1.seeded,
        rng.fill_run(count, io).1.wf(),
{
}

/// A new key starts at its first block, and nothing of the old stream is used
/// any more.
pub proof fn lemma_new_key_starts_over(rng: RngState, io: Io)
    requires
        rng.chacha is Some ==> rng.chacha->0.state.len() == 16,
    ensures
        rng.reseed_run(io).0.chacha is Some,
        chacha::block_number(rng.reseed_run(io).0.chacha->0.state) == 0,
        rng.reseed_run(io).0.chacha->0.pos == BLOCK_BYTES,
        rng.reseed_run(io).0.bytes_since_reseed == 0,
{
    let after = rng.reseed_run(io).0.chacha->0;
    assert(after.state[12] == 0 && after.state[13] == 0);
}

proof fn lemma_hand_out_result(rng: RngState, buf: u64, written: nat, length: nat, io: Io)
    requires
        written <= length <= GETRANDOM_MAX,
    ensures
        ({
            let result = rng.hand_out_run(buf, written, length, io).0;
            result == EFAULT && written == 0 || written <= result <= length
        }),
    decreases length - written,
{
    if written < length {
        let count = if length - written < BLOCK_BYTES {
            (length - written) as nat
        } else {
            BLOCK_BYTES as nat
        };
        let (bytes, after, filled) = rng.fill_run(count, io);
        let (copied, copied_io) = copy_run((buf + written) as u64, bytes, filled);
        if copied {
            lemma_hand_out_result(after, buf, written + count, length, copied_io);
        }
    }
}

/// A program gets an error, or a number of bytes no larger than what it asked
/// for; and a refused request leaves the generator and the machine alone.
pub proof fn lemma_getrandom_result(rng: RngState, buf: u64, buflen: u64, flags: u64, io: Io)
    ensures
        ({
            let result = rng.getrandom_run(buf, buflen, flags, io).0;
            result == EINVAL || result == EFAULT || 0 <= result <= buflen
        }),
        flags > GRND_NONBLOCK || buflen > GETRANDOM_MAX || buf + buflen - 1 > USER_MAX
            ==> rng.getrandom_run(buf, buflen, flags, io).1 == rng && rng.getrandom_run(
            buf,
            buflen,
            flags,
            io,
        ).2 == io,
{
    assert(flags > 1 ==> flags & !1u64 != 0) by (bit_vector);
    if buflen <= GETRANDOM_MAX {
        lemma_hand_out_result(rng, buf, 0, buflen as nat, io);
    }
}

/// Fill a program's buffer: the number of bytes that got there, or an error
/// as a negative number.
pub fn sys_getrandom<M: Machine>(
    rng: &mut KernelRng,
    machine: &mut M,
    buf: u64,
    buflen: u64,
    flags: u64,
) -> (result: i64)
    requires
        old(rng)@.wf(),
    ensures
        (result, final(rng)@, final(machine).io()) == old(rng)@.getrandom_run(
            buf,
            buflen,
            flags,
            old(machine).io(),
        ),
        final(rng)@.wf(),
{
    if !getrandom_flags_supported(flags) {
        return EINVAL;
    }
    if buflen == 0 {
        return 0;
    }
    if buflen > GETRANDOM_MAX {
        return EINVAL;
    }
    let last: u64 = match buf.checked_add(buflen - 1) {
        Some(last) => last,
        None => {
            return EFAULT;
        },
    };
    if buf == 0 || last > USER_MAX {
        return EFAULT;
    }
    let mut written: u64 = 0;
    while written < buflen
        invariant
            written <= buflen <= GETRANDOM_MAX,
            buf + buflen - 1 <= USER_MAX,
            rng@.wf(),
            old(rng)@.hand_out_run(buf, 0, buflen as nat, old(machine).io()) == rng@.hand_out_run(
                buf,
                written as nat,
                buflen as nat,
                machine.io(),
            ),
            old(rng)@.getrandom_run(buf, buflen, flags, old(machine).io()) == old(
                rng,
            )@.hand_out_run(buf, 0, buflen as nat, old(machine).io()),
        decreases buflen - written,
    {
        let left: u64 = buflen - written;
        let count: usize = if left < BLOCK_BYTES as u64 {
            left as usize
        } else {
            BLOCK_BYTES
        };
        let mut scratch: Vec<u8> = Vec::new();
        scratch.resize(count, 0);
        rng.fill_bytes(machine, scratch.as_mut_slice());
        if copy_to_user(machine, buf + written, scratch.as_slice()) {
            written = written + count as u64;
        } else {
            if written == 0 {
                return EFAULT;
            }
            return written as i64;
        }
    }
    written as i64
}

} // verus!
