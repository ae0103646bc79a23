use xenith_devices::machine::{Access, Io, Machine, Order, Place, Query, ScriptedMachine};
use xenith_devices::rng::chacha::{quarter_round, ChaCha8};
use xenith_devices::rng::{
    fill_bytes, fill_raw_entropy, get_random_u64, getrandom_flags_supported, init, mix64,
    next_u64, raw_entropy_u64, software_seed, sys_getrandom, KernelRng, EFAULT, EINVAL,
    GETRANDOM_MAX, GRND_NONBLOCK, REKEY_BYTES, USER_MAX,
};

/// A machine whose replies come out of a closure.
struct Fake<F: FnMut(Access) -> u64> {
    respond: F,
    log: Vec<Access>,
}

impl<F: FnMut(Access) -> u64> Fake<F> {
    fn new(respond: F) -> Self {
        Fake {
            respond,
            log: Vec::new(),
        }
    }

    fn touch(&mut self, access: Access) -> u64 {
        self.log.push(access);
        (self.respond)(access)
    }
}

impl<F: FnMut(Access) -> u64> Machine for Fake<F> {
    fn io(&self) -> Io {
        unreachable!()
    }

    fn read8(&mut self, place: Place) -> u8 {
        self.touch(Access::Read8(place)) as u8
    }

    fn read16(&mut self, place: Place) -> u16 {
        self.touch(Access::Read16(place)) as u16
    }

    fn read32(&mut self, place: Place) -> u32 {
        self.touch(Access::Read32(place)) as u32
    }

    fn read64(&mut self, place: Place) -> u64 {
        self.touch(Access::Read64(place))
    }

    fn write8(&mut self, place: Place, value: u8) {
        self.touch(Access::Write8(place, value));
    }

    fn write16(&mut self, place: Place, value: u16) {
        self.touch(Access::Write16(place, value));
    }

    fn write32(&mut self, place: Place, value: u32) {
        self.touch(Access::Write32(place, value));
    }

    fn write64(&mut self, place: Place, value: u64) {
        self.touch(Access::Write64(place, value));
    }

    fn ask(&mut self, query: Query) -> u64 {
        self.touch(Access::Ask(query))
    }

    fn tell(&mut self, order: Order) {
        self.touch(Access::Tell(order));
    }
}

#[test]
fn getrandom_accepts_only_the_documented_flag_bits() {
    assert!(getrandom_flags_supported(0));
    assert!(getrandom_flags_supported(u64::from(
        GRND_NONBLOCK
    )));
    assert!(!getrandom_flags_supported(2));
    assert!(!getrandom_flags_supported(1 << 32));
}

#[test]
fn quarter_round_matches_its_published_vector() {
    let mut state = [0u32; 16];
    state[0] = 0x1111_1111;
    state[1] = 0x0102_0304;
    state[2] = 0x9b8d_6f43;
    state[3] = 0x0123_4567;
    quarter_round(&mut state, 0, 1, 2, 3);
    assert_eq!(
        state[..4],
        [0xea2a_92f4, 0xcb1c_f8ce, 0x4581_472e, 0x5881_c4bb]
    );
    let mut doubled = [0u32; 16];
    doubled[0] = 1;
    doubled[1] = 2;
    quarter_round(&mut doubled, 0, 0, 1, 1);
    assert_eq!(doubled[..3], [0x40200000, 0x800000, 0]);
    quarter_round(&mut doubled, 1, 1, 1, 1);
    assert_eq!(doubled[1], 0);
}

#[test]
fn zero_key_gives_the_published_stream() {
    let mut stream = ChaCha8::new(&[0; 32], &[0; 8]);
    let mut block = [0u8; 64];
    stream.fill(&mut block);
    assert_eq!(
        block,
        [
            0x3e, 0x00, 0xef, 0x2f, 0x89, 0x5f, 0x40, 0xd6, 0x7f, 0x5b, 0xb8, 0xe8, 0x1f, 0x09,
            0xa5, 0xa1, 0x2c, 0x84, 0x0e, 0xc3, 0xce, 0x9a, 0x7f, 0x3b, 0x18, 0x1b, 0xe1, 0x88,
            0xef, 0x71, 0x1a, 0x1e, 0x98, 0x4c, 0xe1, 0x72, 0xb9, 0x21, 0x6f, 0x41, 0x9f, 0x44,
            0x53, 0x67, 0x45, 0x6d, 0x56, 0x19, 0x31, 0x4a, 0x42, 0xa3, 0xda, 0x86, 0xb0, 0x01,
            0x38, 0x7b, 0xfd, 0xb8, 0x0e, 0x0c, 0xfe, 0x42,
        ]
    );
    assert_eq!(stream.state[12], 1);
}

#[test]
fn pieces_join_without_seams() {
    let key = [7u8; 32];
    let nonce = [9u8; 8];
    let mut whole = [0u8; 200];
    ChaCha8::new(&key, &nonce).fill(&mut whole);
    let mut stream = ChaCha8::new(&key, &nonce);
    let mut joined = Vec::new();
    for length in [1, 63, 64, 65, 7] {
        let mut piece = vec![0u8; length];
        stream.fill(&mut piece);
        joined.extend(piece);
    }
    assert_eq!(joined, whole.to_vec());
    let mut words = ChaCha8::new(&key, &nonce);
    assert_eq!(words.next_u64().to_le_bytes(), whole[..8]);
}

#[test]
fn block_numbers_carry_over() {
    let mut stream = ChaCha8::new(&[1; 32], &[2; 8]);
    stream.state[12] = u32::MAX;
    stream.generate_block();
    assert_eq!((stream.state[12], stream.state[13]), (0, 1));
    stream.state[12] = u32::MAX;
    stream.state[13] = u32::MAX;
    stream.generate_block();
    assert_eq!((stream.state[12], stream.state[13]), (0, 0));
    stream.state[12] = 5;
    stream.rekey(&[3; 32]);
    assert_eq!((stream.state[12], stream.state[13], stream.pos), (0, 0, 64));
    assert_eq!(stream.state[4], 0x0303_0303);
    assert_eq!(stream.state[14], 0x0202_0202);
}

#[test]
fn mixer_matches_its_published_values() {
    assert_eq!(mix64(0), 0);
    assert_eq!(mix64(0x9e37_79b9_7f4a_7c15), 0xe220_a839_7b1d_cdaf);
}

#[test]
fn draws_are_retried_and_bounded() {
    let mut machine = ScriptedMachine::new(vec![1, 0, 0, 1, 42], 0);
    assert_eq!(get_random_u64(&mut machine), Some(42));
    let mut machine = ScriptedMachine::new(vec![1], 0);
    assert_eq!(get_random_u64(&mut machine), None);
    assert_eq!(machine.accesses().len(), 11);
    let mut machine = ScriptedMachine::new(vec![0], 0);
    assert_eq!(get_random_u64(&mut machine), None);
    assert_eq!(machine.accesses(), &vec![Access::Ask(Query::HasRandom)]);
    let mut machine = ScriptedMachine::new(vec![1, 1, 77], 0);
    assert_eq!(raw_entropy_u64(&mut machine), Some(77));
    let mut machine = ScriptedMachine::new(vec![1], 0);
    assert_eq!(raw_entropy_u64(&mut machine), None);
    assert_eq!(machine.accesses().len(), 66);
}

#[test]
fn some_entropy_is_enough() {
    let mut words = [0u64; 4];
    let mut machine = ScriptedMachine::new(vec![0, 1, 1, 10, 0, 1, 1, 20, 0, 0], 0);
    assert!(fill_raw_entropy(&mut machine, &mut words));
    assert_eq!(words, [10, 20, 0, 0]);
    let mut machine = ScriptedMachine::new(Vec::new(), 0);
    let mut words = [0u64; 4];
    assert!(!fill_raw_entropy(&mut machine, &mut words));
    assert_eq!(words, [0; 4]);
}

#[test]
fn clocks_and_places_are_folded_into_four_words() {
    let mut machine = ScriptedMachine::new(vec![1, 2, 3, 4, 5, 8, 9, 6], 0);
    let (key, nonce) = software_seed(&mut machine, 7);
    let words: Vec<u64> = key
        .chunks(8)
        .map(|chunk| u64::from_le_bytes(chunk.try_into().unwrap()))
        .collect();
    assert_eq!(words[0], mix64(1) ^ mix64(9));
    assert_eq!(words[1], mix64(3) ^ mix64(12));
    assert_eq!(words[2], mix64(5) ^ mix64(14));
    assert_eq!(words[3], mix64(7) ^ mix64(16));
    assert_eq!(
        u64::from_le_bytes(nonce),
        mix64(6 + 0x9e37_79b9) ^ 8
    );
    assert_eq!(
        machine.accesses(),
        &vec![
            Access::Ask(Query::WallClockNs),
            Access::Ask(Query::UptimeNs),
            Access::Ask(Query::TimeStamp),
            Access::Ask(Query::LocalApicId),
            Access::Ask(Query::StackAddress),
            Access::Ask(Query::DataAddress),
            Access::Ask(Query::CodeAddress),
            Access::Ask(Query::TimeStamp),
        ]
    );
}

#[test]
fn generator_seeds_itself_before_the_first_byte() {
    let mut rng = KernelRng::unseeded();
    let mut machine = ScriptedMachine::new(Vec::new(), 0);
    let mut out = [0u8; 16];
    fill_bytes(&mut rng, &mut machine, &mut out);
    assert!(rng.seeded);
    assert_eq!(rng.bytes_since_reseed, 16);
    assert_eq!(rng.boot_nonce, 1);
    let mut other = KernelRng::unseeded();
    let mut machine = ScriptedMachine::new(Vec::new(), 0);
    init(&mut other, &mut machine);
    assert_eq!(
        next_u64(&mut other, &mut machine).to_le_bytes(),
        out[..8]
    );
}

#[test]
fn entropy_is_stirred_into_the_old_key() {
    let respond = |access| match access {
        Access::Ask(Query::HasSeed) => 1,
        Access::Ask(Query::DrawSeed) => 1,
        Access::Ask(Query::DrawnWord) => 0x0101_0101_0101_0101,
        _ => 0,
    };
    let mut rng = KernelRng::unseeded();
    let mut machine = Fake::new(respond);
    rng.seed(&mut machine);
    assert_eq!(rng.chacha.as_ref().unwrap().state[4], 0x0101_0101);
    rng.reseed(&mut machine);
    assert_eq!(rng.chacha.as_ref().unwrap().state[4], 0);
    assert_eq!(rng.chacha.as_ref().unwrap().pos, 64);
}

#[test]
fn key_is_renewed_after_its_bytes() {
    let mut rng = KernelRng::unseeded();
    let mut machine = ScriptedMachine::new(Vec::new(), 0);
    init(&mut rng, &mut machine);
    rng.bytes_since_reseed = REKEY_BYTES - 8;
    next_u64(&mut rng, &mut machine);
    assert_eq!(rng.bytes_since_reseed, 0);
    assert_eq!(rng.boot_nonce, 2);
    rng.bytes_since_reseed = REKEY_BYTES - 9;
    next_u64(&mut rng, &mut machine);
    assert_eq!(rng.bytes_since_reseed, REKEY_BYTES - 1);
}

#[test]
fn program_requests_are_checked() {
    let mut rng = KernelRng::unseeded();
    let mut machine = ScriptedMachine::new(Vec::new(), 0);
    assert_eq!(sys_getrandom(&mut rng, &mut machine, 0x1000, 8, 2), EINVAL);
    assert_eq!(sys_getrandom(&mut rng, &mut machine, 0, 0, 0), 0);
    assert_eq!(
        sys_getrandom(&mut rng, &mut machine, 0x1000, GETRANDOM_MAX + 1, 0),
        EINVAL
    );
    assert_eq!(sys_getrandom(&mut rng, &mut machine, 0, 8, 0), EFAULT);
    assert_eq!(
        sys_getrandom(&mut rng, &mut machine, u64::MAX, 2, 0),
        EFAULT
    );
    assert_eq!(
        sys_getrandom(&mut rng, &mut machine, USER_MAX, 2, 1),
        EFAULT
    );
    assert!(!rng.seeded);
    assert!(machine.accesses().is_empty());
}

#[test]
fn program_gets_what_arrives() {
    let run = |copies: u64| {
        let mut rng = KernelRng::unseeded();
        let mut left = copies;
        let mut machine = Fake::new(|access| match access {
            Access::Ask(Query::CopyToUser(_, _)) => {
                if left == 0 {
                    0
                } else {
                    left -= 1;
                    1
                }
            }
            _ => 0,
        });
        let result = sys_getrandom(&mut rng, &mut machine, 0x4000, 130, 0);
        (result, machine.log)
    };
    let (result, log) = run(3);
    assert_eq!(result, 130);
    assert!(log.contains(&Access::Ask(Query::CopyToUser(0x4000, 64))));
    assert!(log.contains(&Access::Ask(Query::CopyToUser(0x4080, 2))));
    let written = log
        .iter()
        .filter(|access| matches!(access, Access::Write8(Place::User(_), _)))
        .count();
    assert_eq!(written, 130);
    assert_eq!(run(1).0, 64);
    assert_eq!(run(0).0, EFAULT);
}
