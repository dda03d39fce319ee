use sha512_table16::compression;
use sha512_table16::compression::{
    digest, initialize_with_iv, initialize_with_state, round_witness, round_word, round_word_a,
    round_word_e, RoundWord, RoundWordA, RoundWordE, Slots, State, StateWord, IV, ROUNDS,
};
use sha512_table16::gates::CompressionGate;
use sha512_table16::halves::{RoundWordDense, RoundWordSpread};
use sha512_table16::words::{AbcdVar, EfghVar};

const ABC_DIGEST: [u64; 8] = [
    0xddaf35a193617aba,
    0xcc417349ae204131,
    0x12e6fa4e89a97ea2,
    0x0a9eeee64b55d39a,
    0x2192992a274fc1a8,
    0x36ba3c23a3feebbd,
    0x454d4423643ce80e,
    0x2a9ac94fa54ca49f,
];

fn small_sigma_0(x: u64) -> u64 {
    x.rotate_right(1) ^ x.rotate_right(8) ^ (x >> 7)
}

fn small_sigma_1(x: u64) -> u64 {
    x.rotate_right(19) ^ x.rotate_right(61) ^ (x >> 6)
}

/// Expands one 16-word block into the 80 message words, as halves.
fn message_schedule(block: &[u64; 16]) -> Vec<RoundWordDense> {
    let mut w: Vec<u64> = block.to_vec();
    for t in 16..ROUNDS {
        let next = small_sigma_1(w[t - 2])
            .wrapping_add(w[t - 7])
            .wrapping_add(small_sigma_0(w[t - 15]))
            .wrapping_add(w[t - 16]);
        w.push(next);
    }
    w.iter().map(|x| RoundWordDense::from_word(*x)).collect()
}

/// Pads a message into 16-word blocks.
fn pad(message: &[u8]) -> Vec<[u64; 16]> {
    let mut bytes = message.to_vec();
    bytes.push(0x80);
    while bytes.len() % 128 != 112 {
        bytes.push(0);
    }
    let bits = (message.len() as u128) * 8;
    bytes.extend_from_slice(&bits.to_be_bytes());
    bytes
        .chunks(128)
        .map(|chunk| {
            let mut block = [0u64; 16];
            for (i, word) in chunk.chunks(8).enumerate() {
                let mut b = [0u8; 8];
                b.copy_from_slice(word);
                block[i] = u64::from_be_bytes(b);
            }
            block
        })
        .collect()
}

fn msg_schedule_test_input() -> [u64; 16] {
    let mut block = [0u64; 16];
    block[0] = 0x6162_6380_0000_0000;
    block[15] = 0x18;
    block
}

#[test]
fn compress() {
    let input = msg_schedule_test_input();
    assert_eq!(pad(b"abc")[0], input);
    let w_halves = message_schedule(&input);
    let initial_state = initialize_with_iv(IV);
    let state = compression::compress(&initial_state, &w_halves);
    let digest = digest(&state);
    println!("{:?}", digest);
    for (idx, digest_word) in digest.iter().enumerate() {
        println!("{:?},  {:?}", *digest_word, IV[idx]);
        assert_eq!(*digest_word, ABC_DIGEST[idx]);
    }
}

#[test]
fn chaining_two_blocks() {
    let message = b"abcdefghbcdefghicdefghijdefghijkefghijklfghijklmghijklmnhijklmnoijklmnopjklmnopqklmnopqrlmnopqrsmnopqrstnopqrstu";
    let blocks = pad(message);
    assert_eq!(blocks.len(), 2);
    let s1 = compression::compress(&initialize_with_iv(IV), &message_schedule(&blocks[0]));
    let s2 = compression::compress(&initialize_with_state(&s1), &message_schedule(&blocks[1]));
    let expected: [u64; 8] = [
        0x8e959b75dae313da,
        0x8cf4f72814fc143f,
        0x8f7779c6eb9f7fa1,
        0x7299aeadb6889018,
        0x501d289e4900f7e4,
        0x331b99dec4b5433a,
        0xc7d329eeb6dd2654,
        0x5e96e55b874be909,
    ];
    assert_eq!(digest(&s2), expected);
}

#[test]
fn empty_message_known_answer() {
    let blocks = pad(b"");
    let state = compression::compress(&initialize_with_iv(IV), &message_schedule(&blocks[0]));
    let expected: [u64; 8] = [
        0xcf83e1357eefb8bd,
        0xf1542850d66d8007,
        0xd620e4050b5715dc,
        0x83f4a921d36ce9ce,
        0x47d0d13c5d85f2b0,
        0xff8318d2877eec2f,
        0x63b931bd47417a81,
        0xa538327af927da3e,
    ];
    assert_eq!(digest(&state), expected);
}

#[test]
fn initialize_with_iv_holds_the_words() {
    let state = initialize_with_iv(IV);
    assert_eq!(digest(&state), IV);
    let again = initialize_with_state(&state);
    assert_eq!(digest(&again), IV);
}

#[test]
fn state_constructors() {
    let empty = State::empty_state();
    assert!(empty.a.is_none() && empty.h.is_none());
    let x: u64 = 0x0123_4567_89ab_cdef;
    let dense = RoundWordDense::from_word(x);
    let spread = RoundWordSpread::from_word(x);
    let a = RoundWordA::new(AbcdVar::decompose(x), dense, spread);
    let e = RoundWordE::new(EfghVar::decompose(x), dense, spread);
    assert!(RoundWordA::new_dense(dense).pieces.is_none());
    assert!(RoundWordE::new_dense(dense).spread_halves.is_none());
    let w = RoundWord::new(dense, spread);
    let state = State::new(
        StateWord::A(a),
        StateWord::B(w),
        StateWord::C(w),
        StateWord::D(dense),
        StateWord::E(e),
        StateWord::F(w),
        StateWord::G(w),
        StateWord::H(dense),
    );
    assert_eq!(digest(&state), [x; 8]);
}

#[test]
fn round_word_values() {
    let dense = RoundWordDense(0x89ab_cdef, 0x0123_4567);
    assert_eq!(dense.value(), 0x0123_4567_89ab_cdef);
    let spread = RoundWordSpread::from_word(0x0000_0003_0000_0001);
    assert_eq!(spread.0, 1);
    assert_eq!(spread.1, 5);
    assert_eq!(spread.value(), 1 + (5u128 << 64));
    assert_eq!(spread.dense().value(), 0x0000_0003_0000_0001);
    let from_pair = RoundWordDense::from((0x89ab_cdef, 0x0123_4567));
    assert_eq!(from_pair.value(), 0x0123_4567_89ab_cdef);
    let spread_pair = RoundWordSpread::from((1, 5));
    assert_eq!(spread_pair.value(), spread.value());
}

#[test]
fn round_cells_pass_every_gate() {
    let words = IV;
    let s = Slots {
        a: round_word_a(words[0]),
        b: round_word(words[1]),
        c: round_word(words[2]),
        d: RoundWordDense::from_word(words[3]),
        e: round_word_e(words[4]),
        f: round_word(words[5]),
        g: round_word(words[6]),
        h: RoundWordDense::from_word(words[7]),
    };
    let k: u64 = 0x428a_2f98_d728_ae22;
    let w = RoundWordDense::from_word(0x6162_6380_0000_0000);
    let cells = round_witness(&s, k, &w);
    let c = cells.spread;
    let t = cells.sums;
    let a_spread = s.a.spread_halves.unwrap();
    let e_spread = s.e.spread_halves.unwrap();
    assert!(CompressionGate::s_upper_sigma_1(true, &c.sigma_e_even, &c.sigma_e_odd, &s.e.pieces.unwrap()));
    assert!(CompressionGate::s_upper_sigma_0(true, &c.sigma_a_even, &c.sigma_a_odd, &s.a.pieces.unwrap()));
    assert!(CompressionGate::s_ch(true, &c.p_even, &c.p_odd, &e_spread, &s.f.spread_halves));
    assert!(CompressionGate::s_ch_neg(true, &c.q_even, &c.q_odd, &e_spread, &c.e_neg, &s.g.spread_halves));
    assert!(CompressionGate::s_maj(true, &c.m_even, &c.m_odd, &a_spread, &s.b.spread_halves, &s.c.spread_halves));
    assert!(CompressionGate::s_h_prime(true, &t.h_prime, t.h_prime_carry, &c.sigma_e, &c.ch, &c.ch_neg, &s.h, &t.k, &w));
    assert!(CompressionGate::s_a_new(true, &t.a_new, t.a_new_carry, &c.sigma_a, &c.maj, &t.h_prime));
    assert!(CompressionGate::s_e_new(true, &t.e_new, t.e_new_carry, &s.d, &t.h_prime));
    assert!(!CompressionGate::s_e_new(true, &t.e_new, t.e_new_carry + 1, &s.d, &t.h_prime));
    // The first round of the compression of "abc" from the initialization vector.
    let [a, b, c0, d, e, f, g, h] = words;
    let sigma_1 = e.rotate_right(14) ^ e.rotate_right(18) ^ e.rotate_right(41);
    let sigma_0 = a.rotate_right(28) ^ a.rotate_right(34) ^ a.rotate_right(39);
    let ch = (e & f) ^ (!e & g);
    let maj = (a & b) ^ (a & c0) ^ (b & c0);
    let t1 = h
        .wrapping_add(sigma_1)
        .wrapping_add(ch)
        .wrapping_add(k)
        .wrapping_add(w.value());
    let t2 = sigma_0.wrapping_add(maj);
    assert_eq!(t.a_new.value(), t1.wrapping_add(t2));
    assert_eq!(t.e_new.value(), d.wrapping_add(t1));
    assert_eq!(t.a_new.value(), 0xf6af_ceb8_bcfc_ddf5);
    assert_eq!(t.e_new.value(), 0x58cb_0234_7ab5_1f91);
}
