use sha512_table16::gates::{even_odd_witness, negate_spread, CompressionGate, MASK_EVEN_32};
use sha512_table16::halves::{RoundWordDense, RoundWordSpread};
use sha512_table16::spread::{despread_bits, spread_bits};
use sha512_table16::spread_table::{lookup_tag, SpreadVar};
use sha512_table16::words::{AbcdVar, EfghVar, UpperSigmaVar};

/// A fixed pseudo-random sequence of words.
fn words(n: usize) -> Vec<u64> {
    let mut x: u64 = 0x9e37_79b9_7f4a_7c15;
    let mut out = vec![0, u64::MAX, 0x8000_0000_0000_0001];
    while out.len() < n {
        x = x.wrapping_mul(6364136223846793005).wrapping_add(1442695040888963407);
        out.push(x ^ (x >> 29));
    }
    out
}

fn sigma_0(x: u64) -> u64 {
    x.rotate_right(28) ^ x.rotate_right(34) ^ x.rotate_right(39)
}

fn sigma_1(x: u64) -> u64 {
    x.rotate_right(14) ^ x.rotate_right(18) ^ x.rotate_right(41)
}

#[test]
fn spread_known_values() {
    assert_eq!(spread_bits(0, 64), 0);
    assert_eq!(spread_bits(0b1011, 4), 0b01_00_01_01);
    assert_eq!(spread_bits(u64::MAX, 64), 0x5555_5555_5555_5555_5555_5555_5555_5555);
    assert_eq!(spread_bits(0xffff_ffff, 32), MASK_EVEN_32 as u128);
    // Only the low `n` bits are spread.
    assert_eq!(spread_bits(0b111, 2), 0b0101);
    assert_eq!(despread_bits(0b01_00_01_01, 4), 0b1011);
    // Odd positions are ignored.
    assert_eq!(despread_bits(0b10_10_10_11, 4), 0b0001);
}

#[test]
fn spread_bijection() {
    for x in words(200) {
        assert_eq!(despread_bits(spread_bits(x, 64), 64), x);
    }
}

#[test]
fn lookup_tags() {
    assert_eq!(lookup_tag(0), 0);
    assert_eq!(lookup_tag(0x7f), 0);
    assert_eq!(lookup_tag(0x80), 1);
    assert_eq!(lookup_tag(0x3ff), 1);
    assert_eq!(lookup_tag(0x400), 2);
    assert_eq!(lookup_tag(0x800), 3);
    assert_eq!(lookup_tag(0x1fff), 3);
    assert_eq!(lookup_tag(0x2000), 4);
    assert_eq!(lookup_tag(0x3fff), 4);
    assert_eq!(lookup_tag(0x4000), 5);
    let v = SpreadVar::from_dense(0x2001);
    assert_eq!((v.tag, v.dense, v.spread), (4, 0x2001, 0x0400_0001));
    assert!(v.check_table(4));
    assert!(!v.check_table(3));
}

fn recombine(pieces: &[(u32, u64)], offsets: &[u32]) -> (u64, u128) {
    let mut dense = 0u64;
    let mut spread = 0u128;
    for ((d, s), off) in pieces.iter().zip(offsets) {
        dense += (*d as u64) << off;
        spread += (*s as u128) << (2 * off);
    }
    (dense, spread)
}

#[test]
fn decompose_abcd_round_trip() {
    for x in words(100) {
        let v = AbcdVar::decompose(x);
        let p = [v.a_lo, v.a_hi, v.b_lo, v.b_hi, v.c_lo, v.c_hi, v.d_lo, v.d_hi];
        let pairs: Vec<(u32, u64)> = p.iter().map(|s| (s.dense, s.spread)).collect();
        let (dense, spread) = recombine(&pairs, &[0, 14, 28, 31, 34, 36, 39, 53]);
        assert_eq!(dense, x);
        assert_eq!(spread, spread_bits(x, 64));
        assert!(v.is_checked());
    }
}

#[test]
fn decompose_efgh_round_trip() {
    for x in words(100) {
        let v = EfghVar::decompose(x);
        let p = [v.a, v.b_lo, v.b_hi, v.c_lo, v.c_hi, v.d_lo, v.d_hi];
        let pairs: Vec<(u32, u64)> = p.iter().map(|s| (s.dense, s.spread)).collect();
        let (dense, spread) = recombine(&pairs, &[0, 14, 16, 18, 31, 41, 54]);
        assert_eq!(dense, x);
        assert_eq!(spread, spread_bits(x, 64));
        assert!(v.is_checked());
    }
}

#[test]
fn piece_ranges_partition_the_word() {
    let abcd = [
        AbcdVar::a_lo_range(),
        AbcdVar::a_hi_range(),
        AbcdVar::b_lo_range(),
        AbcdVar::b_hi_range(),
        AbcdVar::c_lo_range(),
        AbcdVar::c_hi_range(),
        AbcdVar::d_lo_range(),
        AbcdVar::d_hi_range(),
    ];
    let efgh = [
        EfghVar::a_range(),
        EfghVar::b_lo_range(),
        EfghVar::b_hi_range(),
        EfghVar::c_lo_range(),
        EfghVar::c_hi_range(),
        EfghVar::d_lo_range(),
        EfghVar::d_hi_range(),
    ];
    for ranges in [&abcd[..], &efgh[..]] {
        assert_eq!(ranges[0].start, 0);
        for pair in ranges.windows(2) {
            assert_eq!(pair[0].end, pair[1].start);
        }
        assert_eq!(ranges[ranges.len() - 1].end, 64);
    }
}

#[test]
fn pieces_cut_the_bits() {
    let x: u64 = 0xf0e1_d2c3_b4a5_9687;
    let bits: Vec<bool> = (0..64).map(|i| (x >> i) & 1 == 1).collect();
    let p = AbcdVar::pieces(x);
    assert_eq!(p.len(), 8);
    assert_eq!(p[0], bits[0..14].to_vec());
    assert_eq!(p[4], bits[34..36].to_vec());
    assert_eq!(p[7], bits[53..64].to_vec());
    let q = EfghVar::pieces(x);
    assert_eq!(q.len(), 7);
    assert_eq!(q[1], bits[14..16].to_vec());
    assert_eq!(q[6], bits[54..64].to_vec());
    assert_eq!(p.concat(), bits);
    assert_eq!(q.concat(), bits);
}

#[test]
fn decompose_gates_accept_honest_pieces() {
    for x in words(50) {
        let dense = RoundWordDense::from_word(x);
        let spread = RoundWordSpread::from_word(x);
        assert!(CompressionGate::s_decompose_abcd(true, &AbcdVar::decompose(x), &dense, &spread));
        assert!(CompressionGate::s_decompose_efgh(true, &EfghVar::decompose(x), &dense, &spread));
    }
}

#[test]
fn decompose_gates_reject_bad_pieces() {
    let x: u64 = 0x0123_4567_89ab_cdef;
    let dense = RoundWordDense::from_word(x);
    let spread = RoundWordSpread::from_word(x);
    let other = RoundWordDense::from_word(x ^ 1);

    // Pieces of another word.
    assert!(!CompressionGate::s_decompose_abcd(true, &AbcdVar::decompose(x), &other, &spread));
    // A narrow piece out of range, with the recombination kept intact.
    let mut v = AbcdVar::decompose(x);
    v.b_lo.dense += 8;
    v.b_hi.dense -= 1;
    assert!(!CompressionGate::s_decompose_abcd(true, &v, &dense, &spread));
    // A wide piece whose tag is too large for its width.
    let mut w = EfghVar::decompose(x);
    w.c_hi.tag = 3;
    assert!(!CompressionGate::s_decompose_efgh(true, &w, &dense, &spread));
    // A wrong spread form.
    let mut u = EfghVar::decompose(x);
    u.a.spread ^= 2;
    assert!(!CompressionGate::s_decompose_efgh(true, &u, &dense, &spread));
    // A switched-off gate holds whatever the cells.
    assert!(CompressionGate::s_decompose_efgh(false, &u, &dense, &spread));
}

#[test]
fn upper_sigma_matches_reference() {
    for x in words(100) {
        let a = AbcdVar::decompose(x);
        let (even, odd) = even_odd_witness(a.xor_upper_sigma());
        assert!(CompressionGate::s_upper_sigma_0(true, &even, &odd, &a));
        assert_eq!(even.dense().value(), sigma_0(x));

        let e = EfghVar::decompose(x);
        let (even, odd) = even_odd_witness(e.xor_upper_sigma());
        assert!(CompressionGate::s_upper_sigma_1(true, &even, &odd, &e));
        assert_eq!(even.dense().value(), sigma_1(x));
    }
}

#[test]
fn upper_sigma_rejects_wrong_witness() {
    let x: u64 = 0xdead_beef_0bad_f00d;
    let a = AbcdVar::decompose(x);
    let (even, odd) = even_odd_witness(a.xor_upper_sigma());
    let wrong_even = RoundWordSpread::from_word(sigma_0(x) ^ 0x10);
    assert!(!CompressionGate::s_upper_sigma_0(true, &wrong_even, &odd, &a));
    // Swapping the halves keeps the cells valid but breaks the identity.
    assert!(!CompressionGate::s_upper_sigma_0(true, &odd, &even, &a));
    // An even half that is no spread form.
    let bad = RoundWordSpread(even.0 | 2, even.1);
    assert!(!bad.is_valid());
    assert!(!CompressionGate::s_upper_sigma_0(true, &bad, &odd, &a));
}

#[test]
fn ch_and_maj_match_reference() {
    let ws = words(90);
    for t in ws.chunks(3) {
        let (x, y, z) = (t[0], t[1], t[2]);
        let (sx, sy, sz) = (
            RoundWordSpread::from_word(x),
            RoundWordSpread::from_word(y),
            RoundWordSpread::from_word(z),
        );

        let (p_even, p_odd) = even_odd_witness(sx.value() + sy.value());
        assert!(CompressionGate::s_ch(true, &p_even, &p_odd, &sx, &sy));
        let x_neg = negate_spread(&sx);
        assert_eq!(x_neg.dense().value(), !x);
        let (q_even, q_odd) = even_odd_witness(x_neg.value() + sz.value());
        assert!(CompressionGate::s_ch_neg(true, &q_even, &q_odd, &sx, &x_neg, &sz));
        let ch = p_odd.dense().value() + q_odd.dense().value();
        assert_eq!(ch, (x & y) ^ (!x & z));

        let (m_even, m_odd) = even_odd_witness(sx.value() + sy.value() + sz.value());
        assert!(CompressionGate::s_maj(true, &m_even, &m_odd, &sx, &sy, &sz));
        assert_eq!(m_odd.dense().value(), (x & y) ^ (x & z) ^ (y & z));
        assert_eq!(m_even.dense().value(), x ^ y ^ z);
    }
}

#[test]
fn ch_gates_reject_wrong_cells() {
    let (x, y, z) = (0x0f0f_0f0f_0f0f_0f0fu64, 0x00ff_00ff_00ff_00ffu64, 0x3333_3333_3333_3333u64);
    let (sx, sy, sz) = (
        RoundWordSpread::from_word(x),
        RoundWordSpread::from_word(y),
        RoundWordSpread::from_word(z),
    );
    let (p_even, p_odd) = even_odd_witness(sx.value() + sy.value());
    assert!(!CompressionGate::s_ch(true, &p_even, &p_odd, &sx, &sz));
    // A negation that is not the complement of E.
    let not_neg = RoundWordSpread::from_word(!x ^ 1);
    let (q_even, q_odd) = even_odd_witness(not_neg.value() + sz.value());
    assert!(!CompressionGate::s_ch_neg(true, &q_even, &q_odd, &sx, &not_neg, &sz));
    let (m_even, m_odd) = even_odd_witness(sx.value() + sy.value() + sz.value());
    assert!(!CompressionGate::s_maj(true, &m_odd, &m_even, &sx, &sy, &sz));
}

fn halves_sum(ws: &[RoundWordDense]) -> u128 {
    ws.iter().map(|w| w.0 as u128 + ((w.1 as u128) << 32)).sum()
}

fn carry_and_result(ws: &[RoundWordDense]) -> (u64, RoundWordDense) {
    let sum = halves_sum(ws);
    ((sum >> 64) as u64, RoundWordDense::from_word(sum as u64))
}

#[test]
fn addition_gates_and_carry_bounds() {
    let ws = words(60);
    let max = RoundWordDense::from_word(u64::MAX);
    for t in ws.chunks(6) {
        let [h, ch, ch_neg, sigma_e, k, w] = [0, 1, 2, 3, 4, 5].map(|i| RoundWordDense::from_word(t[i]));
        let (carry, h_prime) = carry_and_result(&[h, ch, ch_neg, sigma_e, k, w]);
        assert!(carry <= 5);
        assert!(CompressionGate::s_h_prime(true, &h_prime, carry, &sigma_e, &ch, &ch_neg, &h, &k, &w));
        assert!(!CompressionGate::s_h_prime(true, &h_prime, carry + 1, &sigma_e, &ch, &ch_neg, &h, &k, &w));

        let (carry, a_new) = carry_and_result(&[sigma_e, ch, h_prime]);
        assert!(carry <= 2);
        assert!(CompressionGate::s_a_new(true, &a_new, carry, &sigma_e, &ch, &h_prime));
        assert_eq!(a_new.value(), t[3].wrapping_add(t[1]).wrapping_add(h_prime.value()));

        let (carry, e_new) = carry_and_result(&[h_prime, k]);
        assert!(carry <= 1);
        assert!(CompressionGate::s_e_new(true, &e_new, carry, &k, &h_prime));
        assert_eq!(e_new.value(), h_prime.value().wrapping_add(t[4]));
    }
    // The largest sums give the largest carries.
    assert!(CompressionGate::s_e_new(true, &RoundWordDense::from_word(u64::MAX - 1), 1, &max, &max));
    assert!(CompressionGate::s_a_new(true, &RoundWordDense::from_word(u64::MAX - 2), 2, &max, &max, &max));
}

#[test]
fn addition_gates_reject_carry_out_of_range() {
    let max = RoundWordDense::from_word(u64::MAX);
    let one = RoundWordDense::from_word(1);
    let zero = RoundWordDense::from_word(0);
    // max + 1 = 2^64: carry 1, result 0. Carry 2 with any 64-bit result fails.
    assert!(CompressionGate::s_e_new(true, &zero, 1, &max, &one));
    assert!(!CompressionGate::s_e_new(true, &zero, 2, &max, &one));
    assert!(!CompressionGate::s_e_new(true, &zero, 0, &max, &one));
    assert!(!CompressionGate::s_e_new(true, &max, 0, &max, &one));
    // A carry of 3 for three addends is out of range.
    assert!(!CompressionGate::s_a_new(true, &zero, 3, &max, &max, &max));
    // A switched-off gate holds.
    assert!(CompressionGate::s_a_new(false, &zero, 3, &max, &max, &max));
}

#[test]
fn digest_gate() {
    let x: u64 = 0x0123_4567_89ab_cdef;
    let (lo, hi) = (0x89ab_cdef, 0x0123_4567);
    assert!(CompressionGate::s_digest(true, lo, hi, x, 0, 0, 0, u32::MAX, u32::MAX, u64::MAX, 1, 0, 1));
    assert!(!CompressionGate::s_digest(true, lo, hi, x, 0, 0, 0, u32::MAX, u32::MAX, u64::MAX, 1, 0, 2));
    assert!(!CompressionGate::s_digest(true, hi, lo, x, 0, 0, 0, 0, 0, 0, 0, 0, 0));
    assert!(CompressionGate::s_digest(false, hi, lo, x, 0, 0, 0, 0, 0, 0, 0, 0, 0));
}

#[test]
fn upper_sigma_parts() {
    let x: u64 = 0xfedc_ba98_7654_3210;
    let a = AbcdVar::decompose(x);
    assert_eq!(a.spread_a() as u128, spread_bits(x & 0xfff_ffff, 28));
    assert_eq!(a.spread_b() as u128, spread_bits((x >> 28) & 0x3f, 6));
    assert_eq!(a.spread_c() as u128, spread_bits((x >> 34) & 0x1f, 5));
    assert_eq!(a.spread_d() as u128, spread_bits(x >> 39, 25));
    let e = EfghVar::decompose(x);
    assert_eq!(e.spread_a() as u128, spread_bits(x & 0x3fff, 14));
    assert_eq!(e.spread_b() as u128, spread_bits((x >> 14) & 0xf, 4));
    assert_eq!(e.spread_c() as u128, spread_bits((x >> 18) & 0x7f_ffff, 23));
    assert_eq!(e.spread_d() as u128, spread_bits(x >> 41, 23));
    // The rotation sum splits into Σ0 and the carries at the odd positions.
    let sum = a.xor_upper_sigma();
    assert_eq!(despread_bits(sum, 64), sigma_0(x));
}
