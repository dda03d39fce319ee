//! The round functions of SHA-512 on plain 64-bit words, and their
//! bit-string form.

use crate::spread::{
    and_bits, bits_of, dense_value, lemma_bits_of_index, lemma_bits_of_len, lemma_dense_bits_of,
    maj3_bits, not_bits, rotr_bits, xor3_bits,
};
use vstd::prelude::*;

verus! {

/// Rotation of a 64-bit word right by `n` places (`0 < n < 64`).
pub open spec fn rotr(x: u64, n: u64) -> u64 {
    (x >> n) | (x << ((64 - n) as u64))
}

/// `Σ0(x) = ROTR28(x) ^ ROTR34(x) ^ ROTR39(x)`.
pub open spec fn upper_sigma_0(x: u64) -> u64 {
    rotr(x, 28) ^ rotr(x, 34) ^ rotr(x, 39)
}

/// `Σ1(x) = ROTR14(x) ^ ROTR18(x) ^ ROTR41(x)`.
pub open spec fn upper_sigma_1(x: u64) -> u64 {
    rotr(x, 14) ^ rotr(x, 18) ^ rotr(x, 41)
}

/// `Ch(e, f, g) = (e ∧ f) ⊕ (¬e ∧ g)`.
pub open spec fn ch(e: u64, f: u64, g: u64) -> u64 {
    (e & f) ^ (!e & g)
}

/// `Maj(a, b, c)`: the majority of the three bits at each position.
pub open spec fn maj(a: u64, b: u64, c: u64) -> u64 {
    (a & b) ^ (a & c) ^ (b & c)
}

/// The 64 bits of a word, least significant first.
pub open spec fn word_bits(x: u64) -> Seq<bool> {
    bits_of(x as nat, 64)
}

proof fn lemma_word_bits_len(x: u64)
    ensures
        word_bits(x).len() == 64,
{
    lemma_bits_of_len(x as nat, 64);
}

/// The bits of a word rotated right by `k` are its bits rotated right by `k`.
proof fn lemma_rotr_bits_index(s: Seq<bool>, k: int, i: int)
    requires
        s.len() == 64,
        0 <= k < 64,
        0 <= i < 64,
    ensures
        rotr_bits(s, k).len() == 64,
        rotr_bits(s, k)[i] == s[(i + k) % 64],
{
}

/// `Σ0` in bit-string form: the exclusive or of three rotations.
pub proof fn lemma_upper_sigma_0_bits(x: u64)
    ensures
        word_bits(upper_sigma_0(x)) == xor3_bits(
            rotr_bits(word_bits(x), 28),
            rotr_bits(word_bits(x), 34),
            rotr_bits(word_bits(x), 39),
        ),
{
    let s = word_bits(x);
    let r = xor3_bits(rotr_bits(s, 28), rotr_bits(s, 34), rotr_bits(s, 39));
    lemma_word_bits_len(x);
    lemma_word_bits_len(upper_sigma_0(x));
    assert forall|i: int| 0 <= i < 64 implies word_bits(upper_sigma_0(x))[i] == r[i] by {
        let y = upper_sigma_0(x);
        let j = i as u64;
        lemma_bits_of_index(y, 64, i);
        lemma_rotr_bits_index(s, 28, i);
        lemma_rotr_bits_index(s, 34, i);
        lemma_rotr_bits_index(s, 39, i);
        lemma_bits_of_index(x, 64, (i + 28) % 64);
        lemma_bits_of_index(x, 64, (i + 34) % 64);
        lemma_bits_of_index(x, 64, (i + 39) % 64);
        assert(((y >> j) & 1 == 1) == (((x >> ((j + 28) % 64)) & 1 == 1) ^ ((x >> ((j + 34) % 64))
            & 1 == 1) ^ ((x >> ((j + 39) % 64)) & 1 == 1))) by (bit_vector)
            requires
                y == upper_sigma_0(x),
                j < 64,
        ;
    }
    assert(word_bits(upper_sigma_0(x)) =~= r);
}

/// `Σ1` in bit-string form: the exclusive or of three rotations.
pub proof fn lemma_upper_sigma_1_bits(x: u64)
    ensures
        word_bits(upper_sigma_1(x)) == xor3_bits(
            rotr_bits(word_bits(x), 14),
            rotr_bits(word_bits(x), 18),
            rotr_bits(word_bits(x), 41),
        ),
{
    let s = word_bits(x);
    let r = xor3_bits(rotr_bits(s, 14), rotr_bits(s, 18), rotr_bits(s, 41));
    lemma_word_bits_len(x);
    lemma_word_bits_len(upper_sigma_1(x));
    assert forall|i: int| 0 <= i < 64 implies word_bits(upper_sigma_1(x))[i] == r[i] by {
        let y = upper_sigma_1(x);
        let j = i as u64;
        lemma_bits_of_index(y, 64, i);
        lemma_rotr_bits_index(s, 14, i);
        lemma_rotr_bits_index(s, 18, i);
        lemma_rotr_bits_index(s, 41, i);
        lemma_bits_of_index(x, 64, (i + 14) % 64);
        lemma_bits_of_index(x, 64, (i + 18) % 64);
        lemma_bits_of_index(x, 64, (i + 41) % 64);
        assert(((y >> j) & 1 == 1) == (((x >> ((j + 14) % 64)) & 1 == 1) ^ ((x >> ((j + 18) % 64))
            & 1 == 1) ^ ((x >> ((j + 41) % 64)) & 1 == 1))) by (bit_vector)
            requires
                y == upper_sigma_1(x),
                j < 64,
        ;
    }
    assert(word_bits(upper_sigma_1(x)) =~= r);
}

/// `Maj` in bit-string form.
pub proof fn lemma_maj_bits(a: u64, b: u64, c: u64)
    ensures
        word_bits(maj(a, b, c)) == maj3_bits(word_bits(a), word_bits(b), word_bits(c)),
{
    let r = maj3_bits(word_bits(a), word_bits(b), word_bits(c));
    lemma_word_bits_len(a);
    lemma_word_bits_len(maj(a, b, c));
    assert forall|i: int| 0 <= i < 64 implies word_bits(maj(a, b, c))[i] == r[i] by {
        let y = maj(a, b, c);
        let j = i as u64;
        lemma_bits_of_index(y, 64, i);
        lemma_bits_of_index(a, 64, i);
        lemma_bits_of_index(b, 64, i);
        lemma_bits_of_index(c, 64, i);
        assert(((y >> j) & 1 == 1) == ((((a >> j) & 1 == 1) && ((b >> j) & 1 == 1)) || (((a >> j)
            & 1 == 1) && ((c >> j) & 1 == 1)) || (((b >> j) & 1 == 1) && ((c >> j) & 1 == 1))))
            by (bit_vector)
            requires
                y == maj(a, b, c),
                j < 64,
        ;
    }
    assert(word_bits(maj(a, b, c)) =~= r);
}

proof fn lemma_ch_bit(e: u64, f: u64, g: u64, i: int)
    requires
        0 <= i < 64,
    ensures
        word_bits(e & f)[i] == (word_bits(e)[i] && word_bits(f)[i]),
        word_bits(!e & g)[i] == (!word_bits(e)[i] && word_bits(g)[i]),
        word_bits(!e)[i] == !word_bits(e)[i],
{
    let j = i as u64;
    let y = e & f;
    let z = !e & g;
    let ne = !e;
    lemma_bits_of_index(y, 64, i);
    lemma_bits_of_index(z, 64, i);
    lemma_bits_of_index(ne, 64, i);
    lemma_bits_of_index(e, 64, i);
    lemma_bits_of_index(f, 64, i);
    lemma_bits_of_index(g, 64, i);
    assert(((y >> j) & 1 == 1) == (((e >> j) & 1 == 1) && ((f >> j) & 1 == 1)) && ((z >> j) & 1
        == 1) == (!((e >> j) & 1 == 1) && ((g >> j) & 1 == 1)) && ((ne >> j) & 1 == 1) == !((e
        >> j) & 1 == 1)) by (bit_vector)
        requires
            y == e & f,
            z == !e & g,
            ne == !e,
            j < 64,
    ;
}

/// The two halves of `Ch` in bit-string form, and `Ch` as their sum.
pub proof fn lemma_ch_bits(e: u64, f: u64, g: u64)
    ensures
        word_bits(e & f) == and_bits(word_bits(e), word_bits(f)),
        word_bits(!e & g) == and_bits(not_bits(word_bits(e)), word_bits(g)),
        word_bits(!e) == not_bits(word_bits(e)),
        ch(e, f, g) == (e & f) + (!e & g),
{
    lemma_word_bits_len(e);
    lemma_word_bits_len(f);
    lemma_word_bits_len(g);
    lemma_word_bits_len(e & f);
    lemma_word_bits_len(!e & g);
    lemma_word_bits_len(!e);
    assert forall|i: int| 0 <= i < 64 implies word_bits(e & f)[i] == and_bits(
        word_bits(e),
        word_bits(f),
    )[i] by {
        lemma_ch_bit(e, f, g, i);
    }
    assert forall|i: int| 0 <= i < 64 implies word_bits(!e & g)[i] == and_bits(
        not_bits(word_bits(e)),
        word_bits(g),
    )[i] by {
        lemma_ch_bit(e, f, g, i);
    }
    assert forall|i: int| 0 <= i < 64 implies word_bits(!e)[i] == not_bits(word_bits(e))[i] by {
        lemma_ch_bit(e, f, g, i);
    }
    assert(word_bits(e & f) =~= and_bits(word_bits(e), word_bits(f)));
    assert(word_bits(!e & g) =~= and_bits(not_bits(word_bits(e)), word_bits(g)));
    assert(word_bits(!e) =~= not_bits(word_bits(e)));
    assert(ch(e, f, g) == (e & f) + (!e & g)) by (bit_vector);
}

/// A word is the dense value of its bits.
pub proof fn lemma_word_bits_value(x: u64)
    ensures
        dense_value(word_bits(x)) == x,
{
    lemma_dense_bits_of(x as nat, 64);
    vstd::arithmetic::power2::lemma2_to64();
}

} // verus!
