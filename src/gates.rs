//! The gates of the compression function. Each gate is a polynomial identity
//! over the cells of a few rows, switched on by a selector; here each one is
//! evaluated on concrete cell values. The field is wide enough that none of
//! these identities wraps, so each is stated over the integers.

use crate::functions::{
    ch, lemma_ch_bits, lemma_maj_bits, lemma_upper_sigma_0_bits, lemma_upper_sigma_1_bits,
    lemma_word_bits_value, maj, upper_sigma_0, upper_sigma_1, word_bits,
};
use crate::halves::{RoundWordDense, RoundWordSpread};
use crate::spread::{
    and_bits, bits_of, dense_value, despread, despread_bits, even_bits, is_spread,
    lemma_bits_of_dense, lemma_bits_of_len, lemma_dense_value_bound, lemma_despread_spread,
    lemma_even_odd_recompose, lemma_even_odd_unique, lemma_halves, lemma_is_spread_bits,
    lemma_pow2_values, lemma_spread_not, lemma_spread_ones, lemma_spread_sum2, lemma_spread_sum3,
    lemma_spread_value_bound, lemma_spread_value_injective, maj3_bits, not_bits, odd_bits,
    rotr_bits, spread, xor3_bits, xor_bits,
};
use crate::words::{lemma_abcd_pieces, lemma_efgh_pieces, AbcdVar, EfghVar, UpperSigmaVar};
use vstd::prelude::*;

verus! {

/// The spread form of 32 set bits: ones at every even position of 64 bits.
pub const MASK_EVEN_32: u64 = 0x5555_5555_5555_5555;

/// The gates of the compression function.
pub struct CompressionGate;

/// The `A, B, C, D` decomposition: every piece passes its check, and the
/// pieces recombine to the word and to its spread form.
pub open spec fn decompose_abcd_holds(
    v: AbcdVar,
    word: RoundWordDense,
    spread_word: RoundWordSpread,
) -> bool {
    &&& v.checked()
    &&& v.dense_word() == word.value_spec()
    &&& v.spread_word() == spread_word.value_spec()
}

/// The `E, F, G, H` decomposition: every piece passes its check, and the
/// pieces recombine to the word and to its spread form.
pub open spec fn decompose_efgh_holds(
    v: EfghVar,
    word: RoundWordDense,
    spread_word: RoundWordSpread,
) -> bool {
    &&& v.checked()
    &&& v.dense_word() == word.value_spec()
    &&& v.spread_word() == spread_word.value_spec()
}

/// The witness of a sum of spread values: an even half and an odd half,
/// each made of spread forms, with `even + 2 * odd` equal to the sum.
pub open spec fn even_odd_holds(even: RoundWordSpread, odd: RoundWordSpread, sum: nat) -> bool {
    &&& even.valid()
    &&& odd.valid()
    &&& even.value_spec() + 2 * odd.value_spec() == sum
}

/// `Σ0` on the pieces of `A`: the even and odd halves make up the sum of the
/// spread forms of the three rotations.
pub open spec fn upper_sigma_0_holds(
    even: RoundWordSpread,
    odd: RoundWordSpread,
    v: AbcdVar,
) -> bool {
    v.valid() && even_odd_holds(even, odd, v.xor_sum())
}

/// `Σ1` on the pieces of `E`.
pub open spec fn upper_sigma_1_holds(
    even: RoundWordSpread,
    odd: RoundWordSpread,
    v: EfghVar,
) -> bool {
    v.valid() && even_odd_holds(even, odd, v.xor_sum())
}

/// First half of `Ch`: the even and odd halves make up `spread(E) + spread(F)`.
pub open spec fn ch_holds(
    p_even: RoundWordSpread,
    p_odd: RoundWordSpread,
    e: RoundWordSpread,
    f: RoundWordSpread,
) -> bool {
    &&& e.valid()
    &&& f.valid()
    &&& even_odd_holds(p_even, p_odd, e.value_spec() + f.value_spec())
}

/// Second half of `Ch`: `spread(¬E)` is the even mask less `spread(E)`, half
/// by half, and the even and odd halves make up `spread(¬E) + spread(G)`.
pub open spec fn ch_neg_holds(
    q_even: RoundWordSpread,
    q_odd: RoundWordSpread,
    e: RoundWordSpread,
    e_neg: RoundWordSpread,
    g: RoundWordSpread,
) -> bool {
    &&& e.valid()
    &&& e_neg.valid()
    &&& g.valid()
    &&& e_neg.0 + e.0 == MASK_EVEN_32
    &&& e_neg.1 + e.1 == MASK_EVEN_32
    &&& even_odd_holds(q_even, q_odd, e_neg.value_spec() + g.value_spec())
}

/// `Maj`: the even and odd halves make up `spread(A) + spread(B) + spread(C)`.
pub open spec fn maj_holds(
    m_even: RoundWordSpread,
    m_odd: RoundWordSpread,
    a: RoundWordSpread,
    b: RoundWordSpread,
    c: RoundWordSpread,
) -> bool {
    &&& a.valid()
    &&& b.valid()
    &&& c.valid()
    &&& even_odd_holds(m_even, m_odd, a.value_spec() + b.value_spec() + c.value_spec())
}

/// A modular addition: the addends, summed half by half, equal the carry
/// times `2^64` plus the result.
pub open spec fn addition_holds(sum: int, carry: u64, result: RoundWordDense) -> bool {
    sum == carry * 0x1_0000_0000_0000_0000 + result.0 + result.1 * 0x1_0000_0000
}

/// The sum of words given as halves: the low halves, plus the high halves
/// times `2^32`.
pub open spec fn halves_sum(words: Seq<RoundWordDense>) -> int
    decreases words.len(),
{
    if words.len() == 0 {
        0
    } else {
        halves_sum(words.drop_last()) + words.last().0 + words.last().1 * 0x1_0000_0000
    }
}

/// `H' = H + Ch(E, F, G) + Σ1(E) + K + W`, the two halves of `Ch` as two addends.
pub open spec fn h_prime_holds(
    h_prime: RoundWordDense,
    h_prime_carry: u64,
    sigma_e: RoundWordDense,
    ch: RoundWordDense,
    ch_neg: RoundWordDense,
    h: RoundWordDense,
    k: RoundWordDense,
    w: RoundWordDense,
) -> bool {
    addition_holds(
        halves_sum(seq![h, ch, ch_neg, sigma_e, k, w]),
        h_prime_carry,
        h_prime,
    )
}

/// `A_new = H' + Maj(A, B, C) + Σ0(A)`.
pub open spec fn a_new_holds(
    a_new: RoundWordDense,
    a_new_carry: u64,
    sigma_a: RoundWordDense,
    maj_abc: RoundWordDense,
    h_prime: RoundWordDense,
) -> bool {
    addition_holds(halves_sum(seq![sigma_a, maj_abc, h_prime]), a_new_carry, a_new)
}

/// `E_new = H' + D`.
pub open spec fn e_new_holds(
    e_new: RoundWordDense,
    e_new_carry: u64,
    d: RoundWordDense,
    h_prime: RoundWordDense,
) -> bool {
    addition_holds(halves_sum(seq![h_prime, d]), e_new_carry, e_new)
}

/// A digest word: its halves make up the word.
pub open spec fn digest_word_holds(lo: u32, hi: u32, word: u64) -> bool {
    lo + hi * 0x1_0000_0000 == word
}

/// Valid spread halves stand for a spread value below `4^64 / 3`.
pub proof fn lemma_spread_halves_bound(w: RoundWordSpread)
    requires
        w.valid(),
    ensures
        3 * w.value_spec() + 1 <= 0x1_0000_0000_0000_0000_0000_0000_0000_0000,
{
    w.lemma_valid();
    lemma_pow2_values();
    lemma_bits_of_len(w.dense_spec(), 64);
    lemma_spread_value_bound(bits_of(w.dense_spec(), 64));
}

/// Whether `even` and `odd` are valid spread halves with `even + 2 * odd == sum`.
fn check_even_odd(even: &RoundWordSpread, odd: &RoundWordSpread, sum: u128) -> (r: bool)
    ensures
        r == even_odd_holds(*even, *odd, sum as nat),
{
    if !even.is_valid() || !odd.is_valid() {
        return false;
    }
    proof {
        lemma_spread_halves_bound(*even);
        lemma_spread_halves_bound(*odd);
    }
    even.value() + 2 * odd.value() == sum
}

/// Splits a sum of spread values into its even half and its odd half, the
/// witness that the spread gates check.
pub fn even_odd_witness(sum: u128) -> (r: (RoundWordSpread, RoundWordSpread))
    ensures
        even_odd_holds(r.0, r.1, sum as nat),
        r.0.dense_spec() == despread(sum as nat, 64),
{
    proof {
        lemma_pow2_values();
        vstd::bits::lemma_u128_shr_is_div(sum, 1);
        lemma_even_odd_recompose(sum as nat, 64);
        lemma_dense_value_bound(even_bits(sum as nat, 64));
        lemma_dense_value_bound(odd_bits(sum as nat, 64));
        lemma_bits_of_dense(even_bits(sum as nat, 64));
        lemma_bits_of_dense(odd_bits(sum as nat, 64));
    }
    let even = despread_bits(sum, 64);
    let odd = despread_bits(sum >> 1, 64);
    (RoundWordSpread::from_word(even), RoundWordSpread::from_word(odd))
}

/// The spread halves of `¬E`: each half is the even mask less the half of
/// `spread(E)`.
pub fn negate_spread(e: &RoundWordSpread) -> (r: RoundWordSpread)
    requires
        e.valid(),
    ensures
        r.valid(),
        r.0 + e.0 == MASK_EVEN_32,
        r.1 + e.1 == MASK_EVEN_32,
{
    proof {
        lemma_pow2_values();
        lemma_negated_half(e.0);
        lemma_negated_half(e.1);
    }
    RoundWordSpread(MASK_EVEN_32 - e.0, MASK_EVEN_32 - e.1)
}

/// The even mask less a valid 32-bit spread value is a valid spread value.
proof fn lemma_negated_half(h: u64)
    requires
        is_spread(h as nat, 32),
    ensures
        h <= MASK_EVEN_32,
        is_spread((MASK_EVEN_32 - h) as nat, 32),
{
    lemma_pow2_values();
    let d = despread(h as nat, 32);
    lemma_is_spread_bits(h as nat, 32);
    let b = bits_of(d, 32);
    lemma_bits_of_len(d, 32);
    lemma_spread_ones(32);
    assert(Seq::new(b.len(), |i: int| true) =~= Seq::new(32, |i: int| true));
    lemma_spread_not(b);
    let nb = not_bits(b);
    let n = dense_value(nb);
    lemma_dense_value_bound(nb);
    lemma_bits_of_dense(nb);
    lemma_despread_spread(n, 32);
}

/// The `A, B, C, D` decomposition read from its gate: wherever that gate
/// holds, the spread word is the spread form of the word, and the pieces
/// are the word's bits cut at their boundaries.
pub proof fn lemma_decompose_abcd_sound(
    v: AbcdVar,
    word: RoundWordDense,
    spread_word: RoundWordSpread,
)
    requires
        decompose_abcd_holds(v, word, spread_word),
    ensures
        spread_word.value_spec() == spread(word.value_spec() as nat, 64),
        v.bits() == word_bits(word.value_spec()),
{
    v.lemma_checked_valid();
    lemma_abcd_pieces(v);
}

/// The `E, F, G, H` decomposition read from its gate: wherever that gate
/// holds, the spread word is the spread form of the word, and the pieces
/// are the word's bits cut at their boundaries.
pub proof fn lemma_decompose_efgh_sound(
    v: EfghVar,
    word: RoundWordDense,
    spread_word: RoundWordSpread,
)
    requires
        decompose_efgh_holds(v, word, spread_word),
    ensures
        spread_word.value_spec() == spread(word.value_spec() as nat, 64),
        v.bits() == word_bits(word.value_spec()),
{
    v.lemma_checked_valid();
    lemma_efgh_pieces(v);
}

/// `Σ0` read from its gate: wherever that gate holds, the even half reads
/// back as `Σ0` of the word that the pieces stand for.
pub proof fn lemma_upper_sigma_0_sound(even: RoundWordSpread, odd: RoundWordSpread, v: AbcdVar)
    requires
        upper_sigma_0_holds(even, odd, v),
    ensures
        even.dense_spec() == upper_sigma_0(v.dense_word() as u64),
{
    let x = v.dense_word() as u64;
    lemma_abcd_pieces(v);
    even.lemma_valid();
    odd.lemma_valid();
    let s = word_bits(x);
    lemma_bits_of_len(x as nat, 64);
    let r0 = rotr_bits(s, 28);
    let r1 = rotr_bits(s, 34);
    let r2 = rotr_bits(s, 39);
    lemma_spread_sum3(r0, r1, r2);
    lemma_upper_sigma_0_bits(x);
    let de = even.dense_spec() as u64;
    let dodd = odd.dense_spec() as u64;
    lemma_bits_of_len(de as nat, 64);
    lemma_bits_of_len(dodd as nat, 64);
    lemma_even_odd_unique(
        word_bits(de),
        word_bits(dodd),
        xor3_bits(r0, r1, r2),
        maj3_bits(r0, r1, r2),
    );
    lemma_word_bits_value(de);
    lemma_word_bits_value(upper_sigma_0(x));
}

/// `Σ1` read from its gate: wherever that gate holds, the even half reads
/// back as `Σ1` of the word that the pieces stand for.
pub proof fn lemma_upper_sigma_1_sound(even: RoundWordSpread, odd: RoundWordSpread, v: EfghVar)
    requires
        upper_sigma_1_holds(even, odd, v),
    ensures
        even.dense_spec() == upper_sigma_1(v.dense_word() as u64),
{
    let x = v.dense_word() as u64;
    lemma_efgh_pieces(v);
    even.lemma_valid();
    odd.lemma_valid();
    let s = word_bits(x);
    lemma_bits_of_len(x as nat, 64);
    let r0 = rotr_bits(s, 14);
    let r1 = rotr_bits(s, 18);
    let r2 = rotr_bits(s, 41);
    lemma_spread_sum3(r0, r1, r2);
    lemma_upper_sigma_1_bits(x);
    let de = even.dense_spec() as u64;
    let dodd = odd.dense_spec() as u64;
    lemma_bits_of_len(de as nat, 64);
    lemma_bits_of_len(dodd as nat, 64);
    lemma_even_odd_unique(
        word_bits(de),
        word_bits(dodd),
        xor3_bits(r0, r1, r2),
        maj3_bits(r0, r1, r2),
    );
    lemma_word_bits_value(de);
    lemma_word_bits_value(upper_sigma_1(x));
}

/// `E ∧ F` read from its gate: wherever that gate holds, the odd half reads
/// back as `E ∧ F`.
pub proof fn lemma_ch_sound(
    p_even: RoundWordSpread,
    p_odd: RoundWordSpread,
    e: RoundWordSpread,
    f: RoundWordSpread,
)
    requires
        ch_holds(p_even, p_odd, e, f),
    ensures
        p_odd.dense_spec() == (e.dense_spec() as u64) & (f.dense_spec() as u64),
{
    let de = e.dense_spec() as u64;
    let df = f.dense_spec() as u64;
    e.lemma_valid();
    f.lemma_valid();
    p_even.lemma_valid();
    p_odd.lemma_valid();
    lemma_bits_of_len(de as nat, 64);
    lemma_bits_of_len(df as nat, 64);
    lemma_bits_of_len(p_even.dense_spec(), 64);
    lemma_bits_of_len(p_odd.dense_spec(), 64);
    lemma_spread_sum2(word_bits(de), word_bits(df));
    lemma_ch_bits(de, df, df);
    lemma_even_odd_unique(
        word_bits(p_even.dense_spec() as u64),
        word_bits(p_odd.dense_spec() as u64),
        xor_bits(word_bits(de), word_bits(df)),
        and_bits(word_bits(de), word_bits(df)),
    );
    lemma_word_bits_value(p_odd.dense_spec() as u64);
    lemma_word_bits_value(de & df);
}

/// The spread halves of `¬E`: wherever each half of `spread(¬E)` is the even
/// mask less the half of `spread(E)`, the word read back is `¬E`.
proof fn lemma_negation(e: RoundWordSpread, e_neg: RoundWordSpread)
    requires
        e.valid(),
        e_neg.valid(),
        e_neg.0 + e.0 == MASK_EVEN_32,
        e_neg.1 + e.1 == MASK_EVEN_32,
    ensures
        word_bits(e_neg.dense_spec() as u64) == not_bits(word_bits(e.dense_spec() as u64)),
{
    lemma_pow2_values();
    let (e_lo, e_hi) = (despread(e.0 as nat, 32), despread(e.1 as nat, 32));
    let (n_lo, n_hi) = (despread(e_neg.0 as nat, 32), despread(e_neg.1 as nat, 32));
    lemma_is_spread_bits(e.0 as nat, 32);
    lemma_is_spread_bits(e.1 as nat, 32);
    lemma_is_spread_bits(e_neg.0 as nat, 32);
    lemma_is_spread_bits(e_neg.1 as nat, 32);
    lemma_bits_of_len(e_lo, 32);
    lemma_bits_of_len(e_hi, 32);
    lemma_bits_of_len(n_lo, 32);
    lemma_bits_of_len(n_hi, 32);
    lemma_spread_ones(32);
    assert(Seq::new(bits_of(e_lo, 32).len(), |i: int| true) =~= Seq::new(32, |i: int| true));
    assert(Seq::new(bits_of(e_hi, 32).len(), |i: int| true) =~= Seq::new(32, |i: int| true));
    lemma_spread_not(bits_of(e_lo, 32));
    lemma_spread_not(bits_of(e_hi, 32));
    lemma_spread_value_injective(bits_of(n_lo, 32), not_bits(bits_of(e_lo, 32)));
    lemma_spread_value_injective(bits_of(n_hi, 32), not_bits(bits_of(e_hi, 32)));
    lemma_halves(e_lo, e_hi);
    lemma_halves(n_lo, n_hi);
    assert(not_bits(bits_of(e_lo, 32) + bits_of(e_hi, 32)) =~= not_bits(bits_of(e_lo, 32))
        + not_bits(bits_of(e_hi, 32)));
}

/// `¬E ∧ G` read from its gate: wherever that gate holds, the odd half reads
/// back as `¬E ∧ G`.
pub proof fn lemma_ch_neg_sound(
    q_even: RoundWordSpread,
    q_odd: RoundWordSpread,
    e: RoundWordSpread,
    e_neg: RoundWordSpread,
    g: RoundWordSpread,
)
    requires
        ch_neg_holds(q_even, q_odd, e, e_neg, g),
    ensures
        q_odd.dense_spec() == !(e.dense_spec() as u64) & (g.dense_spec() as u64),
{
    let de = e.dense_spec() as u64;
    let dn = e_neg.dense_spec() as u64;
    let dg = g.dense_spec() as u64;
    lemma_negation(e, e_neg);
    e.lemma_valid();
    e_neg.lemma_valid();
    g.lemma_valid();
    q_even.lemma_valid();
    q_odd.lemma_valid();
    lemma_bits_of_len(dn as nat, 64);
    lemma_bits_of_len(dg as nat, 64);
    lemma_bits_of_len(q_even.dense_spec(), 64);
    lemma_bits_of_len(q_odd.dense_spec(), 64);
    lemma_spread_sum2(word_bits(dn), word_bits(dg));
    lemma_ch_bits(de, dg, dg);
    lemma_even_odd_unique(
        word_bits(q_even.dense_spec() as u64),
        word_bits(q_odd.dense_spec() as u64),
        xor_bits(word_bits(dn), word_bits(dg)),
        and_bits(word_bits(dn), word_bits(dg)),
    );
    lemma_word_bits_value(q_odd.dense_spec() as u64);
    lemma_word_bits_value(!de & dg);
}

/// `Ch` read from its two gates: wherever both hold on the same `E`, the odd
/// halves sum to `Ch(E, F, G)`.
pub proof fn lemma_choice_sound(
    p_even: RoundWordSpread,
    p_odd: RoundWordSpread,
    q_even: RoundWordSpread,
    q_odd: RoundWordSpread,
    e: RoundWordSpread,
    e_neg: RoundWordSpread,
    f: RoundWordSpread,
    g: RoundWordSpread,
)
    requires
        ch_holds(p_even, p_odd, e, f),
        ch_neg_holds(q_even, q_odd, e, e_neg, g),
    ensures
        p_odd.dense_spec() + q_odd.dense_spec() == ch(
            e.dense_spec() as u64,
            f.dense_spec() as u64,
            g.dense_spec() as u64,
        ),
{
    lemma_ch_sound(p_even, p_odd, e, f);
    lemma_ch_neg_sound(q_even, q_odd, e, e_neg, g);
    lemma_ch_bits(e.dense_spec() as u64, f.dense_spec() as u64, g.dense_spec() as u64);
}

/// `Maj` read from its gate: wherever that gate holds, the odd half reads
/// back as `Maj(A, B, C)`.
pub proof fn lemma_maj_sound(
    m_even: RoundWordSpread,
    m_odd: RoundWordSpread,
    a: RoundWordSpread,
    b: RoundWordSpread,
    c: RoundWordSpread,
)
    requires
        maj_holds(m_even, m_odd, a, b, c),
    ensures
        m_odd.dense_spec() == maj(
            a.dense_spec() as u64,
            b.dense_spec() as u64,
            c.dense_spec() as u64,
        ),
{
    let (da, db, dc) = (a.dense_spec() as u64, b.dense_spec() as u64, c.dense_spec() as u64);
    a.lemma_valid();
    b.lemma_valid();
    c.lemma_valid();
    m_even.lemma_valid();
    m_odd.lemma_valid();
    lemma_bits_of_len(da as nat, 64);
    lemma_bits_of_len(db as nat, 64);
    lemma_bits_of_len(dc as nat, 64);
    lemma_bits_of_len(m_even.dense_spec(), 64);
    lemma_bits_of_len(m_odd.dense_spec(), 64);
    lemma_spread_sum3(word_bits(da), word_bits(db), word_bits(dc));
    lemma_maj_bits(da, db, dc);
    lemma_even_odd_unique(
        word_bits(m_even.dense_spec() as u64),
        word_bits(m_odd.dense_spec() as u64),
        xor3_bits(word_bits(da), word_bits(db), word_bits(dc)),
        maj3_bits(word_bits(da), word_bits(db), word_bits(dc)),
    );
    lemma_word_bits_value(m_odd.dense_spec() as u64);
    lemma_word_bits_value(maj(da, db, dc));
}

/// Whether `lo + hi * 2^32 == carry * 2^64 + result`, for sums of at most
/// eight addends.
fn check_addition(lo: u64, hi: u64, carry: u64, result: &RoundWordDense) -> (r: bool)
    requires
        lo <= 8 * 0xffff_ffff,
        hi <= 8 * 0xffff_ffff,
    ensures
        r == addition_holds(lo + hi * 0x1_0000_0000, carry, *result),
{
    let sum: u128 = lo as u128 + hi as u128 * 0x1_0000_0000;
    let rhs: u128 = carry as u128 * 0x1_0000_0000_0000_0000 + result.0 as u128 + result.1 as u128
        * 0x1_0000_0000;
    sum == rhs
}

/// Whether `lo + hi * 2^32 == word`.
fn check_lo_hi(lo: u32, hi: u32, word: u64) -> (r: bool)
    ensures
        r == digest_word_holds(lo, hi, word),
{
    lo as u128 + hi as u128 * 0x1_0000_0000 == word as u128
}

/// The carry of an addition gate is determined: wherever that gate holds,
/// the carry is the sum divided by `2^64` and the result is the sum modulo
/// `2^64`. No other carry passes.
pub proof fn lemma_addition_exact(sum: int, carry: u64, result: RoundWordDense)
    requires
        addition_holds(sum, carry, result),
    ensures
        carry == sum / 0x1_0000_0000_0000_0000,
        result.value_spec() == sum % 0x1_0000_0000_0000_0000,
{
    let r = result.0 + result.1 * 0x1_0000_0000;
    assert(0 <= r < 0x1_0000_0000_0000_0000);
    vstd::arithmetic::div_mod::lemma_fundamental_div_mod_converse(
        sum,
        0x1_0000_0000_0000_0000,
        carry as int,
        r,
    );
}

/// The carry of `E_new = H' + D` is at most 1.
pub proof fn lemma_e_new_carry(
    e_new: RoundWordDense,
    e_new_carry: u64,
    d: RoundWordDense,
    h_prime: RoundWordDense,
)
    requires
        e_new_holds(e_new, e_new_carry, d, h_prime),
    ensures
        e_new_carry <= 1,
        e_new.value_spec() == (h_prime.value_spec() + d.value_spec()) % 0x1_0000_0000_0000_0000,
{
    reveal_with_fuel(halves_sum, 3);
    lemma_addition_exact(halves_sum(seq![h_prime, d]), e_new_carry, e_new);
}

/// The carry of `A_new = H' + Maj(A, B, C) + Σ0(A)` is at most 2.
pub proof fn lemma_a_new_carry(
    a_new: RoundWordDense,
    a_new_carry: u64,
    sigma_a: RoundWordDense,
    maj_abc: RoundWordDense,
    h_prime: RoundWordDense,
)
    requires
        a_new_holds(a_new, a_new_carry, sigma_a, maj_abc, h_prime),
    ensures
        a_new_carry <= 2,
        a_new.value_spec() == (sigma_a.value_spec() + maj_abc.value_spec() + h_prime.value_spec())
            % 0x1_0000_0000_0000_0000,
{
    reveal_with_fuel(halves_sum, 4);
    lemma_addition_exact(halves_sum(seq![sigma_a, maj_abc, h_prime]), a_new_carry, a_new);
}

/// The carry of `H'` is at most 5, one less than its six addends, and at
/// most 3 wherever the addends sum below `4 * 2^64`.
pub proof fn lemma_h_prime_carry(
    h_prime: RoundWordDense,
    h_prime_carry: u64,
    sigma_e: RoundWordDense,
    ch: RoundWordDense,
    ch_neg: RoundWordDense,
    h: RoundWordDense,
    k: RoundWordDense,
    w: RoundWordDense,
)
    requires
        h_prime_holds(h_prime, h_prime_carry, sigma_e, ch, ch_neg, h, k, w),
    ensures
        h_prime_carry <= 5,
        h.value_spec() + ch.value_spec() + ch_neg.value_spec() + sigma_e.value_spec()
            + k.value_spec() + w.value_spec() < 4 * 0x1_0000_0000_0000_0000 ==> h_prime_carry <= 3,
        h_prime.value_spec() == (h.value_spec() + ch.value_spec() + ch_neg.value_spec()
            + sigma_e.value_spec() + k.value_spec() + w.value_spec()) % 0x1_0000_0000_0000_0000,
{
    reveal_with_fuel(halves_sum, 7);
    lemma_addition_exact(halves_sum(seq![h, ch, ch_neg, sigma_e, k, w]), h_prime_carry, h_prime);
}

impl CompressionGate {
    /// The `A, B, C, D` decomposition gate.
    pub fn s_decompose_abcd(
        s_decompose_abcd: bool,
        v: &AbcdVar,
        word: &RoundWordDense,
        spread_word: &RoundWordSpread,
    ) -> (r: bool)
        ensures
            r == (s_decompose_abcd ==> decompose_abcd_holds(*v, *word, *spread_word)),
    {
        if !s_decompose_abcd {
            return true;
        }
        if !v.is_checked() {
            return false;
        }
        proof {
            v.lemma_checked_valid();
            lemma_abcd_pieces(*v);
            lemma_pow2_values();
            v.a_lo.lemma_spread_bound(14);
            v.a_hi.lemma_spread_bound(14);
            v.b_lo.lemma_spread_bound(3);
            v.b_hi.lemma_spread_bound(3);
            v.c_lo.lemma_spread_bound(2);
            v.c_hi.lemma_spread_bound(3);
            v.d_lo.lemma_spread_bound(14);
            v.d_hi.lemma_spread_bound(11);
        }
        let dense: u64 = v.a_lo.dense as u64 + v.a_hi.dense as u64 * 0x4000 + v.b_lo.dense as u64
            * 0x1000_0000 + v.b_hi.dense as u64 * 0x8000_0000 + v.c_lo.dense as u64
            * 0x4_0000_0000 + v.c_hi.dense as u64 * 0x10_0000_0000 + v.d_lo.dense as u64
            * 0x80_0000_0000 + v.d_hi.dense as u64 * 0x20_0000_0000_0000;
        let spread: u128 = v.a_lo.spread as u128 + v.a_hi.spread as u128 * 0x1000_0000
            + v.b_lo.spread as u128 * 0x100_0000_0000_0000 + v.b_hi.spread as u128
            * 0x4000_0000_0000_0000 + v.c_lo.spread as u128 * 0x10_0000_0000_0000_0000
            + v.c_hi.spread as u128 * 0x100_0000_0000_0000_0000 + v.d_lo.spread as u128
            * 0x4000_0000_0000_0000_0000 + v.d_hi.spread as u128
            * 0x400_0000_0000_0000_0000_0000_0000;
        dense == word.value() && spread == spread_word.value()
    }

    /// The `E, F, G, H` decomposition gate.
    pub fn s_decompose_efgh(
        s_decompose_efgh: bool,
        v: &EfghVar,
        word: &RoundWordDense,
        spread_word: &RoundWordSpread,
    ) -> (r: bool)
        ensures
            r == (s_decompose_efgh ==> decompose_efgh_holds(*v, *word, *spread_word)),
    {
        if !s_decompose_efgh {
            return true;
        }
        if !v.is_checked() {
            return false;
        }
        proof {
            v.lemma_checked_valid();
            lemma_efgh_pieces(*v);
            lemma_pow2_values();
            v.a.lemma_spread_bound(14);
            v.b_lo.lemma_spread_bound(2);
            v.b_hi.lemma_spread_bound(2);
            v.c_lo.lemma_spread_bound(13);
            v.c_hi.lemma_spread_bound(10);
            v.d_lo.lemma_spread_bound(13);
            v.d_hi.lemma_spread_bound(10);
        }
        let dense: u64 = v.a.dense as u64 + v.b_lo.dense as u64 * 0x4000 + v.b_hi.dense as u64
            * 0x1_0000 + v.c_lo.dense as u64 * 0x4_0000 + v.c_hi.dense as u64 * 0x8000_0000
            + v.d_lo.dense as u64 * 0x200_0000_0000 + v.d_hi.dense as u64
            * 0x40_0000_0000_0000;
        let spread: u128 = v.a.spread as u128 + v.b_lo.spread as u128 * 0x1000_0000
            + v.b_hi.spread as u128 * 0x1_0000_0000 + v.c_lo.spread as u128 * 0x10_0000_0000
            + v.c_hi.spread as u128 * 0x4000_0000_0000_0000 + v.d_lo.spread as u128
            * 0x4_0000_0000_0000_0000_0000 + v.d_hi.spread as u128
            * 0x1000_0000_0000_0000_0000_0000_0000;
        dense == word.value() && spread == spread_word.value()
    }

    /// `Σ0` on the pieces of `A`.
    pub fn s_upper_sigma_0(
        s_upper_sigma_0: bool,
        spread_r_even: &RoundWordSpread,
        spread_r_odd: &RoundWordSpread,
        v: &AbcdVar,
    ) -> (r: bool)
        ensures
            r == (s_upper_sigma_0 ==> upper_sigma_0_holds(*spread_r_even, *spread_r_odd, *v)),
    {
        if !s_upper_sigma_0 {
            return true;
        }
        if !v.is_valid() {
            return false;
        }
        let sum = v.xor_upper_sigma();
        check_even_odd(spread_r_even, spread_r_odd, sum)
    }

    /// `Σ1` on the pieces of `E`.
    pub fn s_upper_sigma_1(
        s_upper_sigma_1: bool,
        spread_r_even: &RoundWordSpread,
        spread_r_odd: &RoundWordSpread,
        v: &EfghVar,
    ) -> (r: bool)
        ensures
            r == (s_upper_sigma_1 ==> upper_sigma_1_holds(*spread_r_even, *spread_r_odd, *v)),
    {
        if !s_upper_sigma_1 {
            return true;
        }
        if !v.is_valid() {
            return false;
        }
        let sum = v.xor_upper_sigma();
        check_even_odd(spread_r_even, spread_r_odd, sum)
    }

    /// First half of the choice gate on `(E, F, G)`: `E ∧ F`.
    pub fn s_ch(
        s_ch: bool,
        spread_p_even: &RoundWordSpread,
        spread_p_odd: &RoundWordSpread,
        spread_e: &RoundWordSpread,
        spread_f: &RoundWordSpread,
    ) -> (r: bool)
        ensures
            r == (s_ch ==> ch_holds(*spread_p_even, *spread_p_odd, *spread_e, *spread_f)),
    {
        if !s_ch {
            return true;
        }
        if !spread_e.is_valid() || !spread_f.is_valid() {
            return false;
        }
        proof {
            lemma_spread_halves_bound(*spread_e);
            lemma_spread_halves_bound(*spread_f);
        }
        check_even_odd(spread_p_even, spread_p_odd, spread_e.value() + spread_f.value())
    }

    /// Second half of the choice gate on `(E, F, G)`: `¬E ∧ G`.
    pub fn s_ch_neg(
        s_ch_neg: bool,
        spread_q_even: &RoundWordSpread,
        spread_q_odd: &RoundWordSpread,
        spread_e: &RoundWordSpread,
        spread_e_neg: &RoundWordSpread,
        spread_g: &RoundWordSpread,
    ) -> (r: bool)
        ensures
            r == (s_ch_neg ==> ch_neg_holds(
                *spread_q_even,
                *spread_q_odd,
                *spread_e,
                *spread_e_neg,
                *spread_g,
            )),
    {
        if !s_ch_neg {
            return true;
        }
        if !spread_e.is_valid() || !spread_e_neg.is_valid() || !spread_g.is_valid() {
            return false;
        }
        let lo_ok = spread_e_neg.0 as u128 + spread_e.0 as u128 == MASK_EVEN_32 as u128;
        let hi_ok = spread_e_neg.1 as u128 + spread_e.1 as u128 == MASK_EVEN_32 as u128;
        if !lo_ok || !hi_ok {
            return false;
        }
        proof {
            lemma_spread_halves_bound(*spread_e_neg);
            lemma_spread_halves_bound(*spread_g);
        }
        check_even_odd(spread_q_even, spread_q_odd, spread_e_neg.value() + spread_g.value())
    }

    /// The majority gate on `(A, B, C)`.
    pub fn s_maj(
        s_maj: bool,
        spread_m_even: &RoundWordSpread,
        spread_m_odd: &RoundWordSpread,
        spread_a: &RoundWordSpread,
        spread_b: &RoundWordSpread,
        spread_c: &RoundWordSpread,
    ) -> (r: bool)
        ensures
            r == (s_maj ==> maj_holds(
                *spread_m_even,
                *spread_m_odd,
                *spread_a,
                *spread_b,
                *spread_c,
            )),
    {
        if !s_maj {
            return true;
        }
        if !spread_a.is_valid() || !spread_b.is_valid() || !spread_c.is_valid() {
            return false;
        }
        proof {
            lemma_spread_halves_bound(*spread_a);
            lemma_spread_halves_bound(*spread_b);
            lemma_spread_halves_bound(*spread_c);
        }
        check_even_odd(
            spread_m_even,
            spread_m_odd,
            spread_a.value() + spread_b.value() + spread_c.value(),
        )
    }

    /// `H' = H + Ch(E, F, G) + Σ1(E) + K + W`.
    pub fn s_h_prime(
        s_h_prime: bool,
        h_prime: &RoundWordDense,
        h_prime_carry: u64,
        sigma_e: &RoundWordDense,
        ch: &RoundWordDense,
        ch_neg: &RoundWordDense,
        h: &RoundWordDense,
        k: &RoundWordDense,
        w: &RoundWordDense,
    ) -> (r: bool)
        ensures
            r == (s_h_prime ==> h_prime_holds(
                *h_prime,
                h_prime_carry,
                *sigma_e,
                *ch,
                *ch_neg,
                *h,
                *k,
                *w,
            )),
    {
        if !s_h_prime {
            return true;
        }
        let lo: u64 = h.0 as u64 + ch.0 as u64 + ch_neg.0 as u64 + sigma_e.0 as u64 + k.0 as u64
            + w.0 as u64;
        let hi: u64 = h.1 as u64 + ch.1 as u64 + ch_neg.1 as u64 + sigma_e.1 as u64 + k.1 as u64
            + w.1 as u64;
        proof {
            reveal_with_fuel(halves_sum, 7);
        }
        check_addition(lo, hi, h_prime_carry, h_prime)
    }

    /// `A_new = H' + Maj(A, B, C) + Σ0(A)`.
    pub fn s_a_new(
        s_a_new: bool,
        a_new: &RoundWordDense,
        a_new_carry: u64,
        sigma_a: &RoundWordDense,
        maj_abc: &RoundWordDense,
        h_prime: &RoundWordDense,
    ) -> (r: bool)
        ensures
            r == (s_a_new ==> a_new_holds(*a_new, a_new_carry, *sigma_a, *maj_abc, *h_prime)),
    {
        if !s_a_new {
            return true;
        }
        let lo: u64 = sigma_a.0 as u64 + maj_abc.0 as u64 + h_prime.0 as u64;
        let hi: u64 = sigma_a.1 as u64 + maj_abc.1 as u64 + h_prime.1 as u64;
        proof {
            reveal_with_fuel(halves_sum, 4);
        }
        check_addition(lo, hi, a_new_carry, a_new)
    }

    /// `E_new = H' + D`.
    pub fn s_e_new(
        s_e_new: bool,
        e_new: &RoundWordDense,
        e_new_carry: u64,
        d: &RoundWordDense,
        h_prime: &RoundWordDense,
    ) -> (r: bool)
        ensures
            r == (s_e_new ==> e_new_holds(*e_new, e_new_carry, *d, *h_prime)),
    {
        if !s_e_new {
            return true;
        }
        let lo: u64 = h_prime.0 as u64 + d.0 as u64;
        let hi: u64 = h_prime.1 as u64 + d.1 as u64;
        proof {
            reveal_with_fuel(halves_sum, 3);
        }
        check_addition(lo, hi, e_new_carry, e_new)
    }

    /// The digest gate: four words, each equal to its halves recombined.
    pub fn s_digest(
        s_digest: bool,
        lo_0: u32,
        hi_0: u32,
        word_0: u64,
        lo_1: u32,
        hi_1: u32,
        word_1: u64,
        lo_2: u32,
        hi_2: u32,
        word_2: u64,
        lo_3: u32,
        hi_3: u32,
        word_3: u64,
    ) -> (r: bool)
        ensures
            r == (s_digest ==> (digest_word_holds(lo_0, hi_0, word_0) && digest_word_holds(
                lo_1,
                hi_1,
                word_1,
            ) && digest_word_holds(lo_2, hi_2, word_2) && digest_word_holds(lo_3, hi_3, word_3))),
    {
        !s_digest || (check_lo_hi(lo_0, hi_0, word_0) && check_lo_hi(lo_1, hi_1, word_1)
            && check_lo_hi(lo_2, hi_2, word_2) && check_lo_hi(lo_3, hi_3, word_3))
    }
}

} // verus!
