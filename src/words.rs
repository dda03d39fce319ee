//! Words of the state cut into pieces, each piece carried as a dense value
//! and its spread form.

use crate::functions::word_bits;
use crate::spread::{
    bits_of, dense_value, lemma_bits_of_dense, lemma_bits_of_index, lemma_bits_of_len,
    lemma_dense_bits_of, lemma_dense_concat, lemma_dense_value_bound, lemma_pow2_values,
    lemma_spread_concat, lemma_spread_value_bound, rotr_bits, spread, spread_value,
};
use crate::spread_table::SpreadVar;
use vstd::arithmetic::power2::pow2;
use vstd::bits::lemma_u64_shr_is_div;
use vstd::prelude::*;

verus! {
/// A word cut into the four parts `a, b, c, d` that an upper-sigma function
/// rotates, each part available in spread form.
pub trait UpperSigmaVar {
    /// Every piece holds a value of its width and that value's spread form.
    spec fn pieces_valid(&self) -> bool;

    /// The spread form of the `a` part.
    fn spread_a(&self) -> (r: u64)
        requires
            self.pieces_valid(),
    ;

    /// The spread form of the `b` part.
    fn spread_b(&self) -> (r: u64)
        requires
            self.pieces_valid(),
    ;

    /// The spread form of the `c` part.
    fn spread_c(&self) -> (r: u64)
        requires
            self.pieces_valid(),
    ;

    /// The spread form of the `d` part.
    fn spread_d(&self) -> (r: u64)
        requires
            self.pieces_valid(),
    ;

    /// The sum of the spread forms of the three rotations of the word that
    /// make up the upper-sigma function.
    fn xor_upper_sigma(&self) -> (r: u128)
        requires
            self.pieces_valid(),
    ;
}

/// A word of the `A, B, C, D` kind cut into pieces of (14, 14, 3, 3, 2, 3, 14, 11)
/// bits, least significant first: the parts `a, b, c, d` of (28, 6, 5, 25) bits that
/// `Σ0` rotates, each split further so that every piece fits a lookup or a
/// direct check.
#[derive(Clone, Copy, Debug)]
pub struct AbcdVar {
    pub a_lo: SpreadVar,
    pub a_hi: SpreadVar,
    pub b_lo: SpreadVar,
    pub b_hi: SpreadVar,
    pub c_lo: SpreadVar,
    pub c_hi: SpreadVar,
    pub d_lo: SpreadVar,
    pub d_hi: SpreadVar,
}

impl AbcdVar {
    /// Bit positions of `a_lo` within the word.
    pub fn a_lo_range() -> (r: std::ops::Range<usize>)
        ensures
            r.start == 0,
            r.end == 14,
    {
        0..14
    }

    /// Bit positions of `a_hi` within the word.
    pub fn a_hi_range() -> (r: std::ops::Range<usize>)
        ensures
            r.start == 14,
            r.end == 28,
    {
        14..28
    }

    /// Bit positions of `b_lo` within the word.
    pub fn b_lo_range() -> (r: std::ops::Range<usize>)
        ensures
            r.start == 28,
            r.end == 31,
    {
        28..31
    }

    /// Bit positions of `b_hi` within the word.
    pub fn b_hi_range() -> (r: std::ops::Range<usize>)
        ensures
            r.start == 31,
            r.end == 34,
    {
        31..34
    }

    /// Bit positions of `c_lo` within the word.
    pub fn c_lo_range() -> (r: std::ops::Range<usize>)
        ensures
            r.start == 34,
            r.end == 36,
    {
        34..36
    }

    /// Bit positions of `c_hi` within the word.
    pub fn c_hi_range() -> (r: std::ops::Range<usize>)
        ensures
            r.start == 36,
            r.end == 39,
    {
        36..39
    }

    /// Bit positions of `d_lo` within the word.
    pub fn d_lo_range() -> (r: std::ops::Range<usize>)
        ensures
            r.start == 39,
            r.end == 53,
    {
        39..53
    }

    /// Bit positions of `d_hi` within the word.
    pub fn d_hi_range() -> (r: std::ops::Range<usize>)
        ensures
            r.start == 53,
            r.end == 64,
    {
        53..64
    }

    /// Every piece passes its own check: a lookup whose tag bounds the
    /// width for wide pieces, a direct range and spread check for narrow ones.
    pub open spec fn checked(&self) -> bool {
        &&& self.a_lo.table_checked(4)
        &&& self.a_hi.table_checked(4)
        &&& self.b_lo.narrow_checked(3)
        &&& self.b_hi.narrow_checked(3)
        &&& self.c_lo.narrow_checked(2)
        &&& self.c_hi.narrow_checked(3)
        &&& self.d_lo.table_checked(4)
        &&& self.d_hi.table_checked(2)
    }

    /// Every piece holds a value of its width and that value's spread form.
    pub open spec fn valid(&self) -> bool {
        &&& self.a_lo.valid(14)
        &&& self.a_hi.valid(14)
        &&& self.b_lo.valid(3)
        &&& self.b_hi.valid(3)
        &&& self.c_lo.valid(2)
        &&& self.c_hi.valid(3)
        &&& self.d_lo.valid(14)
        &&& self.d_hi.valid(11)
    }

    /// The word the pieces stand for: their dense values at their offsets.
    pub open spec fn dense_word(&self) -> nat {
        (self.a_lo.dense
            + self.a_hi.dense * 0x4000
            + self.b_lo.dense * 0x1000_0000
            + self.b_hi.dense * 0x8000_0000
            + self.c_lo.dense * 0x4_0000_0000
            + self.c_hi.dense * 0x10_0000_0000
            + self.d_lo.dense * 0x80_0000_0000
            + self.d_hi.dense * 0x20_0000_0000_0000) as nat
    }

    /// The spread form the pieces stand for: their spread values at twice their offsets.
    pub open spec fn spread_word(&self) -> nat {
        (self.a_lo.spread
            + self.a_hi.spread * 0x1000_0000
            + self.b_lo.spread * 0x100_0000_0000_0000
            + self.b_hi.spread * 0x4000_0000_0000_0000
            + self.c_lo.spread * 0x10_0000_0000_0000_0000
            + self.c_hi.spread * 0x100_0000_0000_0000_0000
            + self.d_lo.spread * 0x4000_0000_0000_0000_0000
            + self.d_hi.spread * 0x400_0000_0000_0000_0000_0000_0000) as nat
    }

    /// The pieces' bits, least significant first.
    pub open spec fn bits(&self) -> Seq<bool> {
        bits_of(self.a_lo.dense as nat, 14)
            + bits_of(self.a_hi.dense as nat, 14)
            + bits_of(self.b_lo.dense as nat, 3)
            + bits_of(self.b_hi.dense as nat, 3)
            + bits_of(self.c_lo.dense as nat, 2)
            + bits_of(self.c_hi.dense as nat, 3)
            + bits_of(self.d_lo.dense as nat, 14)
            + bits_of(self.d_hi.dense as nat, 11)
    }

    /// The spread form of the `a` part, made of its pieces.
    pub open spec fn spread_a_value(&self) -> nat {
        (self.a_lo.spread + self.a_hi.spread * 0x1000_0000) as nat
    }

    /// The spread form of the `b` part, made of its pieces.
    pub open spec fn spread_b_value(&self) -> nat {
        (self.b_lo.spread + self.b_hi.spread * 0x40) as nat
    }

    /// The spread form of the `c` part, made of its pieces.
    pub open spec fn spread_c_value(&self) -> nat {
        (self.c_lo.spread + self.c_hi.spread * 0x10) as nat
    }

    /// The spread form of the `d` part, made of its pieces.
    pub open spec fn spread_d_value(&self) -> nat {
        (self.d_lo.spread + self.d_hi.spread * 0x1000_0000) as nat
    }

    /// The sum of the spread forms of the three rotations that make up `Σ0`,
    /// each written as the parts in rotated order.
    pub open spec fn xor_sum(&self) -> nat {
        (self.spread_b_value() + self.spread_c_value() * 0x1000 + self.spread_d_value() * 0x40_0000
            + self.spread_a_value() * 0x100_0000_0000_0000_0000)
            + (self.spread_c_value() + self.spread_d_value() * 0x400
                + self.spread_a_value() * 0x1000_0000_0000_0000
                + self.spread_b_value() * 0x10_0000_0000_0000_0000_0000_0000_0000)
            + (self.spread_d_value() + self.spread_a_value() * 0x4_0000_0000_0000
                + self.spread_b_value() * 0x400_0000_0000_0000_0000_0000_0000
                + self.spread_c_value() * 0x40_0000_0000_0000_0000_0000_0000_0000)
    }

    /// Splits a word into its pieces, each with its spread form and lookup tag.
    pub fn decompose(x: u64) -> (r: Self)
        ensures
            r.checked(),
            r.valid(),
            r.dense_word() == x,
            r.spread_word() == spread(x as nat, 64),
    {
        let a_lo = SpreadVar::from_piece(x, 0, 14);
        let a_hi = SpreadVar::from_piece(x, 14, 14);
        let b_lo = SpreadVar::from_piece(x, 28, 3);
        let b_hi = SpreadVar::from_piece(x, 31, 3);
        let c_lo = SpreadVar::from_piece(x, 34, 2);
        let c_hi = SpreadVar::from_piece(x, 36, 3);
        let d_lo = SpreadVar::from_piece(x, 39, 14);
        let d_hi = SpreadVar::from_piece(x, 53, 11);
        let r = AbcdVar { a_lo, a_hi, b_lo, b_hi, c_lo, c_hi, d_lo, d_hi };
        proof {
            lemma_pow2_values();
            assert(x == ((x >> 0u64) % 0x4000) + ((x >> 14u64) % 0x4000) * 0x4000
                + ((x >> 28u64) % 0x8) * 0x1000_0000 + ((x >> 31u64) % 0x8) * 0x8000_0000
                + ((x >> 34u64) % 0x4) * 0x4_0000_0000 + ((x >> 36u64) % 0x8) * 0x10_0000_0000
                + ((x >> 39u64) % 0x4000) * 0x80_0000_0000
                + ((x >> 53u64) % 0x800) * 0x20_0000_0000_0000) by (bit_vector);
            lemma_u64_shr_is_div(x, 0);
            r.a_lo.lemma_checked_valid(14);
            lemma_u64_shr_is_div(x, 14);
            r.a_hi.lemma_checked_valid(14);
            lemma_u64_shr_is_div(x, 28);
            r.b_lo.lemma_checked_valid(3);
            lemma_u64_shr_is_div(x, 31);
            r.b_hi.lemma_checked_valid(3);
            lemma_u64_shr_is_div(x, 34);
            r.c_lo.lemma_checked_valid(2);
            lemma_u64_shr_is_div(x, 36);
            r.c_hi.lemma_checked_valid(3);
            lemma_u64_shr_is_div(x, 39);
            r.d_lo.lemma_checked_valid(14);
            lemma_u64_shr_is_div(x, 53);
            r.d_hi.lemma_checked_valid(11);
            lemma_abcd_pieces(r);
        }
        r
    }

    /// Whether every piece passes its own check (see `checked`).
    pub fn is_checked(&self) -> (r: bool)
        ensures
            r == self.checked(),
    {
        self.a_lo.check_table(4)
            && self.a_hi.check_table(4)
            && self.b_lo.check_valid(3)
            && self.b_hi.check_valid(3)
            && self.c_lo.check_valid(2)
            && self.c_hi.check_valid(3)
            && self.d_lo.check_table(4)
            && self.d_hi.check_table(2)
    }

    /// Whether every piece holds a value of its width and its spread form.
    pub fn is_valid(&self) -> (r: bool)
        ensures
            r == self.valid(),
    {
        self.a_lo.check_valid(14)
            && self.a_hi.check_valid(14)
            && self.b_lo.check_valid(3)
            && self.b_hi.check_valid(3)
            && self.c_lo.check_valid(2)
            && self.c_hi.check_valid(3)
            && self.d_lo.check_valid(14)
            && self.d_hi.check_valid(11)
    }

    /// Pieces that pass their checks are valid.
    pub proof fn lemma_checked_valid(&self)
        requires
            self.checked(),
        ensures
            self.valid(),
    {
        self.a_lo.lemma_checked_valid(14);
        self.a_hi.lemma_checked_valid(14);
        self.b_lo.lemma_checked_valid(3);
        self.b_hi.lemma_checked_valid(3);
        self.c_lo.lemma_checked_valid(2);
        self.c_hi.lemma_checked_valid(3);
        self.d_lo.lemma_checked_valid(14);
        self.d_hi.lemma_checked_valid(11);
    }

    /// The bits of `val` cut at the piece boundaries, least significant first.
    pub fn pieces(val: u64) -> (r: Vec<Vec<bool>>)
        ensures
            r@.len() == 8,
            r@[0]@ == word_bits(val).subrange(0, 14),
            r@[1]@ == word_bits(val).subrange(14, 28),
            r@[2]@ == word_bits(val).subrange(28, 31),
            r@[3]@ == word_bits(val).subrange(31, 34),
            r@[4]@ == word_bits(val).subrange(34, 36),
            r@[5]@ == word_bits(val).subrange(36, 39),
            r@[6]@ == word_bits(val).subrange(39, 53),
            r@[7]@ == word_bits(val).subrange(53, 64),
    {
        let bits = word_bits_exec(val);
        proof {
            lemma_bits_of_len(val as nat, 64);
        }
        let mut r: Vec<Vec<bool>> = Vec::new();
        r.push(bit_range(&bits, Self::a_lo_range()));
        r.push(bit_range(&bits, Self::a_hi_range()));
        r.push(bit_range(&bits, Self::b_lo_range()));
        r.push(bit_range(&bits, Self::b_hi_range()));
        r.push(bit_range(&bits, Self::c_lo_range()));
        r.push(bit_range(&bits, Self::c_hi_range()));
        r.push(bit_range(&bits, Self::d_lo_range()));
        r.push(bit_range(&bits, Self::d_hi_range()));
        r
    }
}

impl UpperSigmaVar for AbcdVar {
    open spec fn pieces_valid(&self) -> bool {
        self.valid()
    }

    /// The spread form of the `a` part.
    fn spread_a(&self) -> (r: u64)
        ensures
            r == self.spread_a_value(),
    {
        proof {
            lemma_pow2_values();
            self.a_lo.lemma_spread_bound(14);
            self.a_hi.lemma_spread_bound(14);
        }
        self.a_lo.spread + self.a_hi.spread * 0x1000_0000
    }

    /// The spread form of the `b` part.
    fn spread_b(&self) -> (r: u64)
        ensures
            r == self.spread_b_value(),
    {
        proof {
            lemma_pow2_values();
            self.b_lo.lemma_spread_bound(3);
            self.b_hi.lemma_spread_bound(3);
        }
        self.b_lo.spread + self.b_hi.spread * 0x40
    }

    /// The spread form of the `c` part.
    fn spread_c(&self) -> (r: u64)
        ensures
            r == self.spread_c_value(),
    {
        proof {
            lemma_pow2_values();
            self.c_lo.lemma_spread_bound(2);
            self.c_hi.lemma_spread_bound(3);
        }
        self.c_lo.spread + self.c_hi.spread * 0x10
    }

    /// The spread form of the `d` part.
    fn spread_d(&self) -> (r: u64)
        ensures
            r == self.spread_d_value(),
    {
        proof {
            lemma_pow2_values();
            self.d_lo.lemma_spread_bound(14);
            self.d_hi.lemma_spread_bound(11);
        }
        self.d_lo.spread + self.d_hi.spread * 0x1000_0000
    }

    /// The sum of the spread forms of the three rotations in `Σ0`. Each
    /// position of the sum holds a digit in `0..4`: its low bit is the bit of
    /// `Σ0`, its high bit a carry to discard.
    fn xor_upper_sigma(&self) -> (r: u128)
        ensures
            r == self.xor_sum(),
    {
        let sa = self.spread_a() as u128;
        let sb = self.spread_b() as u128;
        let sc = self.spread_c() as u128;
        let sd = self.spread_d() as u128;
        proof {
            lemma_pow2_values();
            lemma_abcd_pieces(*self);
            let x = self.dense_word() as u64;
            lemma_bits_of_len(x as nat, 64);
            lemma_spread_value_bound(rotr_bits(word_bits(x), 28));
            lemma_bits_of_len(x as nat, 64);
            lemma_spread_value_bound(rotr_bits(word_bits(x), 34));
            lemma_bits_of_len(x as nat, 64);
            lemma_spread_value_bound(rotr_bits(word_bits(x), 39));
        }
        let xor_0: u128 = sb + sc * 0x1000 + sd * 0x40_0000 + sa * 0x100_0000_0000_0000_0000;
        let xor_1: u128 = sc + sd * 0x400 + sa * 0x1000_0000_0000_0000
            + sb * 0x10_0000_0000_0000_0000_0000_0000_0000;
        let xor_2: u128 = sd + sa * 0x4_0000_0000_0000 + sb * 0x400_0000_0000_0000_0000_0000_0000
            + sc * 0x40_0000_0000_0000_0000_0000_0000_0000;
        xor_0 + xor_1 + xor_2
    }

}

/// A word of the `E, F, G, H` kind cut into pieces of (14, 2, 2, 13, 10, 13, 10)
/// bits, least significant first: the parts `a, b, c, d` of (14, 4, 23, 23) bits that
/// `Σ1` rotates, each split further so that every piece fits a lookup or a
/// direct check.
#[derive(Clone, Copy, Debug)]
pub struct EfghVar {
    pub a: SpreadVar,
    pub b_lo: SpreadVar,
    pub b_hi: SpreadVar,
    pub c_lo: SpreadVar,
    pub c_hi: SpreadVar,
    pub d_lo: SpreadVar,
    pub d_hi: SpreadVar,
}

impl EfghVar {
    /// Bit positions of `a` within the word.
    pub fn a_range() -> (r: std::ops::Range<usize>)
        ensures
            r.start == 0,
            r.end == 14,
    {
        0..14
    }

    /// Bit positions of `b_lo` within the word.
    pub fn b_lo_range() -> (r: std::ops::Range<usize>)
        ensures
            r.start == 14,
            r.end == 16,
    {
        14..16
    }

    /// Bit positions of `b_hi` within the word.
    pub fn b_hi_range() -> (r: std::ops::Range<usize>)
        ensures
            r.start == 16,
            r.end == 18,
    {
        16..18
    }

    /// Bit positions of `c_lo` within the word.
    pub fn c_lo_range() -> (r: std::ops::Range<usize>)
        ensures
            r.start == 18,
            r.end == 31,
    {
        18..31
    }

    /// Bit positions of `c_hi` within the word.
    pub fn c_hi_range() -> (r: std::ops::Range<usize>)
        ensures
            r.start == 31,
            r.end == 41,
    {
        31..41
    }

    /// Bit positions of `d_lo` within the word.
    pub fn d_lo_range() -> (r: std::ops::Range<usize>)
        ensures
            r.start == 41,
            r.end == 54,
    {
        41..54
    }

    /// Bit positions of `d_hi` within the word.
    pub fn d_hi_range() -> (r: std::ops::Range<usize>)
        ensures
            r.start == 54,
            r.end == 64,
    {
        54..64
    }

    /// Every piece passes its own check: a lookup whose tag bounds the
    /// width for wide pieces, a direct range and spread check for narrow ones.
    pub open spec fn checked(&self) -> bool {
        &&& self.a.table_checked(4)
        &&& self.b_lo.narrow_checked(2)
        &&& self.b_hi.narrow_checked(2)
        &&& self.c_lo.table_checked(3)
        &&& self.c_hi.table_checked(1)
        &&& self.d_lo.table_checked(3)
        &&& self.d_hi.table_checked(1)
    }

    /// Every piece holds a value of its width and that value's spread form.
    pub open spec fn valid(&self) -> bool {
        &&& self.a.valid(14)
        &&& self.b_lo.valid(2)
        &&& self.b_hi.valid(2)
        &&& self.c_lo.valid(13)
        &&& self.c_hi.valid(10)
        &&& self.d_lo.valid(13)
        &&& self.d_hi.valid(10)
    }

    /// The word the pieces stand for: their dense values at their offsets.
    pub open spec fn dense_word(&self) -> nat {
        (self.a.dense
            + self.b_lo.dense * 0x4000
            + self.b_hi.dense * 0x1_0000
            + self.c_lo.dense * 0x4_0000
            + self.c_hi.dense * 0x8000_0000
            + self.d_lo.dense * 0x200_0000_0000
            + self.d_hi.dense * 0x40_0000_0000_0000) as nat
    }

    /// The spread form the pieces stand for: their spread values at twice their offsets.
    pub open spec fn spread_word(&self) -> nat {
        (self.a.spread
            + self.b_lo.spread * 0x1000_0000
            + self.b_hi.spread * 0x1_0000_0000
            + self.c_lo.spread * 0x10_0000_0000
            + self.c_hi.spread * 0x4000_0000_0000_0000
            + self.d_lo.spread * 0x4_0000_0000_0000_0000_0000
            + self.d_hi.spread * 0x1000_0000_0000_0000_0000_0000_0000) as nat
    }

    /// The pieces' bits, least significant first.
    pub open spec fn bits(&self) -> Seq<bool> {
        bits_of(self.a.dense as nat, 14)
            + bits_of(self.b_lo.dense as nat, 2)
            + bits_of(self.b_hi.dense as nat, 2)
            + bits_of(self.c_lo.dense as nat, 13)
            + bits_of(self.c_hi.dense as nat, 10)
            + bits_of(self.d_lo.dense as nat, 13)
            + bits_of(self.d_hi.dense as nat, 10)
    }

    /// The spread form of the `a` part, made of its pieces.
    pub open spec fn spread_a_value(&self) -> nat {
        (self.a.spread) as nat
    }

    /// The spread form of the `b` part, made of its pieces.
    pub open spec fn spread_b_value(&self) -> nat {
        (self.b_lo.spread + self.b_hi.spread * 0x10) as nat
    }

    /// The spread form of the `c` part, made of its pieces.
    pub open spec fn spread_c_value(&self) -> nat {
        (self.c_lo.spread + self.c_hi.spread * 0x400_0000) as nat
    }

    /// The spread form of the `d` part, made of its pieces.
    pub open spec fn spread_d_value(&self) -> nat {
        (self.d_lo.spread + self.d_hi.spread * 0x400_0000) as nat
    }

    /// The sum of the spread forms of the three rotations that make up `Σ1`,
    /// each written as the parts in rotated order.
    pub open spec fn xor_sum(&self) -> nat {
        (self.spread_b_value() + self.spread_c_value() * 0x100
            + self.spread_d_value() * 0x40_0000_0000_0000
            + self.spread_a_value() * 0x10_0000_0000_0000_0000_0000_0000)
            + (self.spread_c_value() + self.spread_d_value() * 0x4000_0000_0000
                + self.spread_a_value() * 0x1000_0000_0000_0000_0000_0000
                + self.spread_b_value() * 0x100_0000_0000_0000_0000_0000_0000_0000)
            + (self.spread_d_value() + self.spread_a_value() * 0x4000_0000_0000
                + self.spread_b_value() * 0x400_0000_0000_0000_0000
                + self.spread_c_value() * 0x4_0000_0000_0000_0000_0000)
    }

    /// Splits a word into its pieces, each with its spread form and lookup tag.
    pub fn decompose(x: u64) -> (r: Self)
        ensures
            r.checked(),
            r.valid(),
            r.dense_word() == x,
            r.spread_word() == spread(x as nat, 64),
    {
        let a = SpreadVar::from_piece(x, 0, 14);
        let b_lo = SpreadVar::from_piece(x, 14, 2);
        let b_hi = SpreadVar::from_piece(x, 16, 2);
        let c_lo = SpreadVar::from_piece(x, 18, 13);
        let c_hi = SpreadVar::from_piece(x, 31, 10);
        let d_lo = SpreadVar::from_piece(x, 41, 13);
        let d_hi = SpreadVar::from_piece(x, 54, 10);
        let r = EfghVar { a, b_lo, b_hi, c_lo, c_hi, d_lo, d_hi };
        proof {
            lemma_pow2_values();
            assert(x == ((x >> 0u64) % 0x4000) + ((x >> 14u64) % 0x4) * 0x4000
                + ((x >> 16u64) % 0x4) * 0x1_0000 + ((x >> 18u64) % 0x2000) * 0x4_0000
                + ((x >> 31u64) % 0x400) * 0x8000_0000 + ((x >> 41u64) % 0x2000) * 0x200_0000_0000
                + ((x >> 54u64) % 0x400) * 0x40_0000_0000_0000) by (bit_vector);
            lemma_u64_shr_is_div(x, 0);
            r.a.lemma_checked_valid(14);
            lemma_u64_shr_is_div(x, 14);
            r.b_lo.lemma_checked_valid(2);
            lemma_u64_shr_is_div(x, 16);
            r.b_hi.lemma_checked_valid(2);
            lemma_u64_shr_is_div(x, 18);
            r.c_lo.lemma_checked_valid(13);
            lemma_u64_shr_is_div(x, 31);
            r.c_hi.lemma_checked_valid(10);
            lemma_u64_shr_is_div(x, 41);
            r.d_lo.lemma_checked_valid(13);
            lemma_u64_shr_is_div(x, 54);
            r.d_hi.lemma_checked_valid(10);
            lemma_efgh_pieces(r);
        }
        r
    }

    /// Whether every piece passes its own check (see `checked`).
    pub fn is_checked(&self) -> (r: bool)
        ensures
            r == self.checked(),
    {
        self.a.check_table(4)
            && self.b_lo.check_valid(2)
            && self.b_hi.check_valid(2)
            && self.c_lo.check_table(3)
            && self.c_hi.check_table(1)
            && self.d_lo.check_table(3)
            && self.d_hi.check_table(1)
    }

    /// Whether every piece holds a value of its width and its spread form.
    pub fn is_valid(&self) -> (r: bool)
        ensures
            r == self.valid(),
    {
        self.a.check_valid(14)
            && self.b_lo.check_valid(2)
            && self.b_hi.check_valid(2)
            && self.c_lo.check_valid(13)
            && self.c_hi.check_valid(10)
            && self.d_lo.check_valid(13)
            && self.d_hi.check_valid(10)
    }

    /// Pieces that pass their checks are valid.
    pub proof fn lemma_checked_valid(&self)
        requires
            self.checked(),
        ensures
            self.valid(),
    {
        self.a.lemma_checked_valid(14);
        self.b_lo.lemma_checked_valid(2);
        self.b_hi.lemma_checked_valid(2);
        self.c_lo.lemma_checked_valid(13);
        self.c_hi.lemma_checked_valid(10);
        self.d_lo.lemma_checked_valid(13);
        self.d_hi.lemma_checked_valid(10);
    }

    /// The bits of `val` cut at the piece boundaries, least significant first.
    pub fn pieces(val: u64) -> (r: Vec<Vec<bool>>)
        ensures
            r@.len() == 7,
            r@[0]@ == word_bits(val).subrange(0, 14),
            r@[1]@ == word_bits(val).subrange(14, 16),
            r@[2]@ == word_bits(val).subrange(16, 18),
            r@[3]@ == word_bits(val).subrange(18, 31),
            r@[4]@ == word_bits(val).subrange(31, 41),
            r@[5]@ == word_bits(val).subrange(41, 54),
            r@[6]@ == word_bits(val).subrange(54, 64),
    {
        let bits = word_bits_exec(val);
        proof {
            lemma_bits_of_len(val as nat, 64);
        }
        let mut r: Vec<Vec<bool>> = Vec::new();
        r.push(bit_range(&bits, Self::a_range()));
        r.push(bit_range(&bits, Self::b_lo_range()));
        r.push(bit_range(&bits, Self::b_hi_range()));
        r.push(bit_range(&bits, Self::c_lo_range()));
        r.push(bit_range(&bits, Self::c_hi_range()));
        r.push(bit_range(&bits, Self::d_lo_range()));
        r.push(bit_range(&bits, Self::d_hi_range()));
        r
    }
}

impl UpperSigmaVar for EfghVar {
    open spec fn pieces_valid(&self) -> bool {
        self.valid()
    }

    /// The spread form of the `a` part.
    fn spread_a(&self) -> (r: u64)
        ensures
            r == self.spread_a_value(),
    {
        proof {
            lemma_pow2_values();
            self.a.lemma_spread_bound(14);
        }
        self.a.spread
    }

    /// The spread form of the `b` part.
    fn spread_b(&self) -> (r: u64)
        ensures
            r == self.spread_b_value(),
    {
        proof {
            lemma_pow2_values();
            self.b_lo.lemma_spread_bound(2);
            self.b_hi.lemma_spread_bound(2);
        }
        self.b_lo.spread + self.b_hi.spread * 0x10
    }

    /// The spread form of the `c` part.
    fn spread_c(&self) -> (r: u64)
        ensures
            r == self.spread_c_value(),
    {
        proof {
            lemma_pow2_values();
            self.c_lo.lemma_spread_bound(13);
            self.c_hi.lemma_spread_bound(10);
        }
        self.c_lo.spread + self.c_hi.spread * 0x400_0000
    }

    /// The spread form of the `d` part.
    fn spread_d(&self) -> (r: u64)
        ensures
            r == self.spread_d_value(),
    {
        proof {
            lemma_pow2_values();
            self.d_lo.lemma_spread_bound(13);
            self.d_hi.lemma_spread_bound(10);
        }
        self.d_lo.spread + self.d_hi.spread * 0x400_0000
    }

    /// The sum of the spread forms of the three rotations in `Σ1`. Each
    /// position of the sum holds a digit in `0..4`: its low bit is the bit of
    /// `Σ1`, its high bit a carry to discard.
    fn xor_upper_sigma(&self) -> (r: u128)
        ensures
            r == self.xor_sum(),
    {
        let sa = self.spread_a() as u128;
        let sb = self.spread_b() as u128;
        let sc = self.spread_c() as u128;
        let sd = self.spread_d() as u128;
        proof {
            lemma_pow2_values();
            lemma_efgh_pieces(*self);
            let x = self.dense_word() as u64;
            lemma_bits_of_len(x as nat, 64);
            lemma_spread_value_bound(rotr_bits(word_bits(x), 14));
            lemma_bits_of_len(x as nat, 64);
            lemma_spread_value_bound(rotr_bits(word_bits(x), 18));
            lemma_bits_of_len(x as nat, 64);
            lemma_spread_value_bound(rotr_bits(word_bits(x), 41));
        }
        let xor_0: u128 = sb + sc * 0x100 + sd * 0x40_0000_0000_0000
            + sa * 0x10_0000_0000_0000_0000_0000_0000;
        let xor_1: u128 = sc + sd * 0x4000_0000_0000 + sa * 0x1000_0000_0000_0000_0000_0000
            + sb * 0x100_0000_0000_0000_0000_0000_0000_0000;
        let xor_2: u128 = sd + sa * 0x4000_0000_0000 + sb * 0x400_0000_0000_0000_0000
            + sc * 0x4_0000_0000_0000_0000_0000;
        xor_0 + xor_1 + xor_2
    }

}

/// For valid pieces: the pieces' bits are the bits of the word they stand
/// for, and their spread sum is that word's spread form.
pub proof fn lemma_abcd_bits(v: AbcdVar)
    requires
        v.valid(),
    ensures
        v.dense_word() < 0x1_0000_0000_0000_0000,
        v.bits() == word_bits(v.dense_word() as u64),
        v.spread_word() == spread(v.dense_word(), 64),
{
    lemma_pow2_values();
    let p0 = bits_of(v.a_lo.dense as nat, 14);
    lemma_bits_of_len(v.a_lo.dense as nat, 14);
    let p1 = bits_of(v.a_hi.dense as nat, 14);
    lemma_bits_of_len(v.a_hi.dense as nat, 14);
    let p2 = bits_of(v.b_lo.dense as nat, 3);
    lemma_bits_of_len(v.b_lo.dense as nat, 3);
    let p3 = bits_of(v.b_hi.dense as nat, 3);
    lemma_bits_of_len(v.b_hi.dense as nat, 3);
    let p4 = bits_of(v.c_lo.dense as nat, 2);
    lemma_bits_of_len(v.c_lo.dense as nat, 2);
    let p5 = bits_of(v.c_hi.dense as nat, 3);
    lemma_bits_of_len(v.c_hi.dense as nat, 3);
    let p6 = bits_of(v.d_lo.dense as nat, 14);
    lemma_bits_of_len(v.d_lo.dense as nat, 14);
    let p7 = bits_of(v.d_hi.dense as nat, 11);
    lemma_bits_of_len(v.d_hi.dense as nat, 11);
    lemma_dense_bits_of(v.a_lo.dense as nat, 14);
    vstd::arithmetic::div_mod::lemma_small_mod(v.a_lo.dense as nat, pow2(14));
    lemma_dense_bits_of(v.a_hi.dense as nat, 14);
    vstd::arithmetic::div_mod::lemma_small_mod(v.a_hi.dense as nat, pow2(14));
    lemma_dense_bits_of(v.b_lo.dense as nat, 3);
    vstd::arithmetic::div_mod::lemma_small_mod(v.b_lo.dense as nat, pow2(3));
    lemma_dense_bits_of(v.b_hi.dense as nat, 3);
    vstd::arithmetic::div_mod::lemma_small_mod(v.b_hi.dense as nat, pow2(3));
    lemma_dense_bits_of(v.c_lo.dense as nat, 2);
    vstd::arithmetic::div_mod::lemma_small_mod(v.c_lo.dense as nat, pow2(2));
    lemma_dense_bits_of(v.c_hi.dense as nat, 3);
    vstd::arithmetic::div_mod::lemma_small_mod(v.c_hi.dense as nat, pow2(3));
    lemma_dense_bits_of(v.d_lo.dense as nat, 14);
    vstd::arithmetic::div_mod::lemma_small_mod(v.d_lo.dense as nat, pow2(14));
    lemma_dense_bits_of(v.d_hi.dense as nat, 11);
    vstd::arithmetic::div_mod::lemma_small_mod(v.d_hi.dense as nat, pow2(11));
    lemma_dense_concat(p0, p1);
    lemma_spread_concat(p0, p1);
    let s1 = p0 + p1;
    assert(p0.len() == 14);
    assert(dense_value(s1) == dense_value(p0) + 0x4000 * dense_value(p1));
    assert(spread_value(s1) == spread_value(p0) + 0x1000_0000 * spread_value(p1));
    lemma_dense_concat(s1, p2);
    lemma_spread_concat(s1, p2);
    let s2 = s1 + p2;
    assert(s1.len() == 28);
    assert(dense_value(s2) == dense_value(s1) + 0x1000_0000 * dense_value(p2));
    assert(spread_value(s2) == spread_value(s1) + 0x100_0000_0000_0000 * spread_value(p2));
    lemma_dense_concat(s2, p3);
    lemma_spread_concat(s2, p3);
    let s3 = s2 + p3;
    assert(s2.len() == 31);
    assert(dense_value(s3) == dense_value(s2) + 0x8000_0000 * dense_value(p3));
    assert(spread_value(s3) == spread_value(s2) + 0x4000_0000_0000_0000 * spread_value(p3));
    lemma_dense_concat(s3, p4);
    lemma_spread_concat(s3, p4);
    let s4 = s3 + p4;
    assert(s3.len() == 34);
    assert(dense_value(s4) == dense_value(s3) + 0x4_0000_0000 * dense_value(p4));
    assert(spread_value(s4) == spread_value(s3) + 0x10_0000_0000_0000_0000 * spread_value(p4));
    lemma_dense_concat(s4, p5);
    lemma_spread_concat(s4, p5);
    let s5 = s4 + p5;
    assert(s4.len() == 36);
    assert(dense_value(s5) == dense_value(s4) + 0x10_0000_0000 * dense_value(p5));
    assert(spread_value(s5) == spread_value(s4) + 0x100_0000_0000_0000_0000 * spread_value(p5));
    lemma_dense_concat(s5, p6);
    lemma_spread_concat(s5, p6);
    let s6 = s5 + p6;
    assert(s5.len() == 39);
    assert(dense_value(s6) == dense_value(s5) + 0x80_0000_0000 * dense_value(p6));
    assert(spread_value(s6) == spread_value(s5) + 0x4000_0000_0000_0000_0000 * spread_value(p6));
    lemma_dense_concat(s6, p7);
    lemma_spread_concat(s6, p7);
    let s7 = s6 + p7;
    assert(s6.len() == 53);
    assert(dense_value(s7) == dense_value(s6) + 0x20_0000_0000_0000 * dense_value(p7));
    assert(spread_value(s7) == spread_value(s6)
        + 0x400_0000_0000_0000_0000_0000_0000 * spread_value(p7));
    assert(v.bits() == s7);
    assert(dense_value(s7) == v.dense_word());
    lemma_dense_value_bound(s7);
    lemma_bits_of_dense(s7);
    assert(spread_value(s7) == v.spread_word());
}

/// For valid pieces, the parts in the order of a rotation by 28 make up
/// the spread form of the rotated bits.
pub proof fn lemma_abcd_rotr_28(v: AbcdVar)
    requires
        v.valid(),
    ensures
        spread_value(rotr_bits(v.bits(), 28)) == v.spread_b_value() + v.spread_c_value() * 0x1000
            + v.spread_d_value() * 0x40_0000 + v.spread_a_value() * 0x100_0000_0000_0000_0000,
{
    lemma_pow2_values();
    let p0 = bits_of(v.a_lo.dense as nat, 14);
    lemma_bits_of_len(v.a_lo.dense as nat, 14);
    let p1 = bits_of(v.a_hi.dense as nat, 14);
    lemma_bits_of_len(v.a_hi.dense as nat, 14);
    let p2 = bits_of(v.b_lo.dense as nat, 3);
    lemma_bits_of_len(v.b_lo.dense as nat, 3);
    let p3 = bits_of(v.b_hi.dense as nat, 3);
    lemma_bits_of_len(v.b_hi.dense as nat, 3);
    let p4 = bits_of(v.c_lo.dense as nat, 2);
    lemma_bits_of_len(v.c_lo.dense as nat, 2);
    let p5 = bits_of(v.c_hi.dense as nat, 3);
    lemma_bits_of_len(v.c_hi.dense as nat, 3);
    let p6 = bits_of(v.d_lo.dense as nat, 14);
    lemma_bits_of_len(v.d_lo.dense as nat, 14);
    let p7 = bits_of(v.d_hi.dense as nat, 11);
    lemma_bits_of_len(v.d_hi.dense as nat, 11);
    v.a_lo.lemma_spread_bound(14);
    v.a_hi.lemma_spread_bound(14);
    v.b_lo.lemma_spread_bound(3);
    v.b_hi.lemma_spread_bound(3);
    v.c_lo.lemma_spread_bound(2);
    v.c_hi.lemma_spread_bound(3);
    v.d_lo.lemma_spread_bound(14);
    v.d_hi.lemma_spread_bound(11);
    lemma_spread_concat(p2, p3);
    let r1 = p2 + p3;
    assert(p2.len() == 3);
    assert(spread_value(r1) == spread_value(p2) + 0x40 * spread_value(p3));
    lemma_spread_concat(r1, p4);
    let r2 = r1 + p4;
    assert(r1.len() == 6);
    assert(spread_value(r2) == spread_value(r1) + 0x1000 * spread_value(p4));
    lemma_spread_concat(r2, p5);
    let r3 = r2 + p5;
    assert(r2.len() == 8);
    assert(spread_value(r3) == spread_value(r2) + 0x1_0000 * spread_value(p5));
    lemma_spread_concat(r3, p6);
    let r4 = r3 + p6;
    assert(r3.len() == 11);
    assert(spread_value(r4) == spread_value(r3) + 0x40_0000 * spread_value(p6));
    lemma_spread_concat(r4, p7);
    let r5 = r4 + p7;
    assert(r4.len() == 25);
    assert(spread_value(r5) == spread_value(r4) + 0x4_0000_0000_0000 * spread_value(p7));
    lemma_spread_concat(r5, p0);
    let r6 = r5 + p0;
    assert(r5.len() == 36);
    assert(spread_value(r6) == spread_value(r5) + 0x100_0000_0000_0000_0000 * spread_value(p0));
    lemma_spread_concat(r6, p1);
    let r7 = r6 + p1;
    assert(r6.len() == 50);
    assert(spread_value(r7) == spread_value(r6)
        + 0x10_0000_0000_0000_0000_0000_0000 * spread_value(p1));
    assert(rotr_bits(v.bits(), 28) =~= r7);
}

/// For valid pieces, the parts in the order of a rotation by 34 make up
/// the spread form of the rotated bits.
pub proof fn lemma_abcd_rotr_34(v: AbcdVar)
    requires
        v.valid(),
    ensures
        spread_value(rotr_bits(v.bits(), 34)) == v.spread_c_value() + v.spread_d_value() * 0x400
            + v.spread_a_value() * 0x1000_0000_0000_0000
            + v.spread_b_value() * 0x10_0000_0000_0000_0000_0000_0000_0000,
{
    lemma_pow2_values();
    let p0 = bits_of(v.a_lo.dense as nat, 14);
    lemma_bits_of_len(v.a_lo.dense as nat, 14);
    let p1 = bits_of(v.a_hi.dense as nat, 14);
    lemma_bits_of_len(v.a_hi.dense as nat, 14);
    let p2 = bits_of(v.b_lo.dense as nat, 3);
    lemma_bits_of_len(v.b_lo.dense as nat, 3);
    let p3 = bits_of(v.b_hi.dense as nat, 3);
    lemma_bits_of_len(v.b_hi.dense as nat, 3);
    let p4 = bits_of(v.c_lo.dense as nat, 2);
    lemma_bits_of_len(v.c_lo.dense as nat, 2);
    let p5 = bits_of(v.c_hi.dense as nat, 3);
    lemma_bits_of_len(v.c_hi.dense as nat, 3);
    let p6 = bits_of(v.d_lo.dense as nat, 14);
    lemma_bits_of_len(v.d_lo.dense as nat, 14);
    let p7 = bits_of(v.d_hi.dense as nat, 11);
    lemma_bits_of_len(v.d_hi.dense as nat, 11);
    v.a_lo.lemma_spread_bound(14);
    v.a_hi.lemma_spread_bound(14);
    v.b_lo.lemma_spread_bound(3);
    v.b_hi.lemma_spread_bound(3);
    v.c_lo.lemma_spread_bound(2);
    v.c_hi.lemma_spread_bound(3);
    v.d_lo.lemma_spread_bound(14);
    v.d_hi.lemma_spread_bound(11);
    lemma_spread_concat(p4, p5);
    let r1 = p4 + p5;
    assert(p4.len() == 2);
    assert(spread_value(r1) == spread_value(p4) + 0x10 * spread_value(p5));
    lemma_spread_concat(r1, p6);
    let r2 = r1 + p6;
    assert(r1.len() == 5);
    assert(spread_value(r2) == spread_value(r1) + 0x400 * spread_value(p6));
    lemma_spread_concat(r2, p7);
    let r3 = r2 + p7;
    assert(r2.len() == 19);
    assert(spread_value(r3) == spread_value(r2) + 0x40_0000_0000 * spread_value(p7));
    lemma_spread_concat(r3, p0);
    let r4 = r3 + p0;
    assert(r3.len() == 30);
    assert(spread_value(r4) == spread_value(r3) + 0x1000_0000_0000_0000 * spread_value(p0));
    lemma_spread_concat(r4, p1);
    let r5 = r4 + p1;
    assert(r4.len() == 44);
    assert(spread_value(r5) == spread_value(r4)
        + 0x100_0000_0000_0000_0000_0000 * spread_value(p1));
    lemma_spread_concat(r5, p2);
    let r6 = r5 + p2;
    assert(r5.len() == 58);
    assert(spread_value(r6) == spread_value(r5)
        + 0x10_0000_0000_0000_0000_0000_0000_0000 * spread_value(p2));
    lemma_spread_concat(r6, p3);
    let r7 = r6 + p3;
    assert(r6.len() == 61);
    assert(spread_value(r7) == spread_value(r6)
        + 0x400_0000_0000_0000_0000_0000_0000_0000 * spread_value(p3));
    assert(rotr_bits(v.bits(), 34) =~= r7);
}

/// For valid pieces, the parts in the order of a rotation by 39 make up
/// the spread form of the rotated bits.
pub proof fn lemma_abcd_rotr_39(v: AbcdVar)
    requires
        v.valid(),
    ensures
        spread_value(rotr_bits(v.bits(), 39)) == v.spread_d_value()
            + v.spread_a_value() * 0x4_0000_0000_0000
            + v.spread_b_value() * 0x400_0000_0000_0000_0000_0000_0000
            + v.spread_c_value() * 0x40_0000_0000_0000_0000_0000_0000_0000,
{
    lemma_pow2_values();
    let p0 = bits_of(v.a_lo.dense as nat, 14);
    lemma_bits_of_len(v.a_lo.dense as nat, 14);
    let p1 = bits_of(v.a_hi.dense as nat, 14);
    lemma_bits_of_len(v.a_hi.dense as nat, 14);
    let p2 = bits_of(v.b_lo.dense as nat, 3);
    lemma_bits_of_len(v.b_lo.dense as nat, 3);
    let p3 = bits_of(v.b_hi.dense as nat, 3);
    lemma_bits_of_len(v.b_hi.dense as nat, 3);
    let p4 = bits_of(v.c_lo.dense as nat, 2);
    lemma_bits_of_len(v.c_lo.dense as nat, 2);
    let p5 = bits_of(v.c_hi.dense as nat, 3);
    lemma_bits_of_len(v.c_hi.dense as nat, 3);
    let p6 = bits_of(v.d_lo.dense as nat, 14);
    lemma_bits_of_len(v.d_lo.dense as nat, 14);
    let p7 = bits_of(v.d_hi.dense as nat, 11);
    lemma_bits_of_len(v.d_hi.dense as nat, 11);
    v.a_lo.lemma_spread_bound(14);
    v.a_hi.lemma_spread_bound(14);
    v.b_lo.lemma_spread_bound(3);
    v.b_hi.lemma_spread_bound(3);
    v.c_lo.lemma_spread_bound(2);
    v.c_hi.lemma_spread_bound(3);
    v.d_lo.lemma_spread_bound(14);
    v.d_hi.lemma_spread_bound(11);
    lemma_spread_concat(p6, p7);
    let r1 = p6 + p7;
    assert(p6.len() == 14);
    assert(spread_value(r1) == spread_value(p6) + 0x1000_0000 * spread_value(p7));
    lemma_spread_concat(r1, p0);
    let r2 = r1 + p0;
    assert(r1.len() == 25);
    assert(spread_value(r2) == spread_value(r1) + 0x4_0000_0000_0000 * spread_value(p0));
    lemma_spread_concat(r2, p1);
    let r3 = r2 + p1;
    assert(r2.len() == 39);
    assert(spread_value(r3) == spread_value(r2) + 0x4000_0000_0000_0000_0000 * spread_value(p1));
    lemma_spread_concat(r3, p2);
    let r4 = r3 + p2;
    assert(r3.len() == 53);
    assert(spread_value(r4) == spread_value(r3)
        + 0x400_0000_0000_0000_0000_0000_0000 * spread_value(p2));
    lemma_spread_concat(r4, p3);
    let r5 = r4 + p3;
    assert(r4.len() == 56);
    assert(spread_value(r5) == spread_value(r4)
        + 0x1_0000_0000_0000_0000_0000_0000_0000 * spread_value(p3));
    lemma_spread_concat(r5, p4);
    let r6 = r5 + p4;
    assert(r5.len() == 59);
    assert(spread_value(r6) == spread_value(r5)
        + 0x40_0000_0000_0000_0000_0000_0000_0000 * spread_value(p4));
    lemma_spread_concat(r6, p5);
    let r7 = r6 + p5;
    assert(r6.len() == 61);
    assert(spread_value(r7) == spread_value(r6)
        + 0x400_0000_0000_0000_0000_0000_0000_0000 * spread_value(p5));
    assert(rotr_bits(v.bits(), 39) =~= r7);
}

/// For valid pieces: the word they stand for, its spread form, and the
/// rotated combinations in `xor_sum` as spread forms of rotated bits.
pub proof fn lemma_abcd_pieces(v: AbcdVar)
    requires
        v.valid(),
    ensures
        v.dense_word() < 0x1_0000_0000_0000_0000,
        v.bits() == word_bits(v.dense_word() as u64),
        v.spread_word() == spread(v.dense_word(), 64),
        v.xor_sum() == spread_value(rotr_bits(word_bits(v.dense_word() as u64), 28))
            + spread_value(rotr_bits(word_bits(v.dense_word() as u64), 34))
            + spread_value(rotr_bits(word_bits(v.dense_word() as u64), 39)),
{
    lemma_abcd_bits(v);
    lemma_abcd_rotr_28(v);
    lemma_abcd_rotr_34(v);
    lemma_abcd_rotr_39(v);
}

/// For valid pieces: the pieces' bits are the bits of the word they stand
/// for, and their spread sum is that word's spread form.
pub proof fn lemma_efgh_bits(v: EfghVar)
    requires
        v.valid(),
    ensures
        v.dense_word() < 0x1_0000_0000_0000_0000,
        v.bits() == word_bits(v.dense_word() as u64),
        v.spread_word() == spread(v.dense_word(), 64),
{
    lemma_pow2_values();
    let p0 = bits_of(v.a.dense as nat, 14);
    lemma_bits_of_len(v.a.dense as nat, 14);
    let p1 = bits_of(v.b_lo.dense as nat, 2);
    lemma_bits_of_len(v.b_lo.dense as nat, 2);
    let p2 = bits_of(v.b_hi.dense as nat, 2);
    lemma_bits_of_len(v.b_hi.dense as nat, 2);
    let p3 = bits_of(v.c_lo.dense as nat, 13);
    lemma_bits_of_len(v.c_lo.dense as nat, 13);
    let p4 = bits_of(v.c_hi.dense as nat, 10);
    lemma_bits_of_len(v.c_hi.dense as nat, 10);
    let p5 = bits_of(v.d_lo.dense as nat, 13);
    lemma_bits_of_len(v.d_lo.dense as nat, 13);
    let p6 = bits_of(v.d_hi.dense as nat, 10);
    lemma_bits_of_len(v.d_hi.dense as nat, 10);
    lemma_dense_bits_of(v.a.dense as nat, 14);
    vstd::arithmetic::div_mod::lemma_small_mod(v.a.dense as nat, pow2(14));
    lemma_dense_bits_of(v.b_lo.dense as nat, 2);
    vstd::arithmetic::div_mod::lemma_small_mod(v.b_lo.dense as nat, pow2(2));
    lemma_dense_bits_of(v.b_hi.dense as nat, 2);
    vstd::arithmetic::div_mod::lemma_small_mod(v.b_hi.dense as nat, pow2(2));
    lemma_dense_bits_of(v.c_lo.dense as nat, 13);
    vstd::arithmetic::div_mod::lemma_small_mod(v.c_lo.dense as nat, pow2(13));
    lemma_dense_bits_of(v.c_hi.dense as nat, 10);
    vstd::arithmetic::div_mod::lemma_small_mod(v.c_hi.dense as nat, pow2(10));
    lemma_dense_bits_of(v.d_lo.dense as nat, 13);
    vstd::arithmetic::div_mod::lemma_small_mod(v.d_lo.dense as nat, pow2(13));
    lemma_dense_bits_of(v.d_hi.dense as nat, 10);
    vstd::arithmetic::div_mod::lemma_small_mod(v.d_hi.dense as nat, pow2(10));
    lemma_dense_concat(p0, p1);
    lemma_spread_concat(p0, p1);
    let s1 = p0 + p1;
    assert(p0.len() == 14);
    assert(dense_value(s1) == dense_value(p0) + 0x4000 * dense_value(p1));
    assert(spread_value(s1) == spread_value(p0) + 0x1000_0000 * spread_value(p1));
    lemma_dense_concat(s1, p2);
    lemma_spread_concat(s1, p2);
    let s2 = s1 + p2;
    assert(s1.len() == 16);
    assert(dense_value(s2) == dense_value(s1) + 0x1_0000 * dense_value(p2));
    assert(spread_value(s2) == spread_value(s1) + 0x1_0000_0000 * spread_value(p2));
    lemma_dense_concat(s2, p3);
    lemma_spread_concat(s2, p3);
    let s3 = s2 + p3;
    assert(s2.len() == 18);
    assert(dense_value(s3) == dense_value(s2) + 0x4_0000 * dense_value(p3));
    assert(spread_value(s3) == spread_value(s2) + 0x10_0000_0000 * spread_value(p3));
    lemma_dense_concat(s3, p4);
    lemma_spread_concat(s3, p4);
    let s4 = s3 + p4;
    assert(s3.len() == 31);
    assert(dense_value(s4) == dense_value(s3) + 0x8000_0000 * dense_value(p4));
    assert(spread_value(s4) == spread_value(s3) + 0x4000_0000_0000_0000 * spread_value(p4));
    lemma_dense_concat(s4, p5);
    lemma_spread_concat(s4, p5);
    let s5 = s4 + p5;
    assert(s4.len() == 41);
    assert(dense_value(s5) == dense_value(s4) + 0x200_0000_0000 * dense_value(p5));
    assert(spread_value(s5) == spread_value(s4) + 0x4_0000_0000_0000_0000_0000 * spread_value(p5));
    lemma_dense_concat(s5, p6);
    lemma_spread_concat(s5, p6);
    let s6 = s5 + p6;
    assert(s5.len() == 54);
    assert(dense_value(s6) == dense_value(s5) + 0x40_0000_0000_0000 * dense_value(p6));
    assert(spread_value(s6) == spread_value(s5)
        + 0x1000_0000_0000_0000_0000_0000_0000 * spread_value(p6));
    assert(v.bits() == s6);
    assert(dense_value(s6) == v.dense_word());
    lemma_dense_value_bound(s6);
    lemma_bits_of_dense(s6);
    assert(spread_value(s6) == v.spread_word());
}

/// For valid pieces, the parts in the order of a rotation by 14 make up
/// the spread form of the rotated bits.
pub proof fn lemma_efgh_rotr_14(v: EfghVar)
    requires
        v.valid(),
    ensures
        spread_value(rotr_bits(v.bits(), 14)) == v.spread_b_value() + v.spread_c_value() * 0x100
            + v.spread_d_value() * 0x40_0000_0000_0000
            + v.spread_a_value() * 0x10_0000_0000_0000_0000_0000_0000,
{
    lemma_pow2_values();
    let p0 = bits_of(v.a.dense as nat, 14);
    lemma_bits_of_len(v.a.dense as nat, 14);
    let p1 = bits_of(v.b_lo.dense as nat, 2);
    lemma_bits_of_len(v.b_lo.dense as nat, 2);
    let p2 = bits_of(v.b_hi.dense as nat, 2);
    lemma_bits_of_len(v.b_hi.dense as nat, 2);
    let p3 = bits_of(v.c_lo.dense as nat, 13);
    lemma_bits_of_len(v.c_lo.dense as nat, 13);
    let p4 = bits_of(v.c_hi.dense as nat, 10);
    lemma_bits_of_len(v.c_hi.dense as nat, 10);
    let p5 = bits_of(v.d_lo.dense as nat, 13);
    lemma_bits_of_len(v.d_lo.dense as nat, 13);
    let p6 = bits_of(v.d_hi.dense as nat, 10);
    lemma_bits_of_len(v.d_hi.dense as nat, 10);
    v.a.lemma_spread_bound(14);
    v.b_lo.lemma_spread_bound(2);
    v.b_hi.lemma_spread_bound(2);
    v.c_lo.lemma_spread_bound(13);
    v.c_hi.lemma_spread_bound(10);
    v.d_lo.lemma_spread_bound(13);
    v.d_hi.lemma_spread_bound(10);
    lemma_spread_concat(p1, p2);
    let r1 = p1 + p2;
    assert(p1.len() == 2);
    assert(spread_value(r1) == spread_value(p1) + 0x10 * spread_value(p2));
    lemma_spread_concat(r1, p3);
    let r2 = r1 + p3;
    assert(r1.len() == 4);
    assert(spread_value(r2) == spread_value(r1) + 0x100 * spread_value(p3));
    lemma_spread_concat(r2, p4);
    let r3 = r2 + p4;
    assert(r2.len() == 17);
    assert(spread_value(r3) == spread_value(r2) + 0x4_0000_0000 * spread_value(p4));
    lemma_spread_concat(r3, p5);
    let r4 = r3 + p5;
    assert(r3.len() == 27);
    assert(spread_value(r4) == spread_value(r3) + 0x40_0000_0000_0000 * spread_value(p5));
    lemma_spread_concat(r4, p6);
    let r5 = r4 + p6;
    assert(r4.len() == 40);
    assert(spread_value(r5) == spread_value(r4) + 0x1_0000_0000_0000_0000_0000 * spread_value(p6));
    lemma_spread_concat(r5, p0);
    let r6 = r5 + p0;
    assert(r5.len() == 50);
    assert(spread_value(r6) == spread_value(r5)
        + 0x10_0000_0000_0000_0000_0000_0000 * spread_value(p0));
    assert(rotr_bits(v.bits(), 14) =~= r6);
}

/// For valid pieces, the parts in the order of a rotation by 18 make up
/// the spread form of the rotated bits.
pub proof fn lemma_efgh_rotr_18(v: EfghVar)
    requires
        v.valid(),
    ensures
        spread_value(rotr_bits(v.bits(), 18)) == v.spread_c_value()
            + v.spread_d_value() * 0x4000_0000_0000
            + v.spread_a_value() * 0x1000_0000_0000_0000_0000_0000
            + v.spread_b_value() * 0x100_0000_0000_0000_0000_0000_0000_0000,
{
    lemma_pow2_values();
    let p0 = bits_of(v.a.dense as nat, 14);
    lemma_bits_of_len(v.a.dense as nat, 14);
    let p1 = bits_of(v.b_lo.dense as nat, 2);
    lemma_bits_of_len(v.b_lo.dense as nat, 2);
    let p2 = bits_of(v.b_hi.dense as nat, 2);
    lemma_bits_of_len(v.b_hi.dense as nat, 2);
    let p3 = bits_of(v.c_lo.dense as nat, 13);
    lemma_bits_of_len(v.c_lo.dense as nat, 13);
    let p4 = bits_of(v.c_hi.dense as nat, 10);
    lemma_bits_of_len(v.c_hi.dense as nat, 10);
    let p5 = bits_of(v.d_lo.dense as nat, 13);
    lemma_bits_of_len(v.d_lo.dense as nat, 13);
    let p6 = bits_of(v.d_hi.dense as nat, 10);
    lemma_bits_of_len(v.d_hi.dense as nat, 10);
    v.a.lemma_spread_bound(14);
    v.b_lo.lemma_spread_bound(2);
    v.b_hi.lemma_spread_bound(2);
    v.c_lo.lemma_spread_bound(13);
    v.c_hi.lemma_spread_bound(10);
    v.d_lo.lemma_spread_bound(13);
    v.d_hi.lemma_spread_bound(10);
    lemma_spread_concat(p3, p4);
    let r1 = p3 + p4;
    assert(p3.len() == 13);
    assert(spread_value(r1) == spread_value(p3) + 0x400_0000 * spread_value(p4));
    lemma_spread_concat(r1, p5);
    let r2 = r1 + p5;
    assert(r1.len() == 23);
    assert(spread_value(r2) == spread_value(r1) + 0x4000_0000_0000 * spread_value(p5));
    lemma_spread_concat(r2, p6);
    let r3 = r2 + p6;
    assert(r2.len() == 36);
    assert(spread_value(r3) == spread_value(r2) + 0x100_0000_0000_0000_0000 * spread_value(p6));
    lemma_spread_concat(r3, p0);
    let r4 = r3 + p0;
    assert(r3.len() == 46);
    assert(spread_value(r4) == spread_value(r3)
        + 0x1000_0000_0000_0000_0000_0000 * spread_value(p0));
    lemma_spread_concat(r4, p1);
    let r5 = r4 + p1;
    assert(r4.len() == 60);
    assert(spread_value(r5) == spread_value(r4)
        + 0x100_0000_0000_0000_0000_0000_0000_0000 * spread_value(p1));
    lemma_spread_concat(r5, p2);
    let r6 = r5 + p2;
    assert(r5.len() == 62);
    assert(spread_value(r6) == spread_value(r5)
        + 0x1000_0000_0000_0000_0000_0000_0000_0000 * spread_value(p2));
    assert(rotr_bits(v.bits(), 18) =~= r6);
}

/// For valid pieces, the parts in the order of a rotation by 41 make up
/// the spread form of the rotated bits.
pub proof fn lemma_efgh_rotr_41(v: EfghVar)
    requires
        v.valid(),
    ensures
        spread_value(rotr_bits(v.bits(), 41)) == v.spread_d_value()
            + v.spread_a_value() * 0x4000_0000_0000 + v.spread_b_value() * 0x400_0000_0000_0000_0000
            + v.spread_c_value() * 0x4_0000_0000_0000_0000_0000,
{
    lemma_pow2_values();
    let p0 = bits_of(v.a.dense as nat, 14);
    lemma_bits_of_len(v.a.dense as nat, 14);
    let p1 = bits_of(v.b_lo.dense as nat, 2);
    lemma_bits_of_len(v.b_lo.dense as nat, 2);
    let p2 = bits_of(v.b_hi.dense as nat, 2);
    lemma_bits_of_len(v.b_hi.dense as nat, 2);
    let p3 = bits_of(v.c_lo.dense as nat, 13);
    lemma_bits_of_len(v.c_lo.dense as nat, 13);
    let p4 = bits_of(v.c_hi.dense as nat, 10);
    lemma_bits_of_len(v.c_hi.dense as nat, 10);
    let p5 = bits_of(v.d_lo.dense as nat, 13);
    lemma_bits_of_len(v.d_lo.dense as nat, 13);
    let p6 = bits_of(v.d_hi.dense as nat, 10);
    lemma_bits_of_len(v.d_hi.dense as nat, 10);
    v.a.lemma_spread_bound(14);
    v.b_lo.lemma_spread_bound(2);
    v.b_hi.lemma_spread_bound(2);
    v.c_lo.lemma_spread_bound(13);
    v.c_hi.lemma_spread_bound(10);
    v.d_lo.lemma_spread_bound(13);
    v.d_hi.lemma_spread_bound(10);
    lemma_spread_concat(p5, p6);
    let r1 = p5 + p6;
    assert(p5.len() == 13);
    assert(spread_value(r1) == spread_value(p5) + 0x400_0000 * spread_value(p6));
    lemma_spread_concat(r1, p0);
    let r2 = r1 + p0;
    assert(r1.len() == 23);
    assert(spread_value(r2) == spread_value(r1) + 0x4000_0000_0000 * spread_value(p0));
    lemma_spread_concat(r2, p1);
    let r3 = r2 + p1;
    assert(r2.len() == 37);
    assert(spread_value(r3) == spread_value(r2) + 0x400_0000_0000_0000_0000 * spread_value(p1));
    lemma_spread_concat(r3, p2);
    let r4 = r3 + p2;
    assert(r3.len() == 39);
    assert(spread_value(r4) == spread_value(r3) + 0x4000_0000_0000_0000_0000 * spread_value(p2));
    lemma_spread_concat(r4, p3);
    let r5 = r4 + p3;
    assert(r4.len() == 41);
    assert(spread_value(r5) == spread_value(r4) + 0x4_0000_0000_0000_0000_0000 * spread_value(p3));
    lemma_spread_concat(r5, p4);
    let r6 = r5 + p4;
    assert(r5.len() == 54);
    assert(spread_value(r6) == spread_value(r5)
        + 0x1000_0000_0000_0000_0000_0000_0000 * spread_value(p4));
    assert(rotr_bits(v.bits(), 41) =~= r6);
}

/// For valid pieces: the word they stand for, its spread form, and the
/// rotated combinations in `xor_sum` as spread forms of rotated bits.
pub proof fn lemma_efgh_pieces(v: EfghVar)
    requires
        v.valid(),
    ensures
        v.dense_word() < 0x1_0000_0000_0000_0000,
        v.bits() == word_bits(v.dense_word() as u64),
        v.spread_word() == spread(v.dense_word(), 64),
        v.xor_sum() == spread_value(rotr_bits(word_bits(v.dense_word() as u64), 14))
            + spread_value(rotr_bits(word_bits(v.dense_word() as u64), 18))
            + spread_value(rotr_bits(word_bits(v.dense_word() as u64), 41)),
{
    lemma_efgh_bits(v);
    lemma_efgh_rotr_14(v);
    lemma_efgh_rotr_18(v);
    lemma_efgh_rotr_41(v);
}

/// The 64 bits of a word, least significant first.
pub fn word_bits_exec(x: u64) -> (r: Vec<bool>)
    ensures
        r@ == word_bits(x),
{
    let mut r: Vec<bool> = Vec::new();
    let mut i: u64 = 0;
    proof {
        lemma_bits_of_len(x as nat, 64);
    }
    while i < 64
        invariant
            i <= 64,
            word_bits(x).len() == 64,
            r@ == word_bits(x).subrange(0, i as int),
        decreases 64 - i,
    {
        proof {
            lemma_bits_of_index(x, 64, i as int);
        }
        r.push((x >> i) & 1 == 1);
        i = i + 1;
        assert(r@ =~= word_bits(x).subrange(0, i as int));
    }
    assert(r@ =~= word_bits(x));
    r
}

/// The bits of `bits` at the positions of `range`.
pub fn bit_range(bits: &Vec<bool>, range: std::ops::Range<usize>) -> (r: Vec<bool>)
    requires
        range.start <= range.end <= bits@.len(),
    ensures
        r@ == bits@.subrange(range.start as int, range.end as int),
{
    let mut r: Vec<bool> = Vec::new();
    let mut i: usize = range.start;
    while i < range.end
        invariant
            range.start <= i <= range.end <= bits@.len(),
            r@ == bits@.subrange(range.start as int, i as int),
        decreases range.end - i,
    {
        r.push(bits[i]);
        i = i + 1;
        assert(r@ =~= bits@.subrange(range.start as int, i as int));
    }
    r
}

} // verus!
