//! Words held as two 32-bit halves, in dense and in spread form.

use crate::functions::word_bits;
use crate::spread::{
    bits_of, despread, despread_bits, is_spread, lemma_bits_of_len, lemma_despread_spread,
    lemma_halves, lemma_is_spread_bits, lemma_pow2_values, lemma_spread_value_bound, spread,
    spread_bits, spread_value,
};
use vstd::prelude::*;

verus! {

/// A 64-bit word as its low and high 32-bit halves.
#[derive(Clone, Copy, Debug)]
pub struct RoundWordDense(pub u32, pub u32);

impl RoundWordDense {
    /// The word the halves stand for.
    pub open spec fn value_spec(&self) -> u64 {
        (self.0 + 0x1_0000_0000 * self.1) as u64
    }

    /// The word the halves stand for.
    pub fn value(&self) -> (r: u64)
        ensures
            r == self.value_spec(),
            r == self.0 + 0x1_0000_0000 * self.1,
    {
        self.0 as u64 + 0x1_0000_0000u64 * self.1 as u64
    }

    /// Splits a word into its halves.
    pub fn from_word(x: u64) -> (r: Self)
        ensures
            r.value_spec() == x,
            x == r.0 + 0x1_0000_0000 * r.1,
    {
        let lo = (x % 0x1_0000_0000) as u32;
        let hi = (x / 0x1_0000_0000) as u32;
        RoundWordDense(lo, hi)
    }
}

impl From<(u32, u32)> for RoundWordDense {
    /// Halves given as `(low, high)`.
    fn from(halves: (u32, u32)) -> (r: Self) {
        RoundWordDense(halves.0, halves.1)
    }
}

impl vstd::std_specs::convert::FromSpecImpl<(u32, u32)> for RoundWordDense {
    open spec fn obeys_from_spec() -> bool {
        true
    }

    open spec fn from_spec(halves: (u32, u32)) -> Self {
        RoundWordDense(halves.0, halves.1)
    }
}

/// The spread form of a 64-bit word as the spread forms of its two 32-bit
/// halves, low half first.
#[derive(Clone, Copy, Debug)]
pub struct RoundWordSpread(pub u64, pub u64);

impl From<(u64, u64)> for RoundWordSpread {
    /// Halves given as `(low, high)`.
    fn from(halves: (u64, u64)) -> (r: Self) {
        RoundWordSpread(halves.0, halves.1)
    }
}

impl vstd::std_specs::convert::FromSpecImpl<(u64, u64)> for RoundWordSpread {
    open spec fn obeys_from_spec() -> bool {
        true
    }

    open spec fn from_spec(halves: (u64, u64)) -> Self {
        RoundWordSpread(halves.0, halves.1)
    }
}

impl RoundWordSpread {
    /// The 128-bit spread value the halves stand for.
    pub open spec fn value_spec(&self) -> nat {
        (self.0 + 0x1_0000_0000_0000_0000 * self.1) as nat
    }

    /// Both halves are spread forms of 32-bit values.
    pub open spec fn valid(&self) -> bool {
        is_spread(self.0 as nat, 32) && is_spread(self.1 as nat, 32)
    }

    /// The dense word read back from the even positions of both halves.
    pub open spec fn dense_spec(&self) -> nat {
        (despread(self.0 as nat, 32) + 0x1_0000_0000 * despread(self.1 as nat, 32)) as nat
    }

    /// The 128-bit spread value the halves stand for.
    pub fn value(&self) -> (r: u128)
        ensures
            r == self.value_spec(),
    {
        self.0 as u128 + 0x1_0000_0000_0000_0000u128 * self.1 as u128
    }

    /// Whether both halves are spread forms of 32-bit values.
    pub fn is_valid(&self) -> (r: bool)
        ensures
            r == self.valid(),
    {
        spread_bits(despread_bits(self.0 as u128, 32), 32) == self.0 as u128 && spread_bits(
            despread_bits(self.1 as u128, 32),
            32,
        ) == self.1 as u128
    }

    /// The spread form of a word.
    pub fn from_word(x: u64) -> (r: Self)
        ensures
            r.valid(),
            r.dense_spec() == x,
            r.value_spec() == spread(x as nat, 64),
    {
        let d = RoundWordDense::from_word(x);
        proof {
            lemma_pow2_values();
            lemma_despread_spread(d.0 as nat, 32);
            lemma_despread_spread(d.1 as nat, 32);
            lemma_halves(d.0 as nat, d.1 as nat);
            lemma_bits_of_len(d.0 as nat, 32);
            lemma_bits_of_len(d.1 as nat, 32);
            lemma_spread_value_bound(bits_of(d.0 as nat, 32));
            lemma_spread_value_bound(bits_of(d.1 as nat, 32));
        }
        RoundWordSpread(spread_bits(d.0 as u64, 32) as u64, spread_bits(d.1 as u64, 32) as u64)
    }

    /// The dense halves read back from the spread halves.
    pub fn dense(&self) -> (r: RoundWordDense)
        requires
            self.valid(),
        ensures
            r.value_spec() == self.dense_spec(),
            r.0 == despread(self.0 as nat, 32),
            r.1 == despread(self.1 as nat, 32),
    {
        proof {
            lemma_pow2_values();
            lemma_is_spread_bits(self.0 as nat, 32);
            lemma_is_spread_bits(self.1 as nat, 32);
        }
        RoundWordDense(
            despread_bits(self.0 as u128, 32) as u32,
            despread_bits(self.1 as u128, 32) as u32,
        )
    }

    /// Valid halves stand for the spread form of the word read back from them.
    pub proof fn lemma_valid(&self)
        requires
            self.valid(),
        ensures
            self.dense_spec() < 0x1_0000_0000_0000_0000,
            self.value_spec() == spread(self.dense_spec(), 64),
            self.value_spec() == spread_value(word_bits(self.dense_spec() as u64)),
    {
        lemma_pow2_values();
        lemma_is_spread_bits(self.0 as nat, 32);
        lemma_is_spread_bits(self.1 as nat, 32);
        lemma_halves(despread(self.0 as nat, 32), despread(self.1 as nat, 32));
    }
}

} // verus!
