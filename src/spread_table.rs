//! Cells that hold a value of some width together with its spread form, and
//! the lookup relation that checks such pairs.

use crate::spread::{
    bits_of, lemma_bits_of_len, lemma_pow2_values, lemma_spread_value_bound, lemma_spread_width,
    spread, spread_bits,
};
use vstd::arithmetic::power2::pow2;
use vstd::bits::lemma_u64_shr_is_div;
use vstd::prelude::*;

verus! {

/// The tag the spread table gives a 16-bit value: the index of the smallest of
/// the widths 7, 10, 11, 13, 14, 16 that holds it.
pub open spec fn tag_for(d: nat) -> nat {
    if d < 0x80 {
        0
    } else if d < 0x400 {
        1
    } else if d < 0x800 {
        2
    } else if d < 0x2000 {
        3
    } else if d < 0x4000 {
        4
    } else {
        5
    }
}

/// The largest tag that a value of `w` bits may carry.
pub open spec fn max_tag_for(w: nat) -> nat {
    if w <= 7 {
        0
    } else if w <= 10 {
        1
    } else if w <= 11 {
        2
    } else if w <= 13 {
        3
    } else if w <= 14 {
        4
    } else {
        5
    }
}

/// The tag of a 16-bit value in the spread table.
pub fn lookup_tag(d: u32) -> (r: u8)
    ensures
        r == tag_for(d as nat),
{
    if d < 0x80 {
        0
    } else if d < 0x400 {
        1
    } else if d < 0x800 {
        2
    } else if d < 0x2000 {
        3
    } else if d < 0x4000 {
        4
    } else {
        5
    }
}

/// A piece of a word: its lookup tag, its dense value and its spread form.
#[derive(Clone, Copy, Debug)]
pub struct SpreadVar {
    pub tag: u8,
    pub dense: u32,
    pub spread: u64,
}

impl SpreadVar {
    /// The triple is a row of the spread table.
    pub open spec fn in_table(&self) -> bool {
        &&& self.dense < 0x10000
        &&& self.tag == tag_for(self.dense as nat)
        &&& self.spread == spread(self.dense as nat, 16)
    }

    /// A table row whose tag is at most `max_tag`.
    pub open spec fn table_checked(&self, max_tag: nat) -> bool {
        self.in_table() && self.tag <= max_tag
    }

    /// A value of `w` bits with its spread form, checked directly.
    pub open spec fn narrow_checked(&self, w: nat) -> bool {
        self.dense < pow2(w) && self.spread == spread(self.dense as nat, w)
    }

    /// The piece holds a value of `w` bits and that value's spread form.
    pub open spec fn valid(&self, w: nat) -> bool {
        self.dense < pow2(w) && self.spread == spread(self.dense as nat, w)
    }

    /// Looks `dense` up in the spread table.
    pub fn from_dense(dense: u32) -> (r: Self)
        requires
            dense < 0x10000,
        ensures
            r.in_table(),
            r.dense == dense,
    {
        proof {
            lemma_pow2_values();
            lemma_bits_of_len(dense as nat, 16);
            lemma_spread_value_bound(bits_of(dense as nat, 16));
        }
        SpreadVar { tag: lookup_tag(dense), dense, spread: spread_bits(dense as u64, 16) as u64 }
    }

    /// The `w` bits of `x` from position `off`, looked up in the spread table.
    pub fn from_piece(x: u64, off: u64, w: u64) -> (r: Self)
        requires
            off < 64,
            1 <= w <= 14,
        ensures
            r.dense == (x as nat / pow2(off as nat)) % pow2(w as nat),
            r.valid(w as nat),
            r.in_table(),
            r.table_checked(max_tag_for(w as nat)),
            r.narrow_checked(w as nat),
    {
        proof {
            lemma_pow2_values();
            lemma_u64_shr_is_div(x, off);
            vstd::bits::lemma_u64_pow2_no_overflow(w as nat);
            vstd::bits::lemma_u64_shl_is_mul(1, w);
        }
        let m: u64 = 1u64 << w;
        let d: u64 = (x >> off) % m;
        let r = Self::from_dense(d as u32);
        proof {
            lemma_spread_width(d as nat, w as nat, 16);
        }
        r
    }

    /// Whether the triple is a table row with a tag at most `max_tag`.
    pub fn check_table(&self, max_tag: u8) -> (r: bool)
        ensures
            r == self.table_checked(max_tag as nat),
    {
        self.dense < 0x10000 && self.tag == lookup_tag(self.dense) && self.tag <= max_tag
            && self.spread as u128 == spread_bits(self.dense as u64, 16)
    }

    /// Whether the piece holds a `w`-bit value and its spread form.
    pub fn check_valid(&self, w: u32) -> (r: bool)
        requires
            w <= 16,
        ensures
            r == self.valid(w as nat),
            r == self.narrow_checked(w as nat),
    {
        proof {
            lemma_pow2_values();
            vstd::bits::lemma_u64_pow2_no_overflow(w as nat);
            vstd::bits::lemma_u64_shl_is_mul(1, w as u64);
        }
        let bound: u64 = 1u64 << (w as u64);
        (self.dense as u64) < bound && self.spread as u128 == spread_bits(self.dense as u64, w)
    }

    /// What the checks establish: a table row with a tag at most that of
    /// width `w`, or a directly checked narrow value, holds a `w`-bit value
    /// and its spread form.
    pub proof fn lemma_checked_valid(&self, w: nat)
        requires
            w <= 3 ==> self.narrow_checked(w),
            w > 3 ==> self.table_checked(max_tag_for(w)),
            w == 7 || w == 10 || w == 11 || w == 13 || w == 14 || w <= 3,
        ensures
            self.valid(w),
    {
        lemma_pow2_values();
        if w > 3 {
            if w == 7 {
                assert(self.dense < pow2(7));
            } else if w == 10 {
                assert(self.dense < pow2(10));
            } else if w == 11 {
                assert(self.dense < pow2(11));
            } else if w == 13 {
                assert(self.dense < pow2(13));
            } else {
                assert(self.dense < pow2(14));
            }
            lemma_spread_width(self.dense as nat, w, 16);
        }
    }

    /// A valid piece's spread form is below `4^w`.
    pub proof fn lemma_spread_bound(&self, w: nat)
        requires
            self.valid(w),
        ensures
            self.spread < pow2(2 * w),
            (self.spread as nat) == spread(self.dense as nat, w),
    {
        lemma_bits_of_len(self.dense as nat, w);
        lemma_spread_value_bound(bits_of(self.dense as nat, w));
    }
}

} // verus!
