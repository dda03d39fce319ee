//! The compression driver: the words of the state with the forms each slot
//! needs, the round that turns one state into the next, and the steps from
//! initialization to digest.

use crate::functions::{ch, maj, upper_sigma_0, upper_sigma_1};
use crate::gates::{
    a_new_holds, addition_holds, ch_holds, ch_neg_holds, e_new_holds, even_odd_witness,
    h_prime_holds, halves_sum, lemma_a_new_carry, lemma_choice_sound, lemma_e_new_carry,
    lemma_h_prime_carry, lemma_maj_sound, lemma_spread_halves_bound, lemma_upper_sigma_0_sound,
    lemma_upper_sigma_1_sound, maj_holds, negate_spread, upper_sigma_0_holds, upper_sigma_1_holds,
};
use crate::halves::{RoundWordDense, RoundWordSpread};
use crate::spread::despread;
use crate::words::{AbcdVar, EfghVar, UpperSigmaVar};
use vstd::pervasive::unreached;
use vstd::prelude::*;

verus! {

/// The number of rounds in one compression.
pub const ROUNDS: usize = 80;

/// The number of words in the state and in the digest.
pub const STATE: usize = 8;

/// The round constants, one per round.
pub const ROUND_CONSTANTS: [u64; 80] = [
    0x428a_2f98_d728_ae22, 0x7137_4491_23ef_65cd, 0xb5c0_fbcf_ec4d_3b2f, 0xe9b5_dba5_8189_dbbc,
    0x3956_c25b_f348_b538, 0x59f1_11f1_b605_d019, 0x923f_82a4_af19_4f9b, 0xab1c_5ed5_da6d_8118,
    0xd807_aa98_a303_0242, 0x1283_5b01_4570_6fbe, 0x2431_85be_4ee4_b28c, 0x550c_7dc3_d5ff_b4e2,
    0x72be_5d74_f27b_896f, 0x80de_b1fe_3b16_96b1, 0x9bdc_06a7_25c7_1235, 0xc19b_f174_cf69_2694,
    0xe49b_69c1_9ef1_4ad2, 0xefbe_4786_384f_25e3, 0x0fc1_9dc6_8b8c_d5b5, 0x240c_a1cc_77ac_9c65,
    0x2de9_2c6f_592b_0275, 0x4a74_84aa_6ea6_e483, 0x5cb0_a9dc_bd41_fbd4, 0x76f9_88da_8311_53b5,
    0x983e_5152_ee66_dfab, 0xa831_c66d_2db4_3210, 0xb003_27c8_98fb_213f, 0xbf59_7fc7_beef_0ee4,
    0xc6e0_0bf3_3da8_8fc2, 0xd5a7_9147_930a_a725, 0x06ca_6351_e003_826f, 0x1429_2967_0a0e_6e70,
    0x27b7_0a85_46d2_2ffc, 0x2e1b_2138_5c26_c926, 0x4d2c_6dfc_5ac4_2aed, 0x5338_0d13_9d95_b3df,
    0x650a_7354_8baf_63de, 0x766a_0abb_3c77_b2a8, 0x81c2_c92e_47ed_aee6, 0x9272_2c85_1482_353b,
    0xa2bf_e8a1_4cf1_0364, 0xa81a_664b_bc42_3001, 0xc24b_8b70_d0f8_9791, 0xc76c_51a3_0654_be30,
    0xd192_e819_d6ef_5218, 0xd699_0624_5565_a910, 0xf40e_3585_5771_202a, 0x106a_a070_32bb_d1b8,
    0x19a4_c116_b8d2_d0c8, 0x1e37_6c08_5141_ab53, 0x2748_774c_df8e_eb99, 0x34b0_bcb5_e19b_48a8,
    0x391c_0cb3_c5c9_5a63, 0x4ed8_aa4a_e341_8acb, 0x5b9c_ca4f_7763_e373, 0x682e_6ff3_d6b2_b8a3,
    0x748f_82ee_5def_b2fc, 0x78a5_636f_4317_2f60, 0x84c8_7814_a1f0_ab72, 0x8cc7_0208_1a64_39ec,
    0x90be_fffa_2363_1e28, 0xa450_6ceb_de82_bde9, 0xbef9_a3f7_b2c6_7915, 0xc671_78f2_e372_532b,
    0xca27_3ece_ea26_619c, 0xd186_b8c7_21c0_c207, 0xeada_7dd6_cde0_eb1e, 0xf57d_4f7f_ee6e_d178,
    0x06f0_67aa_7217_6fba, 0x0a63_7dc5_a2c8_98a6, 0x113f_9804_bef9_0dae, 0x1b71_0b35_131c_471b,
    0x28db_77f5_2304_7d84, 0x32ca_ab7b_40c7_2493, 0x3c9e_be0a_15c9_bebc, 0x431d_67c4_9c10_0d4c,
    0x4cc5_d4be_cb3e_42b6, 0x597f_299c_fc65_7e2a, 0x5fcb_6fab_3ad6_faec, 0x6c44_198c_4a47_5817,
];

/// The initialization vector: the state before the first block.
pub const IV: [u64; 8] = [
    0x6a09_e667_f3bc_c908, 0xbb67_ae85_84ca_a73b, 0x3c6e_f372_fe94_f82b, 0xa54f_f53a_5f1d_36f1,
    0x510e_527f_ade6_82d1, 0x9b05_688c_2b3e_6c1f, 0x1f83_d9ab_fb41_bd6b, 0x5be0_cd19_137e_2179,
];

/// `2^64`, the modulus of word addition.
pub open spec fn word_modulus() -> int {
    0x1_0000_0000_0000_0000
}

/// The `A` slot: the word's pieces, its halves and its spread halves.
#[derive(Clone, Copy, Debug)]
pub struct RoundWordA {
    pub pieces: Option<AbcdVar>,
    pub dense_halves: RoundWordDense,
    pub spread_halves: Option<RoundWordSpread>,
}

impl RoundWordA {
    /// An `A` word with its pieces and spread halves.
    pub fn new(pieces: AbcdVar, dense_halves: RoundWordDense, spread_halves: RoundWordSpread) -> (r:
        Self)
        ensures
            r.pieces == Some(pieces),
            r.dense_halves == dense_halves,
            r.spread_halves == Some(spread_halves),
    {
        RoundWordA { pieces: Some(pieces), dense_halves, spread_halves: Some(spread_halves) }
    }

    /// A word known by its halves alone.
    pub fn new_dense(dense_halves: RoundWordDense) -> (r: Self)
        ensures
            r.pieces.is_none(),
            r.dense_halves == dense_halves,
            r.spread_halves.is_none(),
    {
        RoundWordA { pieces: None, dense_halves, spread_halves: None }
    }

    /// Pieces and spread halves are present and agree with the halves.
    pub open spec fn wf(&self) -> bool {
        &&& self.pieces matches Some(p)
        &&& self.spread_halves matches Some(s)
        &&& p.valid()
        &&& p.dense_word() == self.dense_halves.value_spec()
        &&& s.valid()
        &&& s.dense_spec() == self.dense_halves.value_spec()
    }
}

/// The `E` slot: the word's pieces, its halves and its spread halves.
#[derive(Clone, Copy, Debug)]
pub struct RoundWordE {
    pub pieces: Option<EfghVar>,
    pub dense_halves: RoundWordDense,
    pub spread_halves: Option<RoundWordSpread>,
}

impl RoundWordE {
    /// An `E` word with its pieces and spread halves.
    pub fn new(pieces: EfghVar, dense_halves: RoundWordDense, spread_halves: RoundWordSpread) -> (r:
        Self)
        ensures
            r.pieces == Some(pieces),
            r.dense_halves == dense_halves,
            r.spread_halves == Some(spread_halves),
    {
        RoundWordE { pieces: Some(pieces), dense_halves, spread_halves: Some(spread_halves) }
    }

    /// A word known by its halves alone.
    pub fn new_dense(dense_halves: RoundWordDense) -> (r: Self)
        ensures
            r.pieces.is_none(),
            r.dense_halves == dense_halves,
            r.spread_halves.is_none(),
    {
        RoundWordE { pieces: None, dense_halves, spread_halves: None }
    }

    /// Pieces and spread halves are present and agree with the halves.
    pub open spec fn wf(&self) -> bool {
        &&& self.pieces matches Some(p)
        &&& self.spread_halves matches Some(s)
        &&& p.valid()
        &&& p.dense_word() == self.dense_halves.value_spec()
        &&& s.valid()
        &&& s.dense_spec() == self.dense_halves.value_spec()
    }
}

/// The `B, C, F, G` slots: the word's halves and its spread halves.
#[derive(Clone, Copy, Debug)]
pub struct RoundWord {
    pub dense_halves: RoundWordDense,
    pub spread_halves: RoundWordSpread,
}

impl RoundWord {
    /// A word with its spread halves.
    pub fn new(dense_halves: RoundWordDense, spread_halves: RoundWordSpread) -> (r: Self)
        ensures
            r.dense_halves == dense_halves,
            r.spread_halves == spread_halves,
    {
        RoundWord { dense_halves, spread_halves }
    }

    /// The spread halves agree with the halves.
    pub open spec fn wf(&self) -> bool {
        self.spread_halves.valid() && self.spread_halves.dense_spec()
            == self.dense_halves.value_spec()
    }
}

/// A word of the state, tagged with its slot.
#[derive(Clone, Copy, Debug)]
pub enum StateWord {
    A(RoundWordA),
    B(RoundWord),
    C(RoundWord),
    D(RoundWordDense),
    E(RoundWordE),
    F(RoundWord),
    G(RoundWord),
    H(RoundWordDense),
}

impl StateWord {
    /// The word held in the slot.
    pub open spec fn value(&self) -> u64 {
        match *self {
            StateWord::A(w) => w.dense_halves.value_spec(),
            StateWord::B(w) => w.dense_halves.value_spec(),
            StateWord::C(w) => w.dense_halves.value_spec(),
            StateWord::D(w) => w.value_spec(),
            StateWord::E(w) => w.dense_halves.value_spec(),
            StateWord::F(w) => w.dense_halves.value_spec(),
            StateWord::G(w) => w.dense_halves.value_spec(),
            StateWord::H(w) => w.value_spec(),
        }
    }

    /// The halves of the word held in the slot.
    pub fn dense_halves(&self) -> (r: RoundWordDense)
        ensures
            r.value_spec() == self.value(),
    {
        match self {
            StateWord::A(w) => w.dense_halves,
            StateWord::B(w) => w.dense_halves,
            StateWord::C(w) => w.dense_halves,
            StateWord::D(w) => *w,
            StateWord::E(w) => w.dense_halves,
            StateWord::F(w) => w.dense_halves,
            StateWord::G(w) => w.dense_halves,
            StateWord::H(w) => *w,
        }
    }
}

/// The internal state: eight optional words, one per slot.
#[derive(Clone, Copy, Debug)]
pub struct State {
    pub a: Option<StateWord>,
    pub b: Option<StateWord>,
    pub c: Option<StateWord>,
    pub d: Option<StateWord>,
    pub e: Option<StateWord>,
    pub f: Option<StateWord>,
    pub g: Option<StateWord>,
    pub h: Option<StateWord>,
}

impl State {
    /// A state with every slot filled.
    #[allow(clippy::many_single_char_names)]
    #[allow(clippy::too_many_arguments)]
    pub fn new(
        a: StateWord,
        b: StateWord,
        c: StateWord,
        d: StateWord,
        e: StateWord,
        f: StateWord,
        g: StateWord,
        h: StateWord,
    ) -> (r: Self)
        ensures
            r == (State {
                a: Some(a),
                b: Some(b),
                c: Some(c),
                d: Some(d),
                e: Some(e),
                f: Some(f),
                g: Some(g),
                h: Some(h),
            }),
    {
        State {
            a: Some(a),
            b: Some(b),
            c: Some(c),
            d: Some(d),
            e: Some(e),
            f: Some(f),
            g: Some(g),
            h: Some(h),
        }
    }

    /// The state before initialization: every slot empty.
    pub fn empty_state() -> (r: Self)
        ensures
            r == (State {
                a: None,
                b: None,
                c: None,
                d: None,
                e: None,
                f: None,
                g: None,
                h: None,
            }),
    {
        State { a: None, b: None, c: None, d: None, e: None, f: None, g: None, h: None }
    }

    /// A state ready for a round is full.
    pub proof fn lemma_wf_full(&self)
        requires
            self.wf(),
        ensures
            self.is_full(),
    {
        reveal(State::wf);
    }

    /// Every slot holds a word.
    pub open spec fn is_full(&self) -> bool {
        &&& self.a is Some
        &&& self.b is Some
        &&& self.c is Some
        &&& self.d is Some
        &&& self.e is Some
        &&& self.f is Some
        &&& self.g is Some
        &&& self.h is Some
    }

    /// The eight words of a full state, `A` first.
    pub open spec fn words(&self) -> Seq<u64> {
        seq![
            self.a.unwrap().value(),
            self.b.unwrap().value(),
            self.c.unwrap().value(),
            self.d.unwrap().value(),
            self.e.unwrap().value(),
            self.f.unwrap().value(),
            self.g.unwrap().value(),
            self.h.unwrap().value(),
        ]
    }

    /// Ready for a round: each slot holds the variant of its own name, with
    /// the forms that slot needs, all in agreement.
    #[verifier::opaque]
    pub open spec fn wf(&self) -> bool {
        &&& self.a matches Some(StateWord::A(w)) && w.wf()
        &&& self.b matches Some(StateWord::B(w)) && w.wf()
        &&& self.c matches Some(StateWord::C(w)) && w.wf()
        &&& self.d matches Some(StateWord::D(_))
        &&& self.e matches Some(StateWord::E(w)) && w.wf()
        &&& self.f matches Some(StateWord::F(w)) && w.wf()
        &&& self.g matches Some(StateWord::G(w)) && w.wf()
        &&& self.h matches Some(StateWord::H(_))
    }
}

/// One round of SHA-512 on the eight words `A..H`, with round constant `k`
/// and message word `w`.
pub open spec fn round_spec(s: Seq<u64>, k: u64, w: u64) -> Seq<u64> {
    let h_prime = (s[7] + ch(s[4], s[5], s[6]) + upper_sigma_1(s[4]) + k + w) % word_modulus();
    seq![
        ((h_prime + maj(s[0], s[1], s[2]) + upper_sigma_0(s[0])) % word_modulus()) as u64,
        s[0],
        s[1],
        s[2],
        ((h_prime + s[3]) % word_modulus()) as u64,
        s[4],
        s[5],
        s[6],
    ]
}

/// The first `n` rounds, with round constants `ks` and message words `ws`.
pub open spec fn rounds_spec(s: Seq<u64>, ks: Seq<u64>, ws: Seq<u64>, n: nat) -> Seq<u64>
    decreases n,
{
    if n == 0 {
        s
    } else {
        round_spec(rounds_spec(s, ks, ws, (n - 1) as nat), ks[n - 1], ws[n - 1])
    }
}

/// Word-wise addition modulo `2^64`: the feed-forward of a compression.
pub open spec fn add_states(x: Seq<u64>, y: Seq<u64>) -> Seq<u64> {
    seq![
        ((x[0] + y[0]) % word_modulus()) as u64,
        ((x[1] + y[1]) % word_modulus()) as u64,
        ((x[2] + y[2]) % word_modulus()) as u64,
        ((x[3] + y[3]) % word_modulus()) as u64,
        ((x[4] + y[4]) % word_modulus()) as u64,
        ((x[5] + y[5]) % word_modulus()) as u64,
        ((x[6] + y[6]) % word_modulus()) as u64,
        ((x[7] + y[7]) % word_modulus()) as u64,
    ]
}

/// The witness of a modular addition: the result's halves and the carry.
fn addition_witness(lo: u64, hi: u64) -> (r: (RoundWordDense, u64))
    requires
        lo <= 8 * 0xffff_ffff,
        hi <= 8 * 0xffff_ffff,
    ensures
        addition_holds(lo + hi * 0x1_0000_0000, r.1, r.0),
{
    let sum: u128 = lo as u128 + hi as u128 * 0x1_0000_0000;
    let carry: u64 = (sum / 0x1_0000_0000_0000_0000) as u64;
    let result = RoundWordDense::from_word((sum % 0x1_0000_0000_0000_0000) as u64);
    (result, carry)
}

/// The message words of a schedule given as halves.
pub open spec fn message_words(w: Seq<RoundWordDense>) -> Seq<u64> {
    Seq::new(w.len(), |i: int| w[i].value_spec())
}

/// The `A` slot for a word: its pieces, halves and spread halves.
pub fn round_word_a(x: u64) -> (r: RoundWordA)
    ensures
        r.wf(),
        r.dense_halves.value_spec() == x,
{
    RoundWordA::new(
        AbcdVar::decompose(x),
        RoundWordDense::from_word(x),
        RoundWordSpread::from_word(x),
    )
}

/// The `E` slot for a word: its pieces, halves and spread halves.
pub fn round_word_e(x: u64) -> (r: RoundWordE)
    ensures
        r.wf(),
        r.dense_halves.value_spec() == x,
{
    RoundWordE::new(
        EfghVar::decompose(x),
        RoundWordDense::from_word(x),
        RoundWordSpread::from_word(x),
    )
}

/// A `B, C, F, G` slot for a word: its halves and spread halves.
pub fn round_word(x: u64) -> (r: RoundWord)
    ensures
        r.wf(),
        r.dense_halves.value_spec() == x,
{
    RoundWord::new(RoundWordDense::from_word(x), RoundWordSpread::from_word(x))
}

/// A state ready for a round, holding the given words.
pub fn state_from_words(
    a: u64,
    b: u64,
    c: u64,
    d: u64,
    e: u64,
    f: u64,
    g: u64,
    h: u64,
) -> (r: State)
    ensures
        r.wf(),
        r.is_full(),
        r.words() == seq![a, b, c, d, e, f, g, h],
{
    proof {
        reveal(State::wf);
    }
    let r = State::new(
        StateWord::A(round_word_a(a)),
        StateWord::B(round_word(b)),
        StateWord::C(round_word(c)),
        StateWord::D(RoundWordDense::from_word(d)),
        StateWord::E(round_word_e(e)),
        StateWord::F(round_word(f)),
        StateWord::G(round_word(g)),
        StateWord::H(RoundWordDense::from_word(h)),
    );
    assert(r.words() =~= seq![a, b, c, d, e, f, g, h]);
    r
}

/// The word in a slot of a full state.
fn slot_value(w: &Option<StateWord>) -> (r: u64)
    requires
        w is Some,
    ensures
        r == w.unwrap().value(),
{
    match w {
        Some(sw) => sw.dense_halves().value(),
        None => unreached(),
    }
}

/// The slots of a state ready for a round, each with the forms it carries.
pub struct Slots {
    pub a: RoundWordA,
    pub b: RoundWord,
    pub c: RoundWord,
    pub d: RoundWordDense,
    pub e: RoundWordE,
    pub f: RoundWord,
    pub g: RoundWord,
    pub h: RoundWordDense,
}

impl Slots {
    /// Every slot carries the forms it needs, in agreement.
    #[verifier::opaque]
    pub open spec fn wf(&self) -> bool {
        &&& self.a.wf()
        &&& self.b.wf()
        &&& self.c.wf()
        &&& self.e.wf()
        &&& self.f.wf()
        &&& self.g.wf()
    }

    /// The eight words, `A` first.
    pub open spec fn words(&self) -> Seq<u64> {
        seq![
            self.a.dense_halves.value_spec(),
            self.b.dense_halves.value_spec(),
            self.c.dense_halves.value_spec(),
            self.d.value_spec(),
            self.e.dense_halves.value_spec(),
            self.f.dense_halves.value_spec(),
            self.g.dense_halves.value_spec(),
            self.h.value_spec(),
        ]
    }
}

/// Takes a state ready for a round apart into its slots.
fn slots_of(state: &State) -> (r: Slots)
    requires
        state.wf(),
    ensures
        r.wf(),
        r.words() == state.words(),
{
    proof {
        reveal(Slots::wf);
    }
    proof {
        reveal(State::wf);
    }
    let r = Slots {
        a: match state.a {
            Some(StateWord::A(x)) => x,
            _ => unreached(),
        },
        b: match state.b {
            Some(StateWord::B(x)) => x,
            _ => unreached(),
        },
        c: match state.c {
            Some(StateWord::C(x)) => x,
            _ => unreached(),
        },
        d: match state.d {
            Some(StateWord::D(x)) => x,
            _ => unreached(),
        },
        e: match state.e {
            Some(StateWord::E(x)) => x,
            _ => unreached(),
        },
        f: match state.f {
            Some(StateWord::F(x)) => x,
            _ => unreached(),
        },
        g: match state.g {
            Some(StateWord::G(x)) => x,
            _ => unreached(),
        },
        h: match state.h {
            Some(StateWord::H(x)) => x,
            _ => unreached(),
        },
    };
    assert(r.words() =~= state.words());
    r
}

/// Puts slots together into a state ready for a round.
fn state_of(s: Slots) -> (r: State)
    requires
        s.wf(),
    ensures
        r.wf(),
        r.is_full(),
        r.words() == s.words(),
{
    proof {
        reveal(Slots::wf);
    }
    proof {
        reveal(State::wf);
    }
    let r = State::new(
        StateWord::A(s.a),
        StateWord::B(s.b),
        StateWord::C(s.c),
        StateWord::D(s.d),
        StateWord::E(s.e),
        StateWord::F(s.f),
        StateWord::G(s.g),
        StateWord::H(s.h),
    );
    assert(r.words() =~= s.words());
    r
}

/// A dense cell pair read from a spread cell pair by the spread table.
pub open spec fn reads(dense: RoundWordDense, spread: RoundWordSpread) -> bool {
    &&& dense.0 == despread(spread.0 as nat, 32)
    &&& dense.1 == despread(spread.1 as nat, 32)
}

/// The spread cells one round assigns, with the dense cells read from them.
#[derive(Clone, Copy, Debug)]
pub struct SpreadCells {
    pub sigma_e_even: RoundWordSpread,
    pub sigma_e_odd: RoundWordSpread,
    pub p_even: RoundWordSpread,
    pub p_odd: RoundWordSpread,
    pub e_neg: RoundWordSpread,
    pub q_even: RoundWordSpread,
    pub q_odd: RoundWordSpread,
    pub m_even: RoundWordSpread,
    pub m_odd: RoundWordSpread,
    pub sigma_a_even: RoundWordSpread,
    pub sigma_a_odd: RoundWordSpread,
    pub sigma_e: RoundWordDense,
    pub ch: RoundWordDense,
    pub ch_neg: RoundWordDense,
    pub maj: RoundWordDense,
    pub sigma_a: RoundWordDense,
}

impl SpreadCells {
    /// The `Σ1`, choice, majority and `Σ0` gates hold on these cells and the
    /// slots' cells, and each dense cell is the table's reading of its
    /// spread cell.
    #[verifier::opaque]
    pub open spec fn holds(&self, s: Slots) -> bool {
        let e_spread = s.e.spread_halves.unwrap();
        &&& upper_sigma_1_holds(self.sigma_e_even, self.sigma_e_odd, s.e.pieces.unwrap())
        &&& ch_holds(self.p_even, self.p_odd, e_spread, s.f.spread_halves)
        &&& ch_neg_holds(self.q_even, self.q_odd, e_spread, self.e_neg, s.g.spread_halves)
        &&& maj_holds(
            self.m_even,
            self.m_odd,
            s.a.spread_halves.unwrap(),
            s.b.spread_halves,
            s.c.spread_halves,
        )
        &&& upper_sigma_0_holds(self.sigma_a_even, self.sigma_a_odd, s.a.pieces.unwrap())
        &&& reads(self.sigma_e, self.sigma_e_even)
        &&& reads(self.ch, self.p_odd)
        &&& reads(self.ch_neg, self.q_odd)
        &&& reads(self.maj, self.m_odd)
        &&& reads(self.sigma_a, self.sigma_a_even)
    }
}

/// The addition cells one round assigns: the constant, each sum and its carry.
#[derive(Clone, Copy, Debug)]
pub struct SumCells {
    pub k: RoundWordDense,
    pub h_prime: RoundWordDense,
    pub h_prime_carry: u64,
    pub a_new: RoundWordDense,
    pub a_new_carry: u64,
    pub e_new: RoundWordDense,
    pub e_new_carry: u64,
}

impl SumCells {
    /// The constant cell holds `k`, and the `H'`, `A_new` and `E_new` gates
    /// hold on these cells, the spread cells' readings and the slots' cells.
    #[verifier::opaque]
    pub open spec fn holds(&self, s: Slots, c: SpreadCells, k: u64, w: RoundWordDense) -> bool {
        &&& self.k.value_spec() == k
        &&& h_prime_holds(self.h_prime, self.h_prime_carry, c.sigma_e, c.ch, c.ch_neg, s.h, self.k, w)
        &&& a_new_holds(self.a_new, self.a_new_carry, c.sigma_a, c.maj, self.h_prime)
        &&& e_new_holds(self.e_new, self.e_new_carry, s.d, self.h_prime)
    }
}

/// The cells one round assigns besides the state words.
#[derive(Clone, Copy, Debug)]
pub struct RoundWitness {
    pub spread: SpreadCells,
    pub sums: SumCells,
}

impl RoundWitness {
    /// Every gate of the round holds.
    pub open spec fn gates_hold(&self, s: Slots, k: u64, w: RoundWordDense) -> bool {
        self.spread.holds(s) && self.sums.holds(s, self.spread, k, w)
    }
}

/// Assigns the spread cells of one round. They pass their gates.
fn spread_cells(s: &Slots) -> (r: SpreadCells)
    requires
        s.wf(),
    ensures
        r.holds(*s),
{
    proof {
        reveal(Slots::wf);
    }
    let a_spread = s.a.spread_halves.unwrap();
    let e_spread = s.e.spread_halves.unwrap();
    proof {
        lemma_spread_halves_bound(a_spread);
        lemma_spread_halves_bound(s.b.spread_halves);
        lemma_spread_halves_bound(s.c.spread_halves);
        lemma_spread_halves_bound(e_spread);
        lemma_spread_halves_bound(s.f.spread_halves);
        lemma_spread_halves_bound(s.g.spread_halves);
    }
    let (sigma_e_even, sigma_e_odd) = even_odd_witness(s.e.pieces.unwrap().xor_upper_sigma());
    let (p_even, p_odd) = even_odd_witness(e_spread.value() + s.f.spread_halves.value());
    let e_neg = negate_spread(&e_spread);
    proof {
        lemma_spread_halves_bound(e_neg);
    }
    let (q_even, q_odd) = even_odd_witness(e_neg.value() + s.g.spread_halves.value());
    let (m_even, m_odd) = even_odd_witness(
        a_spread.value() + s.b.spread_halves.value() + s.c.spread_halves.value(),
    );
    let (sigma_a_even, sigma_a_odd) = even_odd_witness(s.a.pieces.unwrap().xor_upper_sigma());
    let r = SpreadCells {
        sigma_e_even,
        sigma_e_odd,
        p_even,
        p_odd,
        e_neg,
        q_even,
        q_odd,
        m_even,
        m_odd,
        sigma_a_even,
        sigma_a_odd,
        sigma_e: sigma_e_even.dense(),
        ch: p_odd.dense(),
        ch_neg: q_odd.dense(),
        maj: m_odd.dense(),
        sigma_a: sigma_a_even.dense(),
    };
    proof {
        reveal(SpreadCells::holds);
    }
    r
}

/// Assigns the addition cells of one round. They pass their gates.
fn sum_cells(s: &Slots, c: &SpreadCells, k: u64, w: &RoundWordDense) -> (r: SumCells)
    ensures
        r.holds(*s, *c, k, *w),
{
    let k_halves = RoundWordDense::from_word(k);
    let (h_prime, h_prime_carry) = addition_witness(
        s.h.0 as u64 + c.ch.0 as u64 + c.ch_neg.0 as u64 + c.sigma_e.0 as u64 + k_halves.0 as u64
            + w.0 as u64,
        s.h.1 as u64 + c.ch.1 as u64 + c.ch_neg.1 as u64 + c.sigma_e.1 as u64 + k_halves.1 as u64
            + w.1 as u64,
    );
    let (a_new, a_new_carry) = addition_witness(
        c.sigma_a.0 as u64 + c.maj.0 as u64 + h_prime.0 as u64,
        c.sigma_a.1 as u64 + c.maj.1 as u64 + h_prime.1 as u64,
    );
    let (e_new, e_new_carry) = addition_witness(
        h_prime.0 as u64 + s.d.0 as u64,
        h_prime.1 as u64 + s.d.1 as u64,
    );
    proof {
        reveal(SumCells::holds);
        reveal_with_fuel(halves_sum, 7);
    }
    SumCells { k: k_halves, h_prime, h_prime_carry, a_new, a_new_carry, e_new, e_new_carry }
}

/// Assigns the cells of one round. They pass every gate of the round.
pub fn round_witness(s: &Slots, k: u64, w: &RoundWordDense) -> (r: RoundWitness)
    requires
        s.wf(),
    ensures
        r.gates_hold(*s, k, *w),
{
    let spread = spread_cells(s);
    let sums = sum_cells(s, &spread, k, w);
    RoundWitness { spread, sums }
}

/// A dense reading of a valid spread pair is the word that pair stands for.
proof fn lemma_reads(dense: RoundWordDense, spread: RoundWordSpread)
    requires
        spread.valid(),
        reads(dense, spread),
    ensures
        dense.value_spec() == spread.dense_spec(),
{
    spread.lemma_valid();
}

/// `Σ1(E)` and `Σ0(A)` read from their gates.
proof fn lemma_sigma_cells_sound(s: Slots, c: SpreadCells)
    requires
        s.wf(),
        c.holds(s),
    ensures
        c.sigma_e.value_spec() == upper_sigma_1(s.words()[4]),
        c.sigma_a.value_spec() == upper_sigma_0(s.words()[0]),
{
    reveal(Slots::wf);
    reveal(SpreadCells::holds);
    lemma_upper_sigma_1_sound(c.sigma_e_even, c.sigma_e_odd, s.e.pieces.unwrap());
    lemma_upper_sigma_0_sound(c.sigma_a_even, c.sigma_a_odd, s.a.pieces.unwrap());
    lemma_reads(c.sigma_e, c.sigma_e_even);
    lemma_reads(c.sigma_a, c.sigma_a_even);
}

/// The two halves of `Ch(E, F, G)` and `Maj(A, B, C)` read from their gates.
proof fn lemma_choice_cells_sound(s: Slots, c: SpreadCells)
    requires
        s.wf(),
        c.holds(s),
    ensures
        c.ch.value_spec() + c.ch_neg.value_spec() == ch(s.words()[4], s.words()[5], s.words()[6]),
        c.maj.value_spec() == maj(s.words()[0], s.words()[1], s.words()[2]),
{
    reveal(Slots::wf);
    reveal(SpreadCells::holds);
    lemma_choice_sound(
        c.p_even,
        c.p_odd,
        c.q_even,
        c.q_odd,
        s.e.spread_halves.unwrap(),
        c.e_neg,
        s.f.spread_halves,
        s.g.spread_halves,
    );
    lemma_maj_sound(
        c.m_even,
        c.m_odd,
        s.a.spread_halves.unwrap(),
        s.b.spread_halves,
        s.c.spread_halves,
    );
    lemma_reads(c.ch, c.p_odd);
    lemma_reads(c.ch_neg, c.q_odd);
    lemma_reads(c.maj, c.m_odd);
}

/// The round read from its gates: wherever every gate of a round holds, the
/// new `A` and `E` are those of one SHA-512 round.
#[verifier::rlimit(30)]
pub proof fn lemma_round_sound(s: Slots, k: u64, w: RoundWordDense, r: RoundWitness)
    requires
        s.wf(),
        r.gates_hold(s, k, w),
    ensures
        r.sums.a_new.value_spec() == round_spec(s.words(), k, w.value_spec())[0],
        r.sums.e_new.value_spec() == round_spec(s.words(), k, w.value_spec())[4],
{
    let c = r.spread;
    let t = r.sums;
    lemma_sigma_cells_sound(s, c);
    lemma_choice_cells_sound(s, c);
    reveal(SumCells::holds);
    lemma_h_prime_carry(t.h_prime, t.h_prime_carry, c.sigma_e, c.ch, c.ch_neg, s.h, t.k, w);
    lemma_a_new_carry(t.a_new, t.a_new_carry, c.sigma_a, c.maj, t.h_prime);
    lemma_e_new_carry(t.e_new, t.e_new_carry, s.d, t.h_prime);
}

/// The slots after a round with new words `a_new` and `e_new`: every other
/// word moves one slot on with the forms it already carries, and only the
/// new `A` and `E` are decomposed.
fn next_slots(s: &Slots, a_new: u64, e_new: u64) -> (r: Slots)
    requires
        s.wf(),
    ensures
        r.wf(),
        r.words() == seq![
            a_new,
            s.words()[0],
            s.words()[1],
            s.words()[2],
            e_new,
            s.words()[4],
            s.words()[5],
            s.words()[6],
        ],
{
    proof {
        reveal(Slots::wf);
    }
    let r = Slots {
        a: round_word_a(a_new),
        b: RoundWord::new(s.a.dense_halves, s.a.spread_halves.unwrap()),
        c: s.b,
        d: s.c.dense_halves,
        e: round_word_e(e_new),
        f: RoundWord::new(s.e.dense_halves, s.e.spread_halves.unwrap()),
        g: s.f,
        h: s.g.dense_halves,
    };
    assert(r.words() =~= seq![
        a_new,
        s.words()[0],
        s.words()[1],
        s.words()[2],
        e_new,
        s.words()[4],
        s.words()[5],
        s.words()[6],
    ]);
    r
}

/// One round: from the state, the round constant and the message word, the
/// next state.
pub fn assign_round(state: &State, k: u64, w: &RoundWordDense) -> (r: State)
    requires
        state.wf(),
    ensures
        r.wf(),
        r.is_full(),
        r.words() == round_spec(state.words(), k, w.value_spec()),
{
    let s = slots_of(state);
    let cells = round_witness(&s, k, w);
    proof {
        lemma_round_sound(s, k, *w, cells);
    }
    let next = next_slots(&s, cells.sums.a_new.value(), cells.sums.e_new.value());
    assert(next.words() =~= round_spec(state.words(), k, w.value_spec()));
    state_of(next)
}

/// The round constants as a sequence.
pub open spec fn round_constants() -> Seq<u64> {
    ROUND_CONSTANTS@
}

/// Initializes compression with a constant initialization vector.
pub fn initialize_with_iv(init_state: [u64; STATE]) -> (r: State)
    ensures
        r.wf(),
        r.is_full(),
        r.words() == init_state@,
{
    let r = state_from_words(
        init_state[0],
        init_state[1],
        init_state[2],
        init_state[3],
        init_state[4],
        init_state[5],
        init_state[6],
        init_state[7],
    );
    assert(r.words() =~= init_state@);
    r
}

/// Initializes compression with a full state, such as the output of an
/// earlier compression: each word is given again the forms its slot needs.
pub fn initialize_with_state(init_state: &State) -> (r: State)
    requires
        init_state.is_full(),
    ensures
        r.wf(),
        r.is_full(),
        r.words() == init_state.words(),
{
    state_from_words(
        slot_value(&init_state.a),
        slot_value(&init_state.b),
        slot_value(&init_state.c),
        slot_value(&init_state.d),
        slot_value(&init_state.e),
        slot_value(&init_state.f),
        slot_value(&init_state.g),
        slot_value(&init_state.h),
    )
}

/// Given an initialized state and a message schedule of 80 words, performs
/// the 80 rounds and adds the result word-wise to the initialized state.
#[verifier::rlimit(30)]
pub fn compress(initialized_state: &State, w_halves: &Vec<RoundWordDense>) -> (r: State)
    requires
        initialized_state.wf(),
        w_halves@.len() == ROUNDS,
    ensures
        r.wf(),
        r.is_full(),
        r.words() == add_states(
            initialized_state.words(),
            rounds_spec(initialized_state.words(), round_constants(), message_words(w_halves@), 80),
        ),
{
    let mut state = *initialized_state;
    let mut idx: usize = 0;
    while idx < ROUNDS
        invariant
            idx <= ROUNDS,
            w_halves@.len() == ROUNDS,
            state.wf(),
            state.words() == rounds_spec(
                initialized_state.words(),
                round_constants(),
                message_words(w_halves@),
                idx as nat,
            ),
        decreases ROUNDS - idx,
    {
        state = assign_round(&state, ROUND_CONSTANTS[idx], &w_halves[idx]);
        idx = idx + 1;
    }
    proof {
        initialized_state.lemma_wf_full();
        state.lemma_wf_full();
    }
    feed_forward(initialized_state, &state)
}

/// Adds two words modulo `2^64`.
fn add_mod(x: u64, y: u64) -> (r: u64)
    ensures
        r == (x + y) % word_modulus(),
{
    let sum: u128 = x as u128 + y as u128;
    (sum % 0x1_0000_0000_0000_0000) as u64
}

/// Adds two full states word-wise modulo `2^64`.
fn feed_forward(x: &State, y: &State) -> (r: State)
    requires
        x.is_full(),
        y.is_full(),
    ensures
        r.wf(),
        r.is_full(),
        r.words() == add_states(x.words(), y.words()),
{
    let xs = digest(x);
    let ys = digest(y);
    let a = add_mod(xs[0], ys[0]);
    let b = add_mod(xs[1], ys[1]);
    let c = add_mod(xs[2], ys[2]);
    let d = add_mod(xs[3], ys[3]);
    let e = add_mod(xs[4], ys[4]);
    let f = add_mod(xs[5], ys[5]);
    let g = add_mod(xs[6], ys[6]);
    let h = add_mod(xs[7], ys[7]);
    let r = state_from_words(a, b, c, d, e, f, g, h);
    r
}

/// Reads the eight words out of a full state, each from its halves.
pub fn digest(state: &State) -> (r: [u64; STATE])
    requires
        state.is_full(),
    ensures
        r@ == state.words(),
{
    let r = [
        slot_value(&state.a),
        slot_value(&state.b),
        slot_value(&state.c),
        slot_value(&state.d),
        slot_value(&state.e),
        slot_value(&state.f),
        slot_value(&state.g),
        slot_value(&state.h),
    ];
    assert(r@ =~= state.words());
    r
}

} // verus!
