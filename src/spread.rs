//! Spread encoding: an `n`-bit value re-encoded over `2n` bits, each source
//! bit at an even position and every odd position zero.

use vstd::arithmetic::div_mod::*;
use vstd::arithmetic::power2::*;
use vstd::bits::*;
use vstd::prelude::*;

verus! {

/// The low `n` bits of `x`, least significant first.
pub open spec fn bits_of(x: nat, n: nat) -> Seq<bool>
    decreases n,
{
    if n == 0 {
        Seq::empty()
    } else {
        seq![x % 2 == 1] + bits_of(x / 2, (n - 1) as nat)
    }
}

pub open spec fn bit_value(b: bool) -> nat {
    if b { 1 } else { 0 }
}

/// The value of a little-endian bit string: bit `i` weighs `2^i`.
pub open spec fn dense_value(b: Seq<bool>) -> nat
    decreases b.len(),
{
    if b.len() == 0 {
        0
    } else {
        bit_value(b[0]) + 2 * dense_value(b.drop_first())
    }
}

/// The spread value of a little-endian bit string: bit `i` weighs `4^i`.
pub open spec fn spread_value(b: Seq<bool>) -> nat
    decreases b.len(),
{
    if b.len() == 0 {
        0
    } else {
        bit_value(b[0]) + 4 * spread_value(b.drop_first())
    }
}

/// The spread form of the low `n` bits of `x`.
pub open spec fn spread(x: nat, n: nat) -> nat {
    spread_value(bits_of(x, n))
}

/// The `n` bits found at the even positions of `s`.
pub open spec fn even_bits(s: nat, n: nat) -> Seq<bool>
    decreases n,
{
    if n == 0 {
        Seq::empty()
    } else {
        seq![s % 2 == 1] + even_bits(s / 4, (n - 1) as nat)
    }
}

/// The `n` bits found at the odd positions of `s`.
pub open spec fn odd_bits(s: nat, n: nat) -> Seq<bool> {
    even_bits(s / 2, n)
}

/// Reads the `n` even-position bits of `s` back as a dense value.
pub open spec fn despread(s: nat, n: nat) -> nat {
    dense_value(even_bits(s, n))
}

/// `s` is exactly the spread form of some `n`-bit value.
pub open spec fn is_spread(s: nat, n: nat) -> bool {
    s == spread(despread(s, n), n)
}

proof fn lemma_drop_first_cons(b: bool, s: Seq<bool>)
    ensures
        (seq![b] + s).drop_first() == s,
        (seq![b] + s)[0] == b,
        (seq![b] + s).len() == s.len() + 1,
{
    assert((seq![b] + s).drop_first() =~= s);
}

pub proof fn lemma_bits_of_len(x: nat, n: nat)
    ensures
        bits_of(x, n).len() == n,
    decreases n,
{
    if n > 0 {
        lemma_bits_of_len(x / 2, (n - 1) as nat);
    }
}

pub proof fn lemma_even_bits_len(s: nat, n: nat)
    ensures
        even_bits(s, n).len() == n,
    decreases n,
{
    if n > 0 {
        lemma_even_bits_len(s / 4, (n - 1) as nat);
    }
}

/// Reading the bits of `x` back gives `x` modulo `2^n`.
pub proof fn lemma_dense_bits_of(x: nat, n: nat)
    ensures
        dense_value(bits_of(x, n)) == x % pow2(n),
    decreases n,
{
    lemma_pow2_pos(n);
    if n == 0 {
        lemma2_to64();
    } else {
        let m = (n - 1) as nat;
        lemma_drop_first_cons(x % 2 == 1, bits_of(x / 2, m));
        lemma_dense_bits_of(x / 2, m);
        lemma_pow2_unfold(n);
        lemma_pow2_pos(m);
        lemma_mod_breakdown(x as int, 2, pow2(m) as int);
    }
}

proof fn lemma_digit(d: nat, r: nat)
    requires
        d < 2,
    ensures
        (d + 4 * r) % 2 == d,
        (d + 4 * r) / 4 == r,
        (d + 4 * r) / 2 == 2 * r,
{
    assert((d + 4 * r) % 2 == d) by (nonlinear_arith)
        requires
            d < 2,
    ;
    assert((d + 4 * r) / 4 == r) by (nonlinear_arith)
        requires
            d < 2,
    ;
    assert((d + 4 * r) / 2 == 2 * r) by (nonlinear_arith)
        requires
            d < 2,
    ;
}

/// The even positions of a spread string hold the string itself.
pub proof fn lemma_even_bits_spread(b: Seq<bool>)
    ensures
        even_bits(spread_value(b), b.len()) == b,
    decreases b.len(),
{
    if b.len() > 0 {
        let rest = b.drop_first();
        let s = spread_value(b);
        lemma_even_bits_spread(rest);
        lemma_digit(bit_value(b[0]), spread_value(rest));
        lemma_drop_first_cons(s % 2 == 1, even_bits(s / 4, rest.len()));
        assert(even_bits(s, b.len()) =~= b);
    }
}

/// Despreading the spread form of an `n`-bit value gives the value back.
pub proof fn lemma_despread_spread(x: nat, n: nat)
    requires
        x < pow2(n),
    ensures
        despread(spread(x, n), n) == x,
        is_spread(spread(x, n), n),
{
    lemma_bits_of_len(x, n);
    lemma_even_bits_spread(bits_of(x, n));
    lemma_dense_bits_of(x, n);
    vstd::arithmetic::div_mod::lemma_small_mod(x, pow2(n));
}

/// For every 64-bit `x`, `despread(spread(x)) == x`.
pub proof fn lemma_spread_bijection(x: u64)
    ensures
        despread(spread(x as nat, 64), 64) == x,
{
    lemma2_to64();
    lemma_despread_spread(x as nat, 64);
}

/// A spread string of length `n` is below `4^n / 3`.
pub proof fn lemma_spread_value_bound(b: Seq<bool>)
    ensures
        3 * spread_value(b) + 1 <= pow2(2 * b.len()),
    decreases b.len(),
{
    if b.len() == 0 {
        lemma2_to64();
    } else {
        let k = (b.len() - 1) as nat;
        lemma_spread_value_bound(b.drop_first());
        lemma_pow2_adds(2, 2 * k);
        lemma2_to64();
        assert(2 * b.len() == 2 + 2 * k);
    }
}

/// A bit string of length `n` is below `2^n`.
pub proof fn lemma_dense_value_bound(b: Seq<bool>)
    ensures
        dense_value(b) < pow2(b.len()),
    decreases b.len(),
{
    if b.len() == 0 {
        lemma2_to64();
    } else {
        lemma_dense_value_bound(b.drop_first());
        lemma_pow2_unfold(b.len());
    }
}

proof fn lemma_spread_zero_width(x: nat)
    ensures
        spread(x, 0) == 0,
        despread(x, 0) == 0,
{
    assert(bits_of(x, 0) =~= Seq::<bool>::empty());
    assert(even_bits(x, 0) =~= Seq::<bool>::empty());
}

proof fn lemma_pow2_128()
    ensures
        pow2(128) == 0x1_0000_0000_0000_0000_0000_0000_0000_0000,
        pow2(64) == 0x1_0000_0000_0000_0000,
        pow2(32) == 0x1_0000_0000,
{
    lemma2_to64();
    lemma_pow2_adds(64, 64);
}

proof fn lemma_div_pow2_step(x: nat, i: nat)
    ensures
        x / pow2(i) / 2 == x / pow2(i + 1),
        x / pow2(2 * i) / 4 == x / pow2(2 * (i + 1)),
{
    lemma_pow2_pos(i);
    lemma_pow2_pos(2 * i);
    lemma_pow2_unfold(i + 1);
    lemma_div_denominator(x as int, pow2(i) as int, 2);
    lemma_pow2_adds(2 * i, 2);
    lemma2_to64();
    assert(2 * (i + 1) == 2 * i + 2);
    lemma_div_denominator(x as int, pow2(2 * i) as int, 4);
}

/// The spread form of the low `n` bits of `x`.
pub fn spread_bits(x: u64, n: u32) -> (r: u128)
    requires
        n <= 64,
    ensures
        r == spread(x as nat, n as nat),
{
    let mut res: u128 = 0;
    let mut i: u32 = n;
    proof {
        lemma_pow2_128();
        lemma_spread_zero_width(x as nat / pow2(n as nat));
    }
    while i > 0
        invariant
            i <= n <= 64,
            res == spread(x as nat / pow2(i as nat), (n - i) as nat),
            pow2(128) == 0x1_0000_0000_0000_0000_0000_0000_0000_0000,
        decreases i,
    {
        i = i - 1;
        let y: u64 = x >> (i as u64);
        let bit: u64 = y & 1;
        proof {
            let k = (n - i - 1) as nat;
            lemma_u64_shr_is_div(x, i as u64);
            assert(y & 1 == y % 2) by (bit_vector);
            lemma_div_pow2_step(x as nat, i as nat);
            lemma_bits_of_len(y as nat / 2, k);
            lemma_spread_value_bound(bits_of(y as nat / 2, k));
            if 2 * k < 126 {
                lemma_pow2_strictly_increases(2 * k, 126);
            }
            lemma_pow2_adds(2 * k, 2);
            lemma2_to64();
            lemma_drop_first_cons(y % 2 == 1, bits_of(y as nat / 2, k));
            assert(y as nat / 2 == x as nat / pow2((i + 1) as nat));
            assert(res == spread_value(bits_of(y as nat / 2, k)));
            lemma_pow2_adds(126, 2);
            assert(res < pow2(126));
        }
        res = 4 * res + bit as u128;
    }
    proof {
        lemma2_to64();
        assert(x as nat / pow2(0) == x);
    }
    res
}

/// The dense value held at the `n` even positions of `s`.
pub fn despread_bits(s: u128, n: u32) -> (r: u64)
    requires
        n <= 64,
    ensures
        r == despread(s as nat, n as nat),
{
    let mut res: u64 = 0;
    let mut i: u32 = n;
    proof {
        lemma_pow2_128();
        lemma_spread_zero_width(s as nat / pow2(2 * n as nat));
    }
    while i > 0
        invariant
            i <= n <= 64,
            res == despread(s as nat / pow2(2 * i as nat), (n - i) as nat),
            pow2(64) == 0x1_0000_0000_0000_0000,
        decreases i,
    {
        i = i - 1;
        let y: u128 = s >> ((2 * i) as u128);
        let bit: u128 = y & 1;
        proof {
            let k = (n - i - 1) as nat;
            lemma_u128_shr_is_div(s, (2 * i) as u128);
            assert(y & 1 == y % 2) by (bit_vector);
            lemma_div_pow2_step(s as nat, i as nat);
            lemma_even_bits_len(y as nat / 4, k);
            lemma_dense_value_bound(even_bits(y as nat / 4, k));
            if k < 63 {
                lemma_pow2_strictly_increases(k, 63);
            }
            lemma_pow2_unfold(k + 1);
            lemma2_to64();
            lemma_drop_first_cons(y % 2 == 1, even_bits(y as nat / 4, k));
            assert(y as nat / 4 == s as nat / pow2(2 * (i + 1) as nat));
            assert(res == dense_value(even_bits(y as nat / 4, k)));
            lemma_pow2_adds(63, 1);
            assert(res < pow2(63));
        }
        res = 2 * res + bit as u64;
    }
    proof {
        lemma2_to64();
        assert(s as nat / pow2(0) == s);
    }
    res
}

/// Bitwise exclusive or of three equally long bit strings.
pub open spec fn xor3_bits(a: Seq<bool>, b: Seq<bool>, c: Seq<bool>) -> Seq<bool> {
    Seq::new(a.len(), |i: int| a[i] ^ b[i] ^ c[i])
}

/// Bitwise majority of three equally long bit strings.
pub open spec fn maj3_bits(a: Seq<bool>, b: Seq<bool>, c: Seq<bool>) -> Seq<bool> {
    Seq::new(a.len(), |i: int| (a[i] && b[i]) || (a[i] && c[i]) || (b[i] && c[i]))
}

/// Bitwise exclusive or of two equally long bit strings.
pub open spec fn xor_bits(a: Seq<bool>, b: Seq<bool>) -> Seq<bool> {
    Seq::new(a.len(), |i: int| a[i] ^ b[i])
}

/// Bitwise and of two equally long bit strings.
pub open spec fn and_bits(a: Seq<bool>, b: Seq<bool>) -> Seq<bool> {
    Seq::new(a.len(), |i: int| a[i] && b[i])
}

/// Bitwise complement of a bit string.
pub open spec fn not_bits(a: Seq<bool>) -> Seq<bool> {
    Seq::new(a.len(), |i: int| !a[i])
}

/// The bit string rotated right by `k` places: bit `i` of the result is bit
/// `i + k` (modulo the length) of `s`.
pub open spec fn rotr_bits(s: Seq<bool>, k: int) -> Seq<bool> {
    s.subrange(k, s.len() as int) + s.subrange(0, k)
}

proof fn lemma_digit4(e: nat, o: nat, r: nat)
    requires
        e < 2,
        o < 2,
    ensures
        (e + 2 * o + 4 * r) % 2 == e,
        (e + 2 * o + 4 * r) / 4 == r,
        (e + 2 * o + 4 * r) / 2 == o + 2 * r,
        (o + 2 * r) % 2 == o,
        (o + 2 * r) / 4 == r / 2,
{
    assert((e + 2 * o + 4 * r) % 2 == e) by (nonlinear_arith)
        requires
            e < 2,
            o < 2,
    ;
    assert((e + 2 * o + 4 * r) / 4 == r) by (nonlinear_arith)
        requires
            e < 2,
            o < 2,
    ;
    assert((e + 2 * o + 4 * r) / 2 == o + 2 * r) by (nonlinear_arith)
        requires
            e < 2,
            o < 2,
    ;
    assert((o + 2 * r) % 2 == o) by (nonlinear_arith)
        requires
            o < 2,
    ;
    assert((o + 2 * r) / 4 == r / 2) by (nonlinear_arith)
        requires
            o < 2,
    ;
}

/// A sum `spread(e) + 2 * spread(o)` keeps `e` at its even positions and
/// `o` at its odd positions.
pub proof fn lemma_even_odd(e: Seq<bool>, o: Seq<bool>)
    requires
        e.len() == o.len(),
    ensures
        even_bits(spread_value(e) + 2 * spread_value(o), e.len()) == e,
        odd_bits(spread_value(e) + 2 * spread_value(o), e.len()) == o,
    decreases e.len(),
{
    let n = e.len();
    if n > 0 {
        let e1 = e.drop_first();
        let o1 = o.drop_first();
        let s = spread_value(e) + 2 * spread_value(o);
        let r = spread_value(e1) + 2 * spread_value(o1);
        lemma_even_odd(e1, o1);
        assert(s == bit_value(e[0]) + 2 * bit_value(o[0]) + 4 * r);
        lemma_digit4(bit_value(e[0]), bit_value(o[0]), r);
        lemma_drop_first_cons(s % 2 == 1, even_bits(s / 4, (n - 1) as nat));
        lemma_drop_first_cons((s / 2) % 2 == 1, even_bits((s / 2) / 4, (n - 1) as nat));
        assert(even_bits(s, n) =~= e);
        assert(odd_bits(s, n) =~= o);
    } else {
        assert(even_bits(spread_value(e) + 2 * spread_value(o), 0) =~= e);
        assert(odd_bits(spread_value(e) + 2 * spread_value(o), 0) =~= o);
    }
}

/// Two sums of the shape `spread(e) + 2 * spread(o)` agree only when both
/// halves agree.
pub proof fn lemma_even_odd_unique(e1: Seq<bool>, o1: Seq<bool>, e2: Seq<bool>, o2: Seq<bool>)
    requires
        e1.len() == o1.len() == e2.len() == o2.len(),
        spread_value(e1) + 2 * spread_value(o1) == spread_value(e2) + 2 * spread_value(o2),
    ensures
        e1 == e2,
        o1 == o2,
{
    lemma_even_odd(e1, o1);
    lemma_even_odd(e2, o2);
}

/// The spread value of a concatenation.
pub proof fn lemma_spread_concat(a: Seq<bool>, b: Seq<bool>)
    ensures
        spread_value(a + b) == spread_value(a) + pow2(2 * a.len()) * spread_value(b),
    decreases a.len(),
{
    if a.len() == 0 {
        assert(a + b =~= b);
        lemma2_to64();
    } else {
        let a1 = a.drop_first();
        assert((a + b).drop_first() =~= a1 + b);
        lemma_spread_concat(a1, b);
        lemma_pow2_adds(2, 2 * a1.len());
        lemma2_to64();
        assert(2 * a.len() == 2 + 2 * a1.len());
        let p = pow2(2 * a1.len());
        assert(4 * (spread_value(a1) + p * spread_value(b)) == 4 * spread_value(a1) + (4 * p)
            * spread_value(b)) by (nonlinear_arith);
    }
}

/// The dense value of a concatenation.
pub proof fn lemma_dense_concat(a: Seq<bool>, b: Seq<bool>)
    ensures
        dense_value(a + b) == dense_value(a) + pow2(a.len()) * dense_value(b),
    decreases a.len(),
{
    if a.len() == 0 {
        assert(a + b =~= b);
        lemma2_to64();
    } else {
        let a1 = a.drop_first();
        assert((a + b).drop_first() =~= a1 + b);
        lemma_dense_concat(a1, b);
        lemma_pow2_unfold(a.len());
        let p = pow2(a1.len());
        assert(2 * (dense_value(a1) + p * dense_value(b)) == 2 * dense_value(a1) + (2 * p)
            * dense_value(b)) by (nonlinear_arith);
    }
}

/// The low `n + m` bits of `x` are its low `n` bits followed by the low `m`
/// bits of `x / 2^n`.
pub proof fn lemma_bits_of_split(x: nat, n: nat, m: nat)
    ensures
        bits_of(x, n + m) == bits_of(x % pow2(n), n) + bits_of(x / pow2(n), m),
    decreases n,
{
    lemma_pow2_pos(n);
    if n == 0 {
        lemma2_to64();
        assert(bits_of(x % pow2(n), n) =~= Seq::<bool>::empty());
        assert(bits_of(x, n + m) =~= bits_of(x % pow2(n), n) + bits_of(x / pow2(n), m));
    } else {
        let k = (n - 1) as nat;
        lemma_pow2_pos(k);
        lemma_pow2_unfold(n);
        lemma_bits_of_split(x / 2, k, m);
        lemma_mod_breakdown(x as int, 2, pow2(k) as int);
        lemma_div_denominator(x as int, 2, pow2(k) as int);
        let y = x % pow2(n);
        assert(y == (x % 2) + 2 * ((x / 2) % pow2(k)));
        let r = (x / 2) % pow2(k);
        assert(y % 2 == x % 2 && y / 2 == r) by (nonlinear_arith)
            requires
                y == (x % 2) + 2 * r,
        ;
        assert((n + m - 1) as nat == k + m);
        assert(bits_of(x, n + m) =~= bits_of(x % pow2(n), n) + bits_of(x / pow2(n), m));
    }
}

/// Adding three spread strings: the even positions of the sum hold their
/// exclusive or, the odd positions their majority.
pub proof fn lemma_spread_sum3(a: Seq<bool>, b: Seq<bool>, c: Seq<bool>)
    requires
        a.len() == b.len() == c.len(),
    ensures
        spread_value(a) + spread_value(b) + spread_value(c) == spread_value(xor3_bits(a, b, c)) + 2
            * spread_value(maj3_bits(a, b, c)),
    decreases a.len(),
{
    if a.len() > 0 {
        let (a1, b1, c1) = (a.drop_first(), b.drop_first(), c.drop_first());
        lemma_spread_sum3(a1, b1, c1);
        assert(xor3_bits(a, b, c).drop_first() =~= xor3_bits(a1, b1, c1));
        assert(maj3_bits(a, b, c).drop_first() =~= maj3_bits(a1, b1, c1));
    }
}

/// Adding two spread strings: the even positions of the sum hold their
/// exclusive or, the odd positions their conjunction.
pub proof fn lemma_spread_sum2(a: Seq<bool>, b: Seq<bool>)
    requires
        a.len() == b.len(),
    ensures
        spread_value(a) + spread_value(b) == spread_value(xor_bits(a, b)) + 2 * spread_value(
            and_bits(a, b),
        ),
    decreases a.len(),
{
    if a.len() > 0 {
        let (a1, b1) = (a.drop_first(), b.drop_first());
        lemma_spread_sum2(a1, b1);
        assert(xor_bits(a, b).drop_first() =~= xor_bits(a1, b1));
        assert(and_bits(a, b).drop_first() =~= and_bits(a1, b1));
    }
}

/// The spread of a complement is the all-ones spread less the spread.
pub proof fn lemma_spread_not(a: Seq<bool>)
    ensures
        spread_value(a) + spread_value(not_bits(a)) == spread_value(
            Seq::new(a.len(), |i: int| true),
        ),
    decreases a.len(),
{
    if a.len() > 0 {
        let a1 = a.drop_first();
        lemma_spread_not(a1);
        assert(not_bits(a).drop_first() =~= not_bits(a1));
        assert(Seq::new(a.len(), |i: int| true).drop_first() =~= Seq::new(a1.len(), |i: int| true));
    }
}

/// Bit `i` of `bits_of(x, n)` is bit `i` of the machine word `x`.
pub proof fn lemma_bits_of_index(x: u64, n: nat, i: int)
    requires
        n <= 64,
        0 <= i < n,
    ensures
        bits_of(x as nat, n)[i] == ((x >> (i as u64)) & 1 == 1),
    decreases n,
{
    lemma_bits_of_len(x as nat, n);
    if i == 0 {
        assert((x >> 0u64) & 1 == x % 2) by (bit_vector);
        lemma_drop_first_cons(x % 2 == 1, bits_of(x as nat / 2, (n - 1) as nat));
    } else {
        let y: u64 = x / 2;
        lemma_bits_of_index(y, (n - 1) as nat, i - 1);
        let j = i as u64;
        assert((y >> ((j - 1) as u64)) == (x >> j)) by (bit_vector)
            requires
                y == x / 2,
                1 <= j < 64,
        ;
        lemma_drop_first_cons(x % 2 == 1, bits_of(x as nat / 2, (n - 1) as nat));
    }
}

/// A bit string is the bit decomposition of its own dense value.
pub proof fn lemma_bits_of_dense(b: Seq<bool>)
    ensures
        bits_of(dense_value(b), b.len()) == b,
    decreases b.len(),
{
    if b.len() > 0 {
        let rest = b.drop_first();
        lemma_bits_of_dense(rest);
        let v = dense_value(b);
        let r = dense_value(rest);
        let d = bit_value(b[0]);
        assert(v % 2 == d && v / 2 == r) by (nonlinear_arith)
            requires
                v == d + 2 * r,
                d < 2,
        ;
        lemma_drop_first_cons(v % 2 == 1, bits_of(v / 2, rest.len()));
        assert(bits_of(v, b.len()) =~= b);
    } else {
        assert(bits_of(dense_value(b), 0) =~= b);
    }
}

/// All bits of zero are clear, so its spread is zero at every width.
pub proof fn lemma_spread_of_zero(n: nat)
    ensures
        spread(0, n) == 0,
    decreases n,
{
    if n > 0 {
        lemma_spread_of_zero((n - 1) as nat);
        lemma_drop_first_cons(false, bits_of(0, (n - 1) as nat));
    } else {
        lemma_spread_zero_width(0);
    }
}

/// Widening past the top set bit leaves the spread form unchanged.
pub proof fn lemma_spread_width(x: nat, n: nat, m: nat)
    requires
        x < pow2(n),
        n <= m,
    ensures
        spread(x, m) == spread(x, n),
{
    let k = (m - n) as nat;
    lemma_bits_of_split(x, n, k);
    lemma_pow2_pos(n);
    vstd::arithmetic::div_mod::lemma_small_mod(x, pow2(n));
    assert(x / pow2(n) == 0) by {
        vstd::arithmetic::div_mod::lemma_basic_div(x as int, pow2(n) as int);
    }
    lemma_spread_concat(bits_of(x, n), bits_of(0, k));
    lemma_spread_of_zero(k);
    lemma_bits_of_len(x, n);
    assert(n + k == m);
    assert(x % pow2(n) == x);
    assert(x / pow2(n) == 0);
    assert(bits_of(x, m) == bits_of(x, n) + bits_of(0, k));
    assert(spread_value(bits_of(0, k)) == 0);
    let z = spread_value(bits_of(0, k));
    assert(pow2(2 * n) * z == 0) by (nonlinear_arith)
        requires
            z == 0,
    ;
}

/// The spread form of `n` set bits is `(4^n - 1) / 3`.
pub proof fn lemma_spread_ones(n: nat)
    ensures
        3 * spread_value(Seq::new(n, |i: int| true)) + 1 == pow2(2 * n),
    decreases n,
{
    let ones = Seq::new(n, |i: int| true);
    if n == 0 {
        lemma2_to64();
    } else {
        let k = (n - 1) as nat;
        lemma_spread_ones(k);
        assert(ones.drop_first() =~= Seq::new(k, |i: int| true));
        lemma_pow2_adds(2, 2 * k);
        lemma2_to64();
        assert(2 * n == 2 + 2 * k);
    }
}

/// Equal spread values come from equal bit strings.
pub proof fn lemma_spread_value_injective(a: Seq<bool>, b: Seq<bool>)
    requires
        a.len() == b.len(),
        spread_value(a) == spread_value(b),
    ensures
        a == b,
{
    lemma_even_bits_spread(a);
    lemma_even_bits_spread(b);
}

/// A 64-bit value made of two 32-bit halves: its bits and spread form are
/// those of the halves, concatenated.
pub proof fn lemma_halves(lo: nat, hi: nat)
    requires
        lo < 0x1_0000_0000,
        hi < 0x1_0000_0000,
    ensures
        lo + 0x1_0000_0000 * hi < 0x1_0000_0000_0000_0000,
        bits_of(lo + 0x1_0000_0000 * hi, 64) == bits_of(lo, 32) + bits_of(hi, 32),
        spread(lo + 0x1_0000_0000 * hi, 64) == spread(lo, 32) + 0x1_0000_0000_0000_0000 * spread(
            hi,
            32,
        ),
{
    lemma_pow2_values();
    let a = bits_of(lo, 32);
    let b = bits_of(hi, 32);
    lemma_bits_of_len(lo, 32);
    lemma_bits_of_len(hi, 32);
    lemma_dense_bits_of(lo, 32);
    lemma_dense_bits_of(hi, 32);
    vstd::arithmetic::div_mod::lemma_small_mod(lo, pow2(32));
    vstd::arithmetic::div_mod::lemma_small_mod(hi, pow2(32));
    lemma_dense_concat(a, b);
    lemma_spread_concat(a, b);
    lemma_bits_of_dense(a + b);
    assert((a + b).len() == 64);
}

/// The spread form of a valid `n`-bit cell, read as a bit string.
pub proof fn lemma_is_spread_bits(s: nat, n: nat)
    requires
        is_spread(s, n),
    ensures
        s == spread_value(bits_of(despread(s, n), n)),
        despread(s, n) < pow2(n),
{
    lemma_even_bits_len(s, n);
    lemma_dense_value_bound(even_bits(s, n));
}

/// Every value below `4^n` is the spread form of its even bits plus twice
/// the spread form of its odd bits.
pub proof fn lemma_even_odd_recompose(s: nat, n: nat)
    requires
        s < pow2(2 * n),
    ensures
        spread_value(even_bits(s, n)) + 2 * spread_value(odd_bits(s, n)) == s,
        even_bits(s, n).len() == n,
        odd_bits(s, n).len() == n,
    decreases n,
{
    lemma_even_bits_len(s, n);
    lemma_even_bits_len(s / 2, n);
    if n == 0 {
        lemma2_to64();
        lemma_spread_zero_width(s);
        assert(even_bits(s, 0) =~= Seq::<bool>::empty());
        assert(odd_bits(s, 0) =~= Seq::<bool>::empty());
    } else {
        let k = (n - 1) as nat;
        lemma_pow2_adds(2, 2 * k);
        lemma2_to64();
        assert(2 * n == 2 + 2 * k);
        let q = s / 4;
        assert(s == 4 * q + s % 4 && q < pow2(2 * k)) by (nonlinear_arith)
            requires
                s < 4 * pow2(2 * k),
                q == s / 4,
        ;
        lemma_even_odd_recompose(q, k);
        assert((s / 2) / 4 == q / 2) by (nonlinear_arith)
            requires
                q == s / 4,
        ;
        assert(s % 2 + 2 * ((s / 2) % 2) == s % 4) by (nonlinear_arith);
        lemma_drop_first_cons(s % 2 == 1, even_bits(q, k));
        lemma_drop_first_cons((s / 2) % 2 == 1, even_bits((s / 2) / 4, k));
    }
}

/// Concrete powers of two up to `2^128`.
pub proof fn lemma_pow2_values()
    ensures
        pow2(0) == 0x1,
        pow2(1) == 0x2,
        pow2(2) == 0x4,
        pow2(3) == 0x8,
        pow2(4) == 0x10,
        pow2(5) == 0x20,
        pow2(6) == 0x40,
        pow2(7) == 0x80,
        pow2(8) == 0x100,
        pow2(9) == 0x200,
        pow2(10) == 0x400,
        pow2(11) == 0x800,
        pow2(12) == 0x1000,
        pow2(13) == 0x2000,
        pow2(14) == 0x4000,
        pow2(15) == 0x8000,
        pow2(16) == 0x10000,
        pow2(17) == 0x20000,
        pow2(18) == 0x40000,
        pow2(19) == 0x80000,
        pow2(20) == 0x100000,
        pow2(21) == 0x200000,
        pow2(22) == 0x400000,
        pow2(23) == 0x800000,
        pow2(24) == 0x1000000,
        pow2(25) == 0x2000000,
        pow2(26) == 0x4000000,
        pow2(27) == 0x8000000,
        pow2(28) == 0x10000000,
        pow2(29) == 0x20000000,
        pow2(30) == 0x40000000,
        pow2(31) == 0x80000000,
        pow2(32) == 0x100000000,
        pow2(33) == 0x200000000,
        pow2(34) == 0x400000000,
        pow2(35) == 0x800000000,
        pow2(36) == 0x1000000000,
        pow2(37) == 0x2000000000,
        pow2(38) == 0x4000000000,
        pow2(39) == 0x8000000000,
        pow2(40) == 0x10000000000,
        pow2(41) == 0x20000000000,
        pow2(42) == 0x40000000000,
        pow2(43) == 0x80000000000,
        pow2(44) == 0x100000000000,
        pow2(45) == 0x200000000000,
        pow2(46) == 0x400000000000,
        pow2(47) == 0x800000000000,
        pow2(48) == 0x1000000000000,
        pow2(49) == 0x2000000000000,
        pow2(50) == 0x4000000000000,
        pow2(51) == 0x8000000000000,
        pow2(52) == 0x10000000000000,
        pow2(53) == 0x20000000000000,
        pow2(54) == 0x40000000000000,
        pow2(55) == 0x80000000000000,
        pow2(56) == 0x100000000000000,
        pow2(57) == 0x200000000000000,
        pow2(58) == 0x400000000000000,
        pow2(59) == 0x800000000000000,
        pow2(60) == 0x1000000000000000,
        pow2(61) == 0x2000000000000000,
        pow2(62) == 0x4000000000000000,
        pow2(63) == 0x8000000000000000,
        pow2(64) == 0x10000000000000000,
        pow2(65) == 0x20000000000000000,
        pow2(66) == 0x40000000000000000,
        pow2(67) == 0x80000000000000000,
        pow2(68) == 0x100000000000000000,
        pow2(69) == 0x200000000000000000,
        pow2(70) == 0x400000000000000000,
        pow2(71) == 0x800000000000000000,
        pow2(72) == 0x1000000000000000000,
        pow2(73) == 0x2000000000000000000,
        pow2(74) == 0x4000000000000000000,
        pow2(75) == 0x8000000000000000000,
        pow2(76) == 0x10000000000000000000,
        pow2(77) == 0x20000000000000000000,
        pow2(78) == 0x40000000000000000000,
        pow2(79) == 0x80000000000000000000,
        pow2(80) == 0x100000000000000000000,
        pow2(81) == 0x200000000000000000000,
        pow2(82) == 0x400000000000000000000,
        pow2(83) == 0x800000000000000000000,
        pow2(84) == 0x1000000000000000000000,
        pow2(85) == 0x2000000000000000000000,
        pow2(86) == 0x4000000000000000000000,
        pow2(87) == 0x8000000000000000000000,
        pow2(88) == 0x10000000000000000000000,
        pow2(89) == 0x20000000000000000000000,
        pow2(90) == 0x40000000000000000000000,
        pow2(91) == 0x80000000000000000000000,
        pow2(92) == 0x100000000000000000000000,
        pow2(93) == 0x200000000000000000000000,
        pow2(94) == 0x400000000000000000000000,
        pow2(95) == 0x800000000000000000000000,
        pow2(96) == 0x1000000000000000000000000,
        pow2(97) == 0x2000000000000000000000000,
        pow2(98) == 0x4000000000000000000000000,
        pow2(99) == 0x8000000000000000000000000,
        pow2(100) == 0x10000000000000000000000000,
        pow2(101) == 0x20000000000000000000000000,
        pow2(102) == 0x40000000000000000000000000,
        pow2(103) == 0x80000000000000000000000000,
        pow2(104) == 0x100000000000000000000000000,
        pow2(105) == 0x200000000000000000000000000,
        pow2(106) == 0x400000000000000000000000000,
        pow2(107) == 0x800000000000000000000000000,
        pow2(108) == 0x1000000000000000000000000000,
        pow2(109) == 0x2000000000000000000000000000,
        pow2(110) == 0x4000000000000000000000000000,
        pow2(111) == 0x8000000000000000000000000000,
        pow2(112) == 0x10000000000000000000000000000,
        pow2(113) == 0x20000000000000000000000000000,
        pow2(114) == 0x40000000000000000000000000000,
        pow2(115) == 0x80000000000000000000000000000,
        pow2(116) == 0x100000000000000000000000000000,
        pow2(117) == 0x200000000000000000000000000000,
        pow2(118) == 0x400000000000000000000000000000,
        pow2(119) == 0x800000000000000000000000000000,
        pow2(120) == 0x1000000000000000000000000000000,
        pow2(121) == 0x2000000000000000000000000000000,
        pow2(122) == 0x4000000000000000000000000000000,
        pow2(123) == 0x8000000000000000000000000000000,
        pow2(124) == 0x10000000000000000000000000000000,
        pow2(125) == 0x20000000000000000000000000000000,
        pow2(126) == 0x40000000000000000000000000000000,
        pow2(127) == 0x80000000000000000000000000000000,
        pow2(128) == 0x100000000000000000000000000000000,
{
    lemma2_to64();
    lemma2_to64_rest();
    lemma_pow2_adds(64, 1);
    lemma_pow2_adds(64, 2);
    lemma_pow2_adds(64, 3);
    lemma_pow2_adds(64, 4);
    lemma_pow2_adds(64, 5);
    lemma_pow2_adds(64, 6);
    lemma_pow2_adds(64, 7);
    lemma_pow2_adds(64, 8);
    lemma_pow2_adds(64, 9);
    lemma_pow2_adds(64, 10);
    lemma_pow2_adds(64, 11);
    lemma_pow2_adds(64, 12);
    lemma_pow2_adds(64, 13);
    lemma_pow2_adds(64, 14);
    lemma_pow2_adds(64, 15);
    lemma_pow2_adds(64, 16);
    lemma_pow2_adds(64, 17);
    lemma_pow2_adds(64, 18);
    lemma_pow2_adds(64, 19);
    lemma_pow2_adds(64, 20);
    lemma_pow2_adds(64, 21);
    lemma_pow2_adds(64, 22);
    lemma_pow2_adds(64, 23);
    lemma_pow2_adds(64, 24);
    lemma_pow2_adds(64, 25);
    lemma_pow2_adds(64, 26);
    lemma_pow2_adds(64, 27);
    lemma_pow2_adds(64, 28);
    lemma_pow2_adds(64, 29);
    lemma_pow2_adds(64, 30);
    lemma_pow2_adds(64, 31);
    lemma_pow2_adds(64, 32);
    lemma_pow2_adds(64, 33);
    lemma_pow2_adds(64, 34);
    lemma_pow2_adds(64, 35);
    lemma_pow2_adds(64, 36);
    lemma_pow2_adds(64, 37);
    lemma_pow2_adds(64, 38);
    lemma_pow2_adds(64, 39);
    lemma_pow2_adds(64, 40);
    lemma_pow2_adds(64, 41);
    lemma_pow2_adds(64, 42);
    lemma_pow2_adds(64, 43);
    lemma_pow2_adds(64, 44);
    lemma_pow2_adds(64, 45);
    lemma_pow2_adds(64, 46);
    lemma_pow2_adds(64, 47);
    lemma_pow2_adds(64, 48);
    lemma_pow2_adds(64, 49);
    lemma_pow2_adds(64, 50);
    lemma_pow2_adds(64, 51);
    lemma_pow2_adds(64, 52);
    lemma_pow2_adds(64, 53);
    lemma_pow2_adds(64, 54);
    lemma_pow2_adds(64, 55);
    lemma_pow2_adds(64, 56);
    lemma_pow2_adds(64, 57);
    lemma_pow2_adds(64, 58);
    lemma_pow2_adds(64, 59);
    lemma_pow2_adds(64, 60);
    lemma_pow2_adds(64, 61);
    lemma_pow2_adds(64, 62);
    lemma_pow2_adds(64, 63);
    lemma_pow2_adds(64, 64);
}

} // verus!
