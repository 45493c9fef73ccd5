//! Binary64 numbers by their bit patterns, with exact integer meanings.
//!
//! A finite binary64 number is a multiple of 2^-1074. The contracts speak of its magnitude in that
//! unit, which is a natural number, and of rounding as IEEE 754 has it: to the nearest number of
//! the format, and from the middle to the one with the even last bit.

use vstd::arithmetic::div_mod::*;
use vstd::arithmetic::mul::*;
use vstd::arithmetic::power2::*;
use vstd::prelude::*;

verus! {

broadcast use vstd::arithmetic::power2::lemma_pow2_pos;

/// A binary64 number.
#[derive(Debug, Clone, Copy)]
pub struct Binary64 {
    /// The bit pattern: sign, eleven bits of exponent, fifty-two bits of fraction.
    pub bits: u64,
}

impl Binary64 {
    /// Whether the sign bit is set.
    pub open spec fn has_sign(self) -> bool {
        self.bits >= 0x8000_0000_0000_0000
    }

    /// The bits but the sign.
    pub open spec fn magnitude_bits(self) -> nat {
        (self.bits % 0x8000_0000_0000_0000) as nat
    }

    pub open spec fn exponent(self) -> nat {
        self.magnitude_bits() / 0x10_0000_0000_0000
    }

    pub open spec fn fraction(self) -> nat {
        self.magnitude_bits() % 0x10_0000_0000_0000
    }

    pub open spec fn is_finite(self) -> bool {
        self.exponent() < 0x7ff
    }

    pub open spec fn is_nan(self) -> bool {
        self.exponent() == 0x7ff && self.fraction() != 0
    }

    /// The magnitude of a finite number, in units of 2^-1074.
    pub open spec fn scaled(self) -> nat {
        if self.exponent() == 0 {
            self.fraction()
        } else {
            (0x10_0000_0000_0000 + self.fraction()) * pow2((self.exponent() - 1) as nat)
        }
    }

    /// Whether the number is zero or more. Minus zero is; what is not a number is not.
    pub open spec fn at_least_zero(self) -> bool {
        !self.is_nan() && (!self.has_sign() || self.magnitude_bits() == 0)
    }

    /// Whether the number is finite and zero or more.
    pub open spec fn is_amount(self) -> bool {
        self.is_finite() && self.at_least_zero()
    }

    /// Whether the number is from zero to one.
    pub open spec fn is_fraction(self) -> bool {
        self.is_amount() && self.scaled() <= pow2(1074)
    }

    /// Whether two numbers are equal: the zeros are, and what is not a number equals nothing.
    pub open spec fn equals(self, other: Binary64) -> bool {
        &&& !self.is_nan()
        &&& !other.is_nan()
        &&& self.bits == other.bits || (self.magnitude_bits() == 0 && other.magnitude_bits() == 0)
    }
}

impl PartialEq for Binary64 {
    fn eq(&self, other: &Binary64) -> (same: bool) {
        !self.nan() && !other.nan() && (self.bits == other.bits || (self.bits
            % 0x8000_0000_0000_0000 == 0 && other.bits % 0x8000_0000_0000_0000 == 0))
    }
}

impl vstd::std_specs::cmp::PartialEqSpecImpl for Binary64 {
    open spec fn obeys_eq_spec() -> bool {
        true
    }

    open spec fn eq_spec(&self, other: &Binary64) -> bool {
        self.equals(*other)
    }
}

/// `n / 2^p` to the nearest whole number; from the middle between two, to the even one.
pub open spec fn rounded_quotient(n: nat, p: nat) -> nat {
    let q = n / pow2(p);
    let r = n % pow2(p);
    if 2 * r > pow2(p) || (2 * r == pow2(p) && q % 2 == 1) {
        q + 1
    } else {
        q
    }
}

/// How many bits of `n` are beyond the fifty-three that a binary64 number holds.
pub open spec fn spare_bits(n: nat) -> nat
    decreases n,
{
    if n < 0x20_0000_0000_0000 {
        0
    } else {
        1 + spare_bits(n / 2)
    }
}

/// The magnitude of the binary64 number nearest to `n / 2^d`, both in units of 2^-1074. The
/// exponent has no upper bound here: a magnitude from 2^2098 on stands for infinity.
pub open spec fn nearest(n: nat, d: nat) -> nat {
    let k = spare_bits(n / pow2(d));
    rounded_quotient(n, d + k) * pow2(k)
}

/// A magnitude to the nearest whole number; from the middle, up. Above the range, the largest.
pub open spec fn whole(scaled: nat) -> u64 {
    let rounded = (2 * scaled + pow2(1074)) / pow2(1075);
    if rounded <= u64::MAX {
        rounded as u64
    } else {
        u64::MAX
    }
}

impl Binary64 {
    pub(crate) fn nan(&self) -> (is: bool)
        ensures
            is == self.is_nan(),
    {
        let magnitude: u64 = self.bits % 0x8000_0000_0000_0000;
        magnitude / 0x10_0000_0000_0000 == 0x7ff && magnitude % 0x10_0000_0000_0000 != 0
    }

    /// Whether the number is finite.
    pub fn finite(&self) -> (is: bool)
        ensures
            is == self.is_finite(),
    {
        self.bits % 0x8000_0000_0000_0000 / 0x10_0000_0000_0000 < 0x7ff
    }

    /// Whether the number is zero or more.
    pub fn non_negative(&self) -> (is: bool)
        ensures
            is == self.at_least_zero(),
    {
        !self.nan() && (self.bits < 0x8000_0000_0000_0000 || self.bits % 0x8000_0000_0000_0000 == 0)
    }
}

// ---------------------------------------------------------------------------
// Rounding
// ---------------------------------------------------------------------------

proof fn lemma_shift_quotient(n: nat, p: nat, j: nat)
    ensures
        (n * pow2(j)) / pow2(p + j) == n / pow2(p),
        (n * pow2(j)) % pow2(p + j) == (n % pow2(p)) * pow2(j),
{
    let b = pow2(j) as int;
    let c = pow2(p) as int;
    lemma_pow2_pos(j);
    lemma_pow2_pos(p);
    lemma_pow2_adds(j, p);
    lemma_mul_is_commutative(n as int, b);
    lemma_mul_nonnegative(b, n as int);
    lemma_truncate_middle(n as int, b, c);
    lemma_div_denominator(b * n, b, c);
    lemma_div_multiples_vanish(n as int, b);
    lemma_mul_is_commutative(b, (n as int) % c);
}

proof fn lemma_shift_rounded(n: nat, p: nat, j: nat)
    ensures
        rounded_quotient(n * pow2(j), p + j) == rounded_quotient(n, p),
{
    lemma_shift_quotient(n, p, j);
    lemma_pow2_pos(j);
    lemma_pow2_adds(p, j);
    let b = pow2(j);
    let c = pow2(p);
    let r = n % c;
    let shifted = (n * b) % pow2(p + j);
    assert(shifted == r * b && pow2(p + j) == c * b);
    assert(2 * shifted > c * b <==> 2 * r > c) by (nonlinear_arith)
        requires
            b > 0,
            shifted == r * b,
    ;
    assert(2 * shifted == c * b <==> 2 * r == c) by (nonlinear_arith)
        requires
            b > 0,
            shifted == r * b,
    ;
}

proof fn lemma_exact_rounded(m: nat, p: nat)
    ensures
        rounded_quotient(m * pow2(p), p) == m,
{
    lemma_shift_rounded(m, 0, p);
    lemma2_to64();
    assert(m / 1 == m && m % 1 == 0);
}

proof fn lemma_halves(n: nat, d: nat)
    requires
        d > 0,
    ensures
        n / pow2(d) == (n / 2) / pow2((d - 1) as nat),
{
    lemma_pow2_unfold(d);
    lemma_pow2_pos((d - 1) as nat);
    lemma_div_denominator(n as int, 2, pow2((d - 1) as nat) as int);
}

proof fn lemma_spare_of_quotient(n: nat, d: nat)
    ensures
        spare_bits(n) >= d ==> spare_bits(n / pow2(d)) == spare_bits(n) - d,
        spare_bits(n) <= d ==> n / pow2(d) < 0x20_0000_0000_0000,
    decreases d,
{
    if d == 0 {
        lemma2_to64();
        assert(n / 1 == n);
    } else {
        lemma_halves(n, d);
        lemma_pow2_pos(d);
        if n < 0x20_0000_0000_0000 {
            assert(n / pow2(d) <= n) by {
                lemma_div_is_ordered_by_denominator(n as int, 1, pow2(d) as int);
            }
        } else {
            lemma_spare_of_quotient(n / 2, (d - 1) as nat);
        }
    }
}

proof fn lemma_spare_of_product(n: nat, j: nat)
    ensures
        n >= 0x20_0000_0000_0000 ==> spare_bits(n * pow2(j)) == spare_bits(n) + j,
        n < 0x20_0000_0000_0000 ==> spare_bits(n * pow2(j)) <= j,
    decreases j,
{
    if j == 0 {
        lemma2_to64();
        assert(n * 1 == n);
    } else {
        lemma_pow2_unfold(j);
        lemma_pow2_pos((j - 1) as nat);
        let half = n * pow2((j - 1) as nat);
        lemma_mul_is_associative(n as int, 2, pow2((j - 1) as nat) as int);
        assert(n * pow2(j) == 2 * half) by (nonlinear_arith)
            requires
                pow2(j) == 2 * pow2((j - 1) as nat),
                half == n * pow2((j - 1) as nat),
        ;
        lemma_spare_of_product(n, (j - 1) as nat);
        if n >= 0x20_0000_0000_0000 {
            assert(half >= n) by (nonlinear_arith)
                requires
                    half == n * pow2((j - 1) as nat),
                    pow2((j - 1) as nat) >= 1,
            ;
        }
    }
}

/// Rounding sees only the quotient, not how it is written.
proof fn lemma_nearest_shift(n: nat, d: nat, j: nat)
    ensures
        nearest(n * pow2(j), d + j) == nearest(n, d),
{
    let k = spare_bits(n / pow2(d));
    let e = d + k;
    assert(e + j == d + j + k);
    lemma_shift_quotient(n, d, j);
    lemma_shift_rounded(n, e, j);
}

/// A number of the format is nearest to itself.
proof fn lemma_nearest_exact(m: nat, j: nat)
    requires
        m < 0x20_0000_0000_0000,
    ensures
        nearest(m * pow2(j), 0) == m * pow2(j),
{
    let n = m * pow2(j);
    lemma2_to64();
    assert(n / 1 == n);
    lemma_spare_of_product(m, j);
    let k = spare_bits(n);
    let part = m * pow2((j - k) as nat);
    lemma_pow2_adds((j - k) as nat, k);
    lemma_mul_is_associative(m as int, pow2((j - k) as nat) as int, pow2(k) as int);
    lemma_exact_rounded(part, k);
}

/// A magnitude of the format: `m` times 2^`q`.
#[derive(Clone, Copy)]
pub(crate) struct Magnitude {
    pub(crate) m: u64,
    pub(crate) q: i32,
}

impl Magnitude {
    /// Whether the exponent is one that the format, or a product of two of its numbers, has.
    pub(crate) open spec fn valid(self) -> bool {
        self.m <= 0x20_0000_0000_0000 && -1074 <= self.q <= 3000
    }

    /// The magnitude in units of 2^-1074.
    pub(crate) open spec fn scaled(self) -> nat {
        self.m as nat * pow2((self.q + 1074) as nat)
    }
}

fn two_to(k: u32) -> (power: u128)
    requires
        k < 128,
    ensures
        power == pow2(k as nat),
        power > 0,
{
    let mut power: u128 = 1;
    let mut i: u32 = 0;
    proof {
        lemma2_to64();
    }
    while i < k
        invariant
            i <= k < 128,
            power == pow2(i as nat),
        decreases k - i,
    {
        proof {
            lemma_pow2_unfold((i + 1) as nat);
            lemma_pow2_strictly_increases(i as nat, 127);
            lemma_pow2_adds(63, 64);
            lemma2_to64_rest();
        }
        power = power * 2;
        i = i + 1;
    }
    proof {
        lemma_pow2_pos(k as nat);
    }
    power
}

fn round_quotient(n: u128, p: u32) -> (rounded: u128)
    requires
        n < 0x1_0000_0000_0000_0000_0000_0000_0000,
    ensures
        rounded == rounded_quotient(n as nat, p as nat),
{
    if p < 128 {
        let power = two_to(p);
        let q: u128 = n / power;
        let r: u128 = n % power;
        if r > power - r || (r == power - r && q % 2 == 1) {
            q + 1
        } else {
            q
        }
    } else {
        proof {
            lemma_pow2_unfold(p as nat);
            if p > 128 {
                lemma_pow2_strictly_increases(127, (p - 1) as nat);
            }
            lemma_pow2_adds(63, 64);
            lemma2_to64_rest();
            lemma_basic_div(n as int, pow2(p as nat) as int);
            lemma_small_mod(n as nat, pow2(p as nat));
        }
        0
    }
}

proof fn lemma_spare_bits_bound(n: nat, d: nat)
    requires
        n < pow2(d),
    ensures
        spare_bits(n) <= d,
    decreases d,
{
    lemma2_to64();
    if d > 0 && n >= 0x20_0000_0000_0000 {
        lemma_pow2_unfold(d);
        lemma_spare_bits_bound(n / 2, (d - 1) as nat);
    }
}

fn count_spare_bits(n: u128) -> (count: u32)
    requires
        n < 0x1_0000_0000_0000_0000_0000_0000_0000,
    ensures
        count == spare_bits(n as nat),
        count <= 112,
{
    let mut rest: u128 = n;
    let mut count: u32 = 0;
    proof {
        lemma_pow2_adds(48, 64);
        lemma2_to64();
        lemma2_to64_rest();
        lemma_spare_bits_bound(n as nat, 112);
    }
    while rest >= 0x20_0000_0000_0000
        invariant
            count + spare_bits(rest as nat) == spare_bits(n as nat),
            spare_bits(n as nat) <= 112,
        decreases rest,
    {
        rest = rest / 2;
        count = count + 1;
    }
    count
}

/// The number `n` times 2^`t`, in units of 2^-1074, to the nearest number of the format.
spec fn nearest_product(n: nat, t: int) -> nat {
    if t >= -1074 {
        nearest(n * pow2((t + 1074) as nat), 0)
    } else {
        nearest(n, (-(t + 1074)) as nat)
    }
}

proof fn lemma_rounded_bound(n: nat, drop: nat)
    requires
        spare_bits(n) <= drop,
    ensures
        rounded_quotient(n, drop) <= 0x20_0000_0000_0000,
{
    lemma_spare_of_quotient(n, drop);
}

proof fn lemma_nearest_product(n: nat, t: int, drop: nat)
    requires
        drop == if spare_bits(n) >= -1074 - t {
            spare_bits(n) as int
        } else {
            -1074 - t
        },
    ensures
        nearest_product(n, t) == rounded_quotient(n, drop) * pow2((t + drop + 1074) as nat),
{
    lemma2_to64();
    if t >= -1074 {
        let j = (t + 1074) as nat;
        let shifted = n * pow2(j);
        assert(shifted / 1 == shifted);
        lemma_spare_of_product(n, j);
        if n < 0x20_0000_0000_0000 {
            lemma_nearest_exact(n, j);
            lemma_exact_rounded(n, 0);
            assert(n * 1 == n);
        } else {
            lemma_shift_rounded(n, drop, j);
            let k = spare_bits(shifted);
            assert(k == drop + j);
        }
    } else {
        let d = (-(t + 1074)) as nat;
        lemma_spare_of_quotient(n, d);
        let k = spare_bits(n / pow2(d));
        assert(d + k == drop);
    }
}

fn round_product(n: u128, t: i32) -> (magnitude: Magnitude)
    requires
        n < 0x1_0000_0000_0000_0000_0000_0000_0000,
        -3000 <= t <= 2800,
    ensures
        magnitude.valid(),
        magnitude.q <= t + 112 || magnitude.q == -1074,
        magnitude.scaled() == nearest_product(n as nat, t as int),
{
    let spare = count_spare_bits(n);
    let drop: u32 = if spare as i32 >= -1074 - t {
        spare
    } else {
        (-1074 - t) as u32
    };
    let m = round_quotient(n, drop);
    proof {
        lemma_rounded_bound(n as nat, drop as nat);
        lemma_nearest_product(n as nat, t as int, drop as nat);
    }
    Magnitude { m: m as u64, q: t + drop as i32 }
}

impl Binary64 {
    /// The magnitude of a finite number.
    pub(crate) fn magnitude(&self) -> (magnitude: Magnitude)
        requires
            self.is_finite(),
        ensures
            magnitude.valid(),
            magnitude.q <= 971,
            magnitude.scaled() == self.scaled(),
    {
        let bits: u64 = self.bits % 0x8000_0000_0000_0000;
        let exponent: u64 = bits / 0x10_0000_0000_0000;
        let fraction: u64 = bits % 0x10_0000_0000_0000;
        if exponent == 0 {
            proof {
                lemma2_to64();
                assert(fraction as nat * 1 == fraction);
            }
            Magnitude { m: fraction, q: -1074 }
        } else {
            Magnitude { m: 0x10_0000_0000_0000 + fraction, q: exponent as i32 - 1075 }
        }
    }
}

impl Magnitude {
    /// The magnitude nearest to a whole number.
    pub(crate) fn of_whole(n: u64) -> (magnitude: Magnitude)
        ensures
            magnitude.valid(),
            magnitude.scaled() == nearest(n as nat * pow2(1074), 0),
    {
        round_product(n as u128, 0)
    }

    /// The magnitude nearest to a product.
    pub(crate) fn times(self, other: Magnitude) -> (product: Magnitude)
        requires
            self.valid(),
            other.valid(),
            self.q + other.q <= 2800,
        ensures
            product.valid(),
            product.q <= self.q + other.q + 112 || product.q == -1074,
            product.scaled() == nearest(self.scaled() * other.scaled(), 1074),
    {
        assert(self.m * other.m <= 0x20_0000_0000_0000 * 0x20_0000_0000_0000) by (nonlinear_arith)
            requires
                self.m <= 0x20_0000_0000_0000,
                other.m <= 0x20_0000_0000_0000,
        ;
        let n: u128 = self.m as u128 * other.m as u128;
        let t: i32 = self.q + other.q;
        proof {
            let a = self.m as nat;
            let b = other.m as nat;
            let j = (self.q + 1074) as nat;
            let k = (other.q + 1074) as nat;
            lemma_pow2_adds(j, k);
            assert((a * pow2(j)) * (b * pow2(k)) == (a * b) * (pow2(j) * pow2(k)))
                by (nonlinear_arith);
            assert(n == a * b);
            if t >= -1074 {
                let i = (t + 1074) as nat;
                lemma_pow2_adds(i, 1074);
                lemma_mul_is_associative((a * b) as int, pow2(i) as int, pow2(1074) as int);
                lemma_nearest_shift(a * b * pow2(i), 0, 1074);
            } else {
                lemma_nearest_shift(a * b, (-(t + 1074)) as nat, (t + 2148) as nat);
            }
        }
        round_product(n, t)
    }
}

impl Magnitude {
    /// The magnitude nearest to a product with a small whole number.
    pub(crate) fn times_whole(self, n: u32) -> (product: Magnitude)
        requires
            self.valid(),
            self.q <= 2800,
        ensures
            product.valid(),
            product.scaled() == nearest(self.scaled() * n as nat, 0),
    {
        assert(self.m * n <= 0x20_0000_0000_0000 * 0x1_0000_0000) by (nonlinear_arith)
            requires
                self.m <= 0x20_0000_0000_0000,
                n <= 0x1_0000_0000,
        ;
        proof {
            let p = pow2((self.q + 1074) as nat);
            assert((self.m * p) * n == (self.m * n) * p) by (nonlinear_arith);
        }
        round_product(self.m as u128 * n as u128, self.q)
    }
}

proof fn lemma_order_of_aligned(a: nat, b: nat, diff: nat, e: nat)
    ensures
        a * pow2(diff + e) <= b * pow2(e) <==> a * pow2(diff) <= b,
        b * pow2(e) <= a * pow2(diff + e) <==> b <= a * pow2(diff),
{
    lemma_pow2_adds(diff, e);
    lemma_mul_is_associative(a as int, pow2(diff) as int, pow2(e) as int);
    let left = a * pow2(diff);
    let p = pow2(e);
    assert(left * p <= b * p <==> left <= b) by (nonlinear_arith)
        requires
            p > 0,
    ;
    assert(b * p <= left * p <==> b <= left) by (nonlinear_arith)
        requires
            p > 0,
    ;
}

proof fn lemma_far_above(a: nat, diff: nat)
    requires
        a > 0,
        diff >= 64,
    ensures
        a * pow2(diff) >= 0x1_0000_0000_0000_0000,
{
    lemma2_to64_rest();
    if diff > 64 {
        lemma_pow2_strictly_increases(64, diff);
    }
    let p = pow2(diff);
    assert(a * p >= p) by (nonlinear_arith)
        requires
            a > 0,
            p > 0,
    ;
}

fn times_power(m: u64, diff: u32) -> (product: u128)
    requires
        m <= 0x20_0000_0000_0000,
        diff < 64,
    ensures
        product == m * pow2(diff as nat),
{
    let power = two_to(diff);
    proof {
        lemma2_to64_rest();
        lemma_pow2_strictly_increases(diff as nat, 64);
    }
    assert(m * power <= 0x20_0000_0000_0000 * 0x1_0000_0000_0000_0000) by (nonlinear_arith)
        requires
            m <= 0x20_0000_0000_0000,
            power <= 0x1_0000_0000_0000_0000,
    ;
    m as u128 * power
}

impl Magnitude {
    /// Whether this magnitude is at most another.
    pub(crate) fn at_most(self, other: Magnitude) -> (is: bool)
        requires
            self.valid(),
            other.valid(),
        ensures
            is == (self.scaled() <= other.scaled()),
    {
        if self.q >= other.q {
            let diff: u32 = (self.q - other.q) as u32;
            proof {
                lemma_order_of_aligned(
                    self.m as nat,
                    other.m as nat,
                    diff as nat,
                    (other.q + 1074) as nat,
                );
                lemma_mul_basics(pow2(diff as nat) as int);
            }
            if self.m == 0 {
                true
            } else if diff >= 64 {
                proof {
                    lemma_far_above(self.m as nat, diff as nat);
                }
                false
            } else {
                times_power(self.m, diff) <= other.m as u128
            }
        } else {
            let diff: u32 = (other.q - self.q) as u32;
            proof {
                lemma_order_of_aligned(
                    other.m as nat,
                    self.m as nat,
                    diff as nat,
                    (self.q + 1074) as nat,
                );
                lemma_mul_basics(pow2(diff as nat) as int);
            }
            if other.m == 0 {
                self.m == 0
            } else if diff >= 64 {
                proof {
                    lemma_far_above(other.m as nat, diff as nat);
                }
                true
            } else {
                self.m as u128 <= times_power(other.m, diff)
            }
        }
    }

    /// Whether the magnitude is zero.
    pub(crate) fn is_zero(self) -> (is: bool)
        requires
            self.valid(),
        ensures
            is == (self.scaled() == 0),
    {
        proof {
            let p = pow2((self.q + 1074) as nat);
            assert(self.m * p == 0 <==> self.m == 0) by (nonlinear_arith)
                requires
                    p > 0,
            ;
        }
        self.m == 0
    }

    /// The magnitude times a power of two.
    pub(crate) fn doubled(self, times: u32) -> (product: Magnitude)
        requires
            self.valid(),
            self.q + times <= 3000,
        ensures
            product.valid(),
            product.q == self.q + times,
            product.scaled() == self.scaled() * pow2(times as nat),
    {
        proof {
            lemma_pow2_adds((self.q + 1074) as nat, times as nat);
            lemma_mul_is_associative(
                self.m as int,
                pow2((self.q + 1074) as nat) as int,
                pow2(times as nat) as int,
            );
        }
        Magnitude { m: self.m, q: self.q + times as i32 }
    }

    /// The magnitude nearest to one less this one.
    pub(crate) fn one_less(self) -> (difference: Magnitude)
        requires
            self.valid(),
            self.scaled() <= pow2(1074),
        ensures
            difference.valid(),
            difference.q <= 112,
            difference.scaled() == nearest((pow2(1074) - self.scaled()) as nat, 0),
    {
        proof {
            lemma2_to64();
        }
        if self.m == 0 {
            proof {
                lemma_mul_basics(pow2((self.q + 1074) as nat) as int);
                lemma_mul_basics(pow2(1074) as int);
                lemma_nearest_exact(1, 1074);
            }
            Magnitude { m: 1, q: 0 }
        } else if self.q >= -110 {
            proof {
                if self.q > 0 {
                    lemma_order_of_aligned(self.m as nat, 1, self.q as nat, 1074);
                    lemma_pow2_strictly_increases(0, self.q as nat);
                    let p = pow2(self.q as nat);
                    assert(self.m * p > 1) by (nonlinear_arith)
                        requires
                            self.m >= 1,
                            p > 1,
                    ;
                }
                let k = (-self.q) as nat;
                lemma_order_of_aligned(1, self.m as nat, k, (self.q + 1074) as nat);
                lemma_pow2_adds(k, (self.q + 1074) as nat);
                let p = pow2((self.q + 1074) as nat);
                assert((pow2(k) - self.m) * p == pow2(k) * p - self.m * p) by (nonlinear_arith);
                if k < 111 {
                    lemma_pow2_strictly_increases(k, 111);
                }
                lemma_pow2_adds(47, 64);
                lemma2_to64_rest();
            }
            let n: u128 = two_to((-self.q) as u32) - self.m as u128;
            round_product(n, self.q)
        } else {
            proof {
                lemma_one_less_tiny(self.m as nat, (self.q + 1074) as nat);
            }
            Magnitude { m: 1, q: 0 }
        }
    }
}

/// One less something below 2^-55 is nearest to one.
proof fn lemma_one_less_tiny(m: nat, e: nat)
    requires
        0 < m <= 0x20_0000_0000_0000,
        e <= 963,
    ensures
        nearest((pow2(1074) - m * pow2(e)) as nat, 0) == 1 * pow2(1074),
{
    lemma2_to64();
    lemma2_to64_rest();
    let s = m * pow2(e);
    let unit = pow2(1021);
    lemma_pow2_adds(53, 1021);
    if e < 963 {
        lemma_pow2_strictly_increases(e, 963);
    }
    lemma_pow2_adds(57, 963);
    lemma_pow2_adds(1, 1020);
    let half = pow2(1020);
    let p = pow2(e);
    let top = pow2(963);
    assert(m * p <= 0x20_0000_0000_0000 * top) by (nonlinear_arith)
        requires
            m <= 0x20_0000_0000_0000,
            p <= top,
    ;
    assert(0 < m * p) by (nonlinear_arith)
        requires
            m > 0,
            p > 0,
    ;
    assert(0 < s < half && unit == 2 * half);
    let r = (0x20_0000_0000_0000 * unit - s) as nat;
    assert(r / 1 == r);
    lemma_fundamental_div_mod_converse(
        r as int,
        unit as int,
        0x1f_ffff_ffff_ffff,
        unit - s,
    );
    lemma_spare_of_one_less(r, unit, 1021);
}

proof fn lemma_spare_of_one_less(r: nat, unit: nat, k: nat)
    requires
        unit == pow2(k),
        0x10_0000_0000_0000 * unit <= r < 0x20_0000_0000_0000 * unit,
    ensures
        spare_bits(r) == k,
    decreases k,
{
    lemma2_to64();
    if k > 0 {
        lemma_pow2_unfold(k);
        lemma_spare_of_one_less(r / 2, pow2((k - 1) as nat), (k - 1) as nat);
        lemma_pow2_strictly_increases(0, k);
    }
}

proof fn lemma_whole_of_large(m: nat, q: nat)
    ensures
        (2 * (m * pow2(q + 1074)) + pow2(1074)) / pow2(1075) == m * pow2(q),
{
    lemma2_to64();
    let n = m * pow2(q);
    lemma_pow2_adds(q, 1074);
    lemma_mul_is_associative(m as int, pow2(q) as int, pow2(1074) as int);
    let p = pow2(1074);
    assert(2 * (n * p) + p == (2 * n + 1) * p) by (nonlinear_arith);
    lemma_shift_quotient(2 * n + 1, 1, 1074);
    assert((2 * n + 1) / 2 == n);
}

proof fn lemma_whole_of_small(m: nat, k: nat)
    requires
        k <= 1074,
    ensures
        (2 * (m * pow2((1074 - k) as nat)) + pow2(1074)) / pow2(1075) == (2 * m + pow2(k)) / pow2(
            k + 1,
        ),
{
    let p = pow2((1074 - k) as nat);
    lemma_pow2_adds(k, (1074 - k) as nat);
    let c = pow2(k);
    assert(2 * (m * p) + c * p == (2 * m + c) * p) by (nonlinear_arith);
    lemma_shift_quotient(2 * m + c, k + 1, (1074 - k) as nat);
}

impl Magnitude {
    /// The nearest whole number; from the middle, up. Above the range, the largest.
    pub(crate) fn to_whole(self) -> (n: u64)
        requires
            self.valid(),
        ensures
            n == whole(self.scaled()),
    {
        proof {
            lemma2_to64();
        }
        if self.q >= 0 {
            proof {
                lemma_whole_of_large(self.m as nat, self.q as nat);
                lemma_mul_basics(pow2(self.q as nat) as int);
            }
            if self.m == 0 {
                0
            } else if self.q >= 64 {
                proof {
                    lemma_far_above(self.m as nat, self.q as nat);
                }
                u64::MAX
            } else {
                let n = times_power(self.m, self.q as u32);
                if n <= u64::MAX as u128 {
                    n as u64
                } else {
                    u64::MAX
                }
            }
        } else {
            let k: u32 = (-self.q) as u32;
            proof {
                lemma_whole_of_small(self.m as nat, k as nat);
                lemma_pow2_unfold((k + 1) as nat);
            }
            if k >= 56 {
                proof {
                    lemma_pow2_strictly_increases(55, k as nat);
                    lemma2_to64_rest();
                    lemma_basic_div(
                        2 * self.m + pow2(k as nat),
                        pow2((k + 1) as nat) as int,
                    );
                }
                0
            } else {
                let power = two_to(k);
                proof {
                    lemma_pow2_strictly_increases(k as nat, 56);
                    lemma2_to64_rest();
                    lemma_div_is_ordered_by_denominator(
                        2 * self.m + power,
                        1,
                        2 * power,
                    );
                }
                ((2 * self.m as u128 + power) / (2 * power)) as u64
            }
        }
    }
}

proof fn lemma_fraction_bound(number: Binary64)
    requires
        number.is_finite(),
    ensures
        number.scaled() <= pow2(1074) <==> number.magnitude_bits() <= 0x3ff0_0000_0000_0000,
{
    lemma2_to64_rest();
    let e = number.exponent();
    let f = number.fraction();
    lemma_pow2_adds(52, 1022);
    if e == 0 {
        lemma_pow2_strictly_increases(52, 1074);
    } else {
        let p = pow2((e - 1) as nat);
        let one = pow2(1022);
        let m = 0x10_0000_0000_0000 + f;
        if e < 1023 {
            lemma_pow2_unfold(e);
            if e < 1022 {
                lemma_pow2_strictly_increases(e, 1022);
            }
            assert(m * p <= 0x10_0000_0000_0000 * one) by (nonlinear_arith)
                requires
                    m < 2 * 0x10_0000_0000_0000,
                    2 * p <= one,
            ;
        } else {
            if e > 1023 {
                lemma_pow2_strictly_increases(1022, (e - 1) as nat);
            }
            assert(m * p <= 0x10_0000_0000_0000 * one <==> m == 0x10_0000_0000_0000 && p == one)
                by (nonlinear_arith)
                requires
                    m >= 0x10_0000_0000_0000,
                    p >= one,
                    one > 0,
            ;
            assert(e > 1023 ==> p > one);
        }
    }
}

impl Binary64 {
    /// A number is from zero to one by its bits.
    pub proof fn lemma_fraction(self)
        ensures
            self.bits <= 0x3ff0_0000_0000_0000 ==> self.is_fraction(),
    {
        if self.is_finite() {
            lemma_fraction_bound(self);
        }
    }

    /// Whether the number is from zero to one.
    pub fn fraction_of_one(&self) -> (is: bool)
        ensures
            is == self.is_fraction(),
    {
        if self.finite() && self.non_negative() {
            proof {
                lemma_fraction_bound(*self);
            }
            self.bits % 0x8000_0000_0000_0000 <= 0x3ff0_0000_0000_0000
        } else {
            false
        }
    }
}

// ---------------------------------------------------------------------------
// Bounds
// ---------------------------------------------------------------------------

proof fn lemma_spare_bits_grow(n: nat, larger: nat)
    requires
        n <= larger,
    ensures
        spare_bits(n) <= spare_bits(larger),
    decreases n,
{
    if n >= 0x20_0000_0000_0000 {
        lemma_spare_bits_grow(n / 2, larger / 2);
    }
}

proof fn lemma_rounded_at_most(n: nat, p: nat, bound: nat)
    requires
        n <= bound * pow2(p),
    ensures
        rounded_quotient(n, p) <= bound,
{
    let c = pow2(p) as int;
    lemma_fundamental_div_mod(n as int, c);
    let q = n as int / c;
    let r = n as int % c;
    if q >= bound {
        assert(q == bound && r == 0) by (nonlinear_arith)
            requires
                c * q + r == n,
                n <= bound * c,
                q >= bound,
                c > 0,
                0 <= r < c,
        ;
    }
}

/// Rounding does not pass a number of the format: what is at most `m` times 2^`j` is not rounded
/// above it.
pub proof fn lemma_nearest_at_most(n: nat, d: nat, m: nat, j: nat)
    requires
        m < 0x20_0000_0000_0000,
        n <= m * pow2(j) * pow2(d),
    ensures
        nearest(n, d) <= m * pow2(j),
{
    let bound = m * pow2(j);
    let x = n / pow2(d);
    lemma_div_is_ordered(n as int, (bound * pow2(d)) as int, pow2(d) as int);
    lemma_div_by_multiple(bound as int, pow2(d) as int);
    lemma_spare_bits_grow(x, bound);
    lemma_spare_of_product(m, j);
    let k = spare_bits(x);
    let part = m * pow2((j - k) as nat);
    lemma_pow2_adds((j - k) as nat, k);
    lemma_mul_is_associative(m as int, pow2((j - k) as nat) as int, pow2(k) as int);
    lemma_pow2_adds(d, k);
    lemma_mul_is_commutative(pow2(d) as int, pow2(k) as int);
    lemma_mul_is_associative(part as int, pow2(k) as int, pow2(d) as int);
    lemma_rounded_at_most(n, d + k, part);
    lemma_mul_inequality(rounded_quotient(n, d + k) as int, part as int, pow2(k) as int);
}

impl Binary64 {
    /// The significand and the power of two that make up the magnitude of a number.
    pub proof fn lemma_scaled_parts(self) -> (parts: (nat, nat))
        ensures
            parts.0 < 0x20_0000_0000_0000,
            self.scaled() == parts.0 * pow2(parts.1),
    {
        lemma2_to64();
        lemma_mul_basics(self.fraction() as int);
        if self.exponent() == 0 {
            (self.fraction(), 0)
        } else {
            (0x10_0000_0000_0000 + self.fraction(), (self.exponent() - 1) as nat)
        }
    }
}

impl Binary64 {
    /// A finite number is below 2^1024.
    pub proof fn lemma_scaled_bound(self)
        requires
            self.is_finite(),
        ensures
            self.scaled() < pow2(2098),
    {
        lemma2_to64();
        lemma2_to64_rest();
        lemma_pow2_adds(53, 2045);
        if self.exponent() == 0 {
            lemma_pow2_strictly_increases(53, 2098);
        } else {
            let e = (self.exponent() - 1) as nat;
            if e < 2045 {
                lemma_pow2_strictly_increases(e, 2045);
            }
            let p = pow2(e);
            let top = pow2(2045);
            let m = 0x10_0000_0000_0000 + self.fraction();
            assert(m * p < 0x20_0000_0000_0000 * top) by (nonlinear_arith)
                requires
                    m < 0x20_0000_0000_0000,
                    p <= top,
                    p > 0,
            ;
        }
    }
}

/// A product of numbers from zero to one is rounded to a number from zero to one.
pub proof fn lemma_nearest_product_of_fractions(a: nat, b: nat)
    requires
        a <= pow2(1074),
        b <= pow2(1074),
    ensures
        nearest(a * b, 1074) <= pow2(1074),
{
    lemma_mul_upper_bound(a as int, pow2(1074) as int, b as int, pow2(1074) as int);
    lemma_nearest_at_most(a * b, 1074, 1, 1074);
}

/// A larger magnitude has no smaller whole number.
pub proof fn lemma_whole_grows(scaled: nat, larger: nat)
    requires
        scaled <= larger,
    ensures
        whole(scaled) <= whole(larger),
{
    let p = pow2(1075) as int;
    lemma_div_is_ordered((2 * scaled + pow2(1074)) as int, (2 * larger + pow2(1074)) as int, p);
}

/// A number of the format is nearest to itself, however the quotient is written.
pub proof fn lemma_nearest_of_format(m: nat, j: nat, d: nat)
    requires
        m < 0x20_0000_0000_0000,
    ensures
        nearest(m * pow2(j) * pow2(d), d) == m * pow2(j),
{
    lemma_nearest_exact(m, j);
    lemma_nearest_shift(m * pow2(j), 0, d);
}

proof fn lemma_spare_bits_normalize(n: nat)
    requires
        n >= 0x20_0000_0000_0000,
    ensures
        spare_bits(n) > 0,
        n / pow2(spare_bits(n)) >= 0x10_0000_0000_0000,
    decreases n,
{
    lemma2_to64();
    lemma_halves(n, spare_bits(n));
    if n / 2 >= 0x20_0000_0000_0000 {
        lemma_spare_bits_normalize(n / 2);
    } else {
        assert(spare_bits(n / 2) == 0);
        assert((n / 2) / 1 == n / 2);
    }
}

proof fn lemma_rounded_grows(n: nat, larger: nat, p: nat)
    requires
        n <= larger,
    ensures
        rounded_quotient(n, p) <= rounded_quotient(larger, p),
{
    let c = pow2(p) as int;
    lemma_div_is_ordered(n as int, larger as int, c);
    lemma_fundamental_div_mod(n as int, c);
    lemma_fundamental_div_mod(larger as int, c);
}

/// Rounding keeps the order of numbers.
pub proof fn lemma_nearest_grows(n: nat, larger: nat, d: nat)
    requires
        n <= larger,
    ensures
        nearest(n, d) <= nearest(larger, d),
{
    let x = n / pow2(d);
    let y = larger / pow2(d);
    lemma_div_is_ordered(n as int, larger as int, pow2(d) as int);
    lemma_spare_bits_grow(x, y);
    let k = spare_bits(x);
    let l = spare_bits(y);
    if k == l {
        lemma_rounded_grows(n, larger, d + k);
        lemma_mul_inequality(
            rounded_quotient(n, d + k) as int,
            rounded_quotient(larger, d + k) as int,
            pow2(k) as int,
        );
    } else {
        let a = rounded_quotient(n, d + k);
        let b = rounded_quotient(larger, d + l);
        lemma_div_denominator(n as int, pow2(d) as int, pow2(k) as int);
        lemma_div_denominator(larger as int, pow2(d) as int, pow2(l) as int);
        lemma_pow2_adds(d, k);
        lemma_pow2_adds(d, l);
        lemma_spare_of_quotient(x, k);
        lemma_spare_bits_normalize(y);
        assert(a <= 0x20_0000_0000_0000);
        assert(b >= 0x10_0000_0000_0000);
        lemma_pow2_unfold((k + 1) as nat);
        if k + 1 < l {
            lemma_pow2_strictly_increases((k + 1) as nat, l);
        }
        let p = pow2(k);
        let q = pow2(l);
        assert(a * p <= b * q) by (nonlinear_arith)
            requires
                a <= 0x20_0000_0000_0000,
                b >= 0x10_0000_0000_0000,
                2 * p <= q,
        ;
    }
}

// ---------------------------------------------------------------------------
// Sums with one
// ---------------------------------------------------------------------------

/// One and something below 2^-54 is nearest to one.
proof fn lemma_one_more_tiny(m: nat, e: nat)
    requires
        m <= 0x20_0000_0000_0000,
        e <= 963,
    ensures
        nearest(pow2(1074) + m * pow2(e), 0) == 1 * pow2(1074),
{
    lemma2_to64();
    lemma2_to64_rest();
    let s = m * pow2(e);
    if e < 963 {
        lemma_pow2_strictly_increases(e, 963);
    }
    lemma_pow2_adds(57, 963);
    lemma_pow2_adds(2, 1020);
    lemma_pow2_adds(52, 1022);
    let p = pow2(e);
    let top = pow2(963);
    assert(m * p <= 0x20_0000_0000_0000 * top) by (nonlinear_arith)
        requires
            m <= 0x20_0000_0000_0000,
            p <= top,
    ;
    let unit = pow2(1022);
    let r = pow2(1074) + s;
    assert(r / 1 == r);
    lemma_fundamental_div_mod_converse(r as int, unit as int, 0x10_0000_0000_0000, s as int);
    lemma_spare_of_one_less(r, unit, 1022);
}

/// A number of the format as a number of exactly fifty-three bits and a power of two.
proof fn lemma_normal_parts(m: nat, j: nat, doublings: nat) -> (parts: (nat, nat))
    requires
        pow2(doublings) <= m < 0x20_0000_0000_0000,
        doublings <= 52,
        j + doublings >= 1133,
    ensures
        0x10_0000_0000_0000 <= parts.0 < 0x20_0000_0000_0000,
        parts.1 >= 1081,
        m * pow2(j) == parts.0 * pow2(parts.1),
    decreases 0x20_0000_0000_0000 - m,
{
    lemma2_to64();
    lemma2_to64_rest();
    if m >= 0x10_0000_0000_0000 {
        (m, j)
    } else {
        if doublings == 52 {
            assert(m >= 0x10_0000_0000_0000);
        }
        lemma_pow2_unfold(j);
        lemma_pow2_unfold((doublings + 1) as nat);
        let p = pow2((j - 1) as nat);
        assert(m * (2 * p) == (2 * m) * p) by (nonlinear_arith);
        lemma_normal_parts(2 * m, (j - 1) as nat, doublings + 1)
    }
}

/// One makes no difference to a number from 2^59 on.
proof fn lemma_one_is_lost(m: nat, j: nat)
    requires
        0 < m < 0x20_0000_0000_0000,
        j >= 1133,
    ensures
        m * pow2(j) > pow2(1074),
        nearest(m * pow2(j) + pow2(1074), 0) == m * pow2(j),
        nearest((m * pow2(j) - pow2(1074)) as nat, 0) == m * pow2(j),
{
    lemma2_to64();
    let (q, k) = lemma_normal_parts(m, j, 0);
    let one = pow2(1074);
    let unit = pow2(k);
    lemma_pow2_unfold(1075);
    lemma_pow2_strictly_increases(1075, k);
    lemma_pow2_unfold(k);
    let half = pow2((k - 1) as nat);
    lemma_pow2_strictly_increases(1075, (k - 1) as nat);
    let whole_number = q * unit;
    assert(0x10_0000_0000_0000 * unit <= q * unit <= 0x20_0000_0000_0000 * unit - unit)
        by (nonlinear_arith)
        requires
            0x10_0000_0000_0000 <= q <= 0x20_0000_0000_0000 - 1,
    ;
    let above = whole_number + one;
    assert(above / 1 == above);
    lemma_fundamental_div_mod_converse(above as int, unit as int, q as int, one as int);
    lemma_spare_of_one_less(above, unit, k);
    let below = (whole_number - one) as nat;
    assert(below / 1 == below);
    if q > 0x10_0000_0000_0000 {
        assert((q - 1) * unit == q * unit - unit) by (nonlinear_arith);
        assert(0x10_0000_0000_0000 * unit <= (q - 1) * unit) by (nonlinear_arith)
            requires
                0x10_0000_0000_0000 <= q - 1,
        ;
        lemma_fundamental_div_mod_converse(below as int, unit as int, q - 1, unit - one);
        lemma_spare_of_one_less(below, unit, k);
    } else {
        assert(whole_number == 0x20_0000_0000_0000 * half);
        lemma_fundamental_div_mod_converse(
            below as int,
            half as int,
            0x1f_ffff_ffff_ffff,
            half - one,
        );
        lemma_spare_of_one_less(below, half, (k - 1) as nat);
    }
}

impl Magnitude {
    /// The same magnitude with a number of at most fifty-three bits.
    fn within_bits(self) -> (same: Magnitude)
        requires
            self.valid(),
            self.q <= 1023,
        ensures
            same.valid(),
            same.m < 0x20_0000_0000_0000,
            same.q <= 1024,
            same.scaled() == self.scaled(),
            same.m == 0 <==> self.m == 0,
    {
        if self.m == 0x20_0000_0000_0000 {
            proof {
                lemma_pow2_unfold((self.q + 1075) as nat);
            }
            Magnitude { m: 0x10_0000_0000_0000, q: self.q + 1 }
        } else {
            self
        }
    }

    /// The magnitude nearest to one and this one.
    pub(crate) fn one_more(self) -> (sum: Magnitude)
        requires
            self.valid(),
            self.q <= 1023,
        ensures
            sum.valid(),
            sum.q <= 1136,
            sum.scaled() == nearest(pow2(1074) + self.scaled(), 0),
    {
        let this = self.within_bits();
        proof {
            lemma2_to64();
            lemma_mul_basics(pow2(1074) as int);
            lemma_mul_basics(pow2((this.q + 1074) as nat) as int);
        }
        if this.m == 0 {
            proof {
                lemma_nearest_exact(1, 1074);
            }
            Magnitude { m: 1, q: 0 }
        } else if this.q < -110 {
            proof {
                lemma_one_more_tiny(this.m as nat, (this.q + 1074) as nat);
            }
            Magnitude { m: 1, q: 0 }
        } else if this.q < 0 {
            proof {
                let k = (-this.q) as nat;
                let p = pow2((this.q + 1074) as nat);
                lemma_pow2_adds(k, (this.q + 1074) as nat);
                assert((pow2(k) + this.m) * p == pow2(k) * p + this.m * p) by (nonlinear_arith);
                if k < 110 {
                    lemma_pow2_strictly_increases(k, 110);
                }
                lemma_pow2_adds(46, 64);
                lemma2_to64_rest();
            }
            let n: u128 = two_to((-this.q) as u32) + this.m as u128;
            round_product(n, this.q)
        } else if this.q <= 58 {
            let shifted = times_power(this.m, this.q as u32);
            proof {
                let one = pow2(1074);
                let power = pow2(this.q as nat);
                lemma_pow2_adds(this.q as nat, 1074);
                assert((this.m * power + 1) * one == this.m * (power * one) + one)
                    by (nonlinear_arith);
                lemma_shifted_bound(this.m as nat, this.q as nat);
            }
            round_product(shifted + 1, 0)
        } else {
            proof {
                lemma_one_is_lost(this.m as nat, (this.q + 1074) as nat);
            }
            this
        }
    }

    /// The magnitude nearest to this one less one.
    pub(crate) fn minus_one(self) -> (difference: Magnitude)
        requires
            self.valid(),
            self.q <= 1023,
            self.scaled() > pow2(1074),
        ensures
            difference.valid(),
            difference.q <= 1136,
            difference.scaled() == nearest((self.scaled() - pow2(1074)) as nat, 0),
    {
        let this = self.within_bits();
        proof {
            lemma2_to64();
            lemma_mul_basics(pow2((this.q + 1074) as nat) as int);
        }
        if this.q < 0 {
            proof {
                let k = (-this.q) as nat;
                let p = pow2((this.q + 1074) as nat);
                lemma_pow2_adds(k, (this.q + 1074) as nat);
                let c = pow2(k);
                assert(this.m > c) by (nonlinear_arith)
                    requires
                        this.m * p > c * p,
                        p > 0,
                ;
                if k >= 53 {
                    if k > 53 {
                        lemma_pow2_strictly_increases(53, k);
                    }
                    lemma2_to64_rest();
                }
                assert((this.m - c) * p == this.m * p - c * p) by (nonlinear_arith);
            }
            let n: u128 = this.m as u128 - two_to((-this.q) as u32);
            round_product(n, this.q)
        } else if this.q <= 58 {
            let shifted = times_power(this.m, this.q as u32);
            proof {
                let one = pow2(1074);
                let power = pow2(this.q as nat);
                lemma_pow2_adds(this.q as nat, 1074);
                assert((this.m * power - 1) * one == this.m * (power * one) - one)
                    by (nonlinear_arith);
                assert(this.m * power >= 1) by (nonlinear_arith)
                    requires
                        this.m >= 1,
                        power >= 1,
                ;
                lemma_shifted_bound(this.m as nat, this.q as nat);
            }
            round_product(shifted - 1, 0)
        } else {
            proof {
                lemma_one_is_lost(this.m as nat, (this.q + 1074) as nat);
            }
            this
        }
    }
}

proof fn lemma_shifted_bound(m: nat, q: nat)
    requires
        m < 0x20_0000_0000_0000,
        q <= 58,
    ensures
        m * pow2(q) < 0x8000_0000_0000_0000_0000_0000_0000,
{
    lemma2_to64();
    lemma2_to64_rest();
    if q < 58 {
        lemma_pow2_strictly_increases(q, 58);
    }
    let p = pow2(q);
    assert(m * p < 0x8000_0000_0000_0000_0000_0000_0000) by (nonlinear_arith)
        requires
            m < 0x20_0000_0000_0000,
            p <= 0x400_0000_0000_0000,
    ;
}

/// The whole number of a magnitude is no further from it than a half; of two that are as near it is
/// the larger. Above the range it is the largest.
pub proof fn law_whole_is_the_nearest(scaled: nat)
    ensures
        whole(scaled) < u64::MAX ==> whole(scaled) * pow2(1075) <= 2 * scaled + pow2(1074) < (whole(
            scaled,
        ) + 1) * pow2(1075),
        whole(scaled) == u64::MAX ==> u64::MAX * pow2(1075) <= 2 * scaled + pow2(1074),
{
    let n = (2 * scaled + pow2(1074)) as int;
    let d = pow2(1075) as int;
    let q = n / d;
    lemma_fundamental_div_mod(n, d);
    lemma_mod_bound(n, d);
    lemma_mul_is_commutative(d, q);
    assert((q + 1) * d == q * d + d) by (nonlinear_arith);
    if q > u64::MAX {
        assert(u64::MAX * d <= q * d) by (nonlinear_arith)
            requires
                q > u64::MAX,
                d > 0,
        ;
    }
}

/// Which bit patterns are amounts, and which are from zero to one: those up to the largest finite
/// number or up to one, in the order of the patterns, and minus zero.
pub proof fn law_amounts(number: Binary64)
    ensures
        number.is_amount() <==> number.bits < 0x7ff0_0000_0000_0000 || number.bits
            == 0x8000_0000_0000_0000,
        number.is_fraction() <==> number.bits <= 0x3ff0_0000_0000_0000 || number.bits
            == 0x8000_0000_0000_0000,
{
    if number.is_finite() {
        lemma_fraction_bound(number);
    }
}

} // verus!
