//! Arithmetic on binary64 numbers as IEEE 754 has it, infinities and what is not a number included.

use vstd::arithmetic::mul::*;
use vstd::arithmetic::power2::*;
use vstd::prelude::*;

use crate::binary64::{Binary64, Magnitude};

verus! {

broadcast use vstd::arithmetic::power2::lemma_pow2_pos;

/// What a binary64 number stands for.
pub enum Quantity {
    /// Nothing: it is not a number.
    Nan,
    Infinite { negative: bool },
    /// A magnitude in units of 2^-1074, with a sign.
    Finite { negative: bool, scaled: nat },
}

impl Binary64 {
    /// What the number stands for.
    pub open spec fn value(self) -> Quantity {
        if self.is_nan() {
            Quantity::Nan
        } else if !self.is_finite() {
            Quantity::Infinite { negative: self.has_sign() }
        } else {
            Quantity::Finite { negative: self.has_sign(), scaled: self.scaled() }
        }
    }
}

/// The value of a rounded magnitude: infinite from 2^1024 on.
pub open spec fn rounded(negative: bool, scaled: nat) -> Quantity {
    if scaled >= pow2(2098) {
        Quantity::Infinite { negative }
    } else {
        Quantity::Finite { negative, scaled }
    }
}

/// A whole number, rounded to the format.
pub open spec fn of_whole(n: u64) -> Quantity {
    rounded(false, crate::binary64::nearest(n as nat * pow2(1074), 0))
}

/// The product of two numbers.
pub open spec fn product(a: Quantity, b: Quantity) -> Quantity {
    match (a, b) {
        (Quantity::Finite { negative: n, scaled: s }, Quantity::Finite { negative: m, scaled: t }) => rounded(
            n != m,
            crate::binary64::nearest(s * t, 1074),
        ),
        (Quantity::Infinite { negative: n }, Quantity::Finite { negative: m, scaled: t }) => if t == 0 {
            Quantity::Nan
        } else {
            Quantity::Infinite { negative: n != m }
        },
        (Quantity::Finite { negative: n, scaled: s }, Quantity::Infinite { negative: m }) => if s == 0 {
            Quantity::Nan
        } else {
            Quantity::Infinite { negative: n != m }
        },
        (Quantity::Infinite { negative: n }, Quantity::Infinite { negative: m }) => Quantity::Infinite {
            negative: n != m,
        },
        _ => Quantity::Nan,
    }
}

/// A number times a power of two, which leaves all its digits: infinite from 2^1024 on.
pub open spec fn doubled(a: Quantity, times: u32) -> Quantity {
    match a {
        Quantity::Finite { negative, scaled } => rounded(negative, scaled * pow2(times as nat)),
        _ => a,
    }
}

/// One less a number.
pub open spec fn one_minus(a: Quantity) -> Quantity {
    let one = pow2(1074);
    match a {
        Quantity::Nan => Quantity::Nan,
        Quantity::Infinite { negative } => Quantity::Infinite { negative: !negative },
        Quantity::Finite { negative, scaled } => if negative {
            rounded(false, crate::binary64::nearest(one + scaled, 0))
        } else if scaled <= one {
            rounded(false, crate::binary64::nearest((one - scaled) as nat, 0))
        } else {
            rounded(true, crate::binary64::nearest((scaled - one) as nat, 0))
        },
    }
}

/// Whether a number is at most another. What is not a number compares with nothing.
pub open spec fn at_most(a: Quantity, b: Quantity) -> bool {
    match (a, b) {
        (Quantity::Finite { negative: n, scaled: s }, Quantity::Finite { negative: m, scaled: t }) => if n {
            if m {
                t <= s
            } else {
                true
            }
        } else if m {
            s == 0 && t == 0
        } else {
            s <= t
        },
        (Quantity::Infinite { negative: n }, Quantity::Infinite { negative: m }) => n || !m,
        (Quantity::Infinite { negative: n }, Quantity::Finite { .. }) => n,
        (Quantity::Finite { .. }, Quantity::Infinite { negative: m }) => !m,
        _ => false,
    }
}

/// The smaller of two numbers, or the one that is a number.
pub open spec fn minimum(a: Quantity, b: Quantity) -> Quantity {
    if a is Nan || (!(b is Nan) && !at_most(a, b)) {
        b
    } else {
        a
    }
}

/// A number to the nearest whole number, from the middle up; within the range of `u64`, and zero
/// for what is not a number.
pub open spec fn whole_of(a: Quantity) -> u64 {
    match a {
        Quantity::Nan => 0,
        Quantity::Infinite { negative } => if negative {
            0
        } else {
            u64::MAX
        },
        Quantity::Finite { negative, scaled } => if negative {
            0
        } else {
            crate::binary64::whole(scaled)
        },
    }
}

/// What has a digit at 2^1024 or beyond is out of range.
proof fn lemma_infinite_when_doubled(magnitude: Magnitude, times: u32)
    requires
        magnitude.valid(),
        magnitude.m > 0,
        magnitude.q + times >= 1024,
    ensures
        magnitude.scaled() * pow2(times as nat) >= pow2(2098),
{
    let unit = pow2((magnitude.q + 1074) as nat);
    let factor = pow2(times as nat);
    let far = (magnitude.q + 1074 + times) as nat;
    lemma_pow2_adds((magnitude.q + 1074) as nat, times as nat);
    if far > 2098 {
        lemma_pow2_strictly_increases(2098, far);
    }
    assert(magnitude.m * unit * factor >= unit * factor) by (nonlinear_arith)
        requires
            magnitude.m >= 1,
            unit > 0,
            factor > 0,
    ;
}

/// A number in the course of a calculation.
#[derive(Clone, Copy)]
pub(crate) enum Operand {
    Nan,
    Infinite(bool),
    Finite(bool, Magnitude),
}

impl Operand {
    pub(crate) open spec fn value(self) -> Quantity {
        match self {
            Operand::Nan => Quantity::Nan,
            Operand::Infinite(negative) => Quantity::Infinite { negative },
            Operand::Finite(negative, magnitude) => Quantity::Finite {
                negative,
                scaled: magnitude.scaled(),
            },
        }
    }

    /// Whether a finite number is one of the format.
    pub(crate) open spec fn valid(self) -> bool {
        self matches Operand::Finite(_, magnitude) ==> magnitude.valid() && magnitude.q <= 1023
            && magnitude.scaled() < pow2(2098)
    }

    fn of_magnitude(negative: bool, magnitude: Magnitude) -> (result: Operand)
        requires
            magnitude.valid(),
        ensures
            result.valid(),
            result.value() == rounded(negative, magnitude.scaled()),
    {
        proof {
            lemma_mul_basics(pow2((magnitude.q + 1074) as nat) as int);
            lemma_mul_basics(pow2(0) as int);
            lemma_mul_basics(pow2(2098) as int);
        }
        if magnitude.m == 0 {
            Operand::Finite(negative, Magnitude { m: 0, q: -1074 })
        } else if magnitude.q >= 1024 {
            proof {
                let p = pow2((magnitude.q + 1074) as nat);
                if magnitude.q > 1024 {
                    lemma_pow2_strictly_increases(2098, (magnitude.q + 1074) as nat);
                }
                assert(magnitude.m * p >= p) by (nonlinear_arith)
                    requires
                        magnitude.m >= 1,
                        p > 0,
                ;
            }
            Operand::Infinite(negative)
        } else if (Magnitude { m: 1, q: 1024 }).at_most(magnitude) {
            Operand::Infinite(negative)
        } else {
            Operand::Finite(negative, magnitude)
        }
    }

    /// The value of a number.
    pub(crate) fn of(number: Binary64) -> (result: Operand)
        ensures
            result.valid(),
            result.value() == number.value(),
    {
        let negative = number.bits >= 0x8000_0000_0000_0000;
        if number.nan() {
            Operand::Nan
        } else if !number.finite() {
            Operand::Infinite(negative)
        } else {
            proof {
                number.lemma_scaled_bound();
            }
            Operand::Finite(negative, number.magnitude())
        }
    }

    /// A whole number.
    pub(crate) fn of_whole(n: u64) -> (result: Operand)
        ensures
            result.valid(),
            result.value() == of_whole(n),
    {
        Operand::of_magnitude(false, Magnitude::of_whole(n))
    }

    pub(crate) fn product(self, other: Operand) -> (result: Operand)
        requires
            self.valid(),
            other.valid(),
        ensures
            result.valid(),
            result.value() == product(self.value(), other.value()),
    {
        match (self, other) {
            (Operand::Finite(n, a), Operand::Finite(m, b)) => Operand::of_magnitude(n != m, a.times(b)),
            (Operand::Infinite(n), Operand::Finite(m, b)) => if b.is_zero() {
                Operand::Nan
            } else {
                Operand::Infinite(n != m)
            },
            (Operand::Finite(n, a), Operand::Infinite(m)) => if a.is_zero() {
                Operand::Nan
            } else {
                Operand::Infinite(n != m)
            },
            (Operand::Infinite(n), Operand::Infinite(m)) => Operand::Infinite(n != m),
            _ => Operand::Nan,
        }
    }

    pub(crate) fn doubled(self, times: u32) -> (result: Operand)
        requires
            self.valid(),
        ensures
            result.valid(),
            result.value() == doubled(self.value(), times),
    {
        match self {
            Operand::Finite(negative, magnitude) => {
                if magnitude.m == 0 {
                    proof {
                        lemma_mul_basics(pow2((magnitude.q + 1074) as nat) as int);
                        lemma_mul_basics(pow2(times as nat) as int);
                    }
                    self
                } else if magnitude.q as i64 + times as i64 >= 1024 {
                    proof {
                        lemma_infinite_when_doubled(magnitude, times);
                    }
                    Operand::Infinite(negative)
                } else {
                    Operand::of_magnitude(negative, magnitude.doubled(times))
                }
            },
            _ => self,
        }
    }

    pub(crate) fn one_minus(self) -> (result: Operand)
        requires
            self.valid(),
        ensures
            result.valid(),
            result.value() == one_minus(self.value()),
    {
        match self {
            Operand::Nan => Operand::Nan,
            Operand::Infinite(negative) => Operand::Infinite(!negative),
            Operand::Finite(negative, magnitude) => {
                proof {
                    lemma_mul_basics(pow2(1074) as int);
                }
                if negative {
                    Operand::of_magnitude(false, magnitude.one_more())
                } else if magnitude.at_most(Magnitude { m: 1, q: 0 }) {
                    Operand::of_magnitude(false, magnitude.one_less())
                } else {
                    Operand::of_magnitude(true, magnitude.minus_one())
                }
            },
        }
    }

    pub(crate) fn at_most(self, other: Operand) -> (is: bool)
        requires
            self.valid(),
            other.valid(),
        ensures
            is == at_most(self.value(), other.value()),
    {
        match (self, other) {
            (Operand::Finite(n, a), Operand::Finite(m, b)) => if n {
                if m {
                    b.at_most(a)
                } else {
                    true
                }
            } else if m {
                a.is_zero() && b.is_zero()
            } else {
                a.at_most(b)
            },
            (Operand::Infinite(n), Operand::Infinite(m)) => n || !m,
            (Operand::Infinite(n), Operand::Finite(_, _)) => n,
            (Operand::Finite(_, _), Operand::Infinite(m)) => !m,
            _ => false,
        }
    }

    pub(crate) fn minimum(self, other: Operand) -> (smaller: Operand)
        requires
            self.valid(),
            other.valid(),
        ensures
            smaller.valid(),
            smaller.value() == minimum(self.value(), other.value()),
    {
        match self {
            Operand::Nan => other,
            _ => match other {
                Operand::Nan => self,
                _ => if self.at_most(other) {
                    self
                } else {
                    other
                },
            },
        }
    }

    pub(crate) fn to_whole(self) -> (n: u64)
        requires
            self.valid(),
        ensures
            n == whole_of(self.value()),
    {
        match self {
            Operand::Nan => 0,
            Operand::Infinite(negative) => if negative {
                0
            } else {
                u64::MAX
            },
            Operand::Finite(negative, magnitude) => if negative {
                0
            } else {
                magnitude.to_whole()
            },
        }
    }
}

} // verus!
