//! Exact rational numbers: the value model shared by all indicators.
//!
//! An executable [`Rational`] is a pair of `i128` fields `num / den` with a
//! positive denominator. Its mathematical counterpart [`Rat`] carries
//! unbounded integers, so specifications can multiply freely without any
//! overflow concern. Two rationals denote the same value exactly when they
//! agree under cross-multiplication.

use vstd::prelude::*;

verus! {

/// Largest magnitude accepted for the numerator and denominator of an
/// indicator input. With inputs inside this limit every intermediate
/// product of the indicator formulas fits in `i128`.
pub const MAGNITUDE_LIMIT: i128 = 100_000_000_000;

/// The mathematical value of a rational number: an unbounded numerator
/// over an unbounded denominator.
pub ghost struct Rat {
    pub num: int,
    pub den: int,
}

impl Rat {
    /// A rational is well formed when its denominator is positive.
    pub open spec fn wf(self) -> bool {
        self.den > 0
    }

    /// Both components are small enough for executable arithmetic.
    pub open spec fn in_range(self) -> bool {
        &&& -MAGNITUDE_LIMIT <= self.num <= MAGNITUDE_LIMIT
        &&& 0 < self.den <= MAGNITUDE_LIMIT
    }

    /// The integer `i` as a rational.
    pub open spec fn of_int(i: int) -> Rat {
        Rat { num: i, den: 1 }
    }

    /// Value equality, by cross-multiplication: `a/b == c/d` iff `a*d == c*b`.
    pub open spec fn eqv(self, other: Rat) -> bool {
        self.num * other.den == other.num * self.den
    }

    /// Value ordering (for well-formed rationals): `a/b <= c/d` iff `a*d <= c*b`.
    pub open spec fn le(self, other: Rat) -> bool {
        self.num * other.den <= other.num * self.den
    }

    /// Strict value ordering (for well-formed rationals).
    pub open spec fn lt(self, other: Rat) -> bool {
        self.num * other.den < other.num * self.den
    }

    pub open spec fn plus(self, other: Rat) -> Rat {
        Rat { num: self.num * other.den + other.num * self.den, den: self.den * other.den }
    }

    pub open spec fn minus(self, other: Rat) -> Rat {
        Rat { num: self.num * other.den - other.num * self.den, den: self.den * other.den }
    }

    pub open spec fn times(self, other: Rat) -> Rat {
        Rat { num: self.num * other.num, den: self.den * other.den }
    }

    pub open spec fn divided_by(self, other: Rat) -> Rat {
        Rat { num: self.num * other.den, den: self.den * other.num }
    }
}

/// An exact rational number `num / den` with `den > 0`.
#[derive(Clone, Copy, Debug)]
pub struct Rational {
    pub num: i128,
    pub den: i128,
}

impl View for Rational {
    type V = Rat;

    open spec fn view(&self) -> Rat {
        Rat { num: self.num as int, den: self.den as int }
    }
}

/// A window of values sampled at a fixed denominator: element `i` denotes
/// the rational `nums[i] / den`. The most recent value comes last.
pub struct Series {
    pub nums: Vec<i128>,
    pub den: i128,
}

/// The sequence of rational values `nums[i] / den`.
pub open spec fn map_to_rats(nums: Seq<i128>, den: int) -> Seq<Rat> {
    nums.map(|i: int, n: i128| Rat { num: n as int, den: den })
}

impl Series {
    /// The denominator is positive and every component is inside the
    /// magnitude limit.
    pub open spec fn wf(self) -> bool {
        &&& 0 < self.den <= MAGNITUDE_LIMIT
        &&& forall|i: int|
            0 <= i < self.nums@.len() ==> -MAGNITUDE_LIMIT <= #[trigger] self.nums@[i]
                <= MAGNITUDE_LIMIT
    }
}

impl View for Series {
    type V = Seq<Rat>;

    open spec fn view(&self) -> Seq<Rat> {
        map_to_rats(self.nums@, self.den as int)
    }
}

/// The sum of a sequence of integers.
pub open spec fn int_sum(s: Seq<i128>) -> int
    decreases s.len(),
{
    if s.len() == 0 {
        0
    } else {
        int_sum(s.drop_last()) + s.last()
    }
}

/// The sum of a sequence of rationals, folded with rational addition.
pub open spec fn rat_sum(s: Seq<Rat>) -> Rat
    decreases s.len(),
{
    if s.len() == 0 {
        Rat::of_int(0)
    } else {
        rat_sum(s.drop_last()).plus(s.last())
    }
}

/// Summing rationals over a common denominator gives the sum of the
/// numerators over that denominator.
pub proof fn lemma_rat_sum_common_den(nums: Seq<i128>, den: int)
    requires
        den > 0,
    ensures
        rat_sum(map_to_rats(nums, den)).den > 0,
        rat_sum(map_to_rats(nums, den)).eqv(Rat { num: int_sum(nums), den: den }),
    decreases nums.len(),
{
    let s = map_to_rats(nums, den);
    if nums.len() == 0 {
        assert(s.len() == 0);
        assert(rat_sum(s) == Rat::of_int(0));
        assert(rat_sum(s).eqv(Rat { num: int_sum(nums), den: den }));
    } else {
        let prefix = nums.drop_last();
        lemma_rat_sum_common_den(prefix, den);
        assert(map_to_rats(prefix, den) =~= s.drop_last());
        let sp = rat_sum(s.drop_last());
        assert(s.last() == Rat { num: nums.last() as int, den: den });
        lemma_mul_pos(sp.den, den);
        assert(rat_sum(s).num * den == int_sum(nums) * rat_sum(s).den) by (nonlinear_arith)
            requires
                rat_sum(s).num == sp.num * den + (nums.last() as int) * sp.den,
                rat_sum(s).den == sp.den * den,
                int_sum(nums) == int_sum(prefix) + nums.last(),
                sp.num * den == int_sum(prefix) * sp.den;
    }
}

/// The product of two values inside the given magnitudes stays inside
/// their product.
pub proof fn lemma_mul_bound(x: int, y: int, bx: int, by: int)
    by (nonlinear_arith)
    requires
        0 <= bx,
        0 <= by,
        -bx <= x <= bx,
        -by <= y <= by,
    ensures
        -(bx * by) <= x * y <= bx * by,
{
}

/// The product of two positive values is positive.
pub proof fn lemma_mul_pos(x: int, y: int)
    by (nonlinear_arith)
    requires
        0 < x,
        0 < y,
    ensures
        0 < x * y,
{
}

/// Replacing a rational by an equivalent one does not change how it
/// compares to any third value.
pub proof fn lemma_eqv_preserves_le(a: Rat, b: Rat, c: Rat)
    by (nonlinear_arith)
    requires
        a.wf(),
        b.wf(),
        c.wf(),
        a.eqv(b),
    ensures
        a.le(c) == b.le(c),
        c.le(a) == c.le(b),
{
}

impl Rational {
    /// Strict comparison of the denoted values.
    pub fn less_than(&self, other: &Rational) -> (r: bool)
        requires
            self@.in_range(),
            other@.in_range(),
        ensures
            r == self@.lt(other@),
    {
        proof {
            lemma_mul_bound(self.num as int, other.den as int, MAGNITUDE_LIMIT as int, MAGNITUDE_LIMIT as int);
            lemma_mul_bound(other.num as int, self.den as int, MAGNITUDE_LIMIT as int, MAGNITUDE_LIMIT as int);
        }
        self.num * other.den < other.num * self.den
    }

    /// Equality of the denoted values.
    pub fn equal_value(&self, other: &Rational) -> (r: bool)
        requires
            self@.in_range(),
            other@.in_range(),
        ensures
            r == self@.eqv(other@),
    {
        proof {
            lemma_mul_bound(self.num as int, other.den as int, MAGNITUDE_LIMIT as int, MAGNITUDE_LIMIT as int);
            lemma_mul_bound(other.num as int, self.den as int, MAGNITUDE_LIMIT as int, MAGNITUDE_LIMIT as int);
        }
        self.num * other.den == other.num * self.den
    }
}

} // verus!
