//! Trend contains technical analysis indicators that try to predict the
//! direction in which values are moving towards.

use vstd::prelude::*;

use crate::analysis::AnalysisError;
use crate::rational::{int_sum, map_to_rats, rat_sum, Rat, Rational, Series, MAGNITUDE_LIMIT};
use crate::rational::{lemma_mul_bound, lemma_mul_pos, lemma_rat_sum_common_den};

verus! {

/// Largest window length accepted together with a previous value; keeps
/// the denominator product `den * previous.den * (len + 1)` inside `i128`.
pub const MAX_WINDOW_LEN: usize = 1_000_000_000;

/// The unweighted mean of the window: the rational sum of its values
/// divided by their count.
pub open spec fn sma_value(vals: Seq<Rat>) -> Rat {
    rat_sum(vals).divided_by(Rat::of_int(vals.len() as int))
}

/// The representative returned by the executable function: the sum of the
/// shared-denominator numerators over `den * len`.
pub open spec fn sma_repr(nums: Seq<i128>, den: int) -> Rat {
    Rat { num: int_sum(nums), den: den * nums.len() }
}

/// The representative denotes exactly the mean of the window.
pub proof fn lemma_sma_repr_eqv(nums: Seq<i128>, den: int)
    requires
        den > 0,
        nums.len() > 0,
    ensures
        sma_repr(nums, den).wf(),
        sma_repr(nums, den).eqv(sma_value(map_to_rats(nums, den))),
{
    lemma_rat_sum_common_den(nums, den);
    let s = rat_sum(map_to_rats(nums, den));
    let count = nums.len() as int;
    lemma_mul_pos(den, count);
    assert(int_sum(nums) * (s.den * count) == s.num * (den * count)) by (nonlinear_arith)
        requires
            s.num * den == int_sum(nums) * s.den;
}

/// The smoothing step `(last - previous) * k + previous` with weighting
/// factor `k = 2 / (1 + count)`.
pub open spec fn ema_step(last: Rat, count: nat, previous: Rat) -> Rat {
    last.minus(previous).times(Rat { num: 2, den: (count + 1) as int }).plus(previous)
}

/// The representative returned by the executable function: the smoothing
/// step with the common factor `previous.den` cancelled.
pub open spec fn ema_repr(nums: Seq<i128>, den: int, previous: Rat) -> Rat {
    Rat {
        num: 2 * (nums.last() as int * previous.den - previous.num * den) + previous.num * den * (
        nums.len() + 1),
        den: den * previous.den * (nums.len() + 1),
    }
}

/// The result of the exponential moving average: the smoothing step when
/// a previous value is given, the simple moving average otherwise.
pub open spec fn ema_result(nums: Seq<i128>, den: int, previous: Option<Rat>) -> Rat {
    match previous {
        Option::Some(p) => ema_repr(nums, den, p),
        Option::None => sma_repr(nums, den),
    }
}

/// The representative denotes exactly the smoothing step on the last
/// element of the window.
pub proof fn lemma_ema_repr_eqv(nums: Seq<i128>, den: int, previous: Rat)
    requires
        nums.len() > 0,
        den > 0,
        previous.wf(),
    ensures
        ema_repr(nums, den, previous).wf(),
        ema_repr(nums, den, previous).eqv(
            ema_step(Rat { num: nums.last() as int, den: den }, nums.len(), previous),
        ),
{
    let a = nums.last() as int * previous.den - previous.num * den;
    let c = nums.len() + 1;
    let e = den * previous.den * c;
    let r = ema_repr(nums, den, previous);
    let v = ema_step(Rat { num: nums.last() as int, den: den }, nums.len(), previous);
    lemma_mul_pos(den, previous.den);
    lemma_mul_pos(den * previous.den, c as int);
    assert(r.num * v.den == v.num * r.den) by (nonlinear_arith)
        requires
            r.num == 2 * a + previous.num * den * c,
            r.den == e,
            v.num == a * 2 * previous.den + previous.num * e,
            v.den == e * previous.den,
            e == den * previous.den * c;
}

/// Without a previous value the exponential moving average is the simple
/// moving average of the same window.
pub proof fn lemma_ema_defaults_to_sma(nums: Seq<i128>, den: int)
    ensures
        ema_result(nums, den, Option::None) == sma_repr(nums, den),
{
}

/// With a single-element window the weighting factor is `2 / (1 + 1) = 1`,
/// so the result collapses to exactly the last element.
pub proof fn lemma_ema_single_element(nums: Seq<i128>, den: int, previous: Rat)
    requires
        nums.len() == 1,
        den > 0,
        previous.wf(),
    ensures
        ema_repr(nums, den, previous).eqv(Rat { num: nums[0] as int, den: den }),
{
    let r = ema_repr(nums, den, previous);
    assert(r.num * den == nums[0] as int * r.den) by (nonlinear_arith)
        requires
            r.num == 2 * (nums[0] as int * previous.den - previous.num * den) + previous.num * den
                * 2,
            r.den == den * previous.den * 2;
}

/// Simple moving average (SMA) is the unweighted mean of the datum points.
///
/// The number of periods depends on the analytical objectives. Typical
/// number of periods for short, medium and long term trends are 5-20,
/// 20-60 and 100-200 respectively.
pub fn simple_moving_average(values: &Series) -> (r: Result<Rational, AnalysisError>)
    requires
        values.wf(),
    ensures
        values.nums@.len() == 0 ==> r == Err::<Rational, AnalysisError>(AnalysisError::SliceIsEmpty),
        values.nums@.len() > 0 ==> (r matches Ok(v) && v@ == sma_repr(
            values.nums@,
            values.den as int,
        ) && v@.eqv(sma_value(values@)) && v@.wf()),
{
    let length: usize = values.nums.len();
    if length == 0 {
        return Err(AnalysisError::SliceIsEmpty);
    }
    let mut total: i128 = 0;
    let mut i: usize = 0;
    while i < length
        invariant
            0 <= i <= length,
            length == values.nums@.len(),
            values.wf(),
            total == int_sum(values.nums@.subrange(0, i as int)),
            -((i as int) * MAGNITUDE_LIMIT) <= total <= (i as int) * MAGNITUDE_LIMIT,
        decreases length - i,
    {
        proof {
            let prefix = values.nums@.subrange(0, i as int);
            let extended = values.nums@.subrange(0, i as int + 1);
            assert(extended.drop_last() =~= prefix);
            assert((i as int) * MAGNITUDE_LIMIT + MAGNITUDE_LIMIT == (i as int + 1)
                * MAGNITUDE_LIMIT) by (nonlinear_arith);
            lemma_mul_bound(i as int + 1, MAGNITUDE_LIMIT as int, 0xFFFF_FFFF_FFFF_FFFF, MAGNITUDE_LIMIT as int);
        }
        total = total + values.nums[i];
        i = i + 1;
    }
    proof {
        assert(values.nums@.subrange(0, length as int) =~= values.nums@);
        lemma_mul_pos(values.den as int, length as int);
        lemma_mul_bound(values.den as int, length as int, MAGNITUDE_LIMIT as int, 0xFFFF_FFFF_FFFF_FFFF);
        lemma_sma_repr_eqv(values.nums@, values.den as int);
    }
    Ok(Rational { num: total, den: values.den * (length as i128) })
}

/// Exponential moving average (EMA) is a filter that applies weighting
/// factors which decrease exponentially. The weighting for each older
/// datum decreases exponentially, never reaching zero.
///
/// Function calculates the weighting factor from the window length and
/// calculates the exponential moving average using that factor. If EMA is
/// calculated for the first time, `previous` is `None` and the function
/// returns the simple moving average of the datum points. Otherwise only
/// the last element of the window is consulted.
pub fn exponential_moving_average(values: &Series, previous: Option<Rational>) -> (r: Result<
    Rational,
    AnalysisError,
>)
    requires
        values.wf(),
        previous matches Some(p) ==> p@.in_range() && values.nums@.len() <= MAX_WINDOW_LEN,
    ensures
        values.nums@.len() == 0 ==> r == Err::<Rational, AnalysisError>(AnalysisError::SliceIsEmpty),
        values.nums@.len() > 0 && previous is None ==> (r matches Ok(v) && v@ == ema_result(
            values.nums@,
            values.den as int,
            Option::None,
        ) && v@.eqv(sma_value(values@)) && v@.wf()),
        previous matches Some(p) ==> (values.nums@.len() > 0 ==> (r matches Ok(v) && v@
            == ema_result(values.nums@, values.den as int, Option::Some(p@)) && v@.eqv(
            ema_step(values@.last(), values.nums@.len(), p@),
        ) && v@.wf())),
{
    let length: usize = values.nums.len();
    if length == 0 {
        return Err(AnalysisError::SliceIsEmpty);
    }
    match previous {
        Some(p) => {
            let last: i128 = values.nums[length - 1];
            let count: i128 = (length as i128) + 1;
            proof {
                lemma_mul_bound(last as int, p.den as int, MAGNITUDE_LIMIT as int, MAGNITUDE_LIMIT as int);
                lemma_mul_bound(p.num as int, values.den as int, MAGNITUDE_LIMIT as int, MAGNITUDE_LIMIT as int);
                lemma_mul_bound(
                    (p.num * values.den) as int,
                    count as int,
                    10_000_000_000_000_000_000_000,
                    1_000_000_001,
                );
                lemma_mul_bound(values.den as int, p.den as int, MAGNITUDE_LIMIT as int, MAGNITUDE_LIMIT as int);
                lemma_mul_bound(
                    (values.den * p.den) as int,
                    count as int,
                    10_000_000_000_000_000_000_000,
                    1_000_000_001,
                );
                lemma_mul_pos(values.den as int, p.den as int);
                lemma_mul_pos((values.den * p.den) as int, count as int);
                lemma_ema_repr_eqv(values.nums@, values.den as int, p@);
                assert(values@.last() == Rat { num: values.nums@.last() as int, den: values.den as int });
            }
            let diff: i128 = last * p.den - p.num * values.den;
            let num: i128 = 2 * diff + p.num * values.den * count;
            let den: i128 = values.den * p.den * count;
            Ok(Rational { num, den })
        },
        None => simple_moving_average(values),
    }
}

} // verus!
