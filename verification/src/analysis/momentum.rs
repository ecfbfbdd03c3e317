//! Momentum contains simple technical analysis indicators showing the
//! difference between period's closing price and the closing price N
//! periods ago.

use vstd::prelude::*;

use crate::analysis::AnalysisError;
use crate::rational::{Rat, Rational, MAGNITUDE_LIMIT};
use crate::rational::{lemma_eqv_preserves_le, lemma_mul_bound, lemma_mul_pos};

verus! {

/// `100 - 100 / (1 + gain / loss)`, or exactly `100` when `loss` is zero.
pub open spec fn rsi_value(gain: Rat, loss: Rat) -> Rat {
    if loss.num == 0 {
        Rat::of_int(100)
    } else {
        Rat::of_int(100).minus(
            Rat::of_int(100).divided_by(Rat::of_int(1).plus(gain.divided_by(loss))),
        )
    }
}

/// The relative strength index lies in `[0, 100]`; it is exactly `100`
/// when the loss is zero and exactly `50` when gain and loss are equal
/// and positive.
pub proof fn lemma_rsi_value_range(gain: Rat, loss: Rat)
    by (nonlinear_arith)
    requires
        gain.wf(),
        loss.wf(),
        Rat::of_int(0).le(gain),
        Rat::of_int(0).le(loss),
    ensures
        rsi_value(gain, loss).wf(),
        Rat::of_int(0).le(rsi_value(gain, loss)),
        rsi_value(gain, loss).le(Rat::of_int(100)),
        loss.eqv(Rat::of_int(0)) ==> rsi_value(gain, loss).eqv(Rat::of_int(100)),
        gain.eqv(loss) && Rat::of_int(0).lt(loss) ==> rsi_value(gain, loss).eqv(Rat::of_int(50)),
{
}

/// Relative strength index (RSI) is a momentum oscillator developed by J.
/// Welles Wilder Jr. that measures the speed and change of movements. The
/// output of the function oscillates between 0 and 100.
///
/// Wilder suggested in his book that RSI calculation should be based on 14
/// periods. gain and loss arguments are averages for the used period.
pub fn relative_strength_index(gain: Rational, loss: Rational) -> (r: Result<
    Rational,
    AnalysisError,
>)
    requires
        gain@.in_range(),
        loss@.in_range(),
    ensures
        gain@.lt(Rat::of_int(0)) ==> r == Err::<Rational, AnalysisError>(
            AnalysisError::GainLessThanZero,
        ),
        !gain@.lt(Rat::of_int(0)) && loss@.lt(Rat::of_int(0)) ==> r == Err::<
            Rational,
            AnalysisError,
        >(AnalysisError::LossLessThanZero),
        !gain@.lt(Rat::of_int(0)) && !loss@.lt(Rat::of_int(0)) ==> (r matches Ok(v)
            && v@ == rsi_value(gain@, loss@) && v@.wf() && Rat::of_int(0).le(v@) && v@.le(
            Rat::of_int(100),
        )),
{
    if gain.num < 0 {
        return Err(AnalysisError::GainLessThanZero);
    }
    if loss.num < 0 {
        return Err(AnalysisError::LossLessThanZero);
    }
    if loss.num == 0 {
        proof {
            lemma_rsi_value_range(gain@, loss@);
        }
        return Ok(Rational { num: 100, den: 1 });
    }
    proof {
        lemma_mul_bound(gain.num as int, loss.den as int, MAGNITUDE_LIMIT as int, MAGNITUDE_LIMIT as int);
        lemma_mul_bound(gain.den as int, loss.num as int, MAGNITUDE_LIMIT as int, MAGNITUDE_LIMIT as int);
    }
    let a: i128 = gain.num * loss.den;
    let b: i128 = gain.den * loss.num;
    proof {
        lemma_rsi_value_range(gain@, loss@);
        lemma_mul_pos(gain.den as int, loss.num as int);
    }
    Ok(Rational { num: 100 * a, den: a + b })
}

/// `100 * (close - low) / (high - low)`, or exactly `50` when the range
/// is degenerate (`high == low`).
pub open spec fn stochastic_value(close: Rat, high: Rat, low: Rat) -> Rat {
    if high.eqv(low) {
        Rat::of_int(50)
    } else {
        Rat::of_int(100).times(close.minus(low).divided_by(high.minus(low)))
    }
}

/// The representative returned by the executable function: the formula
/// with the common factor `low.den` cancelled, so it fits in `i128`.
pub open spec fn stochastic_repr(close: Rat, high: Rat, low: Rat) -> Rat {
    if high.eqv(low) {
        Rat::of_int(50)
    } else {
        Rat {
            num: 100 * (close.num * low.den - low.num * close.den) * high.den,
            den: close.den * (high.num * low.den - low.num * high.den),
        }
    }
}

/// The cancelled representative denotes the same value as the formula.
pub proof fn lemma_stochastic_repr_eqv(close: Rat, high: Rat, low: Rat)
    ensures
        stochastic_repr(close, high, low).eqv(stochastic_value(close, high, low)),
{
    if !high.eqv(low) {
        let a = close.num * low.den - low.num * close.den;
        let b = high.num * low.den - low.num * high.den;
        let r = stochastic_repr(close, high, low);
        let v = stochastic_value(close, high, low);
        assert(r.num * v.den == v.num * r.den) by (nonlinear_arith)
            requires
                r.num == 100 * a * high.den,
                r.den == close.den * b,
                v.num == 100 * (a * (high.den * low.den)),
                v.den == close.den * low.den * b;
    }
}

/// The stochastic oscillator lies in `[0, 100]` for every valid input,
/// and is exactly `50` when the high equals the low.
pub proof fn lemma_stochastic_value_range(close: Rat, high: Rat, low: Rat)
    by (nonlinear_arith)
    requires
        close.wf(),
        high.wf(),
        low.wf(),
        low.le(close),
        close.le(high),
    ensures
        stochastic_value(close, high, low).wf(),
        stochastic_repr(close, high, low).wf(),
        Rat::of_int(0).le(stochastic_value(close, high, low)),
        stochastic_value(close, high, low).le(Rat::of_int(100)),
        high.eqv(low) ==> stochastic_value(close, high, low).eqv(Rat::of_int(50)),
{
}

/// Stochastic oscillator is a momentum indicator developed by Dr. George
/// Lane that shows the location of the value relative to the high-low
/// range. The output of the function oscillates between 0 and 100.
///
/// `high` and `low` arguments are the highest high and the lowest low
/// respectively for the used period.
///
/// The formula is modified to return 50 if the highest high equals the
/// lowest low.
pub fn stochastic_oscillator(close: Rational, high: Rational, low: Rational) -> (r: Result<
    Rational,
    AnalysisError,
>)
    requires
        close@.in_range(),
        high@.in_range(),
        low@.in_range(),
    ensures
        high@.lt(low@) ==> r == Err::<Rational, AnalysisError>(AnalysisError::HighLessThanLow),
        !high@.lt(low@) && high@.lt(close@) ==> r == Err::<Rational, AnalysisError>(
            AnalysisError::CloseGreaterThanHigh,
        ),
        !high@.lt(low@) && !high@.lt(close@) && close@.lt(low@) ==> r == Err::<
            Rational,
            AnalysisError,
        >(AnalysisError::CloseLessThanLow),
        !high@.lt(low@) && !high@.lt(close@) && !close@.lt(low@) ==> (r matches Ok(v)
            && v@ == stochastic_repr(close@, high@, low@) && v@.eqv(
            stochastic_value(close@, high@, low@),
        ) && v@.wf() && Rat::of_int(0).le(v@) && v@.le(Rat::of_int(100))),
{
    if high.less_than(&low) {
        return Err(AnalysisError::HighLessThanLow);
    }
    if high.less_than(&close) {
        return Err(AnalysisError::CloseGreaterThanHigh);
    }
    if close.less_than(&low) {
        return Err(AnalysisError::CloseLessThanLow);
    }
    proof {
        lemma_stochastic_repr_eqv(close@, high@, low@);
        lemma_stochastic_value_range(close@, high@, low@);
        lemma_eqv_preserves_le(
            stochastic_repr(close@, high@, low@),
            stochastic_value(close@, high@, low@),
            Rat::of_int(100),
        );
        lemma_eqv_preserves_le(
            stochastic_repr(close@, high@, low@),
            stochastic_value(close@, high@, low@),
            Rat::of_int(0),
        );
    }
    if high.equal_value(&low) {
        return Ok(Rational { num: 50, den: 1 });
    }
    proof {
        lemma_mul_bound(close.num as int, low.den as int, MAGNITUDE_LIMIT as int, MAGNITUDE_LIMIT as int);
        lemma_mul_bound(low.num as int, close.den as int, MAGNITUDE_LIMIT as int, MAGNITUDE_LIMIT as int);
        lemma_mul_bound(high.num as int, low.den as int, MAGNITUDE_LIMIT as int, MAGNITUDE_LIMIT as int);
        lemma_mul_bound(low.num as int, high.den as int, MAGNITUDE_LIMIT as int, MAGNITUDE_LIMIT as int);
    }
    let a: i128 = close.num * low.den - low.num * close.den;
    let b: i128 = high.num * low.den - low.num * high.den;
    proof {
        lemma_mul_bound(
            100 * (a as int),
            high.den as int,
            200_000_000_000_000_000_000_000_000,
            MAGNITUDE_LIMIT as int,
        );
        lemma_mul_bound(
            close.den as int,
            b as int,
            MAGNITUDE_LIMIT as int,
            200_000_000_000_000_000_000_000,
        );
    }
    Ok(Rational { num: 100 * a * high.den, den: close.den * b })
}

/// `-100 * (high - close) / (high - low)`, or exactly `-50` when the
/// range is degenerate (`high == low`).
pub open spec fn williams_value(close: Rat, high: Rat, low: Rat) -> Rat {
    if high.eqv(low) {
        Rat::of_int(-50)
    } else {
        Rat::of_int(-100).times(high.minus(close).divided_by(high.minus(low)))
    }
}

/// The representative returned by the executable function: the formula
/// with the common factor `high.den` cancelled, so it fits in `i128`.
pub open spec fn williams_repr(close: Rat, high: Rat, low: Rat) -> Rat {
    if high.eqv(low) {
        Rat::of_int(-50)
    } else {
        Rat {
            num: -100 * (high.num * close.den - close.num * high.den) * low.den,
            den: close.den * (high.num * low.den - low.num * high.den),
        }
    }
}

/// The cancelled representative denotes the same value as the formula.
pub proof fn lemma_williams_repr_eqv(close: Rat, high: Rat, low: Rat)
    ensures
        williams_repr(close, high, low).eqv(williams_value(close, high, low)),
{
    if !high.eqv(low) {
        let a = high.num * close.den - close.num * high.den;
        let b = high.num * low.den - low.num * high.den;
        let r = williams_repr(close, high, low);
        let v = williams_value(close, high, low);
        assert(r.num * v.den == v.num * r.den) by (nonlinear_arith)
            requires
                r.num == -100 * a * low.den,
                r.den == close.den * b,
                v.num == -100 * (a * (high.den * low.den)),
                v.den == high.den * close.den * b;
    }
}

/// Williams %R lies in `[-100, 0]` for every valid input, and is exactly
/// `-50` when the high equals the low.
pub proof fn lemma_williams_value_range(close: Rat, high: Rat, low: Rat)
    by (nonlinear_arith)
    requires
        close.wf(),
        high.wf(),
        low.wf(),
        low.le(close),
        close.le(high),
    ensures
        williams_value(close, high, low).wf(),
        williams_repr(close, high, low).wf(),
        Rat::of_int(-100).le(williams_value(close, high, low)),
        williams_value(close, high, low).le(Rat::of_int(0)),
        high.eqv(low) ==> williams_value(close, high, low).eqv(Rat::of_int(-50)),
{
}

/// Williams %R is a momentum indicator developed by Larry R. Williams that
/// is the inverse of the stochastic oscillator. It reflects the level of
/// the value relative to the high. The output of the function oscillates
/// between -100 and 0.
///
/// `high` and `low` arguments are the highest high and the lowest low
/// respectively for the used period.
///
/// The formula is modified to return -50 if the highest high equals the
/// lowest low.
pub fn williams_percent_r(close: Rational, high: Rational, low: Rational) -> (r: Result<
    Rational,
    AnalysisError,
>)
    requires
        close@.in_range(),
        high@.in_range(),
        low@.in_range(),
    ensures
        high@.lt(low@) ==> r == Err::<Rational, AnalysisError>(AnalysisError::HighLessThanLow),
        !high@.lt(low@) && high@.lt(close@) ==> r == Err::<Rational, AnalysisError>(
            AnalysisError::CloseGreaterThanHigh,
        ),
        !high@.lt(low@) && !high@.lt(close@) && close@.lt(low@) ==> r == Err::<
            Rational,
            AnalysisError,
        >(AnalysisError::CloseLessThanLow),
        !high@.lt(low@) && !high@.lt(close@) && !close@.lt(low@) ==> (r matches Ok(v)
            && v@ == williams_repr(close@, high@, low@) && v@.eqv(
            williams_value(close@, high@, low@),
        ) && v@.wf() && Rat::of_int(-100).le(v@) && v@.le(Rat::of_int(0))),
{
    if high.less_than(&low) {
        return Err(AnalysisError::HighLessThanLow);
    }
    if high.less_than(&close) {
        return Err(AnalysisError::CloseGreaterThanHigh);
    }
    if close.less_than(&low) {
        return Err(AnalysisError::CloseLessThanLow);
    }
    proof {
        lemma_williams_repr_eqv(close@, high@, low@);
        lemma_williams_value_range(close@, high@, low@);
        lemma_eqv_preserves_le(
            williams_repr(close@, high@, low@),
            williams_value(close@, high@, low@),
            Rat::of_int(0),
        );
        lemma_eqv_preserves_le(
            williams_repr(close@, high@, low@),
            williams_value(close@, high@, low@),
            Rat::of_int(-100),
        );
    }
    if high.equal_value(&low) {
        return Ok(Rational { num: -50, den: 1 });
    }
    proof {
        lemma_mul_bound(high.num as int, close.den as int, MAGNITUDE_LIMIT as int, MAGNITUDE_LIMIT as int);
        lemma_mul_bound(close.num as int, high.den as int, MAGNITUDE_LIMIT as int, MAGNITUDE_LIMIT as int);
        lemma_mul_bound(high.num as int, low.den as int, MAGNITUDE_LIMIT as int, MAGNITUDE_LIMIT as int);
        lemma_mul_bound(low.num as int, high.den as int, MAGNITUDE_LIMIT as int, MAGNITUDE_LIMIT as int);
    }
    let a: i128 = high.num * close.den - close.num * high.den;
    let b: i128 = high.num * low.den - low.num * high.den;
    proof {
        lemma_mul_bound(
            -100 * (a as int),
            low.den as int,
            200_000_000_000_000_000_000_000_000,
            MAGNITUDE_LIMIT as int,
        );
        lemma_mul_bound(
            close.den as int,
            b as int,
            MAGNITUDE_LIMIT as int,
            200_000_000_000_000_000_000_000,
        );
    }
    Ok(Rational { num: -100 * a * low.den, den: close.den * b })
}

} // verus!
