//! Analysis contains technical indicators that try to predict the direction
//! of future values using the past data.

use vstd::prelude::*;

pub mod momentum;
pub mod trend;

verus! {

/// A list specifying types of analysis errors.
#[derive(Clone, Copy, Debug, PartialEq, Eq, Structural)]
pub enum AnalysisError {
    /// Gain must be positive.
    GainLessThanZero,
    /// Loss must be positive.
    LossLessThanZero,
    /// Close must be less than or equal to high.
    CloseGreaterThanHigh,
    /// Close must be greater than or equal to low.
    CloseLessThanLow,
    /// High must be greater than or equal to low.
    HighLessThanLow,
    /// Slice must not be empty.
    SliceIsEmpty,
}

impl AnalysisError {
    /// The fixed description of each validation failure.
    pub fn description(&self) -> (r: &'static str)
        ensures
            *self == AnalysisError::GainLessThanZero ==> r@ == "gain < 0"@,
            *self == AnalysisError::LossLessThanZero ==> r@ == "loss < 0"@,
            *self == AnalysisError::CloseGreaterThanHigh ==> r@ == "close > high"@,
            *self == AnalysisError::CloseLessThanLow ==> r@ == "close < low"@,
            *self == AnalysisError::HighLessThanLow ==> r@ == "high < low"@,
            *self == AnalysisError::SliceIsEmpty ==> r@ == "slice is empty"@,
    {
        match *self {
            AnalysisError::GainLessThanZero => "gain < 0",
            AnalysisError::LossLessThanZero => "loss < 0",
            AnalysisError::CloseGreaterThanHigh => "close > high",
            AnalysisError::CloseLessThanLow => "close < low",
            AnalysisError::HighLessThanLow => "high < low",
            AnalysisError::SliceIsEmpty => "slice is empty",
        }
    }
}

} // verus!
