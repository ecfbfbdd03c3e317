//! Technical-analysis indicators over exact rational arithmetic.
//!
//! The library computes momentum oscillators (relative strength index,
//! stochastic oscillator, Williams %R) and trend filters (simple and
//! exponential moving averages). Every value is an exact rational number,
//! so each indicator's result equals the mathematical formula it claims to
//! compute, and the documented ranges are proved rather than sampled.

pub mod analysis;
pub mod rational;
