//! A forecast persistence and retrieval layer for time-series models.
//!
//! The crate registers forecasting models, accepts time-series
//! observations, derives stable cache keys from observation content,
//! provisions a time-indexed schema with a cut-over window, and serves
//! time-windowed forecast reads with age-based invalidation.

use vstd::prelude::*;

pub mod clock;
pub mod error;
pub mod fingerprint;
pub mod idgen;
pub mod migration;
pub mod neural_config;
pub mod neural_forecasting;
pub mod providers;
pub mod store;

verus! {

/// A point in time, counted in whole seconds since the Unix epoch.
pub type UnixSeconds = i64;

/// The bit pattern of an IEEE 754 double-precision number.
///
/// The core never interprets these bits arithmetically: observed and
/// predicted values travel through the store unchanged, so the exact
/// bit pattern is the only fact the contracts need.
pub type ValueBits = u64;

/// One incoming observation of the target series: the instant it was
/// measured, the measured value, and an opaque map of additional
/// features, carried as name/value pairs in a fixed order.
#[derive(Debug)]
pub struct TimeSeriesDataPoint {
    pub timestamp: UnixSeconds,
    pub value: ValueBits,
    pub additional_features: Vec<(String, String)>,
}

impl Clone for TimeSeriesDataPoint {
    /// A copy that carries the same content.
    fn clone(&self) -> (res: Self)
        ensures
            res.timestamp == self.timestamp,
            res.value == self.value,
            res.additional_features@ == self.additional_features@,
    {
        TimeSeriesDataPoint {
            timestamp: self.timestamp,
            value: self.value,
            additional_features: crate::store::clone_pairs(&self.additional_features),
        }
    }
}

} // verus!
