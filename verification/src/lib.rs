//! Technical-analysis indicators over price/volume series, with every
//! kernel verified against an exact mathematical model.
//!
//! Every indicator exposes three calls: a lookback resolver mapping
//! parameters to the first valid output index, a batch kernel filling a
//! caller-allocated output series, and an incremental kernel producing
//! one new value in constant time from the newest samples and an
//! explicit streaming state. The central invariant — the batch and
//! incremental kernels agree at every valid index — is proved for each
//! indicator, as are the validation order, the untouched-on-error
//! guarantee and the prefix fill policy.
//!
//! Samples are [`TAValue`]s: fixed-point decimals with twelve decimal
//! places and an explicit undefined value in place of a float's NaN, so
//! every kernel is a total, deterministic function. Validation is
//! configured at runtime through [`TAConfig`]; a failed check reports a
//! [`KandError`] before any output is written.

use vstd::prelude::*;

pub mod ohlcv;
pub mod series;
pub mod stats;
pub mod value;

pub use value::TAValue;

verus! {

/// The error kinds every kernel of this library reports.
///
/// Every validation failure is recoverable: the caller fixes the inputs or
/// parameters and retries the call.
#[derive(Clone, Copy, Debug, PartialEq, Eq, Structural)]
pub enum KandError {
    /// A required input series is structurally empty.
    InvalidData,
    /// Two arrays that must share a length differ.
    LengthMismatch,
    /// Fewer samples than the resolved lookback requires.
    InsufficientData,
    /// A parameter lies outside its valid domain.
    InvalidParameter,
    /// An undefined sample reached a point where it is disallowed.
    NaNDetected,
}

/// Runtime validation configuration threaded through every kernel call.
///
/// Each check class is independently toggleable so a hot path can skip
/// validation once its inputs are known good. When `check_structure` is
/// off, the caller itself must guarantee the structural preconditions.
#[derive(Clone, Copy, Debug)]
pub struct TAConfig {
    /// Run the structural checks: emptiness, lengths, parameter domains.
    pub check_structure: bool,
    /// Scan the inputs for undefined samples before computing.
    pub check_nan: bool,
    /// Fill output entries before the lookback index with the undefined
    /// value; otherwise those entries keep the caller's buffer contents.
    pub fill_invalid_with_nan: bool,
}

impl TAConfig {
    /// The strictest configuration: every check on, prefix filled.
    pub fn strict() -> (c: TAConfig)
        ensures
            c.check_structure,
            c.check_nan,
            c.fill_invalid_with_nan,
    {
        TAConfig { check_structure: true, check_nan: true, fill_invalid_with_nan: true }
    }
}

impl Default for TAConfig {
    /// The default configuration is the strictest one.
    fn default() -> (c: TAConfig)
        ensures
            c.check_structure,
            c.check_nan,
            c.fill_invalid_with_nan,
    {
        TAConfig { check_structure: true, check_nan: true, fill_invalid_with_nan: true }
    }
}

} // verus!
