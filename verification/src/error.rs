//! The error taxonomy of the forecast layer.

use vstd::prelude::*;

verus! {

/// Why an operation of the forecast layer failed.
#[derive(Debug)]
pub enum ForecastError {
    /// No model is known under the requested name or identifier.
    NotFound { name: String },
    /// The forecasting backend could not be reached at all.
    BackendTransport { backend: String, detail: String },
    /// The backend answered, but with a non-success status or with a
    /// body that could not be decoded.
    BackendResponse { backend: String, status: Option<u16>, detail: String },
    /// Stored or in-flight data could not be decoded.
    Serialization { detail: String },
    /// The schema could not be provisioned.
    ProvisionFailure { detail: String },
}

impl ForecastError {
    /// True exactly on the transport-failure variant.
    pub fn is_backend_transport(&self) -> (r: bool)
        ensures
            r == self is BackendTransport,
    {
        match self {
            ForecastError::BackendTransport { .. } => true,
            _ => false,
        }
    }

    /// True exactly on the variant for a lookup that found nothing.
    pub fn is_not_found(&self) -> (r: bool)
        ensures
            r == self is NotFound,
    {
        match self {
            ForecastError::NotFound { .. } => true,
            _ => false,
        }
    }
}

} // verus!
