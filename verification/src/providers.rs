//! Backend provider configuration.
//!
//! The supported backends form a closed set of tagged variants, so
//! every variant is exhaustively testable.

use vstd::prelude::*;

verus! {

/// The configuration of a MindsDB forecasting backend.
pub struct MindsDBConfig {
    pub model_name: String,
    pub url: String,
    pub history_window: u32,
    pub forecast_horizon: u32,
}

/// The closed set of supported backend providers.
pub enum ProviderConfig {
    MindsDB(MindsDBConfig),
}

/// The address a MindsDB backend listens on when none is configured.
pub fn default_mindsdb_url() -> (r: String)
    ensures
        r@ == ("http://localhost:47334")@,
{
    "http://localhost:47334".to_owned()
}

/// The number of prior points consulted per forecast call when none is
/// configured.
pub fn default_history_window() -> (r: u32)
    ensures
        r == 30,
{
    30
}

/// The number of future points produced per forecast call when none is
/// configured.
pub fn default_forecast_horizon() -> (r: u32)
    ensures
        r == 7,
{
    7
}

/// A provider ready to serve forecast calls against a MindsDB backend.
pub struct MindsDBNeuralProvider {
    pub model_name: String,
    pub url: String,
    pub history_window: u32,
    pub forecast_horizon: u32,
}

/// The provider a configuration denotes, field for field.
pub open spec fn provider_of_config(config: MindsDBConfig) -> MindsDBNeuralProvider {
    MindsDBNeuralProvider {
        model_name: config.model_name,
        url: config.url,
        history_window: config.history_window,
        forecast_horizon: config.forecast_horizon,
    }
}

impl From<MindsDBConfig> for MindsDBNeuralProvider {
    fn from(config: MindsDBConfig) -> (r: MindsDBNeuralProvider) {
        MindsDBNeuralProvider {
            model_name: config.model_name,
            url: config.url,
            history_window: config.history_window,
            forecast_horizon: config.forecast_horizon,
        }
    }
}

impl vstd::std_specs::convert::FromSpecImpl<MindsDBConfig> for MindsDBNeuralProvider {
    open spec fn obeys_from_spec() -> bool {
        true
    }

    open spec fn from_spec(config: MindsDBConfig) -> Self {
        provider_of_config(config)
    }
}

/// What one attempt to reach the forecasting backend produced, as
/// observed at the transport layer. The caller that performs the HTTP
/// exchange reports it here; the decision logic is then verified for
/// every outcome the exchange could have.
pub enum BackendOutcome {
    /// The backend could not be reached at all.
    TransportFailure { detail: String },
    /// The backend answered with a non-success status.
    HttpFailure { status: u16, detail: String },
    /// The backend answered, but its body was not a prediction.
    DecodeFailure { status: u16, detail: String },
    /// The backend returned a point-forecast vector and a confidence,
    /// both as IEEE 754 bit patterns.
    Prediction { prediction: Vec<crate::ValueBits>, confidence: crate::ValueBits },
}

/// The prediction returned to the caller: one value per horizon step
/// and a scalar confidence, as IEEE 754 bit patterns.
pub struct ForecastResponse {
    pub prediction: Vec<crate::ValueBits>,
    pub confidence: crate::ValueBits,
}

/// The number of predicted points an outcome carries.
pub open spec fn outcome_len(o: BackendOutcome) -> nat {
    match o {
        BackendOutcome::Prediction { prediction, .. } => prediction@.len(),
        _ => 0,
    }
}

/// The predicted points an outcome carries.
pub open spec fn outcome_prediction(o: BackendOutcome) -> Seq<crate::ValueBits> {
    match o {
        BackendOutcome::Prediction { prediction, .. } => prediction@,
        _ => Seq::empty(),
    }
}

/// The confidence an outcome carries.
pub open spec fn outcome_confidence(o: BackendOutcome) -> crate::ValueBits {
    match o {
        BackendOutcome::Prediction { confidence, .. } => confidence,
        _ => 0,
    }
}

/// One streaming chunk of a forecast response.
pub struct ForecastChunk {
    /// The prediction carried by this chunk, if it carries one.
    pub delta: Option<Vec<crate::ValueBits>>,
    /// The confidence reported with the chunk.
    pub confidence: crate::ValueBits,
}

/// A batch of forecast results, one per request, under a fresh batch
/// identifier.
pub struct BatchForecastResponse {
    pub batch_id: u128,
    pub results: Vec<(u128, Result<ForecastResponse, crate::error::ForecastError>)>,
}

/// An exact copy of a bit-pattern vector.
pub fn clone_bits(v: &Vec<crate::ValueBits>) -> (r: Vec<crate::ValueBits>)
    ensures
        r@ == v@,
{
    let mut r: Vec<crate::ValueBits> = Vec::new();
    let mut i: usize = 0;
    while i < v.len()
        invariant
            i <= v@.len(),
            r@ =~= v@.subrange(0, i as int),
        decreases v@.len() - i,
    {
        r.push(v[i]);
        i = i + 1;
    }
    proof {
        assert(r@ =~= v@);
    }
    r
}

/// The first chunk a streamed forecast yields: the whole prediction at
/// once. The remainder of the stream is empty.
pub fn initial_chunk(resp: &ForecastResponse) -> (c: ForecastChunk)
    ensures
        c.delta matches Some(d) && d@ == resp.prediction@,
        c.confidence == resp.confidence,
{
    ForecastChunk { delta: Some(clone_bits(&resp.prediction)), confidence: resp.confidence }
}

/// Gather per-request forecast results into one batch response under a
/// fresh identifier, keeping each result paired with its request.
pub fn collect_batch(
    results: Vec<(u128, Result<ForecastResponse, crate::error::ForecastError>)>,
) -> (b: BatchForecastResponse)
    ensures
        b.results@ == results@,
{
    BatchForecastResponse { batch_id: crate::idgen::new_model_id(), results }
}

impl MindsDBConfig {
    /// An exact copy of the configuration.
    pub fn duplicate(&self) -> (r: Self)
        ensures
            r == self,
    {
        MindsDBConfig {
            model_name: crate::store::clone_string(&self.model_name),
            url: crate::store::clone_string(&self.url),
            history_window: self.history_window,
            forecast_horizon: self.forecast_horizon,
        }
    }
}

} // verus!
