//! Configuration of the neural forecasting algorithms.

use vstd::prelude::*;

verus! {

/// The configuration of a neural forecasting provider.
pub struct NeuralProviderConfig {
    pub model_name: String,
    pub algorithm: NeuralAlgorithm,
    pub history_window: u32,
    pub forecast_horizon: u32,
    pub algorithm_params: Vec<(String, String)>,
}

/// The closed set of supported forecasting algorithms.
#[derive(Clone, Copy, PartialEq, Eq, Structural, Debug)]
pub enum NeuralAlgorithm {
    AutoML,
    DeepLearning,
    GBM,
    GLM,
    DRF,
    XGBoost,
    GAM,
    StackedEnsemble,
    DecisionTree,
    SVM,
    NaiveBayes,
}

/// The number of days of history consulted per forecast call when none
/// is configured.
pub fn default_history_window() -> (r: u32)
    ensures
        r == 30,
{
    30
}

/// The number of days forecast per call when none is configured.
pub fn default_forecast_horizon() -> (r: u32)
    ensures
        r == 7,
{
    7
}

} // verus!
