//! The model registry and the forecast writer/reader.
//!
//! The registry maps human-assigned model names to backend
//! configurations, in an ephemeral in-memory form and in a durable form
//! backed by the store. The writer issues forecast rows for each
//! backend prediction; the reader serves time-windowed reads with
//! age-based invalidation.

use vstd::prelude::*;

use crate::{TimeSeriesDataPoint, UnixSeconds};
use crate::clock::now_unix_seconds;
use crate::error::ForecastError;
use crate::idgen::new_model_id;
use crate::providers::{
    BackendOutcome, ForecastResponse, MindsDBConfig, outcome_confidence, outcome_len,
    outcome_prediction,
};
use crate::store::{
    clone_pairs, clone_string, ConfigRow, forecast_pool, is_top_of, observation_pool, RecentEntry,
    str_eq, TimeSeriesStore,
};

verus! {

/// A request to register a model: the name to bind and the backend
/// configuration it should carry.
pub struct CreateModelRequest {
    pub name: String,
    pub config: MindsDBConfig,
}

/// The configuration of one time-series model, as callers supply it.
pub struct TimeSeriesModelConfig {
    pub model_name: String,
    pub target_column: String,
    pub history_window: u32,
    pub forecast_horizon: u32,
    pub mindsdb_url: String,
    pub additional_params: Vec<(String, String)>,
}

/// Each forecast step predicts one hour further into the future.
pub const SECONDS_PER_STEP: i64 = 3600;

/// The binding a name carries in the registry: the configuration of
/// the entry nearest the end whose name matches, if any matches.
pub open spec fn lookup(s: Seq<(String, MindsDBConfig)>, name: Seq<char>) -> Option<MindsDBConfig>
    decreases s.len(),
{
    if s.len() == 0 {
        None
    } else if s.last().0@ == name {
        Some(s.last().1)
    } else {
        lookup(s.drop_last(), name)
    }
}

/// No two registry entries bind the same name.
pub open spec fn unique_keys(s: Seq<(String, MindsDBConfig)>) -> bool {
    forall|i: int, j: int|
        0 <= i < j < s.len() ==> (#[trigger] s[i]).0@ != (#[trigger] s[j]).0@
}

/// The registry and the store it writes through.
pub struct NeuralForecastManager {
    pub models: Vec<(String, MindsDBConfig)>,
    pub store: TimeSeriesStore,
}

impl NeuralForecastManager {
    /// Well-formedness: registry names are unique and the store is
    /// well-formed.
    pub open spec fn wf(self) -> bool {
        unique_keys(self.models@) && self.store.wf()
    }

    /// A manager over the given store, with an empty registry.
    pub fn new(store: TimeSeriesStore) -> (m: Self)
        requires
            store.wf(),
        ensures
            m.wf(),
            m.models@ == Seq::<(String, MindsDBConfig)>::empty(),
            m.store == store,
    {
        NeuralForecastManager { models: Vec::new(), store }
    }

    /// Register a backend configuration under a name. The last writer
    /// wins: the name afterwards binds exactly this configuration,
    /// every other name keeps its binding, and registration succeeds
    /// whether or not the name was already taken.
    pub fn register_model(&mut self, name: String, config: MindsDBConfig) -> (r: Result<
        (),
        ForecastError,
    >)
        requires
            old(self).wf(),
        ensures
            final(self).wf(),
            r is Ok,
            lookup(final(self).models@, name@) == Some(config),
            forall|other: Seq<char>|
                other != name@ ==> #[trigger] lookup(final(self).models@, other) == lookup(
                    old(self).models@,
                    other,
                ),
            final(self).store == old(self).store,
    {
        let ghost s0 = self.models@;
        let mut i: usize = 0;
        let mut found: Option<usize> = None;
        while i < self.models.len()
            invariant
                i <= self.models@.len(),
                match found {
                    None => forall|t: int| 0 <= t < i ==> (#[trigger] self.models@[t]).0@ != name@,
                    Some(f) => f < i && self.models@[f as int].0@ == name@,
                },
                self.models@ == s0,
            decreases self.models@.len() - i,
        {
            if found.is_none() && str_eq(self.models[i].0.as_str(), name.as_str()) {
                found = Some(i);
            }
            i = i + 1;
        }
        match found {
            Some(f) => {
                self.models[f] = (name, config);
                proof {
                    lemma_lookup_update_same(s0, f as int, (name, config));
                    assert forall|other: Seq<char>| other != name@ implies #[trigger] lookup(
                        self.models@,
                        other,
                    ) == lookup(s0, other) by {
                        lemma_lookup_update_other(s0, f as int, (name, config), other);
                    }
                }
            },
            None => {
                self.models.push((name, config));
                proof {
                    assert(self.models@.drop_last() =~= s0);
                    assert forall|other: Seq<char>| other != name@ implies #[trigger] lookup(
                        self.models@,
                        other,
                    ) == lookup(s0, other) by {
                        assert(self.models@.drop_last() =~= s0);
                    }
                }
            },
        }
        Ok(())
    }

    /// Look a name up in the registry. Succeeds with the configuration
    /// the name binds exactly when the name is registered; otherwise
    /// fails with the not-found error naming what was asked for.
    pub fn get_model(&self, name: &str) -> (r: Result<MindsDBConfig, ForecastError>)
        ensures
            match lookup(self.models@, name@) {
                Some(c) => r matches Ok(got) && got == c,
                None => r matches Err(e) && (e matches ForecastError::NotFound {
                    name: n,
                } && n@ == name@),
            },
    {
        let mut i: usize = self.models.len();
        proof {
            assert(self.models@.subrange(0, self.models@.len() as int) =~= self.models@);
        }
        while i > 0
            invariant
                i <= self.models@.len(),
                lookup(self.models@, name@) == lookup(
                    self.models@.subrange(0, i as int),
                    name@,
                ),
            decreases i,
        {
            proof {
                let pre = self.models@.subrange(0, i as int);
                assert(pre.drop_last() =~= self.models@.subrange(0, i - 1));
                assert(pre.last() == self.models@[i - 1]);
            }
            if str_eq(self.models[i - 1].0.as_str(), name) {
                return Ok(self.models[i - 1].1.duplicate());
            }
            i = i - 1;
        }
        Err(ForecastError::NotFound { name: name.to_owned() })
    }

    /// The names currently registered, in the registry's storage
    /// order: stable within one call, with no further ordering
    /// guarantee.
    pub fn list_models(&self) -> (r: Vec<String>)
        ensures
            r@.len() == self.models@.len(),
            forall|i: int| 0 <= i < r@.len() ==> r@[i] == (#[trigger] self.models@[i]).0,
    {
        let mut r: Vec<String> = Vec::new();
        let mut i: usize = 0;
        while i < self.models.len()
            invariant
                i <= self.models@.len(),
                r@.len() == i,
                forall|t: int| 0 <= t < i ==> r@[t] == (#[trigger] self.models@[t]).0,
            decreases self.models@.len() - i,
        {
            r.push(clone_string(&self.models[i].0));
            i = i + 1;
        }
        r
    }

    /// Write a new configuration row at the given instant — never
    /// overwriting an earlier one — and return the fresh model
    /// identifier the row carries.
    pub fn create_model_at(&mut self, config: TimeSeriesModelConfig, now: UnixSeconds) -> (r:
        Result<u128, ForecastError>)
        requires
            old(self).wf(),
        ensures
            final(self).wf(),
            r matches Ok(id) && final(self).store.configs@ == old(self).store.configs@.push(
                (ConfigRow {
                    id,
                    model_name: config.model_name,
                    target_column: config.target_column,
                    history_window: config.history_window,
                    forecast_horizon: config.forecast_horizon,
                    mindsdb_url: config.mindsdb_url,
                    additional_params: config.additional_params,
                    created_at: now,
                    updated_at: now,
                }),
            ),
            final(self).models@ == old(self).models@,
            final(self).store.observations@ == old(self).store.observations@,
            final(self).store.view_rows@ == old(self).store.view_rows@,
            final(self).store.forecasts@ == old(self).store.forecasts@,
            final(self).store.next_row_id == old(self).store.next_row_id,
            final(self).store.view == old(self).store.view,
    {
        let id = new_model_id();
        let row = ConfigRow {
            id,
            model_name: config.model_name,
            target_column: config.target_column,
            history_window: config.history_window,
            forecast_horizon: config.forecast_horizon,
            mindsdb_url: config.mindsdb_url,
            additional_params: config.additional_params,
            created_at: now,
            updated_at: now,
        };
        self.store.insert_config(row);
        Ok(id)
    }

    /// Write a new configuration row at the current wall-clock
    /// instant and return the fresh model identifier it carries.
    pub fn create_model(&mut self, config: TimeSeriesModelConfig) -> (r: Result<
        u128,
        ForecastError,
    >)
        requires
            old(self).wf(),
        ensures
            final(self).wf(),
            r is Ok,
            exists|now: UnixSeconds|
                final(self).store.configs@ == old(self).store.configs@.push(
                    (ConfigRow {
                        id: r->Ok_0,
                        model_name: config.model_name,
                        target_column: config.target_column,
                        history_window: config.history_window,
                        forecast_horizon: config.forecast_horizon,
                        mindsdb_url: config.mindsdb_url,
                        additional_params: config.additional_params,
                        created_at: now,
                        updated_at: now,
                    }),
                ),
            final(self).models@ == old(self).models@,
            final(self).store.observations@ == old(self).store.observations@,
            final(self).store.forecasts@ == old(self).store.forecasts@,
    {
        let now = now_unix_seconds();
        self.create_model_at(config, now)
    }

    /// Resolve a model identifier to its current configuration: the
    /// most recently created row for that identifier, because
    /// re-registration appends rather than mutates. Succeeds exactly
    /// when some row carries the identifier.
    pub fn get_model_config(&self, model_id: u128) -> (r: Result<
        TimeSeriesModelConfig,
        ForecastError,
    >)
        ensures
            match crate::store::latest_config_of(self.store.configs@, model_id) {
                Some(row) => r matches Ok(c) && c.model_name == row.model_name
                    && c.target_column == row.target_column && c.history_window
                    == row.history_window && c.forecast_horizon == row.forecast_horizon
                    && c.mindsdb_url == row.mindsdb_url && c.additional_params@
                    == row.additional_params@,
                None => r matches Err(e) && e is NotFound,
            },
    {
        match self.store.latest_config(model_id) {
            Some(row) => Ok(
                TimeSeriesModelConfig {
                    model_name: clone_string(&row.model_name),
                    target_column: clone_string(&row.target_column),
                    history_window: row.history_window,
                    forecast_horizon: row.forecast_horizon,
                    mindsdb_url: clone_string(&row.mindsdb_url),
                    additional_params: clone_pairs(&row.additional_params),
                },
            ),
            None => Err(ForecastError::NotFound { name: "model id".to_owned() }),
        }
    }
}

/// The row persisted for one observation: identifier as assigned,
/// fields as given, an empty target column (the schema's default), and
/// the write instant as creation time.
pub open spec fn persisted_point_fields(
    row: crate::store::ObservationRow,
    point: TimeSeriesDataPoint,
    model_id: u128,
    id: int,
) -> bool {
    &&& row.id == id
    &&& row.model_id == model_id
    &&& row.timestamp == point.timestamp
    &&& row.target_column@ == Seq::<char>::empty()
    &&& row.value == point.value
    &&& row.additional_features == point.additional_features
}

pub open spec fn persisted_point(
    row: crate::store::ObservationRow,
    point: TimeSeriesDataPoint,
    model_id: u128,
    id: int,
    now: UnixSeconds,
) -> bool {
    &&& persisted_point_fields(row, point, model_id, id)
    &&& row.created_at == now
}

/// The row persisted for one forecast step: its timestamp is the write
/// instant offset by the step index.
pub open spec fn persisted_forecast(
    row: crate::store::ForecastRow,
    model_id: u128,
    target_column: Seq<char>,
    value: crate::ValueBits,
    confidence: crate::ValueBits,
    id: int,
    now: UnixSeconds,
    step: int,
) -> bool {
    &&& row.id == id
    &&& row.model_id == model_id
    &&& row.timestamp == now + step * SECONDS_PER_STEP
    &&& row.target_column@ == target_column
    &&& row.predicted_value == value
    &&& row.confidence == confidence
    &&& row.created_at == now
}

impl NeuralForecastManager {
    /// Persist one row per data point at the given instant. Rows keep
    /// the points' order, take identifiers counted from the store's
    /// counter, and are fed to the observations view exactly when its
    /// filter admits the write instant.
    pub fn add_data_points_at(
        &mut self,
        model_id: u128,
        points: Vec<TimeSeriesDataPoint>,
        now: UnixSeconds,
    ) -> (r: Result<(), ForecastError>)
        requires
            old(self).wf(),
            old(self).store.next_row_id + points@.len() <= u64::MAX,
        ensures
            final(self).wf(),
            r is Ok,
            final(self).store.observations@.len() == old(self).store.observations@.len()
                + points@.len(),
            final(self).store.observations@.subrange(
                0,
                old(self).store.observations@.len() as int,
            ) == old(self).store.observations@,
            forall|i: int|
                0 <= i < points@.len() ==> persisted_point(
                    #[trigger] final(self).store.observations@[old(
                        self,
                    ).store.observations@.len() + i],
                    points@[i],
                    model_id,
                    old(self).store.next_row_id + i,
                    now,
                ),
            final(self).store.view_rows@ == if old(self).store.view_admits(now) {
                old(self).store.view_rows@ + Seq::new(
                    points@.len(),
                    |i: int| (old(self).store.next_row_id + i) as u64,
                )
            } else {
                old(self).store.view_rows@
            },
            final(self).store.next_row_id == old(self).store.next_row_id + points@.len(),
            final(self).store.forecasts@ == old(self).store.forecasts@,
            final(self).store.configs@ == old(self).store.configs@,
            final(self).store.view == old(self).store.view,
            final(self).store.data_table == old(self).store.data_table,
            final(self).store.forecast_table == old(self).store.forecast_table,
            final(self).store.config_table == old(self).store.config_table,
            final(self).models@ == old(self).models@,
    {
        let ghost orig = points@;
        let ghost obs0 = self.store.observations@;
        let ghost vr0 = self.store.view_rows@;
        let ghost id0 = self.store.next_row_id;
        let ghost admits0 = self.store.view_admits(now);
        let mut points = points;
        while points.len() > 0
            invariant
                self.wf(),
                points@.len() <= orig.len(),
                points@ == orig.subrange(orig.len() - points@.len(), orig.len() as int),
                self.store.observations@.len() == obs0.len() + (orig.len() - points@.len()),
                self.store.observations@.subrange(0, obs0.len() as int) == obs0,
                forall|i: int|
                    0 <= i < orig.len() - points@.len() ==> persisted_point(
                        #[trigger] self.store.observations@[obs0.len() + i],
                        orig[i],
                        model_id,
                        id0 + i,
                        now,
                    ),
                self.store.view_rows@ == if admits0 {
                    vr0 + Seq::new(
                        (orig.len() - points@.len()) as nat,
                        |i: int| (id0 + i) as u64,
                    )
                } else {
                    vr0
                },
                self.store.next_row_id == id0 + (orig.len() - points@.len()),
                id0 + orig.len() <= u64::MAX,
                self.store.forecasts@ == old(self).store.forecasts@,
                self.store.configs@ == old(self).store.configs@,
                self.store.view == old(self).store.view,
                self.store.data_table == old(self).store.data_table,
                self.store.forecast_table == old(self).store.forecast_table,
                self.store.config_table == old(self).store.config_table,
                self.models@ == old(self).models@,
                admits0 == self.store.view_admits(now),
            decreases points@.len(),
        {
            let ghost k = orig.len() - points@.len();
            let p = points.remove(0);
            proof {
                assert(p == orig[k as int]);
                assert(points@ =~= orig.subrange(k + 1, orig.len() as int));
            }
            let _ = self.store.insert_observation(
                model_id,
                p.timestamp,
                String::new(),
                p.value,
                p.additional_features,
                now,
            );
            proof {
                assert(self.store.observations@.subrange(0, obs0.len() as int) =~= obs0);
                assert(self.store.observations@.last().id == id0 + k);
                assert(persisted_point(
                    self.store.observations@[obs0.len() + k],
                    orig[k as int],
                    model_id,
                    id0 + k,
                    now,
                ));
                if admits0 {
                    assert(self.store.view_rows@ =~= vr0 + Seq::new(
                        (k + 1) as nat,
                        |i: int| (id0 + i) as u64,
                    ));
                }
            }
        }
        proof {
            assert(orig.subrange(0, orig.len() as int) =~= orig);
        }
        Ok(())
    }

    /// Persist one row per data point at the current wall-clock
    /// instant.
    pub fn add_data_points(&mut self, model_id: u128, points: Vec<TimeSeriesDataPoint>) -> (r:
        Result<(), ForecastError>)
        requires
            old(self).wf(),
            old(self).store.next_row_id + points@.len() <= u64::MAX,
        ensures
            final(self).wf(),
            r is Ok,
            final(self).store.observations@.len() == old(self).store.observations@.len()
                + points@.len(),
            final(self).store.observations@.subrange(
                0,
                old(self).store.observations@.len() as int,
            ) == old(self).store.observations@,
            forall|i: int|
                0 <= i < points@.len() ==> persisted_point_fields(
                    #[trigger] final(self).store.observations@[old(self).store.observations@.len() + i],
                    points@[i],
                    model_id,
                    old(self).store.next_row_id + i,
                ),
            forall|i: int, j: int|
                0 <= i < points@.len() && 0 <= j < points@.len()
                    ==> (#[trigger] final(self).store.observations@[old(self).store.observations@.len() + i]).created_at
                    == (#[trigger] final(self).store.observations@[old(self).store.observations@.len() + j]).created_at,
            final(self).store.forecasts@ == old(self).store.forecasts@,
            final(self).store.configs@ == old(self).store.configs@,
            final(self).models@ == old(self).models@,
    {
        let now = now_unix_seconds();
        self.add_data_points_at(model_id, points, now)
    }

    /// Decide what one forecast request returns and persists, given
    /// what the transport exchange with the backend produced. The
    /// result is a function of the outcome alone — no store state can
    /// change it. A prediction is returned exactly as the backend
    /// reported it, and one forecast row is persisted per predicted
    /// point, timestamped from `now` by step. Every failure becomes
    /// the matching error naming the backend, and persists nothing.
    pub fn predict_with_outcome(
        &mut self,
        model_id: u128,
        target_column: &str,
        outcome: BackendOutcome,
        now: UnixSeconds,
    ) -> (r: Result<ForecastResponse, ForecastError>)
        requires
            old(self).wf(),
            old(self).store.next_row_id + outcome_len(outcome) <= u64::MAX,
            outcome_len(outcome) > 0 ==> now + (outcome_len(outcome) - 1) * SECONDS_PER_STEP
                <= i64::MAX,
        ensures
            final(self).wf(),
            outcome is Prediction <==> r is Ok,
            outcome is Prediction ==> (r matches Ok(resp) && resp.prediction@
                == outcome_prediction(outcome) && resp.confidence == outcome_confidence(outcome)),
            outcome matches BackendOutcome::TransportFailure { detail } ==> (r matches Err(e) && (
            e matches ForecastError::BackendTransport { backend, detail: d } && backend@ == (
            "mindsdb")@ && d == detail)),
            outcome matches BackendOutcome::HttpFailure { status, detail } ==> (r matches Err(e)
                && (e matches ForecastError::BackendResponse { backend, status: st, detail: d }
                && backend@ == ("mindsdb")@ && st == Some(status) && d == detail)),
            outcome matches BackendOutcome::DecodeFailure { status, detail } ==> (r matches Err(e)
                && (e matches ForecastError::BackendResponse { backend, status: st, detail: d }
                && backend@ == ("mindsdb")@ && st == Some(status) && d == detail)),
            !(outcome is Prediction) ==> *final(self) == *old(self),
            final(self).store.forecasts@.len() == old(self).store.forecasts@.len() + outcome_len(
                outcome,
            ),
            final(self).store.forecasts@.subrange(0, old(self).store.forecasts@.len() as int)
                == old(self).store.forecasts@,
            forall|i: int|
                0 <= i < outcome_len(outcome) ==> persisted_forecast(
                    #[trigger] final(self).store.forecasts@[old(self).store.forecasts@.len() + i],
                    model_id,
                    target_column@,
                    outcome_prediction(outcome)[i],
                    outcome_confidence(outcome),
                    old(self).store.next_row_id + i,
                    now,
                    i,
                ),
            final(self).store.observations@ == old(self).store.observations@,
            final(self).store.view_rows@ == old(self).store.view_rows@,
            final(self).store.configs@ == old(self).store.configs@,
            final(self).store.view == old(self).store.view,
            final(self).models@ == old(self).models@,
    {
        match outcome {
            BackendOutcome::TransportFailure { detail } => {
                proof {
                    assert(self.store.forecasts@.subrange(0, self.store.forecasts@.len() as int)
                        =~= self.store.forecasts@);
                }
                Err(ForecastError::BackendTransport { backend: "mindsdb".to_owned(), detail })
            },
            BackendOutcome::HttpFailure { status, detail } => {
                proof {
                    assert(self.store.forecasts@.subrange(0, self.store.forecasts@.len() as int)
                        =~= self.store.forecasts@);
                }
                Err(
                    ForecastError::BackendResponse {
                        backend: "mindsdb".to_owned(),
                        status: Some(status),
                        detail,
                    },
                )
            },
            BackendOutcome::DecodeFailure { status, detail } => {
                proof {
                    assert(self.store.forecasts@.subrange(0, self.store.forecasts@.len() as int)
                        =~= self.store.forecasts@);
                }
                Err(
                    ForecastError::BackendResponse {
                        backend: "mindsdb".to_owned(),
                        status: Some(status),
                        detail,
                    },
                )
            },
            BackendOutcome::Prediction { prediction, confidence } => {
                let ghost f0 = self.store.forecasts@;
                let ghost id0 = self.store.next_row_id;
                let n = prediction.len();
                let mut i: usize = 0;
                while i < n
                    invariant
                        self.wf(),
                        i <= n,
                        n == prediction@.len(),
                        id0 + n <= u64::MAX,
                        n > 0 ==> now + (n - 1) * SECONDS_PER_STEP <= i64::MAX,
                        self.store.forecasts@.len() == f0.len() + i,
                        self.store.forecasts@.subrange(0, f0.len() as int) == f0,
                        forall|t: int|
                            0 <= t < i ==> persisted_forecast(
                                #[trigger] self.store.forecasts@[f0.len() + t],
                                model_id,
                                target_column@,
                                prediction@[t],
                                confidence,
                                id0 + t,
                                now,
                                t,
                            ),
                        self.store.next_row_id == id0 + i,
                        self.store.observations@ == old(self).store.observations@,
                        self.store.view_rows@ == old(self).store.view_rows@,
                        self.store.configs@ == old(self).store.configs@,
                        self.store.view == old(self).store.view,
                        self.store.data_table == old(self).store.data_table,
                        self.store.forecast_table == old(self).store.forecast_table,
                        self.store.config_table == old(self).store.config_table,
                        self.models@ == old(self).models@,
                    decreases n - i,
                {
                    let ts_wide: i128 = (now as i128) + (i as i128) * (SECONDS_PER_STEP as i128);
                    proof {
                        assert(0 <= (i as int) * SECONDS_PER_STEP <= (n - 1) * SECONDS_PER_STEP)
                            by (nonlinear_arith)
                            requires
                                0 <= i as int <= n - 1,
                        ;
                        assert(now + (i as int) * SECONDS_PER_STEP <= i64::MAX);
                    }
                    let ts: i64 = ts_wide as i64;
                    let _ = self.store.insert_forecast(
                        model_id,
                        ts,
                        target_column.to_owned(),
                        prediction[i],
                        confidence,
                        now,
                    );
                    proof {
                        assert(self.store.forecasts@.subrange(0, f0.len() as int) =~= f0);
                        assert(persisted_forecast(
                            self.store.forecasts@[f0.len() + i],
                            model_id,
                            target_column@,
                            prediction@[i as int],
                            confidence,
                            id0 + i,
                            now,
                            i as int,
                        ));
                    }
                    i = i + 1;
                }
                Ok(ForecastResponse { prediction, confidence })
            },
        }
    }

    /// Up to `limit` most recent forecasts of the model, newest first.
    pub fn get_recent_forecasts(&self, model_id: u128, limit: usize) -> (r: Result<
        Vec<RecentEntry>,
        ForecastError,
    >)
        ensures
            r matches Ok(v) && is_top_of(
                v@,
                forecast_pool(self.store.forecasts@, model_id, None),
                limit as int,
            ),
    {
        Ok(self.store.recent_forecasts(model_id, limit))
    }

    /// Up to `limit` most recent forecasts of the model no older than
    /// `max_age_seconds` before the given instant, newest first. An
    /// older forecast is treated as absent, not returned stale.
    pub fn get_recent_forecasts_with_max_age_at(
        &self,
        model_id: u128,
        limit: usize,
        max_age_seconds: i64,
        now: UnixSeconds,
    ) -> (r: Result<Vec<RecentEntry>, ForecastError>)
        ensures
            r matches Ok(v) && is_top_of(
                v@,
                forecast_pool(self.store.forecasts@, model_id, Some(now - max_age_seconds)),
                limit as int,
            ),
    {
        let cutoff: i128 = (now as i128) - (max_age_seconds as i128);
        Ok(self.store.recent_forecasts_no_older(model_id, limit, cutoff))
    }

    /// Up to `limit` most recent forecasts of the model no older than
    /// `max_age_seconds` before the current wall-clock instant, newest
    /// first.
    pub fn get_recent_forecasts_with_max_age(
        &self,
        model_id: u128,
        limit: usize,
        max_age_seconds: i64,
    ) -> (r: Result<Vec<RecentEntry>, ForecastError>)
        ensures
            r matches Ok(v) && exists|cutoff: int|
                #![trigger forecast_pool(self.store.forecasts@, model_id, Some(cutoff))]
                is_top_of(
                    v@,
                    forecast_pool(self.store.forecasts@, model_id, Some(cutoff)),
                    limit as int,
                ),
    {
        let now = now_unix_seconds();
        self.get_recent_forecasts_with_max_age_at(model_id, limit, max_age_seconds, now)
    }

    /// Up to `limit` most recent observations of the model, newest
    /// first: each entry is the observation's timestamp, value and row
    /// identifier.
    pub fn get_recent_observations(&self, model_id: u128, limit: usize) -> (r: Result<
        Vec<RecentEntry>,
        ForecastError,
    >)
        ensures
            r matches Ok(v) && is_top_of(
                v@,
                observation_pool(self.store.observations@, model_id),
                limit as int,
            ),
    {
        Ok(self.store.recent_observations(model_id, limit))
    }
}

impl Default for NeuralForecastManager {
    /// A manager over a fresh, empty store.
    fn default() -> (m: Self)
        ensures
            m.wf(),
            m.models@.len() == 0,
            m.store.observations@.len() == 0,
            m.store.forecasts@.len() == 0,
            m.store.configs@.len() == 0,
    {
        NeuralForecastManager::new(TimeSeriesStore::new())
    }
}

proof fn lemma_lookup_update_same(s: Seq<(String, MindsDBConfig)>, i: int, p: (String, MindsDBConfig))
    requires
        0 <= i < s.len(),
        unique_keys(s),
        s[i].0@ == p.0@,
    ensures
        lookup(s.update(i, p), p.0@) == Some(p.1),
        unique_keys(s.update(i, p)),
    decreases s.len(),
{
    let s2 = s.update(i, p);
    if i == s.len() - 1 {
        assert(s2.last() == p);
    } else {
        assert(s2.last() == s.last());
        assert(s.last().0@ != p.0@);
        assert(s2.drop_last() =~= s.drop_last().update(i, p));
        assert(unique_keys(s.drop_last()));
        lemma_lookup_update_same(s.drop_last(), i, p);
    }
}

proof fn lemma_lookup_update_other(
    s: Seq<(String, MindsDBConfig)>,
    i: int,
    p: (String, MindsDBConfig),
    other: Seq<char>,
)
    requires
        0 <= i < s.len(),
        s[i].0@ == p.0@,
        other != p.0@,
    ensures
        lookup(s.update(i, p), other) == lookup(s, other),
    decreases s.len(),
{
    let s2 = s.update(i, p);
    if i == s.len() - 1 {
        assert(s2.last() == p);
        assert(s2.drop_last() =~= s.drop_last());
    } else {
        assert(s2.last() == s.last());
        assert(s2.drop_last() =~= s.drop_last().update(i, p));
        lemma_lookup_update_other(s.drop_last(), i, p, other);
    }
}

} // verus!
