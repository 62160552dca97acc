use neural_forecast::TimeSeriesDataPoint;
use neural_forecast::error::ForecastError;
use neural_forecast::fingerprint::fingerprint;
use neural_forecast::migration::Migration0012;
use neural_forecast::neural_forecasting::{NeuralForecastManager, TimeSeriesModelConfig};
use neural_forecast::providers::{BackendOutcome, MindsDBConfig};
use neural_forecast::store::{TimeSeriesStore, ViewState};

/// 2024-01-01T00:00:00Z as seconds since the Unix epoch.
const BASE: i64 = 1704067200;

fn test_model_config() -> TimeSeriesModelConfig {
    TimeSeriesModelConfig {
        model_name: "test_model".to_string(),
        target_column: "value".to_string(),
        history_window: 24,
        forecast_horizon: 12,
        mindsdb_url: "http://localhost:47334".to_string(),
        additional_params: Vec::new(),
    }
}

fn hourly_points(n: usize) -> Vec<TimeSeriesDataPoint> {
    let mut points = Vec::new();
    for i in 0..n {
        points.push(TimeSeriesDataPoint {
            timestamp: BASE + 3600 * i as i64,
            value: (i as f64).to_bits(),
            additional_features: Vec::new(),
        });
    }
    points
}

fn fresh_manager() -> NeuralForecastManager {
    NeuralForecastManager::new(TimeSeriesStore::new())
}

#[test]
fn test_create_model() {
    let mut manager = fresh_manager();
    let config = test_model_config();
    let model_id = manager.create_model_at(test_model_config(), BASE).unwrap();

    let retrieved_config = manager.get_model_config(model_id).unwrap();
    assert_eq!(retrieved_config.model_name, config.model_name);
    assert_eq!(retrieved_config.target_column, config.target_column);
    assert_eq!(retrieved_config.history_window, config.history_window);
    assert_eq!(retrieved_config.forecast_horizon, config.forecast_horizon);
}

#[test]
fn test_add_data_points() {
    let mut manager = fresh_manager();
    let model_id: u128 = 42;
    let points = hourly_points(10);

    manager
        .add_data_points_at(model_id, points.clone(), BASE)
        .unwrap();

    let retrieved = manager.get_recent_observations(model_id, 10).unwrap();
    assert_eq!(retrieved.len(), points.len());

    // Newest first: entry i is the point with index 9 - i.
    for (i, (timestamp, value, _)) in retrieved.iter().enumerate() {
        let source = &points[9 - i];
        assert_eq!(*timestamp, source.timestamp);
        assert_eq!(*value, source.value);
    }
}

#[test]
fn test_mindsdb_provider() {
    // An unreachable backend ends the request with a transport error
    // and writes nothing.
    let mut manager = fresh_manager();
    let outcome = BackendOutcome::TransportFailure {
        detail: "connection refused".to_string(),
    };
    let response = manager.predict_with_outcome(7, "value", outcome, BASE);
    match response {
        Err(e) => {
            assert!(e.is_backend_transport());
        }
        _ => panic!("Expected error"),
    }
    assert_eq!(manager.store.forecasts.len(), 0);
}

#[test]
fn test_neural_forecast_cache_key_generation() {
    let data1 = vec![
        TimeSeriesDataPoint {
            timestamp: BASE,
            value: 1.0f64.to_bits(),
            additional_features: Vec::new(),
        },
        TimeSeriesDataPoint {
            timestamp: BASE + 3600,
            value: 2.0f64.to_bits(),
            additional_features: Vec::new(),
        },
    ];
    let data2 = vec![
        TimeSeriesDataPoint {
            timestamp: BASE,
            value: 1.0f64.to_bits(),
            additional_features: Vec::new(),
        },
        TimeSeriesDataPoint {
            timestamp: BASE + 3600,
            value: 2.0f64.to_bits(),
            additional_features: Vec::new(),
        },
    ];

    let key1 = fingerprint("test_model", "mindsdb", "value", 30, &data1);
    let key2 = fingerprint("test_model", "mindsdb", "value", 30, &data2);
    assert_eq!(key1, key2);

    // A single changed value must change the key.
    let data3 = vec![
        TimeSeriesDataPoint {
            timestamp: BASE,
            value: 1.0f64.to_bits(),
            additional_features: Vec::new(),
        },
        TimeSeriesDataPoint {
            timestamp: BASE + 3600,
            value: 3.0f64.to_bits(),
            additional_features: Vec::new(),
        },
    ];
    let key3 = fingerprint("test_model", "mindsdb", "value", 30, &data3);
    assert_ne!(key1, key3);
}

#[test]
fn test_neural_forecast_cache_invalidation() {
    let mut manager = fresh_manager();
    let model_id = manager.create_model_at(test_model_config(), BASE).unwrap();

    let mock_forecasts = [
        (BASE, 25.3f64, 0.89f64),
        (BASE + 3600, 26.1f64, 0.89f64),
        (BASE + 7200, 27.4f64, 0.89f64),
    ];
    for (timestamp, value, confidence) in &mock_forecasts {
        manager.store.insert_forecast(
            model_id,
            *timestamp,
            "value".to_string(),
            value.to_bits(),
            confidence.to_bits(),
            *timestamp,
        );
    }

    let cached = manager.get_recent_forecasts(model_id, 3).unwrap();
    assert_eq!(cached.len(), 3);
    for (i, (timestamp, value, confidence)) in cached.iter().enumerate() {
        let source = mock_forecasts[2 - i];
        assert_eq!(*timestamp, source.0);
        assert_eq!(*value, source.1.to_bits());
        assert_eq!(*confidence, source.2.to_bits());
    }

    // Far past the insertion window, a one-hour tolerance hides all of
    // them: an old forecast is absent, not stale.
    let outdated = manager
        .get_recent_forecasts_with_max_age_at(model_id, 3, 3600, BASE + 100_000)
        .unwrap();
    assert!(outdated.is_empty());
}

#[test]
fn test_neural_forecasting_e2e() {
    let mut manager = fresh_manager();
    let mut config = test_model_config();
    config.model_name = "test_forecast_model".to_string();
    config.history_window = 30;
    config.forecast_horizon = 7;
    let model_id = manager.create_model_at(config, BASE).unwrap();

    let points = hourly_points(30);
    manager
        .add_data_points_at(model_id, points, BASE)
        .unwrap();

    let predicted = [25.3f64, 26.1, 27.4, 26.8, 28.2, 27.9, 29.1];
    let confidence = 0.89f64;
    let now = BASE + 30 * 3600;
    let outcome = BackendOutcome::Prediction {
        prediction: predicted.iter().map(|v| v.to_bits()).collect(),
        confidence: confidence.to_bits(),
    };

    let response = manager
        .predict_with_outcome(model_id, "value", outcome, now)
        .unwrap();
    assert_eq!(response.prediction.len(), 7);
    for (i, v) in predicted.iter().enumerate() {
        assert_eq!(response.prediction[i], v.to_bits());
    }
    assert_eq!(response.confidence, confidence.to_bits());

    // One row per horizon step, each one hour further out.
    let forecasts = manager.get_recent_forecasts(model_id, 7).unwrap();
    assert_eq!(forecasts.len(), 7);
    for (i, (timestamp, value, conf)) in forecasts.iter().enumerate() {
        let step = 6 - i;
        assert_eq!(*timestamp, now + 3600 * step as i64);
        assert_eq!(*value, predicted[step].to_bits());
        assert_eq!(*conf, confidence.to_bits());
    }
}

#[test]
fn test_provisioning_idempotent() {
    let mut store = TimeSeriesStore::new();
    let migration = Migration0012 { clean_start: true };

    assert!(migration.can_apply(&store).is_ok());
    assert!(migration.should_apply(&store));
    assert!(!migration.has_succeeded(&store));

    migration.apply_at(&mut store, BASE).unwrap();
    assert!(!migration.should_apply(&store));
    assert!(migration.has_succeeded(&store));
    assert!(matches!(store.view, ViewState::Unfiltered));

    // The second run is a no-op.
    migration.apply_at(&mut store, BASE + 999).unwrap();
    assert!(!migration.should_apply(&store));
    assert!(matches!(store.view, ViewState::Unfiltered));
    assert_eq!(store.observations.len(), 0);
}

#[test]
fn test_view_cutover_non_clean() {
    let mut store = TimeSeriesStore::new();
    let migration = Migration0012 { clean_start: false };
    migration.apply_at(&mut store, 1000).unwrap();
    assert!(matches!(store.view, ViewState::From(1015)));

    let mut manager = NeuralForecastManager::new(store);

    // Created before the cut-over: kept out of the view.
    manager
        .add_data_points_at(5, hourly_points(2), 1000)
        .unwrap();
    assert_eq!(manager.store.view_rows.len(), 0);

    // Created at the cut-over: fed to the view.
    manager
        .add_data_points_at(5, hourly_points(2), 1015)
        .unwrap();
    assert_eq!(manager.store.view_rows.len(), 2);
    assert_eq!(manager.store.observations.len(), 4);
}

#[test]
fn test_view_clean_excludes_nothing() {
    let mut store = TimeSeriesStore::new();
    let migration = Migration0012 { clean_start: true };
    migration.apply_at(&mut store, 1000).unwrap();

    let mut manager = NeuralForecastManager::new(store);
    manager.add_data_points_at(5, hourly_points(3), 0).unwrap();
    assert_eq!(manager.store.view_rows.len(), 3);
}

#[test]
fn test_prediction_decoupled_from_storage() {
    // The returned prediction is a function of the backend outcome
    // alone: a manager whose store already holds unrelated rows — or
    // whose storage never completes a row — answers identically.
    let predicted = vec![1.5f64.to_bits(), 2.5f64.to_bits()];
    let confidence = 0.5f64.to_bits();

    let mut fresh = fresh_manager();
    let mut crowded = fresh_manager();
    crowded
        .add_data_points_at(9, hourly_points(5), BASE)
        .unwrap();
    crowded.store.insert_forecast(9, BASE, "other".to_string(), 7, 7, BASE);

    let outcome_a = BackendOutcome::Prediction {
        prediction: predicted.clone(),
        confidence,
    };
    let outcome_b = BackendOutcome::Prediction {
        prediction: predicted.clone(),
        confidence,
    };

    let ra = fresh.predict_with_outcome(1, "value", outcome_a, BASE).unwrap();
    let rb = crowded.predict_with_outcome(1, "value", outcome_b, BASE).unwrap();
    assert_eq!(ra.prediction, rb.prediction);
    assert_eq!(ra.confidence, rb.confidence);
    assert_eq!(ra.prediction, predicted);
}

#[test]
fn test_recent_with_max_age_prefers_newest() {
    // More qualifying forecasts than the limit: the newest qualifying
    // ones come back, newest first, and old ones never do.
    let mut manager = fresh_manager();
    let model_id: u128 = 3;
    // Two old rows and five fresh ones.
    for (i, ts) in [BASE - 50_000, BASE - 40_000].iter().enumerate() {
        manager.store.insert_forecast(
            model_id,
            *ts,
            "value".to_string(),
            (i as f64).to_bits(),
            0.5f64.to_bits(),
            *ts,
        );
    }
    for i in 0..5u64 {
        let ts = BASE + 100 * i as i64;
        manager.store.insert_forecast(
            model_id,
            ts,
            "value".to_string(),
            (i as f64).to_bits(),
            0.5f64.to_bits(),
            ts,
        );
    }

    let got = manager
        .get_recent_forecasts_with_max_age_at(model_id, 3, 3600, BASE + 400)
        .unwrap();
    assert_eq!(got.len(), 3);
    assert_eq!(got[0].0, BASE + 400);
    assert_eq!(got[1].0, BASE + 300);
    assert_eq!(got[2].0, BASE + 200);
}

#[test]
fn test_register_model_last_writer_wins() {
    let mut manager = fresh_manager();
    let first = MindsDBConfig {
        model_name: "m1".to_string(),
        url: "http://a".to_string(),
        history_window: 10,
        forecast_horizon: 2,
    };
    let second = MindsDBConfig {
        model_name: "m1".to_string(),
        url: "http://b".to_string(),
        history_window: 20,
        forecast_horizon: 4,
    };
    manager.register_model("m1".to_string(), first).unwrap();
    manager.register_model("m1".to_string(), second).unwrap();

    let got = manager.get_model("m1").unwrap();
    assert_eq!(got.url, "http://b");
    assert_eq!(got.history_window, 20);

    let names = manager.list_models();
    assert_eq!(names, vec!["m1".to_string()]);

    let missing = manager.get_model("absent");
    match missing {
        Err(e) => assert!(e.is_not_found()),
        _ => panic!("Expected error"),
    }
}

#[test]
fn test_backend_response_errors() {
    let mut manager = fresh_manager();
    let http = BackendOutcome::HttpFailure {
        status: 500,
        detail: "internal error".to_string(),
    };
    let r = manager.predict_with_outcome(1, "value", http, BASE);
    assert!(matches!(
        r,
        Err(ForecastError::BackendResponse {
            status: Some(500),
            ..
        })
    ));

    let decode = BackendOutcome::DecodeFailure {
        status: 200,
        detail: "not json".to_string(),
    };
    let r = manager.predict_with_outcome(1, "value", decode, BASE);
    assert!(matches!(
        r,
        Err(ForecastError::BackendResponse {
            status: Some(200),
            ..
        })
    ));
    assert_eq!(manager.store.forecasts.len(), 0);
}

#[test]
fn test_fingerprint_sensitive_to_features_and_order() {
    let with_features = vec![TimeSeriesDataPoint {
        timestamp: BASE,
        value: 1.0f64.to_bits(),
        additional_features: vec![("region".to_string(), "eu".to_string())],
    }];
    let without_features = vec![TimeSeriesDataPoint {
        timestamp: BASE,
        value: 1.0f64.to_bits(),
        additional_features: Vec::new(),
    }];
    let k1 = fingerprint("m", "mindsdb", "value", 30, &with_features);
    let k2 = fingerprint("m", "mindsdb", "value", 30, &without_features);
    assert_ne!(k1, k2);

    let ab = hourly_points(2);
    let mut ba = hourly_points(2);
    ba.swap(0, 1);
    let ka = fingerprint("m", "mindsdb", "value", 30, &ab);
    let kb = fingerprint("m", "mindsdb", "value", 30, &ba);
    assert_ne!(ka, kb);
}

#[test]
fn test_default_configuration_values() {
    assert_eq!(
        neural_forecast::providers::default_mindsdb_url(),
        "http://localhost:47334"
    );
    assert_eq!(neural_forecast::providers::default_history_window(), 30);
    assert_eq!(neural_forecast::providers::default_forecast_horizon(), 7);
    assert_eq!(neural_forecast::neural_config::default_history_window(), 30);
    assert_eq!(neural_forecast::neural_config::default_forecast_horizon(), 7);
}

#[test]
fn test_rollback_instructions() {
    let migration = Migration0012 { clean_start: true };
    let script = migration.rollback_instructions();
    assert_eq!(
        script,
        "DROP TABLE IF EXISTS TimeSeriesData;\nDROP TABLE IF EXISTS TimeSeriesForecast;\nDROP TABLE IF EXISTS TimeSeriesModelConfig;\nDROP VIEW IF EXISTS TimeSeriesDataByModelView;\n"
    );
}

#[test]
fn test_streaming_and_batch_shapes() {
    let resp = neural_forecast::providers::ForecastResponse {
        prediction: vec![1u64, 2, 3],
        confidence: 9,
    };
    let chunk = neural_forecast::providers::initial_chunk(&resp);
    assert_eq!(chunk.delta, Some(vec![1u64, 2, 3]));
    assert_eq!(chunk.confidence, 9);

    let results = vec![(1u128, Ok(resp))];
    let batch = neural_forecast::providers::collect_batch(results);
    assert_eq!(batch.results.len(), 1);
    assert!(batch.results[0].1.is_ok());
}

#[test]
fn test_recent_within_age_returns_all_descending() {
    // Three synthetic forecasts at one confidence; a read whose
    // tolerance covers the insertion window returns all three, newest
    // first.
    let mut manager = fresh_manager();
    let model_id = manager.create_model_at(test_model_config(), BASE).unwrap();
    for (ts, v) in [(BASE, 25.3f64), (BASE + 3600, 26.1), (BASE + 7200, 27.4)] {
        manager.store.insert_forecast(
            model_id,
            ts,
            "value".to_string(),
            v.to_bits(),
            0.89f64.to_bits(),
            ts,
        );
    }
    let got = manager
        .get_recent_forecasts_with_max_age_at(model_id, 3, 3600, BASE + 3600)
        .unwrap();
    assert_eq!(got.len(), 3);
    assert_eq!(got[0].0, BASE + 7200);
    assert_eq!(got[1].0, BASE + 3600);
    assert_eq!(got[2].0, BASE);
    for (_, _, conf) in &got {
        assert_eq!(*conf, 0.89f64.to_bits());
    }
}
