use telemetry_core::common::CommonMetricData;
use telemetry_core::error::ErrorType;
use telemetry_core::glean::{Configuration, Glean};
use telemetry_core::lifetime::Lifetime;
use telemetry_core::metric::{MergePolicy, Metric};
use telemetry_core::object::ObjectMetric;
use telemetry_core::ping::ClientInfo;

fn test_config() -> Configuration {
    Configuration {
        app_id: String::from("test-app"),
        server_endpoint: String::from("https://incoming.example"),
        upload_enabled: true,
        client_info: ClientInfo {
            app_build: String::from("42"),
            app_display_version: String::from("1.2.3"),
            app_channel: String::from("nightly"),
            locale: String::from("en-US"),
        },
        unconditional_pings: Vec::new(),
    }
}

fn object_meta(name: &str, lifetime: Lifetime) -> CommonMetricData {
    CommonMetricData {
        category: String::from("sample"),
        name: String::from(name),
        send_in_pings: vec![String::from("store1")],
        lifetime,
        disabled: false,
        dynamic_label: None,
    }
}

fn live_glean() -> Glean {
    let mut g = Glean::new(test_config(), None);
    g.initialize(true).unwrap();
    g
}

#[test]
fn preinit_calls_run_once_in_order_on_initialize() {
    let mut g = Glean::new(test_config(), None);
    let metric = ObjectMetric::new(object_meta("obj", Lifetime::Ping));
    metric.set_str(&mut g, String::from("{\"v\": 1}"));
    metric.set_str(&mut g, String::from("{\"v\": 2}"));
    assert_eq!(g.pending_task_count(), 2);
    g.initialize(true).unwrap();
    assert_eq!(g.pending_task_count(), 0);
    // both buffered calls executed, in order: the later one wins
    let got = metric.test_get_value(&mut g, None);
    assert_eq!(got, Some(String::from("{\"v\":2}")));
    // a call issued after initialization executes after the backlog
    metric.set_str(&mut g, String::from("{\"v\": 3}"));
    let got = metric.test_get_value(&mut g, None);
    assert_eq!(got, Some(String::from("{\"v\":3}")));
}

#[test]
fn second_initialization_is_rejected() {
    let mut g = Glean::new(test_config(), None);
    assert!(g.initialize(true).is_ok());
    assert_eq!(g.initialize(true), Err(ErrorType::InvalidState));
}

#[test]
fn preinit_buffer_overflow_drops_and_counts() {
    let mut g = Glean::new(test_config(), None);
    let metric = ObjectMetric::new(object_meta("obj", Lifetime::Ping));
    for i in 0..105 {
        metric.set_str(&mut g, format!("{{\"v\": {}}}", i));
    }
    assert_eq!(g.pending_task_count(), 100);
    assert_eq!(g.overflow_count(), 5);
}

#[test]
fn ping_lifetime_value_cleared_by_submit() {
    let mut g = live_glean();
    let metric = ObjectMetric::new(object_meta("obj", Lifetime::Ping));
    metric.set_str(&mut g, String::from("{\"v\": 1}"));
    g.process_pending();
    assert!(metric.get_value(&g, None).is_some());
    g.submit_ping(&String::from("store1"), &String::from("active"));
    g.process_pending();
    // the snapshot after submission holds nothing for this identifier
    assert_eq!(metric.get_value(&g, None), None);
}

#[test]
fn application_lifetime_survives_submit_cleared_on_restart() {
    let mut g = live_glean();
    let metric = ObjectMetric::new(object_meta("obj", Lifetime::Application));
    metric.set_str(&mut g, String::from("{\"v\": 1}"));
    g.process_pending();
    g.submit_ping(&String::from("store1"), &String::from("active"));
    g.process_pending();
    // submission did not clear the Application-lifetime value
    assert_eq!(metric.get_value(&g, None), Some(String::from("{\"v\":1}")));
    // a process restart (loading the persisted state) runs the
    // housekeeping that clears Application-lifetime data
    let persisted = g.export_persisted();
    let g2 = Glean::new(test_config(), Some(persisted));
    assert_eq!(metric.get_value(&g2, None), None);
}

#[test]
fn user_lifetime_survives_restart() {
    let mut g = live_glean();
    let metric = ObjectMetric::new(object_meta("obj", Lifetime::User));
    metric.set_str(&mut g, String::from("{\"v\": 7}"));
    g.process_pending();
    let persisted = g.export_persisted();
    let g2 = Glean::new(test_config(), Some(persisted));
    assert_eq!(metric.get_value(&g2, None), Some(String::from("{\"v\":7}")));
}

#[test]
fn set_then_get_round_trips_canonical_form() {
    let mut g = live_glean();
    let metric = ObjectMetric::new(object_meta("obj", Lifetime::Ping));
    metric.set_str(&mut g, String::from("{ \"b\" : [1, 2],\n \"a\": \"x\" }"));
    let got = metric.test_get_value(&mut g, None);
    // canonical form: whitespace dropped, object keys sorted
    assert_eq!(got, Some(String::from("{\"a\":\"x\",\"b\":[1,2]}")));
}

#[test]
fn set_with_parsed_value_round_trips() {
    let mut g = live_glean();
    let metric = ObjectMetric::new(object_meta("obj", Lifetime::Ping));
    let value: serde_json::Value = serde_json::from_str("{\"k\": [true, null]}").unwrap();
    metric.set(&mut g, value);
    let got = metric.test_get_value(&mut g, None);
    assert_eq!(got, Some(String::from("{\"k\":[true,null]}")));
}

#[test]
fn set_sync_records_immediately() {
    let mut g = live_glean();
    let metric = ObjectMetric::new(object_meta("obj", Lifetime::Ping));
    let value: serde_json::Value = serde_json::from_str("{\"n\": 5}").unwrap();
    metric.set_sync(&mut g, value);
    assert_eq!(metric.get_value(&g, None), Some(String::from("{\"n\":5}")));
}

#[test]
fn malformed_text_keeps_previous_value_and_counts_error() {
    let mut g = live_glean();
    let metric = ObjectMetric::new(object_meta("obj", Lifetime::Ping));
    metric.set_str(&mut g, String::from("{\"v\": 1}"));
    g.process_pending();
    metric.set_str(&mut g, String::from("not json"));
    let got = metric.test_get_value(&mut g, None);
    assert_eq!(got, Some(String::from("{\"v\":1}")));
    assert_eq!(metric.test_get_num_recorded_errors(&mut g, ErrorType::InvalidValue), 1);
}

#[test]
fn malformed_text_with_no_previous_value_returns_none() {
    let mut g = live_glean();
    let metric = ObjectMetric::new(object_meta("obj", Lifetime::Ping));
    metric.set_str(&mut g, String::from("[1, 2"));
    assert_eq!(metric.test_get_value(&mut g, None), None);
    assert_eq!(metric.test_get_num_recorded_errors(&mut g, ErrorType::InvalidValue), 1);
}

#[test]
fn record_invalid_value_counts_one_error() {
    let mut g = live_glean();
    let metric = ObjectMetric::new(object_meta("obj", Lifetime::Ping));
    metric.record_invalid_value(&mut g);
    assert_eq!(metric.test_get_num_recorded_errors(&mut g, ErrorType::InvalidValue), 1);
    assert_eq!(metric.test_get_num_recorded_errors(&mut g, ErrorType::InvalidType), 0);
}

#[test]
fn failed_worker_spawn_fails_cleanly_without_uploads() {
    // a resource-starved host: five worker-thread creations requested,
    // only the first four succeed; the dispatcher's worker is the fifth
    let mut thread_budget = 4;
    let mut spawn = || {
        if thread_budget > 0 {
            thread_budget -= 1;
            true
        } else {
            false
        }
    };
    for _ in 0..4 {
        assert!(spawn());
    }
    let mut g = Glean::new(test_config(), None);
    let metric = ObjectMetric::new(object_meta("obj", Lifetime::Ping));
    metric.set_str(&mut g, String::from("{\"v\": 1}"));
    g.submit_ping(&String::from("store1"), &String::from("active"));
    let worker_spawned = spawn();
    assert!(!worker_spawned);
    // initialization reports InvalidState instead of hanging
    assert_eq!(g.initialize(worker_spawned), Err(ErrorType::InvalidState));
    // and no partial ping was ever handed to the uploader
    assert_eq!(g.pending_upload_count(), 0);
    assert_eq!(g.completed_upload_count(), 0);
}

#[test]
fn counter_accumulates_and_boolean_overwrites() {
    let mut g = live_glean();
    let meta = object_meta("counts", Lifetime::Ping);
    g.record_metric(&meta, Metric::Counter(2), MergePolicy::Accumulate);
    g.record_metric(&meta, Metric::Counter(3), MergePolicy::Accumulate);
    g.process_pending();
    let got = g.storage().get(&String::from("store1"), &String::from("sample.counts"));
    assert_eq!(got, Some(Metric::Counter(5)));
    let meta_b = object_meta("flag", Lifetime::Ping);
    g.record_metric(&meta_b, Metric::Boolean(false), MergePolicy::Overwrite);
    g.record_metric(&meta_b, Metric::Boolean(true), MergePolicy::Overwrite);
    g.process_pending();
    let got = g.storage().get(&String::from("store1"), &String::from("sample.flag"));
    assert_eq!(got, Some(Metric::Boolean(true)));
}

#[test]
fn counter_overflow_saturates_and_records_error() {
    let mut g = live_glean();
    let meta = object_meta("counts", Lifetime::Ping);
    g.record_metric(&meta, Metric::Counter(i32::MAX), MergePolicy::Accumulate);
    g.record_metric(&meta, Metric::Counter(1), MergePolicy::Accumulate);
    g.process_pending();
    let got = g.storage().get(&String::from("store1"), &String::from("sample.counts"));
    assert_eq!(got, Some(Metric::Counter(i32::MAX)));
    let got = g.storage().get(
        &String::from("store1"),
        &String::from("glean.error.invalid_overflow/sample.counts"),
    );
    assert_eq!(got, Some(Metric::Counter(1)));
}

#[test]
fn corrupt_duplicate_entries_dropped_on_load() {
    let mut g = live_glean();
    let metric = ObjectMetric::new(object_meta("obj", Lifetime::User));
    metric.set_str(&mut g, String::from("{\"v\": 1}"));
    g.process_pending();
    let mut persisted = g.export_persisted();
    // a corrupted store: the same key appears twice
    let duplicate = telemetry_core::storage::StorageEntry {
        ping_name: String::from("store1"),
        metric_id: String::from("sample.obj"),
        lifetime: Lifetime::User,
        value: Metric::Object(String::from("{\"v\":99}")),
    };
    persisted.entries.push(duplicate);
    let g2 = Glean::new(test_config(), Some(persisted));
    assert_eq!(g2.load_corruption_count(), 1);
    // the first occurrence wins, loading continued past the bad entry
    assert_eq!(metric.get_value(&g2, None), Some(String::from("{\"v\":1}")));
}

#[test]
fn tasks_after_shutdown_are_rejected() {
    let mut g = live_glean();
    let metric = ObjectMetric::new(object_meta("obj", Lifetime::Ping));
    g.shut_down(true);
    metric.set_str(&mut g, String::from("{\"v\": 1}"));
    assert_eq!(g.rejected_count(), 1);
    assert_eq!(g.pending_task_count(), 0);
}

#[test]
fn shutdown_within_deadline_drains_backlog() {
    let mut g = live_glean();
    let metric = ObjectMetric::new(object_meta("obj", Lifetime::User));
    metric.set_str(&mut g, String::from("{\"v\": 1}"));
    g.shut_down(true);
    assert_eq!(metric.get_value(&g, None), Some(String::from("{\"v\":1}")));
}

#[test]
fn shutdown_past_deadline_abandons_backlog() {
    let mut g = live_glean();
    let metric = ObjectMetric::new(object_meta("obj", Lifetime::User));
    metric.set_str(&mut g, String::from("{\"v\": 1}"));
    g.shut_down(false);
    assert_eq!(metric.get_value(&g, None), None);
    assert_eq!(g.pending_task_count(), 0);
}

#[test]
fn user_lifetime_cleared_by_profile_reset() {
    let mut g = live_glean();
    let metric = ObjectMetric::new(object_meta("obj", Lifetime::User));
    metric.set_str(&mut g, String::from("{\"v\": 7}"));
    g.process_pending();
    assert!(metric.get_value(&g, None).is_some());
    g.reset_user_data();
    assert_eq!(metric.get_value(&g, None), None);
}

#[test]
fn error_identifier_shape() {
    let meta = object_meta("obj", Lifetime::Ping);
    let id = telemetry_core::error::error_identifier(ErrorType::InvalidValue, &meta);
    assert_eq!(id, String::from("glean.error.invalid_value/sample.obj"));
}
