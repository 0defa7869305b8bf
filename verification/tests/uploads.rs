use telemetry_core::common::CommonMetricData;
use telemetry_core::glean::{Configuration, Glean};
use telemetry_core::lifetime::Lifetime;
use telemetry_core::metric::{MergePolicy, Metric};
use telemetry_core::ping::ClientInfo;
use telemetry_core::upload::{UploadDisposition, UploadOutcome};

fn upload_config(unconditional: Vec<String>) -> Configuration {
    Configuration {
        app_id: String::from("test-app"),
        server_endpoint: String::from("https://incoming.example"),
        upload_enabled: true,
        client_info: ClientInfo {
            app_build: String::from("42"),
            app_display_version: String::from("1.2.3"),
            app_channel: String::from("nightly"),
            locale: String::from("en-US"),
        },
        unconditional_pings: unconditional,
    }
}

fn bool_meta() -> CommonMetricData {
    CommonMetricData {
        category: String::from("sample"),
        name: String::from("flag"),
        send_in_pings: vec![String::from("custom")],
        lifetime: Lifetime::Ping,
        disabled: false,
        dynamic_label: None,
    }
}

#[test]
fn uploader_receives_one_ping_with_the_boolean_metric() {
    let mut g = Glean::new(upload_config(Vec::new()), None);
    g.initialize(true).unwrap();
    g.record_metric(&bool_meta(), Metric::Boolean(true), MergePolicy::Overwrite);
    g.submit_ping(&String::from("custom"), &String::from("active"));
    g.process_pending();
    // exactly one upload call
    assert_eq!(g.pending_upload_count(), 1);
    let job = g.next_upload_job().unwrap();
    // the (uncompressed) body carries the metric under category.name
    assert!(job.body.contains("\"sample.flag\":true"));
    assert!(job.body.contains("\"ping_info\""));
    assert!(job.body.contains("\"client_info\""));
    assert!(job.body.contains("\"app_build\":\"42\""));
    assert_eq!(
        g.process_upload_outcome(UploadOutcome::Success(200)),
        UploadDisposition::Completed
    );
    assert_eq!(g.pending_upload_count(), 0);
    assert_eq!(g.completed_upload_count(), 1);
    assert!(g.next_upload_job().is_none());
}

#[test]
fn retry_backoff_increases_and_job_leaves_queue_only_on_success() {
    let mut g = Glean::new(upload_config(Vec::new()), None);
    g.initialize(true).unwrap();
    g.record_metric(&bool_meta(), Metric::Boolean(true), MergePolicy::Overwrite);
    g.submit_ping(&String::from("custom"), &String::from("active"));
    g.process_pending();
    assert_eq!(g.pending_upload_count(), 1);

    let mut attempts = 0;
    let mut delays: Vec<u64> = Vec::new();
    // the uploader capability fails recoverably three times, then succeeds
    loop {
        let job = match g.next_upload_job() {
            Some(j) => j,
            None => break,
        };
        attempts += 1;
        let outcome = if attempts <= 3 {
            UploadOutcome::RecoverableFailure
        } else {
            UploadOutcome::Success(200)
        };
        let _ = job;
        match g.process_upload_outcome(outcome) {
            UploadDisposition::Retry(delay) => {
                // the job is still in the durable queue while it waits
                assert_eq!(g.pending_upload_count(), 1);
                delays.push(delay);
            }
            UploadDisposition::Completed => break,
            UploadDisposition::Dropped => panic!("job must not be dropped"),
        }
    }
    // exactly 4 attempts: 3 recoverable failures and the final success
    assert_eq!(attempts, 4);
    assert_eq!(delays.len(), 3);
    assert!(delays[0] < delays[1] && delays[1] < delays[2]);
    assert_eq!(delays, vec![1000, 2000, 4000]);
    // removed from the durable queue only after the 4th attempt
    assert_eq!(g.pending_upload_count(), 0);
    assert_eq!(g.completed_upload_count(), 1);
}

#[test]
fn unrecoverable_failure_drops_job_permanently() {
    let mut g = Glean::new(upload_config(Vec::new()), None);
    g.initialize(true).unwrap();
    g.record_metric(&bool_meta(), Metric::Boolean(true), MergePolicy::Overwrite);
    g.submit_ping(&String::from("custom"), &String::from("active"));
    g.process_pending();
    assert_eq!(g.pending_upload_count(), 1);
    assert_eq!(
        g.process_upload_outcome(UploadOutcome::UnrecoverableFailure),
        UploadDisposition::Dropped
    );
    assert_eq!(g.pending_upload_count(), 0);
    assert_eq!(g.dropped_upload_count(), 1);
}

#[test]
fn attempt_cap_converts_recoverable_into_drop() {
    let mut g = Glean::new(upload_config(Vec::new()), None);
    g.initialize(true).unwrap();
    g.record_metric(&bool_meta(), Metric::Boolean(true), MergePolicy::Overwrite);
    g.submit_ping(&String::from("custom"), &String::from("active"));
    g.process_pending();
    let mut last = UploadDisposition::Retry(0);
    let mut attempts = 0;
    while g.next_upload_job().is_some() {
        attempts += 1;
        last = g.process_upload_outcome(UploadOutcome::RecoverableFailure);
    }
    assert_eq!(last, UploadDisposition::Dropped);
    assert_eq!(attempts, 10);
    assert_eq!(g.dropped_upload_count(), 1);
}

#[test]
fn empty_ping_is_skipped_unless_unconditional() {
    let mut g = Glean::new(upload_config(Vec::new()), None);
    g.initialize(true).unwrap();
    g.submit_ping(&String::from("custom"), &String::from("active"));
    g.process_pending();
    // nothing recorded, conditional ping: submission skipped and reported
    assert_eq!(g.pending_upload_count(), 0);
    assert_eq!(g.skipped_submission_count(), 1);

    let mut g2 = Glean::new(upload_config(vec![String::from("baseline")]), None);
    g2.initialize(true).unwrap();
    g2.submit_ping(&String::from("baseline"), &String::from("dirty_startup"));
    g2.process_pending();
    // an unconditional ping goes out even when empty
    assert_eq!(g2.pending_upload_count(), 1);
}

#[test]
fn internal_error_metrics_alone_do_not_make_a_ping_worth_sending() {
    let mut g = Glean::new(upload_config(Vec::new()), None);
    g.initialize(true).unwrap();
    let metric = telemetry_core::object::ObjectMetric::new(CommonMetricData {
        category: String::from("sample"),
        name: String::from("obj"),
        send_in_pings: vec![String::from("custom")],
        lifetime: Lifetime::Ping,
        disabled: false,
        dynamic_label: None,
    });
    metric.set_str(&mut g, String::from("broken"));
    g.process_pending();
    g.submit_ping(&String::from("custom"), &String::from("active"));
    g.process_pending();
    assert_eq!(g.pending_upload_count(), 0);
    assert_eq!(g.skipped_submission_count(), 1);
}

#[test]
fn sequence_numbers_are_monotonic_per_ping_and_persisted() {
    let mut g = Glean::new(upload_config(Vec::new()), None);
    g.initialize(true).unwrap();
    g.record_metric(&bool_meta(), Metric::Boolean(true), MergePolicy::Overwrite);
    g.submit_ping(&String::from("custom"), &String::from("active"));
    g.process_pending();
    let first = g.next_upload_job().unwrap();
    assert!(first.body.contains("\"seq\":0"));
    assert_eq!(first.request.seqno, 0);
    assert_eq!(first.request.document_id, String::from("doc-0"));
    assert_eq!(
        first.url,
        String::from("https://incoming.example/submit/test-app/custom/doc-0")
    );
    g.process_upload_outcome(UploadOutcome::Success(200));

    // across a restart the counter is persisted
    let persisted = g.export_persisted();
    let mut g2 = Glean::new(upload_config(Vec::new()), Some(persisted));
    g2.initialize(true).unwrap();
    g2.record_metric(&bool_meta(), Metric::Boolean(false), MergePolicy::Overwrite);
    g2.submit_ping(&String::from("custom"), &String::from("active"));
    g2.process_pending();
    let second = g2.next_upload_job().unwrap();
    assert!(second.body.contains("\"seq\":1"));
    assert_eq!(second.request.seqno, 1);
    assert_eq!(second.request.document_id, String::from("doc-1"));
}

#[test]
fn pending_uploads_survive_restart() {
    let mut g = Glean::new(upload_config(Vec::new()), None);
    g.initialize(true).unwrap();
    g.record_metric(&bool_meta(), Metric::Boolean(true), MergePolicy::Overwrite);
    g.submit_ping(&String::from("custom"), &String::from("active"));
    g.process_pending();
    assert_eq!(g.pending_upload_count(), 1);
    // the process dies before the upload goes out; the job is retried
    // after the next start instead of being lost
    let persisted = g.export_persisted();
    let g2 = Glean::new(upload_config(Vec::new()), Some(persisted));
    assert_eq!(g2.pending_upload_count(), 1);
    let job = g2.next_upload_job().unwrap();
    assert!(job.body.contains("\"sample.flag\":true"));
}

#[test]
fn upload_disabled_skips_submission() {
    let mut config = upload_config(Vec::new());
    config.upload_enabled = false;
    let mut g = Glean::new(config, None);
    g.initialize(true).unwrap();
    g.record_metric(&bool_meta(), Metric::Boolean(true), MergePolicy::Overwrite);
    g.submit_ping(&String::from("custom"), &String::from("active"));
    g.process_pending();
    assert_eq!(g.pending_upload_count(), 0);
    assert_eq!(g.skipped_submission_count(), 1);
}

#[test]
fn text_values_are_escaped_in_the_body() {
    let mut g = Glean::new(upload_config(Vec::new()), None);
    g.initialize(true).unwrap();
    let meta = CommonMetricData {
        category: String::from("sample"),
        name: String::from("note"),
        send_in_pings: vec![String::from("custom")],
        lifetime: Lifetime::Ping,
        disabled: false,
        dynamic_label: None,
    };
    g.record_metric(
        &meta,
        Metric::Text(String::from("a \"quoted\"\nline")),
        MergePolicy::Overwrite,
    );
    g.submit_ping(&String::from("custom"), &String::from("active"));
    g.process_pending();
    let job = g.next_upload_job().unwrap();
    assert!(job.body.contains("\"sample.note\":\"a \\\"quoted\\\"\\nline\""));
}

#[test]
fn negative_counters_render_with_a_sign() {
    let mut g = Glean::new(upload_config(Vec::new()), None);
    g.initialize(true).unwrap();
    let meta = CommonMetricData {
        category: String::from("sample"),
        name: String::from("delta"),
        send_in_pings: vec![String::from("custom")],
        lifetime: Lifetime::Ping,
        disabled: false,
        dynamic_label: None,
    };
    g.record_metric(&meta, Metric::Counter(-37), MergePolicy::Overwrite);
    g.submit_ping(&String::from("custom"), &String::from("active"));
    g.process_pending();
    let job = g.next_upload_job().unwrap();
    assert!(job.body.contains("\"sample.delta\":-37"));
}

#[test]
fn control_characters_are_escaped_as_unicode() {
    let mut g = Glean::new(upload_config(Vec::new()), None);
    g.initialize(true).unwrap();
    let meta = CommonMetricData {
        category: String::from("sample"),
        name: String::from("note"),
        send_in_pings: vec![String::from("custom")],
        lifetime: Lifetime::Ping,
        disabled: false,
        dynamic_label: None,
    };
    g.record_metric(
        &meta,
        Metric::Text(String::from("a\u{1f}b")),
        MergePolicy::Overwrite,
    );
    g.submit_ping(&String::from("custom"), &String::from("active"));
    g.process_pending();
    let job = g.next_upload_job().unwrap();
    assert!(job.body.contains("\"sample.note\":\"a\\u001fb\""));
}

#[test]
fn collection_time_comes_from_the_host_clock() {
    let mut g = Glean::new(upload_config(Vec::new()), None);
    g.initialize(true).unwrap();
    g.set_time(1700000000);
    g.record_metric(&bool_meta(), Metric::Boolean(true), MergePolicy::Overwrite);
    g.submit_ping(&String::from("custom"), &String::from("active"));
    g.process_pending();
    let job = g.next_upload_job().unwrap();
    assert_eq!(job.request.collection_time, 1700000000);
    assert!(job.body.contains("\"collection_time\":1700000000"));
}

#[test]
fn headers_name_the_content_type() {
    let mut g = Glean::new(upload_config(Vec::new()), None);
    g.initialize(true).unwrap();
    g.record_metric(&bool_meta(), Metric::Boolean(true), MergePolicy::Overwrite);
    g.submit_ping(&String::from("custom"), &String::from("active"));
    g.process_pending();
    let job = g.next_upload_job().unwrap();
    assert_eq!(job.headers.len(), 1);
    assert_eq!(job.headers[0].name, String::from("content-type"));
    assert_eq!(job.headers[0].value, String::from("application/json"));
}
