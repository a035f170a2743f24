use aeon_engine::metrics_server::{
    answer, format_prometheus, metrics_prometheus, MetricsConfig,
};
use aeon_engine::pipeline::metrics::PipelineMetrics;

fn now_secs() -> i64 {
    std::time::SystemTime::now()
        .duration_since(std::time::UNIX_EPOCH)
        .unwrap()
        .as_secs() as i64
}

#[test]
fn prometheus_format_counters() {
    let mut metrics = PipelineMetrics::new();
    metrics.events_received = 100;
    metrics.events_processed = 95;
    metrics.outputs_sent = 90;
    let config = MetricsConfig::new();

    let output = format_prometheus(&metrics, &config, now_secs());

    assert!(output.contains("aeon_events_received_total 100"));
    assert!(output.contains("aeon_events_processed_total 95"));
    assert!(output.contains("aeon_outputs_sent_total 90"));
    assert!(output.contains("# TYPE aeon_events_received_total counter"));
}

#[test]
fn prometheus_format_zeros() {
    let metrics = PipelineMetrics::new();
    let config = MetricsConfig::new();
    let output = format_prometheus(&metrics, &config, now_secs());

    assert!(output.contains("aeon_events_received_total 0"));
    assert!(output.contains("aeon_events_processed_total 0"));
    assert!(output.contains("aeon_outputs_sent_total 0"));
    // No TLS metrics when not configured
    assert!(!output.contains("aeon_tls_cert"));
}

#[test]
fn prometheus_format_with_cert_expiry() {
    let metrics = PipelineMetrics::new();
    let mut config = MetricsConfig::new();
    // Set a cert expiry ~30 days from now
    let future_secs = now_secs() + 30 * 86400;
    config.tls_cert_expiry_secs = future_secs;

    let output = format_prometheus(&metrics, &config, now_secs());

    assert!(output.contains("aeon_tls_cert_expiry_seconds"));
    assert!(output.contains("aeon_tls_cert_days_remaining"));
    // Should be approximately 30 days (29 or 30 depending on timing)
    assert!(
        output.contains("aeon_tls_cert_days_remaining 29")
            || output.contains("aeon_tls_cert_days_remaining 30")
    );
}

#[test]
fn whole_text_without_certificate() {
    let mut metrics = PipelineMetrics::new();
    metrics.events_received = 7;
    metrics.events_processed = 5;
    metrics.outputs_sent = 3;
    assert_eq!(
        format_prometheus(&metrics, &MetricsConfig::default(), 0),
        "# HELP aeon_events_received_total Total events received from sources\n\
         # TYPE aeon_events_received_total counter\n\
         aeon_events_received_total 7\n\
         # HELP aeon_events_processed_total Total events processed by processors\n\
         # TYPE aeon_events_processed_total counter\n\
         aeon_events_processed_total 5\n\
         # HELP aeon_outputs_sent_total Total outputs sent to sinks\n\
         # TYPE aeon_outputs_sent_total counter\n\
         aeon_outputs_sent_total 3\n"
    );
}

#[test]
fn expired_certificate_counts_days_toward_zero() {
    let metrics = PipelineMetrics::new();
    let config = MetricsConfig { tls_cert_expiry_secs: 1000 };
    let a_day_and_a_half_later = 1000 + 86400 + 43200;
    let output = format_prometheus(&metrics, &config, a_day_and_a_half_later);
    assert!(output.ends_with(
        "# HELP aeon_tls_cert_expiry_seconds TLS certificate expiry (Unix epoch seconds)\n\
         # TYPE aeon_tls_cert_expiry_seconds gauge\n\
         aeon_tls_cert_expiry_seconds 1000\n\
         # HELP aeon_tls_cert_days_remaining Days until TLS certificate expires\n\
         # TYPE aeon_tls_cert_days_remaining gauge\n\
         aeon_tls_cert_days_remaining -1\n"
    ));
    let half_a_day_later = format_prometheus(&metrics, &config, 1000 + 43200);
    assert!(half_a_day_later.ends_with("aeon_tls_cert_days_remaining 0\n"));
}

#[test]
fn metrics_endpoint_serves_get() {
    let mut metrics = PipelineMetrics::new();
    metrics.events_received = 42;
    metrics.events_processed = 42;
    metrics.outputs_sent = 42;
    let response = answer(
        b"GET /metrics HTTP/1.1\r\nHost: localhost\r\n\r\n",
        &metrics,
        &MetricsConfig::new(),
        0,
    )
    .unwrap();
    assert!(response.contains("200 OK"));
    assert!(response.contains("aeon_events_received_total 42"));
    let (head, body) = response.split_once("\r\n\r\n").unwrap();
    assert!(head.contains(&format!("Content-Length: {}", body.len())));
    assert!(head.starts_with(
        "HTTP/1.1 200 OK\r\nContent-Type: text/plain; version=0.0.4; charset=utf-8\r\n"
    ));
    assert!(head.ends_with("Connection: close"));
}

#[test]
fn metrics_endpoint_404_for_other_paths() {
    let response = answer(
        b"GET /health HTTP/1.1\r\nHost: localhost\r\n\r\n",
        &PipelineMetrics::new(),
        &MetricsConfig::new(),
        0,
    )
    .unwrap();
    assert!(response.contains("404 Not Found"));
    assert_eq!(
        response,
        "HTTP/1.1 404 Not Found\r\nContent-Type: text/plain\r\nContent-Length: 10\r\n\
         Connection: close\r\n\r\nNot Found\n"
    );
}

#[test]
fn metrics_endpoint_answers_nothing_to_nothing() {
    let none = answer(b"", &PipelineMetrics::new(), &MetricsConfig::new(), 0);
    assert!(none.is_none());
    for (request, found) in [
        ("GET /metrics HTTP/1.1\r\n\r\n", true),
        ("GET /metrics?name=x HTTP/1.1\r\n\r\n", true),
        ("GET /metrics\r\n", true),
        ("GET /metrics", true),
        ("GET /metrics-old HTTP/1.1\r\nHost: localhost\r\n\r\n", false),
        ("GET /metrics/all HTTP/1.1\r\n\r\n", false),
        ("GET /metricsx HTTP/1.1\r\n\r\n", false),
        ("POST /metrics HTTP/1.1\r\n\r\n", false),
    ] {
        let reply =
            answer(request.as_bytes(), &PipelineMetrics::new(), &MetricsConfig::new(), 0).unwrap();
        assert_eq!(reply.starts_with("HTTP/1.1 200 OK"), found, "{request}");
        assert_eq!(reply.starts_with("HTTP/1.1 404 Not Found"), !found, "{request}");
    }
    let short = answer(b"GET /metric", &PipelineMetrics::new(), &MetricsConfig::new(), 0).unwrap();
    assert!(short.starts_with("HTTP/1.1 404"));
}

#[test]
fn metrics_endpoint_exposes_pipeline_counters() {
    let mut m = PipelineMetrics::new();
    m.events_received = 1234;
    m.events_processed = 1200;
    m.outputs_sent = 1180;
    m.outputs_acked = 1175;
    m.events_failed = 7;
    let text = metrics_prometheus(&vec![("demo".to_string(), m)], "", None);

    // Help/type headers + per-pipeline labelled counters
    assert!(text.contains("# TYPE aeon_pipeline_events_received_total counter"));
    assert!(text.contains("aeon_pipeline_events_received_total{pipeline=\"demo\"} 1234"));
    assert!(text.contains("aeon_pipeline_events_processed_total{pipeline=\"demo\"} 1200"));
    assert!(text.contains("aeon_pipeline_outputs_sent_total{pipeline=\"demo\"} 1180"));
    assert!(text.contains("aeon_pipeline_outputs_acked_total{pipeline=\"demo\"} 1175"));
    assert!(text.contains("# TYPE aeon_pipeline_outputs_acked_total counter"));
    assert!(text.contains("aeon_pipeline_events_failed_total{pipeline=\"demo\"} 7"));
}

#[test]
fn cluster_metrics_follow_the_pipelines() {
    let a = PipelineMetrics { poh_entries: 3, ..PipelineMetrics::new() };
    let b = PipelineMetrics { events_retried: 9, checkpoints_written: 2, ..PipelineMetrics::new() };
    let text = metrics_prometheus(
        &vec![("a".to_string(), a), ("b".to_string(), b)],
        "aeon_l2_bytes{pipeline=\"a\"} 7\n",
        Some("aeon_cluster_node_id 42\n"),
    );
    assert!(text.ends_with(
        "# HELP aeon_pipeline_poh_entries_total PoH chain entries appended (per batch)\n\
         # TYPE aeon_pipeline_poh_entries_total counter\n\
         aeon_pipeline_poh_entries_total{pipeline=\"a\"} 3\n\
         aeon_pipeline_poh_entries_total{pipeline=\"b\"} 0\n\
         aeon_l2_bytes{pipeline=\"a\"} 7\n\
         aeon_cluster_node_id 42\n"
    ));
    assert!(text.contains("aeon_pipeline_events_retried_total{pipeline=\"b\"} 9\n"));
    assert!(text.contains("aeon_pipeline_checkpoints_written_total{pipeline=\"b\"} 2\n"));
}
