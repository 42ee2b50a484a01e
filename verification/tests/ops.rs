use aether_radio::prometheus::{is_metrics_request, response_head};
use aether_radio::text::{contains, starts_with};
use aether_radio::{
    render_prometheus_text, sanitize_label, HealthManager, HealthState, HealthThresholds,
    LayeredMetricsSnapshot, LoggingConfig, LossSignal, MetricsBackend, MetricsEngine,
    MetricsExportConfig, RecoveryAction, RecoveryExecutor, RecoveryPolicy, TraceConfig,
    TraceEngine, TraceStage,
};

const NO_LOSS: LossSignal = LossSignal {
    above_limit: false,
    above_tenfold: false,
};

#[test]
fn ring_records_stages() {
    let mut eng = TraceEngine::new(8);
    let id = eng.start(1, 10, TraceStage::FpgaTx, 1000);
    eng.stamp(id, TraceStage::Cx5Rx, 1500);
    eng.stamp(id, TraceStage::CudaDone, 3500);
    let t = eng.latest().unwrap();
    assert_eq!(t.stages.len(), 3);
    assert_eq!(t.sequence, 10);
}

#[test]
fn trace_ring_forgets_oldest_when_full() {
    let mut eng = TraceEngine::new(2);
    let a = eng.start(1, 0, TraceStage::FpgaTx, 0);
    let _b = eng.start(1, 1, TraceStage::FpgaTx, 1);
    let c = eng.start(1, 2, TraceStage::FpgaTx, 2);
    assert_eq!((a, c), (1, 3));
    assert_eq!(eng.len(), 2);
    assert_eq!(eng.dropped(), 1);
    eng.stamp(a, TraceStage::Cx5Rx, 5);
    assert_eq!(eng.traces()[0].stages.len(), 1);
    assert_eq!(eng.latest().unwrap().trace_id, 3);
}

#[test]
fn disabled_trace_records_nothing() {
    let mut eng = TraceEngine::disabled();
    assert_eq!(eng.start(1, 0, TraceStage::FpgaTx, 0), 0);
    assert!(eng.is_empty());
    assert!(!eng.enabled());
    let cfg = TraceEngine::from_config(false, 4, "x.jsonl".to_string());
    assert!(cfg.export_target().is_none());
    let on = TraceEngine::from_config(true, 0, "x.jsonl".to_string());
    assert_eq!(on.export_target().map(|s| s.as_str()), Some("x.jsonl"));
}

#[test]
fn healthy_stays_normal() {
    let mut h = HealthManager::new(HealthThresholds::default());
    let snap = LayeredMetricsSnapshot::default();
    assert!(h.evaluate(&snap, NO_LOSS).is_none());
    assert_eq!(h.state(), HealthState::Normal);
}

#[test]
fn gap_triggers_warning_or_failed() {
    let mut h = HealthManager::new(HealthThresholds::default());
    let mut snap = LayeredMetricsSnapshot::default();
    snap.transport.rx_packets = 100;
    snap.transport.gap_count = 1;
    let _ = h.evaluate(&snap, NO_LOSS);
    assert!(matches!(
        h.state(),
        HealthState::Warning | HealthState::Failed | HealthState::Degraded
    ));
}

#[test]
fn failed_then_clean_goes_to_recovery() {
    let mut h = HealthManager::new(HealthThresholds::default());
    let mut snap = LayeredMetricsSnapshot::default();
    snap.transport.gap_count = 1;
    assert_eq!(h.evaluate(&snap, NO_LOSS), Some(HealthState::Normal));
    assert_eq!(h.state(), HealthState::Failed);
    let clean = LayeredMetricsSnapshot::default();
    assert_eq!(h.evaluate(&clean, NO_LOSS), Some(HealthState::Failed));
    assert_eq!(h.state(), HealthState::Recovery);
    assert_eq!(h.transitions, 2);
}

#[test]
fn latency_over_budget_warns_then_degrades() {
    let mut h = HealthManager::new(HealthThresholds::default());
    let mut snap = LayeredMetricsSnapshot::default();
    snap.transport.latency_max_ns = 60_000;
    h.evaluate(&snap, NO_LOSS);
    assert_eq!(h.state(), HealthState::Warning);
    snap.transport.latency_max_ns = 200_000;
    h.evaluate(&snap, NO_LOSS);
    assert_eq!(h.state(), HealthState::Degraded);
}

#[test]
fn heavy_loss_fails() {
    let mut h = HealthManager::new(HealthThresholds::default());
    let snap = LayeredMetricsSnapshot::default();
    h.evaluate(
        &snap,
        LossSignal {
            above_limit: true,
            above_tenfold: true,
        },
    );
    assert_eq!(h.state(), HealthState::Failed);
}

#[test]
fn renders_counters() {
    let mut snap = LayeredMetricsSnapshot::default();
    snap.physical.link_up = true;
    snap.transport.rx_packets = 7;
    let text = render_prometheus_text(&snap, Some(HealthState::Normal), "aether-sim", "0");
    assert!(text.contains("aether_transport_rx_packets"));
    assert!(text.contains("} 7"));
    assert!(text.contains("aether_health_state"));
}

#[test]
fn prometheus_block_layout() {
    let mut snap = LayeredMetricsSnapshot::default();
    snap.physical.link_up = true;
    let text = render_prometheus_text(&snap, None, "a b", "100");
    assert!(text.starts_with(
        "# HELP aether_link_up Physical link up (1) or down (0)\n# TYPE aether_link_up gauge\naether_link_up{job=\"a_b\"} 1\n"
    ));
    assert!(text.contains("aether_link_speed_gbps{job=\"a_b\"} 100\n"));
    assert!(!text.contains("aether_health_state"));
    let h = render_prometheus_text(&snap, Some(HealthState::Recovery), "j", "0");
    assert!(h.ends_with("aether_health_state{job=\"j\"} 4\n"));
}

#[test]
fn label_sanitizing() {
    assert_eq!(sanitize_label("aether-sim_1"), "aether-sim_1");
    assert_eq!(sanitize_label("a.b/c é"), "a_b_c__");
}

#[test]
fn metrics_counters_and_latency() {
    let mut m = MetricsEngine::new();
    m.record_rx();
    m.record_tx();
    m.record_drop();
    let s = m.snapshot();
    assert_eq!(s.link.rx_packets, 1);
    assert_eq!(s.link.drop, 1);
    m.record_latency_sample(1000);
    m.record_latency_sample(3000);
    let layered = m.layered_snapshot();
    assert_eq!(layered.transport.latency_min_ns, 1000);
    assert_eq!(layered.transport.latency_max_ns, 3000);
    assert_eq!(layered.transport.latency_samples, 2);
    assert_eq!(layered.transport.jitter_ns, 2000);
    assert_eq!(layered.transport.latency_avg_ns(), 2000);
}

#[test]
fn metrics_buffer_full_saturates() {
    let mut m = MetricsEngine::new();
    m.record_buffer_full();
    m.set_memory_buffers(3, 4);
    let l = m.layered_snapshot();
    assert_eq!((l.memory.buffer_full, l.memory.overflow), (1, 1));
    assert_eq!((l.memory.host_buffer_used, l.memory.gpu_buffer_used), (3, 4));
}

#[test]
fn ops_config_defaults() {
    let m = MetricsExportConfig::default();
    assert!(m.enabled && m.export_json && !m.export_prometheus_text);
    assert_eq!(m.snapshot_interval_ms, 1000);
    assert_eq!(LoggingConfig::default().events_path, "data/reports/ops_events.jsonl");
    assert_eq!(TraceConfig::default().ring_capacity, 4096);
}

#[test]
fn recovery_actions_parse_and_name() {
    assert_eq!(RecoveryAction::parse(" Recover_Sequence "), RecoveryAction::RecoverSequence);
    assert_eq!(RecoveryAction::parse("reboot"), RecoveryAction::Unknown);
    assert_eq!(RecoveryAction::RecordAndDrop.as_str(), "record_and_drop");
    assert_eq!(
        RecoveryAction::parse(RecoveryAction::DropOldestResyncSlot.as_str()),
        RecoveryAction::DropOldestResyncSlot
    );
}

#[test]
fn recovery_policy_lookup_and_apply() {
    let policy = RecoveryPolicy::from_entries(
        "recovery-policy".to_string(),
        vec![
            ("sequence_gap".to_string(), "recover_sequence".to_string()),
            ("late_packet".to_string(), "record_and_drop".to_string()),
            ("late_packet".to_string(), "alert_and_continue".to_string()),
        ],
    );
    assert_eq!(policy.action_for("sequence_gap"), RecoveryAction::RecoverSequence);
    assert_eq!(policy.action_for("late_packet"), RecoveryAction::AlertAndContinue);
    assert_eq!(policy.action_for("link_down"), RecoveryAction::Unknown);
    let mut ex = RecoveryExecutor::new(policy);
    assert_eq!(ex.policy_id(), "recovery-policy");
    assert_eq!(ex.apply("sequence_gap"), RecoveryAction::RecoverSequence);
    assert_eq!(ex.applied.len(), 1);
    assert_eq!(ex.applied[0].0, "sequence_gap");
}

#[test]
fn health_state_names() {
    assert_eq!(HealthState::Degraded.as_str(), "DEGRADED");
    assert_eq!(HealthState::Normal.as_str(), "NORMAL");
}

#[test]
fn scrape_request_matching() {
    assert!(is_metrics_request("GET /metrics HTTP/1.1\r\nHost: x\r\n", "/metrics"));
    assert!(is_metrics_request("GET /metrics?x=1 HTTP/1.1", "/metrics"));
    assert!(!is_metrics_request("POST /metrics HTTP/1.1", "/metrics"));
    assert!(!is_metrics_request("GET /metricsz HTTP/1.1", "/metrics"));
    assert!(!is_metrics_request("GET", "/metrics"));
}

#[test]
fn scrape_response_heads() {
    assert_eq!(
        response_head(true, 12),
        "HTTP/1.1 200 OK\r\nContent-Type: text/plain; version=0.0.4\r\nContent-Length: 12\r\nConnection: close\r\n\r\n"
    );
    assert_eq!(
        response_head(false, 17),
        "HTTP/1.1 404 Not Found\r\nContent-Length: 17\r\nConnection: close\r\n\r\n"
    );
}

#[test]
fn text_search() {
    assert!(contains("abcabd", "abd"));
    assert!(!contains("abcab", "abd"));
    assert!(contains("abc", ""));
    assert!(starts_with("GET /", "GET "));
    assert!(!starts_with("GE", "GET "));
}

#[test]
fn trace_ring_keeps_newest_and_counts_dropped() {
    let mut eng = TraceEngine::new(2);
    for k in 0..5u64 {
        let id = eng.start(1, k, TraceStage::FpgaTx, k * 10);
        assert_eq!(id, k + 1);
        eng.stamp(id, TraceStage::Cx5Rx, k * 10 + 5);
    }
    assert_eq!(eng.len(), 2);
    assert_eq!(eng.dropped(), 3);
    let t = eng.latest().unwrap();
    assert_eq!(t.trace_id, 5);
    assert_eq!(t.stages.len(), 2);

    let mut off = TraceEngine::disabled();
    for k in 0..4u64 {
        assert_eq!(off.start(1, k, TraceStage::FpgaTx, 0), 0);
    }
    assert_eq!(off.len(), 0);
    assert_eq!(off.dropped(), 0);
}
