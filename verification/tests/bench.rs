use aether_radio::acceptance::comparison;
use aether_radio::soak::{accumulate, soak_gates, soak_passed};
use aether_radio::fault_drill::drill_passed;
use aether_radio::text::decimal;
use aether_radio::{
    AcceptanceProfile, AcceptanceReport, BenchProfile, BenchReport, FaultDrillProfile,
    FaultDrillReport, GateResult, HealthState, LatencyStats, PipelineBench, SoakGate,
    SoakProfile, SoakRoundHealth,
};

fn bench_profile() -> BenchProfile {
    BenchProfile {
        version: "1.0.0".to_string(),
        id: "bench".to_string(),
        symbol_count: 8,
        streams: 2,
        latency_budget_ns: 100_000,
        include_ethernet_delay: true,
        include_nic_dma: true,
        include_gpu_kernel: true,
        gpu_backend: "simulation".to_string(),
        report_path: "data/reports/bench.json".to_string(),
        events_path: "data/reports/bench_events.jsonl".to_string(),
        radio_timing_config: "configs/radio_timing.yaml".to_string(),
        transport_deadline_config: "configs/transport_deadline.yaml".to_string(),
        ethernet_config: "configs/ethernet_model.yaml".to_string(),
        nic_config: "configs/nic_dma.yaml".to_string(),
        gpu_ring_config: "configs/gpu_ring.yaml".to_string(),
        fault_config: "configs/fault_injection.yaml".to_string(),
        gpu_cuda_config: None,
    }
}

fn soak_profile() -> SoakProfile {
    SoakProfile {
        version: "1.0.0".to_string(),
        id: "soak".to_string(),
        bench_profile: "configs/bench_profile.yaml".to_string(),
        fault_config: Some("configs/fault_stress.yaml".to_string()),
        symbol_count_override: Some(16),
        streams_override: None,
        report_path: "data/reports/soak.json".to_string(),
        events_path: None,
        max_sequence_gaps: 0,
        max_deadline_miss_ratio_bits: 1.0f64.to_bits(),
        min_packets: 8,
        health_policy: "configs/ops/health_policy.yaml".to_string(),
        rounds: 2,
        require_health_normal: true,
        round_interval_ms: 0,
    }
}

#[test]
fn latency_percentiles() {
    let samples: Vec<u64> = (1..=100).collect();
    let stats = LatencyStats::from_sorted_ns(&samples);
    assert_eq!(stats.min_ns, 1);
    assert_eq!(stats.max_ns, 100);
    assert_eq!(stats.p50_ns, 50);
}

#[test]
fn percentiles_of_empty_and_single() {
    assert_eq!(LatencyStats::from_sorted_ns(&[]), LatencyStats::default());
    let one = LatencyStats::from_sorted_ns(&[9]);
    assert_eq!((one.min_ns, one.p50_ns, one.p99_ns, one.p999_ns, one.max_ns), (9, 9, 9, 9, 9));
}

#[test]
fn percentiles_are_ordered() {
    let samples: Vec<u64> = (0..1000).map(|i| i * 3).collect();
    let s = LatencyStats::from_sorted_ns(&samples);
    assert_eq!(s.p99_ns, 989 * 3);
    assert_eq!(s.p999_ns, 998 * 3);
    assert!(s.min_ns <= s.p50_ns && s.p50_ns <= s.p99_ns && s.p99_ns <= s.p999_ns && s.p999_ns <= s.max_ns);
}

#[test]
fn decimal_text() {
    assert_eq!(decimal(0), "0");
    assert_eq!(decimal(1_234_567), "1234567");
    assert_eq!(decimal(u64::MAX), "18446744073709551615");
    assert_eq!(comparison(7, " >= ", 10), "7 >= 10");
}

#[test]
fn pipeline_bench_keeps_profile_and_base() {
    let b = PipelineBench::new(bench_profile());
    assert_eq!(b.base_dir(), ".");
    let b = b.with_base_dir("/srv/aether".to_string());
    assert_eq!(b.base_dir(), "/srv/aether");
    assert_eq!(b.profile().symbol_count, 8);
}

#[test]
fn acceptance_gates_and_verdict() {
    let profile = AcceptanceProfile {
        version: "1.0.0".to_string(),
        id: "accept".to_string(),
        bench_profile: "configs/bench_profile.yaml".to_string(),
        ethernet_config: "configs/ethernet_model.yaml".to_string(),
        min_model_bandwidth_gbps_bits: 100.0f64.to_bits(),
        max_p99_latency_ns: 50_000,
        max_sequence_gaps: 0,
        max_late_packets: 0,
        max_symbol_miss: 0,
        min_packets: 16,
        report_path: "data/reports/accept.json".to_string(),
        health_policy: "configs/ops/health_policy.yaml".to_string(),
        require_health_normal: true,
    };
    let mut bench = BenchReport::default();
    bench.packets = 16;
    bench.latency.p99_ns = 9_000;
    let bw = GateResult {
        name: "ethernet_model_bandwidth".to_string(),
        passed: true,
        detail: "model 100 Gbps vs min 100".to_string(),
    };
    let ok = AcceptanceReport::assemble(&profile, bw.clone(), bench, HealthState::Normal);
    assert!(ok.passed);
    assert_eq!(ok.gates.len(), 7);
    assert_eq!(ok.gates[1].detail, "16 >= 16");
    assert_eq!(ok.gates[2].detail, "9000 <= 50000");
    assert_eq!(ok.health.as_deref(), Some("NORMAL"));
    let bad = AcceptanceReport::assemble(&profile, bw, bench, HealthState::Warning);
    assert!(!bad.passed);
    assert_eq!(bad.gates[6].name, "health_normal");
    assert_eq!(bad.gates[6].detail, "WARNING");
}

#[test]
fn soak_accumulates_rounds() {
    let mut agg = BenchReport::default();
    let mut r1 = BenchReport::default();
    r1.packets = 10;
    r1.ring_occupancy_peak = 3;
    r1.latency.p50_ns = 5;
    let mut r2 = BenchReport::default();
    r2.packets = u64::MAX;
    r2.ring_occupancy_peak = 2;
    r2.latency.p50_ns = 7;
    accumulate(&mut agg, &r1);
    accumulate(&mut agg, &r2);
    assert_eq!(agg.packets, u64::MAX);
    assert_eq!(agg.ring_occupancy_peak, 3);
    assert_eq!(agg.latency.p50_ns, 7);
}

#[test]
fn soak_gates_and_round_health() {
    let profile = soak_profile();
    let mut agg = BenchReport::default();
    agg.packets = 32;
    let ratio = SoakGate {
        name: "max_deadline_miss_ratio".to_string(),
        passed: true,
        detail: "0.0000 <= 1".to_string(),
    };
    let gates = soak_gates(&profile, &agg, ratio.clone(), &[HealthState::Normal, HealthState::Normal]);
    assert_eq!(gates.len(), 5);
    assert_eq!(gates[3].detail, "2 == 2");
    assert_eq!(gates[4].detail, "[\"NORMAL\", \"NORMAL\"]");
    assert!(soak_passed(&gates));
    let gates = soak_gates(&profile, &agg, ratio, &[HealthState::Normal, HealthState::Warning]);
    assert!(!gates[4].passed);
    assert!(!soak_passed(&gates));
    let rh = SoakRoundHealth::of_round(2, HealthState::Warning, &agg);
    assert_eq!((rh.round, rh.health.as_str(), rh.packets), (2, "WARNING", 32));
}

#[test]
fn soak_round_profile_overrides() {
    let profile = soak_profile();
    assert_eq!(profile.round_count(), 2);
    let b = profile.round_profile(bench_profile(), Some("data/reports/soak_events_r2.jsonl".to_string()));
    assert_eq!(b.symbol_count, 16);
    assert_eq!(b.streams, 2);
    assert_eq!(b.fault_config, "configs/fault_stress.yaml");
    assert_eq!(b.report_path, "data/reports/soak.json");
    assert_eq!(b.events_path, "data/reports/soak_events_r2.jsonl");
}

#[test]
fn fault_drill_verdict() {
    let mut bench = BenchReport::default();
    assert!(!drill_passed(&bench, HealthState::Failed));
    bench.packets = 3;
    assert!(!drill_passed(&bench, HealthState::Normal));
    bench.sequence_gaps = 1;
    assert!(drill_passed(&bench, HealthState::Normal));
    let profile = FaultDrillProfile {
        version: "1.0.0".to_string(),
        id: "drill".to_string(),
        bench_profile: "configs/bench_profile.yaml".to_string(),
        fault_config: "configs/fault_stress.yaml".to_string(),
        recovery_policy: "configs/ops/recovery_policy.yaml".to_string(),
        symbol_count: Some(24),
        streams: None,
        report_path: "data/reports/drill.json".to_string(),
        events_path: None,
    };
    let b = profile.drill_profile(bench_profile());
    assert_eq!((b.symbol_count, b.streams), (24, 2));
    assert_eq!(b.fault_config, "configs/fault_stress.yaml");
    let report = FaultDrillReport::assemble(&profile, "recovery".to_string(), bench, HealthState::Warning);
    assert!(report.passed);
    assert_eq!(report.health, "WARNING");
}
