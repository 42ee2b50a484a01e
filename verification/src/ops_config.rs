//! Observability plane configuration: metrics export, logging, tracing and
//! the paths of the health, recovery and scrape policies.

use vstd::prelude::*;

use crate::text::owned;

verus! {

#[derive(Debug, Clone, PartialEq)]
pub struct ObservabilityConfig {
    pub version: String,
    pub id: String,
    pub metrics: MetricsExportConfig,
    pub logging: LoggingConfig,
    pub trace: TraceConfig,
    pub health: HealthRefConfig,
    pub recovery: RecoveryRefConfig,
    pub prometheus_scrape: PrometheusScrapeRefConfig,
}

#[derive(Debug, Clone, Copy, PartialEq, Eq, Structural)]
pub struct MetricsExportConfig {
    pub enabled: bool,
    pub export_json: bool,
    pub export_prometheus_text: bool,
    pub snapshot_interval_ms: u64,
}

impl Default for MetricsExportConfig {
    fn default() -> (c: Self)
        ensures
            c.enabled,
            c.export_json,
            !c.export_prometheus_text,
            c.snapshot_interval_ms == 1000,
    {
        MetricsExportConfig {
            enabled: true,
            export_json: true,
            export_prometheus_text: false,
            snapshot_interval_ms: 1000,
        }
    }
}

#[derive(Debug, Clone, PartialEq)]
pub struct LoggingConfig {
    pub default_level: String,
    pub structured_jsonl: bool,
    pub events_path: String,
    pub elevate_on_degraded: bool,
    pub elevated_level: String,
}

impl Default for LoggingConfig {
    fn default() -> (c: Self)
        ensures
            c.default_level@ == "INFO"@,
            c.structured_jsonl,
            c.events_path@ == "data/reports/ops_events.jsonl"@,
            c.elevate_on_degraded,
            c.elevated_level@ == "DEBUG"@,
    {
        LoggingConfig {
            default_level: owned("INFO"),
            structured_jsonl: true,
            events_path: owned("data/reports/ops_events.jsonl"),
            elevate_on_degraded: true,
            elevated_level: owned("DEBUG"),
        }
    }
}

#[derive(Debug, Clone, PartialEq)]
pub struct TraceConfig {
    pub enabled: bool,
    pub ring_capacity: usize,
    pub export_path: String,
}

impl Default for TraceConfig {
    fn default() -> (c: Self)
        ensures
            !c.enabled,
            c.ring_capacity == 4096,
            c.export_path@ == "data/reports/traces/packet_traces.jsonl"@,
    {
        TraceConfig {
            enabled: false,
            ring_capacity: 4096,
            export_path: owned("data/reports/traces/packet_traces.jsonl"),
        }
    }
}

#[derive(Debug, Clone, PartialEq)]
pub struct HealthRefConfig {
    pub policy_path: String,
}

impl Default for HealthRefConfig {
    fn default() -> (c: Self)
        ensures
            c.policy_path@ == "configs/ops/health_policy.yaml"@,
    {
        HealthRefConfig { policy_path: owned("configs/ops/health_policy.yaml") }
    }
}

#[derive(Debug, Clone, PartialEq)]
pub struct RecoveryRefConfig {
    pub policy_path: String,
}

impl Default for RecoveryRefConfig {
    fn default() -> (c: Self)
        ensures
            c.policy_path@ == "configs/ops/recovery_policy.yaml"@,
    {
        RecoveryRefConfig { policy_path: owned("configs/ops/recovery_policy.yaml") }
    }
}

#[derive(Debug, Clone, PartialEq)]
pub struct PrometheusScrapeRefConfig {
    pub config_path: String,
}

impl Default for PrometheusScrapeRefConfig {
    fn default() -> (c: Self)
        ensures
            c.config_path@ == "configs/ops/prometheus_scrape.yaml"@,
    {
        PrometheusScrapeRefConfig { config_path: owned("configs/ops/prometheus_scrape.yaml") }
    }
}

#[derive(Debug, PartialEq, Eq)]
pub enum OpsConfigError {
    Config(String),
}

} // verus!
