//! Fault drill: a bench run under stress faults, and whether it showed the
//! faults and the recovery path at work.

use vstd::prelude::*;

use crate::acceptance::spec_health_name;
use crate::bench::{BenchProfile, BenchReport, PipelineBenchError};
use crate::health::HealthState;
use crate::text::owned;

verus! {

#[derive(Debug, Clone, PartialEq)]
pub struct FaultDrillProfile {
    pub version: String,
    pub id: String,
    pub bench_profile: String,
    pub fault_config: String,
    pub recovery_policy: String,
    pub symbol_count: Option<u64>,
    pub streams: Option<u32>,
    pub report_path: String,
    pub events_path: Option<String>,
}

impl FaultDrillProfile {
    /// The drill's bench profile: the drill's fault configuration and
    /// report path, and its symbol count, stream count and event log where
    /// it sets them.
    pub fn drill_profile(&self, bench: BenchProfile) -> (b: BenchProfile)
        ensures
            b.fault_config@ == self.fault_config@,
            b.symbol_count == match self.symbol_count {
                Some(n) => n,
                None => bench.symbol_count,
            },
            b.streams == match self.streams {
                Some(n) => n,
                None => bench.streams,
            },
            b.events_path@ == match self.events_path {
                Some(e) => e@,
                None => bench.events_path@,
            },
            b.report_path@ == self.report_path@,
            b.version == bench.version,
            b.id == bench.id,
            b.latency_budget_ns == bench.latency_budget_ns,
            b.include_ethernet_delay == bench.include_ethernet_delay,
            b.include_nic_dma == bench.include_nic_dma,
            b.include_gpu_kernel == bench.include_gpu_kernel,
            b.gpu_backend == bench.gpu_backend,
            b.radio_timing_config == bench.radio_timing_config,
            b.transport_deadline_config == bench.transport_deadline_config,
            b.ethernet_config == bench.ethernet_config,
            b.nic_config == bench.nic_config,
            b.gpu_ring_config == bench.gpu_ring_config,
            b.gpu_cuda_config == bench.gpu_cuda_config,
    {
        let mut b = bench;
        b.fault_config = self.fault_config.clone();
        if let Some(n) = self.symbol_count {
            b.symbol_count = n;
        }
        if let Some(s) = self.streams {
            b.streams = s;
        }
        if let Some(e) = &self.events_path {
            b.events_path = e.clone();
        }
        b.report_path = self.report_path.clone();
        b
    }
}

/// A drill passes when the datapath delivered packets and the faults
/// showed: recovery actions, sequence gaps, late packets, or health away
/// from NORMAL.
pub open spec fn spec_drill_passed(bench: BenchReport, health: HealthState) -> bool {
    bench.packets > 0 && (bench.recovery_actions > 0 || bench.sequence_gaps > 0 || bench.late_packets > 0
        || health != HealthState::Normal)
}

pub fn drill_passed(bench: &BenchReport, health: HealthState) -> (b: bool)
    ensures
        b == spec_drill_passed(*bench, health),
{
    bench.packets > 0 && (bench.recovery_actions > 0 || bench.sequence_gaps > 0 || bench.late_packets > 0
        || health != HealthState::Normal)
}

#[derive(Debug, Clone)]
pub struct FaultDrillReport {
    pub profile_id: String,
    pub passed: bool,
    pub recovery_policy_id: String,
    pub recovery_actions: u64,
    pub health: String,
    pub bench: BenchReport,
    pub fault_config: String,
}

impl FaultDrillReport {
    /// The report of a drill that ran `bench` under `profile`, with the
    /// recovery policy `recovery_policy_id` and final health `health`.
    pub fn assemble(
        profile: &FaultDrillProfile,
        recovery_policy_id: String,
        bench: BenchReport,
        health: HealthState,
    ) -> (r: Self)
        ensures
            r.profile_id@ == profile.id@,
            r.passed == spec_drill_passed(bench, health),
            r.recovery_policy_id == recovery_policy_id,
            r.recovery_actions == bench.recovery_actions,
            r.health@ == spec_health_name(health),
            r.bench == bench,
            r.fault_config@ == profile.fault_config@,
    {
        FaultDrillReport {
            profile_id: profile.id.clone(),
            passed: drill_passed(&bench, health),
            recovery_policy_id,
            recovery_actions: bench.recovery_actions,
            health: owned(health.as_str()),
            bench,
            fault_config: profile.fault_config.clone(),
        }
    }
}

#[derive(Debug)]
pub enum FaultDrillError {
    Config(String),
    Bench(PipelineBenchError),
    Io(String),
}

/// Runs a fault drill profile from a base directory.
#[derive(Debug)]
pub struct FaultDrillRunner {
    profile: FaultDrillProfile,
    base_dir: String,
}

impl FaultDrillRunner {
    pub closed spec fn profile_spec(&self) -> FaultDrillProfile {
        self.profile
    }

    pub closed spec fn base_dir_spec(&self) -> Seq<char> {
        self.base_dir@
    }

    pub fn new(profile: FaultDrillProfile) -> (r: Self)
        ensures
            r.profile_spec() == profile,
            r.base_dir_spec() == "."@,
    {
        FaultDrillRunner { profile, base_dir: owned(".") }
    }

    pub fn with_base_dir(self, base: String) -> (r: Self)
        ensures
            r.profile_spec() == self.profile_spec(),
            r.base_dir_spec() == base@,
    {
        FaultDrillRunner { profile: self.profile, base_dir: base }
    }

    pub fn profile(&self) -> (p: &FaultDrillProfile)
        ensures
            *p == self.profile_spec(),
    {
        &self.profile
    }

    pub fn base_dir(&self) -> (d: &str)
        ensures
            d@ == self.base_dir_spec(),
    {
        self.base_dir.as_str()
    }
}

} // verus!
