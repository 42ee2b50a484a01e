//! Acceptance gates over a pipeline bench report.

use vstd::prelude::*;
use vstd::string::StringExecFns;

use crate::bench::{BenchReport, PipelineBenchError};
use crate::health::HealthState;
use crate::text::{decimal, owned, spec_decimal};

verus! {

/// `value op bound` written out, as a gate's detail.
pub open spec fn spec_comparison(value: u64, op: Seq<char>, bound: u64) -> Seq<char> {
    spec_decimal(value as nat) + op + spec_decimal(bound as nat)
}

/// Writes `value op bound`.
pub fn comparison(value: u64, op: &str, bound: u64) -> (s: String)
    ensures
        s@ == spec_comparison(value, op@, bound),
{
    let mut s = decimal(value);
    s.append(op);
    s.append(decimal(bound).as_str());
    s
}

/// The name of a health state, as `HealthState::as_str` gives it.
pub open spec fn spec_health_name(h: HealthState) -> Seq<char> {
    match h {
        HealthState::Normal => "NORMAL"@,
        HealthState::Warning => "WARNING"@,
        HealthState::Degraded => "DEGRADED"@,
        HealthState::Failed => "FAILED"@,
        HealthState::Recovery => "RECOVERY"@,
    }
}

#[derive(Debug, Clone)]
pub struct GateResult {
    pub name: String,
    pub passed: bool,
    pub detail: String,
}

/// A gate as plain text and a verdict.
pub struct GateView {
    pub name: Seq<char>,
    pub passed: bool,
    pub detail: Seq<char>,
}

impl View for GateResult {
    type V = GateView;

    open spec fn view(&self) -> GateView {
        GateView { name: self.name@, passed: self.passed, detail: self.detail@ }
    }
}

/// Gate: `value` is at least `min`.
pub open spec fn spec_gate_at_least(name: Seq<char>, value: u64, min: u64) -> GateView {
    GateView { name, passed: value >= min, detail: spec_comparison(value, " >= "@, min) }
}

/// Gate: `value` is at most `max`.
pub open spec fn spec_gate_at_most(name: Seq<char>, value: u64, max: u64) -> GateView {
    GateView { name, passed: value <= max, detail: spec_comparison(value, " <= "@, max) }
}

impl GateResult {
    pub fn at_least(name: &str, value: u64, min: u64) -> (g: Self)
        ensures
            g@ == spec_gate_at_least(name@, value, min),
    {
        GateResult { name: owned(name), passed: value >= min, detail: comparison(value, " >= ", min) }
    }

    pub fn at_most(name: &str, value: u64, max: u64) -> (g: Self)
        ensures
            g@ == spec_gate_at_most(name@, value, max),
    {
        GateResult { name: owned(name), passed: value <= max, detail: comparison(value, " <= ", max) }
    }
}

/// Whether every gate passed.
pub open spec fn spec_all_passed(gates: Seq<GateView>) -> bool {
    forall|i: int| 0 <= i < gates.len() ==> (#[trigger] gates[i]).passed
}

/// Whether every gate in `gates` passed.
pub fn all_passed(gates: &[GateResult]) -> (b: bool)
    ensures
        b == spec_all_passed(gates@.map_values(|g: GateResult| g@)),
{
    let mut i: usize = 0;
    let ghost views = gates@.map_values(|g: GateResult| g@);
    while i < gates.len()
        invariant
            0 <= i <= gates@.len(),
            views == gates@.map_values(|g: GateResult| g@),
            forall|k: int| 0 <= k < i ==> (#[trigger] views[k]).passed,
        decreases gates@.len() - i,
    {
        assert(views[i as int] == gates@[i as int]@);
        if !gates[i].passed {
            return false;
        }
        i = i + 1;
    }
    true
}

/// Thresholds an acceptance run holds the bench to. The bandwidth floor is
/// held as the bit pattern of an `f64`; its gate is evaluated by the caller.
#[derive(Debug, Clone, PartialEq)]
pub struct AcceptanceProfile {
    pub version: String,
    pub id: String,
    pub bench_profile: String,
    pub ethernet_config: String,
    pub min_model_bandwidth_gbps_bits: u64,
    pub max_p99_latency_ns: u64,
    pub max_sequence_gaps: u64,
    pub max_late_packets: u64,
    pub max_symbol_miss: u64,
    pub min_packets: u64,
    pub report_path: String,
    pub health_policy: String,
    /// When true, the health manager must end in NORMAL after the bench.
    pub require_health_normal: bool,
}

/// The gates on the bench report, in order: packets, p99 latency, sequence
/// gaps, late packets, symbol misses.
pub open spec fn spec_bench_gates(p: AcceptanceProfile, b: BenchReport) -> Seq<GateView> {
    seq![
        spec_gate_at_least("min_packets"@, b.packets, p.min_packets),
        spec_gate_at_most("max_p99_latency_ns"@, b.latency.p99_ns, p.max_p99_latency_ns),
        spec_gate_at_most("max_sequence_gaps"@, b.sequence_gaps, p.max_sequence_gaps),
        spec_gate_at_most("max_late_packets"@, b.late_packets, p.max_late_packets),
        spec_gate_at_most("max_symbol_miss"@, b.radio.symbol_miss, p.max_symbol_miss),
    ]
}

/// The health gate: the state must be NORMAL.
pub open spec fn spec_health_gate(h: HealthState) -> GateView {
    GateView { name: "health_normal"@, passed: h == HealthState::Normal, detail: spec_health_name(h) }
}

/// All gates of an acceptance run: the bandwidth gate the caller evaluated,
/// the bench gates, and the health gate when the profile asks for it.
pub open spec fn spec_acceptance_gates(
    p: AcceptanceProfile,
    bandwidth: GateView,
    b: BenchReport,
    h: HealthState,
) -> Seq<GateView> {
    let gates = seq![bandwidth] + spec_bench_gates(p, b);
    if p.require_health_normal {
        gates.push(spec_health_gate(h))
    } else {
        gates
    }
}

#[derive(Debug, Clone)]
pub struct AcceptanceReport {
    pub profile_id: String,
    pub passed: bool,
    pub gates: Vec<GateResult>,
    pub bench: BenchReport,
    pub health: Option<String>,
}

#[derive(Debug)]
pub enum AcceptanceError {
    Config(String),
    Bench(PipelineBenchError),
    Io(String),
    Failed(Box<AcceptanceReport>),
}

impl AcceptanceReport {
    /// The report of an acceptance run: every gate, whether all passed, the
    /// bench report and the final health state.
    pub fn assemble(profile: &AcceptanceProfile, bandwidth: GateResult, bench: BenchReport, health: HealthState) -> (r: Self)
        ensures
            r.profile_id@ == profile.id@,
            r.gates@.map_values(|g: GateResult| g@) == spec_acceptance_gates(*profile, bandwidth@, bench, health),
            r.passed == spec_all_passed(spec_acceptance_gates(*profile, bandwidth@, bench, health)),
            r.bench == bench,
            r.health is Some && r.health.unwrap()@ == spec_health_name(health),
    {
        let mut gates: Vec<GateResult> = Vec::new();
        gates.push(bandwidth);
        gates.push(GateResult::at_least("min_packets", bench.packets, profile.min_packets));
        gates.push(GateResult::at_most("max_p99_latency_ns", bench.latency.p99_ns, profile.max_p99_latency_ns));
        gates.push(GateResult::at_most("max_sequence_gaps", bench.sequence_gaps, profile.max_sequence_gaps));
        gates.push(GateResult::at_most("max_late_packets", bench.late_packets, profile.max_late_packets));
        gates.push(GateResult::at_most("max_symbol_miss", bench.radio.symbol_miss, profile.max_symbol_miss));
        if profile.require_health_normal {
            gates.push(
                GateResult {
                    name: owned("health_normal"),
                    passed: health == HealthState::Normal,
                    detail: owned(health.as_str()),
                },
            );
        }
        proof {
            assert(gates@.map_values(|g: GateResult| g@) =~= spec_acceptance_gates(*profile, bandwidth@, bench, health));
        }
        let passed = all_passed(gates.as_slice());
        AcceptanceReport {
            profile_id: profile.id.clone(),
            passed,
            gates,
            bench,
            health: Some(owned(health.as_str())),
        }
    }
}

/// Runs the acceptance gates for a profile from a base directory.
#[derive(Debug)]
pub struct AcceptanceRunner {
    profile: AcceptanceProfile,
    base_dir: String,
}

impl AcceptanceRunner {
    pub closed spec fn profile_spec(&self) -> AcceptanceProfile {
        self.profile
    }

    pub closed spec fn base_dir_spec(&self) -> Seq<char> {
        self.base_dir@
    }

    pub fn new(profile: AcceptanceProfile) -> (r: Self)
        ensures
            r.profile_spec() == profile,
            r.base_dir_spec() == "."@,
    {
        AcceptanceRunner { profile, base_dir: owned(".") }
    }

    pub fn with_base_dir(self, base: String) -> (r: Self)
        ensures
            r.profile_spec() == self.profile_spec(),
            r.base_dir_spec() == base@,
    {
        AcceptanceRunner { profile: self.profile, base_dir: base }
    }

    pub fn profile(&self) -> (p: &AcceptanceProfile)
        ensures
            *p == self.profile_spec(),
    {
        &self.profile
    }

    pub fn base_dir(&self) -> (d: &str)
        ensures
            d@ == self.base_dir_spec(),
    {
        self.base_dir.as_str()
    }
}

/// The verdict of an acceptance run: the report passes exactly when the
/// bandwidth gate passed, the bench delivered at least `min_packets`, its p99
/// latency, sequence gaps, late packets and symbol misses are each within
/// their limits, and, when the profile asks for it, health ended NORMAL.
/// Each bench gate compares its own figure: the late-packet gate, fifth in
/// order, passes exactly when `late_packets <= max_late_packets` and writes
/// those two numbers in its detail.
pub proof fn law_acceptance_verdict(p: AcceptanceProfile, bandwidth: GateView, b: BenchReport, h: HealthState)
    ensures
        spec_all_passed(spec_acceptance_gates(p, bandwidth, b, h)) <==> {
            &&& bandwidth.passed
            &&& b.packets >= p.min_packets
            &&& b.latency.p99_ns <= p.max_p99_latency_ns
            &&& b.sequence_gaps <= p.max_sequence_gaps
            &&& b.late_packets <= p.max_late_packets
            &&& b.radio.symbol_miss <= p.max_symbol_miss
            &&& p.require_health_normal ==> h == HealthState::Normal
        },
        spec_acceptance_gates(p, bandwidth, b, h)[4].name == "max_late_packets"@,
        spec_acceptance_gates(p, bandwidth, b, h)[4].passed == (b.late_packets <= p.max_late_packets),
        spec_acceptance_gates(p, bandwidth, b, h)[4].detail == spec_decimal(b.late_packets as nat) + " <= "@
            + spec_decimal(p.max_late_packets as nat),
        spec_acceptance_gates(p, bandwidth, b, h)[3].passed == (b.sequence_gaps <= p.max_sequence_gaps),
        spec_acceptance_gates(p, bandwidth, b, h)[2].passed == (b.latency.p99_ns <= p.max_p99_latency_ns),
        spec_acceptance_gates(p, bandwidth, b, h)[1].passed == (b.packets >= p.min_packets),
        spec_acceptance_gates(p, bandwidth, b, h)[5].passed == (b.radio.symbol_miss <= p.max_symbol_miss),
{
    let g = spec_acceptance_gates(p, bandwidth, b, h);
    let base = seq![bandwidth] + spec_bench_gates(p, b);
    assert(base[0] == bandwidth);
    assert(base[1] == spec_bench_gates(p, b)[0]);
    assert(base[2] == spec_bench_gates(p, b)[1]);
    assert(base[3] == spec_bench_gates(p, b)[2]);
    assert(base[4] == spec_bench_gates(p, b)[3]);
    assert(base[5] == spec_bench_gates(p, b)[4]);
    assert(base.len() == 6);
    if p.require_health_normal {
        assert(g[6] == spec_health_gate(h));
    }
    if spec_all_passed(g) {
        assert(g[0].passed && g[1].passed && g[2].passed && g[3].passed && g[4].passed && g[5].passed);
        if p.require_health_normal {
            assert(g[6].passed);
        }
    }
}

} // verus!
