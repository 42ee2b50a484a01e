//! Soak / stress runs: several bench rounds, their aggregate, and the gates
//! the aggregate must pass.

use vstd::prelude::*;
use vstd::string::StringExecFns;

use crate::acceptance::{comparison, spec_comparison, spec_health_name};
use crate::bench::{zero_report, BenchProfile, BenchReport, PipelineBenchError, RadioDeadlineStats};
use crate::gpu_ring::sat_add;
use crate::health::HealthState;
use crate::text::{decimal, owned};

verus! {

/// A soak run's profile. The deadline-miss ratio ceiling is held as the bit
/// pattern of an `f64`; its gate is evaluated by the caller.
#[derive(Debug, Clone, PartialEq)]
pub struct SoakProfile {
    pub version: String,
    pub id: String,
    pub bench_profile: String,
    pub fault_config: Option<String>,
    pub symbol_count_override: Option<u64>,
    pub streams_override: Option<u32>,
    pub report_path: String,
    pub events_path: Option<String>,
    pub max_sequence_gaps: u64,
    pub max_deadline_miss_ratio_bits: u64,
    pub min_packets: u64,
    pub health_policy: String,
    /// Number of bench rounds; health is evaluated after each.
    pub rounds: u32,
    /// When true, every round must end in NORMAL health.
    pub require_health_normal: bool,
    /// Wall-clock pause between rounds (ms); 0 = none.
    pub round_interval_ms: u64,
}

/// Number of rounds a profile runs: at least one.
pub open spec fn spec_round_count(p: SoakProfile) -> u32 {
    if p.rounds >= 1 { p.rounds } else { 1 }
}

impl SoakProfile {
    pub fn round_count(&self) -> (n: u32)
        ensures
            n == spec_round_count(*self),
    {
        if self.rounds >= 1 {
            self.rounds
        } else {
            1
        }
    }

    /// The bench profile of one soak round: the profile's overrides
    /// applied, `events_path` (when given) as the round's event log, and the
    /// soak report path.
    pub fn round_profile(&self, bench: BenchProfile, events_path: Option<String>) -> (b: BenchProfile)
        ensures
            b.symbol_count == match self.symbol_count_override {
                Some(n) => n,
                None => bench.symbol_count,
            },
            b.streams == match self.streams_override {
                Some(n) => n,
                None => bench.streams,
            },
            b.events_path == match events_path {
                Some(e) => e,
                None => bench.events_path,
            },
            b.fault_config@ == match self.fault_config {
                Some(f) => f@,
                None => bench.fault_config@,
            },
            b.report_path@ == self.report_path@,
            b.version == bench.version,
            b.id == bench.id,
            b.latency_budget_ns == bench.latency_budget_ns,
            b.include_ethernet_delay == bench.include_ethernet_delay,
            b.include_nic_dma == bench.include_nic_dma,
            b.include_gpu_kernel == bench.include_gpu_kernel,
            b.gpu_backend == bench.gpu_backend,
            b.radio_timing_config == bench.radio_timing_config,
            b.transport_deadline_config == bench.transport_deadline_config,
            b.ethernet_config == bench.ethernet_config,
            b.nic_config == bench.nic_config,
            b.gpu_ring_config == bench.gpu_ring_config,
            b.gpu_cuda_config == bench.gpu_cuda_config,
    {
        let mut b = bench;
        if let Some(n) = self.symbol_count_override {
            b.symbol_count = n;
        }
        if let Some(s) = self.streams_override {
            b.streams = s;
        }
        if let Some(e) = events_path {
            b.events_path = e;
        }
        if let Some(f) = &self.fault_config {
            b.fault_config = f.clone();
        }
        b.report_path = self.report_path.clone();
        b
    }
}

#[derive(Debug, Clone)]
pub struct SoakGate {
    pub name: String,
    pub passed: bool,
    pub detail: String,
}

#[derive(Debug, Clone)]
pub struct SoakRoundHealth {
    pub round: u32,
    pub health: String,
    pub packets: u64,
    pub sequence_gaps: u64,
    pub recovery_actions: u64,
}

impl SoakRoundHealth {
    /// The record of round `round`, which ended in `health` with `bench`.
    pub fn of_round(round: u32, health: HealthState, bench: &BenchReport) -> (r: Self)
        ensures
            r.round == round,
            r.health@ == spec_health_name(health),
            r.packets == bench.packets,
            r.sequence_gaps == bench.sequence_gaps,
            r.recovery_actions == bench.recovery_actions,
    {
        SoakRoundHealth {
            round,
            health: owned(health.as_str()),
            packets: bench.packets,
            sequence_gaps: bench.sequence_gaps,
            recovery_actions: bench.recovery_actions,
        }
    }
}

/// The aggregate after one more round: counts add up (saturating), the
/// ring peak is the larger one, and latency and throughput are the round's.
pub open spec fn spec_accumulate(a: BenchReport, b: BenchReport) -> BenchReport {
    BenchReport {
        packets: sat_add(a.packets, b.packets),
        bytes: sat_add(a.bytes, b.bytes),
        sequence_gaps: sat_add(a.sequence_gaps, b.sequence_gaps),
        late_packets: sat_add(a.late_packets, b.late_packets),
        recovery_actions: sat_add(a.recovery_actions, b.recovery_actions),
        radio: RadioDeadlineStats {
            symbol_miss: sat_add(a.radio.symbol_miss, b.radio.symbol_miss),
            slot_miss: sat_add(a.radio.slot_miss, b.radio.slot_miss),
        },
        sim_duration_ns: sat_add(a.sim_duration_ns, b.sim_duration_ns),
        ring_occupancy_peak: if a.ring_occupancy_peak >= b.ring_occupancy_peak {
            a.ring_occupancy_peak
        } else {
            b.ring_occupancy_peak
        },
        latency: b.latency,
        throughput: b.throughput,
    }
}

/// Adds one round's report into the aggregate.
pub fn accumulate(aggregate: &mut BenchReport, bench: &BenchReport)
    ensures
        *final(aggregate) == spec_accumulate(*old(aggregate), *bench),
{
    aggregate.packets = aggregate.packets.saturating_add(bench.packets);
    aggregate.bytes = aggregate.bytes.saturating_add(bench.bytes);
    aggregate.sequence_gaps = aggregate.sequence_gaps.saturating_add(bench.sequence_gaps);
    aggregate.late_packets = aggregate.late_packets.saturating_add(bench.late_packets);
    aggregate.recovery_actions = aggregate.recovery_actions.saturating_add(bench.recovery_actions);
    aggregate.radio.symbol_miss = aggregate.radio.symbol_miss.saturating_add(bench.radio.symbol_miss);
    aggregate.radio.slot_miss = aggregate.radio.slot_miss.saturating_add(bench.radio.slot_miss);
    aggregate.sim_duration_ns = aggregate.sim_duration_ns.saturating_add(bench.sim_duration_ns);
    if bench.ring_occupancy_peak > aggregate.ring_occupancy_peak {
        aggregate.ring_occupancy_peak = bench.ring_occupancy_peak;
    }
    aggregate.latency = bench.latency;
    aggregate.throughput = bench.throughput;
}

/// A soak gate as plain text and a verdict.
pub struct SoakGateView {
    pub name: Seq<char>,
    pub passed: bool,
    pub detail: Seq<char>,
}

impl View for SoakGate {
    type V = SoakGateView;

    open spec fn view(&self) -> SoakGateView {
        SoakGateView { name: self.name@, passed: self.passed, detail: self.detail@ }
    }
}

/// `"NAME"` for each state, comma-separated, in brackets.
pub open spec fn spec_health_list(hs: Seq<HealthState>) -> Seq<char>
    decreases hs.len(),
{
    if hs.len() == 0 {
        Seq::empty()
    } else if hs.len() == 1 {
        "\""@ + spec_health_name(hs[0]) + "\""@
    } else {
        spec_health_list(hs.drop_last()) + ", \""@ + spec_health_name(hs.last()) + "\""@
    }
}

/// The gates of a soak run, in order: packets, sequence gaps, the
/// deadline-miss ratio gate the caller evaluated, completed rounds, and,
/// when the profile asks for it, NORMAL health after every round.
pub open spec fn spec_soak_gates(
    p: SoakProfile,
    aggregate: BenchReport,
    miss_ratio: SoakGateView,
    round_states: Seq<HealthState>,
) -> Seq<SoakGateView> {
    let rounds = spec_round_count(p);
    let gates = seq![
        SoakGateView {
            name: "min_packets"@,
            passed: aggregate.packets >= p.min_packets,
            detail: spec_comparison(aggregate.packets, " >= "@, p.min_packets),
        },
        SoakGateView {
            name: "max_sequence_gaps"@,
            passed: aggregate.sequence_gaps <= p.max_sequence_gaps,
            detail: spec_comparison(aggregate.sequence_gaps, " <= "@, p.max_sequence_gaps),
        },
        miss_ratio,
        SoakGateView {
            name: "rounds_completed"@,
            passed: round_states.len() == rounds,
            detail: spec_comparison(round_states.len() as u64, " == "@, rounds as u64),
        },
    ];
    if p.require_health_normal {
        gates.push(
            SoakGateView {
                name: "health_normal_each_round"@,
                passed: forall|i: int| 0 <= i < round_states.len() ==> round_states[i] == HealthState::Normal,
                detail: "["@ + spec_health_list(round_states) + "]"@,
            },
        )
    } else {
        gates
    }
}

fn health_list(hs: &[HealthState]) -> (s: String)
    ensures
        s@ == spec_health_list(hs@),
{
    let mut s = String::new();
    let mut i: usize = 0;
    while i < hs.len()
        invariant
            0 <= i <= hs@.len(),
            s@ == spec_health_list(hs@.subrange(0, i as int)),
        decreases hs@.len() - i,
    {
        proof {
            assert(hs@.subrange(0, i + 1).drop_last() =~= hs@.subrange(0, i as int));
        }
        if i == 0 {
            s.append("\"");
        } else {
            s.append(", \"");
        }
        s.append(hs[i].as_str());
        s.append("\"");
        proof {
            if i == 0 {
                assert(s@ =~= spec_health_list(hs@.subrange(0, 1)));
            }
        }
        i = i + 1;
    }
    proof {
        assert(hs@.subrange(0, i as int) =~= hs@);
    }
    s
}

/// Builds the soak gates (see [`spec_soak_gates`]).
pub fn soak_gates(
    profile: &SoakProfile,
    aggregate: &BenchReport,
    miss_ratio: SoakGate,
    round_states: &[HealthState],
) -> (g: Vec<SoakGate>)
    requires
        round_states@.len() <= u32::MAX,
    ensures
        g@.map_values(|x: SoakGate| x@) == spec_soak_gates(*profile, *aggregate, miss_ratio@, round_states@),
{
    let rounds = profile.round_count();
    let mut gates: Vec<SoakGate> = Vec::new();
    gates.push(
        SoakGate {
            name: owned("min_packets"),
            passed: aggregate.packets >= profile.min_packets,
            detail: comparison(aggregate.packets, " >= ", profile.min_packets),
        },
    );
    gates.push(
        SoakGate {
            name: owned("max_sequence_gaps"),
            passed: aggregate.sequence_gaps <= profile.max_sequence_gaps,
            detail: comparison(aggregate.sequence_gaps, " <= ", profile.max_sequence_gaps),
        },
    );
    gates.push(miss_ratio);
    let completed = round_states.len() as u64;
    gates.push(
        SoakGate {
            name: owned("rounds_completed"),
            passed: completed == rounds as u64,
            detail: comparison(completed, " == ", rounds as u64),
        },
    );
    if profile.require_health_normal {
        let mut all_normal = true;
        let mut i: usize = 0;
        while i < round_states.len()
            invariant
                0 <= i <= round_states@.len(),
                all_normal == forall|k: int| 0 <= k < i ==> round_states@[k] == HealthState::Normal,
            decreases round_states@.len() - i,
        {
            if round_states[i] != HealthState::Normal {
                all_normal = false;
            }
            i = i + 1;
        }
        let mut detail = owned("[");
        detail.append(health_list(round_states).as_str());
        detail.append("]");
        gates.push(SoakGate { name: owned("health_normal_each_round"), passed: all_normal, detail });
    }
    proof {
        assert(gates@.map_values(|x: SoakGate| x@) =~= spec_soak_gates(
            *profile,
            *aggregate,
            miss_ratio@,
            round_states@,
        ));
    }
    gates
}

/// Whether every soak gate passed.
pub fn soak_passed(gates: &[SoakGate]) -> (b: bool)
    ensures
        b == forall|i: int| 0 <= i < gates@.len() ==> (#[trigger] gates@[i]).passed,
{
    let mut i: usize = 0;
    while i < gates.len()
        invariant
            0 <= i <= gates@.len(),
            forall|k: int| 0 <= k < i ==> (#[trigger] gates@[k]).passed,
        decreases gates@.len() - i,
    {
        if !gates[i].passed {
            return false;
        }
        i = i + 1;
    }
    true
}

#[derive(Debug, Clone)]
pub struct SoakReport {
    pub profile_id: String,
    pub passed: bool,
    pub gates: Vec<SoakGate>,
    pub bench: BenchReport,
    pub fault_config: Option<String>,
    pub health: Option<String>,
    pub recovery_actions: u64,
    pub rounds: u32,
    pub round_health: Vec<SoakRoundHealth>,
    pub elapsed_wall_ms: u64,
    pub round_interval_ms: u64,
}

#[derive(Debug)]
pub enum SoakError {
    Config(String),
    Bench(PipelineBenchError),
    Io(String),
    Failed(Box<SoakReport>),
}

/// Runs a soak profile from a base directory.
#[derive(Debug)]
pub struct SoakRunner {
    profile: SoakProfile,
    base_dir: String,
}

impl SoakRunner {
    pub closed spec fn profile_spec(&self) -> SoakProfile {
        self.profile
    }

    pub closed spec fn base_dir_spec(&self) -> Seq<char> {
        self.base_dir@
    }

    pub fn new(profile: SoakProfile) -> (r: Self)
        ensures
            r.profile_spec() == profile,
            r.base_dir_spec() == "."@,
    {
        SoakRunner { profile, base_dir: owned(".") }
    }

    pub fn with_base_dir(self, base: String) -> (r: Self)
        ensures
            r.profile_spec() == self.profile_spec(),
            r.base_dir_spec() == base@,
    {
        SoakRunner { profile: self.profile, base_dir: base }
    }

    pub fn profile(&self) -> (p: &SoakProfile)
        ensures
            *p == self.profile_spec(),
    {
        &self.profile
    }

    pub fn base_dir(&self) -> (d: &str)
        ensures
            d@ == self.base_dir_spec(),
    {
        self.base_dir.as_str()
    }
}

/// A count that saturates at the top of the `u64` range.
pub open spec fn capped(n: int) -> u64 {
    if n <= u64::MAX {
        n as u64
    } else {
        u64::MAX
    }
}

/// The aggregate after accumulating `rounds` one after another into `a`.
pub open spec fn accumulate_all(a: BenchReport, rounds: Seq<BenchReport>) -> BenchReport
    decreases rounds.len(),
{
    if rounds.len() == 0 {
        a
    } else {
        spec_accumulate(accumulate_all(a, rounds.drop_last()), rounds.last())
    }
}

/// Total sequence gaps of `rounds`.
pub open spec fn total_gaps(rounds: Seq<BenchReport>) -> int
    decreases rounds.len(),
{
    if rounds.len() == 0 {
        0
    } else {
        total_gaps(rounds.drop_last()) + rounds.last().sequence_gaps
    }
}

/// Total late packets of `rounds`.
pub open spec fn total_late(rounds: Seq<BenchReport>) -> int
    decreases rounds.len(),
{
    if rounds.len() == 0 {
        0
    } else {
        total_late(rounds.drop_last()) + rounds.last().late_packets
    }
}

/// Total packets of `rounds`.
pub open spec fn total_packets(rounds: Seq<BenchReport>) -> int
    decreases rounds.len(),
{
    if rounds.len() == 0 {
        0
    } else {
        total_packets(rounds.drop_last()) + rounds.last().packets
    }
}

/// Accumulating one round adds its counts to the aggregate's, capped at the
/// top of the `u64` range: packets, bytes, sequence gaps, late packets,
/// recovery actions, symbol and slot misses and simulated time; the ring
/// peak is the larger of the two, and latency and throughput are the round's.
pub proof fn law_accumulate_adds(a: BenchReport, b: BenchReport)
    ensures
        spec_accumulate(a, b).packets == capped(a.packets + b.packets),
        spec_accumulate(a, b).bytes == capped(a.bytes + b.bytes),
        spec_accumulate(a, b).sequence_gaps == capped(a.sequence_gaps + b.sequence_gaps),
        spec_accumulate(a, b).late_packets == capped(a.late_packets + b.late_packets),
        spec_accumulate(a, b).recovery_actions == capped(a.recovery_actions + b.recovery_actions),
        spec_accumulate(a, b).radio.symbol_miss == capped(a.radio.symbol_miss + b.radio.symbol_miss),
        spec_accumulate(a, b).radio.slot_miss == capped(a.radio.slot_miss + b.radio.slot_miss),
        spec_accumulate(a, b).sim_duration_ns == capped(a.sim_duration_ns + b.sim_duration_ns),
        spec_accumulate(a, b).ring_occupancy_peak >= a.ring_occupancy_peak,
        spec_accumulate(a, b).ring_occupancy_peak >= b.ring_occupancy_peak,
        spec_accumulate(a, b).ring_occupancy_peak == a.ring_occupancy_peak
            || spec_accumulate(a, b).ring_occupancy_peak == b.ring_occupancy_peak,
        spec_accumulate(a, b).latency == b.latency,
        spec_accumulate(a, b).throughput == b.throughput,
{
}

/// Over a whole soak, the aggregate built from the zero report counts every
/// round: its packets, sequence gaps and late packets are the totals over
/// all rounds, capped at the top of the `u64` range.
pub proof fn law_accumulate_totals(rounds: Seq<BenchReport>)
    ensures
        accumulate_all(zero_report(), rounds).packets == capped(total_packets(rounds)),
        accumulate_all(zero_report(), rounds).sequence_gaps == capped(total_gaps(rounds)),
        accumulate_all(zero_report(), rounds).late_packets == capped(total_late(rounds)),
    decreases rounds.len(),
{
    if rounds.len() > 0 {
        law_accumulate_totals(rounds.drop_last());
        lemma_totals_nonneg(rounds.drop_last());
    }
}

proof fn lemma_totals_nonneg(rounds: Seq<BenchReport>)
    ensures
        total_packets(rounds) >= 0,
        total_gaps(rounds) >= 0,
        total_late(rounds) >= 0,
    decreases rounds.len(),
{
    if rounds.len() > 0 {
        lemma_totals_nonneg(rounds.drop_last());
    }
}

/// A soak run passes exactly when the rounds together delivered at least
/// `min_packets` with at most `max_sequence_gaps` gaps, the deadline-miss
/// ratio gate passed, every round completed, and, when the profile asks for
/// it, health was NORMAL after each round.
pub proof fn law_soak_verdict(
    p: SoakProfile,
    aggregate: BenchReport,
    miss_ratio: SoakGateView,
    round_states: Seq<HealthState>,
)
    ensures
        (forall|i: int|
            0 <= i < spec_soak_gates(p, aggregate, miss_ratio, round_states).len() ==> (#[trigger] spec_soak_gates(
                p,
                aggregate,
                miss_ratio,
                round_states,
            )[i]).passed) <==> {
            &&& aggregate.packets >= p.min_packets
            &&& aggregate.sequence_gaps <= p.max_sequence_gaps
            &&& miss_ratio.passed
            &&& round_states.len() == spec_round_count(p)
            &&& p.require_health_normal ==> forall|i: int|
                0 <= i < round_states.len() ==> #[trigger] round_states[i] == HealthState::Normal
        },
{
    let g = spec_soak_gates(p, aggregate, miss_ratio, round_states);
    if forall|i: int| 0 <= i < g.len() ==> (#[trigger] g[i]).passed {
        assert(g[0].passed && g[1].passed && g[2].passed && g[3].passed);
        if p.require_health_normal {
            assert(g[4].passed);
        }
    }
}

} // verus!
