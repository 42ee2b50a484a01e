//! Benchmark results: latency percentiles, deadline counters and the report
//! of a pipeline run, with the profile that configures a run.

use vstd::prelude::*;

use crate::datapath::DatapathError;

verus! {

/// Whether `s` is in ascending order.
pub open spec fn sorted_ascending(s: Seq<u64>) -> bool {
    forall|i: int, j: int| 0 <= i <= j < s.len() ==> s[i] <= s[j]
}

/// Index of the `num / den` quantile of `n` samples: `floor(num * (n - 1) / den)`.
pub open spec fn quantile_index(n: nat, num: nat, den: nat) -> int {
    (num as int) * (n as int - 1) / (den as int)
}

#[derive(Debug, Clone, Copy, PartialEq, Eq, Structural)]
pub struct LatencyStats {
    pub min_ns: u64,
    pub p50_ns: u64,
    pub p99_ns: u64,
    pub p999_ns: u64,
    pub max_ns: u64,
}

impl Default for LatencyStats {
    fn default() -> (s: Self)
        ensures
            s == (LatencyStats { min_ns: 0, p50_ns: 0, p99_ns: 0, p999_ns: 0, max_ns: 0 }),
    {
        LatencyStats { min_ns: 0, p50_ns: 0, p99_ns: 0, p999_ns: 0, max_ns: 0 }
    }
}

proof fn lemma_quantile_order(m: int)
    requires
        m >= 0,
    ensures
        0 <= 50 * m / 100 <= 99 * m / 100,
        99 * m / 100 <= 999 * m / 1000,
        999 * m / 1000 <= m,
{
    assert(0 <= 50 * m / 100 <= 99 * m / 100) by (nonlinear_arith)
        requires
            m >= 0,
    ;
    assert(99 * m / 100 <= 999 * m / 1000) by (nonlinear_arith)
        requires
            m >= 0,
    ;
    assert(999 * m / 1000 <= m) by (nonlinear_arith)
        requires
            m >= 0,
    ;
}

fn quantile(sorted: &[u64], num: u128, den: u128) -> (v: u64)
    requires
        sorted@.len() > 0,
        0 < den,
        num <= den,
        den <= 1000,
    ensures
        v == sorted@[quantile_index(sorted@.len(), num as nat, den as nat)],
{
    let n = sorted.len();
    let m = (n - 1) as u128;
    assert((num as int) * (m as int) <= 1000 * (m as int)) by (nonlinear_arith)
        requires
            num <= den,
            den <= 1000,
    ;
    assert((num as int) * (m as int) / (den as int) <= m as int) by (nonlinear_arith)
        requires
            num <= den,
            0 < den,
    ;
    let idx = (num * m / den) as usize;
    sorted[idx]
}

/// Latency statistics of a sample sequence (see [`LatencyStats::from_sorted_ns`]).
pub open spec fn spec_latency_stats(s: Seq<u64>) -> LatencyStats {
    if s.len() == 0 {
        LatencyStats { min_ns: 0, p50_ns: 0, p99_ns: 0, p999_ns: 0, max_ns: 0 }
    } else {
        LatencyStats {
            min_ns: s[0],
            p50_ns: s[quantile_index(s.len(), 50, 100)],
            p99_ns: s[quantile_index(s.len(), 99, 100)],
            p999_ns: s[quantile_index(s.len(), 999, 1000)],
            max_ns: s[s.len() - 1],
        }
    }
}

impl LatencyStats {
    /// Percentiles of `sorted`: the sample at index `floor(p * (n - 1))` for
    /// p = 0.50, 0.99 and 0.999, with the first and last samples as min and
    /// max; all zero for no samples.
    pub fn from_sorted_ns(sorted: &[u64]) -> (s: Self)
        ensures
            s == spec_latency_stats(sorted@),
            sorted_ascending(sorted@) ==> s.min_ns <= s.p50_ns <= s.p99_ns <= s.p999_ns <= s.max_ns,
    {
        let n = sorted.len();
        if n == 0 {
            return LatencyStats::default();
        }
        proof {
            lemma_quantile_order(n - 1);
        }
        LatencyStats {
            min_ns: sorted[0],
            p50_ns: quantile(sorted, 50, 100),
            p99_ns: quantile(sorted, 99, 100),
            p999_ns: quantile(sorted, 999, 1000),
            max_ns: sorted[n - 1],
        }
    }
}

/// Throughput figures, each held as the IEEE-754 bit pattern of an `f64`.
#[derive(Debug, Clone, Copy, PartialEq, Eq, Structural)]
pub struct ThroughputStats {
    pub gbps_bits: u64,
    pub gbs_bits: u64,
    pub pps_bits: u64,
}

impl Default for ThroughputStats {
    fn default() -> (s: Self)
        ensures
            s == (ThroughputStats { gbps_bits: 0, gbs_bits: 0, pps_bits: 0 }),
    {
        ThroughputStats { gbps_bits: 0, gbs_bits: 0, pps_bits: 0 }
    }
}

#[derive(Debug, Clone, Copy, PartialEq, Eq, Structural)]
pub struct RadioDeadlineStats {
    pub slot_miss: u64,
    pub symbol_miss: u64,
}

impl Default for RadioDeadlineStats {
    fn default() -> (s: Self)
        ensures
            s == (RadioDeadlineStats { slot_miss: 0, symbol_miss: 0 }),
    {
        RadioDeadlineStats { slot_miss: 0, symbol_miss: 0 }
    }
}

#[derive(Debug, Clone, Copy, PartialEq, Eq, Structural)]
pub struct BenchReport {
    pub throughput: ThroughputStats,
    pub latency: LatencyStats,
    pub radio: RadioDeadlineStats,
    pub packets: u64,
    pub bytes: u64,
    pub sequence_gaps: u64,
    pub late_packets: u64,
    pub sim_duration_ns: u64,
    pub recovery_actions: u64,
    pub ring_occupancy_peak: u64,
}

/// The all-zero report.
pub open spec fn zero_report() -> BenchReport {
    BenchReport {
        throughput: ThroughputStats { gbps_bits: 0, gbs_bits: 0, pps_bits: 0 },
        latency: LatencyStats { min_ns: 0, p50_ns: 0, p99_ns: 0, p999_ns: 0, max_ns: 0 },
        radio: RadioDeadlineStats { slot_miss: 0, symbol_miss: 0 },
        packets: 0,
        bytes: 0,
        sequence_gaps: 0,
        late_packets: 0,
        sim_duration_ns: 0,
        recovery_actions: 0,
        ring_occupancy_peak: 0,
    }
}

impl Default for BenchReport {
    fn default() -> (r: Self)
        ensures
            r == zero_report(),
    {
        BenchReport {
            throughput: ThroughputStats::default(),
            latency: LatencyStats::default(),
            radio: RadioDeadlineStats::default(),
            packets: 0,
            bytes: 0,
            sequence_gaps: 0,
            late_packets: 0,
            sim_duration_ns: 0,
            recovery_actions: 0,
            ring_occupancy_peak: 0,
        }
    }
}

/// What a pipeline bench run does and where its inputs and outputs live.
#[derive(Debug, Clone, PartialEq)]
pub struct BenchProfile {
    pub version: String,
    pub id: String,
    pub symbol_count: u64,
    pub streams: u32,
    pub latency_budget_ns: u64,
    pub include_ethernet_delay: bool,
    pub include_nic_dma: bool,
    pub include_gpu_kernel: bool,
    /// `simulation` (default) or `cuda`.
    pub gpu_backend: String,
    pub report_path: String,
    pub events_path: String,
    pub radio_timing_config: String,
    pub transport_deadline_config: String,
    pub ethernet_config: String,
    pub nic_config: String,
    pub gpu_ring_config: String,
    pub fault_config: String,
    pub gpu_cuda_config: Option<String>,
}

impl BenchProfile {
    /// Whether the profile asks for the CUDA backend (`cuda`, any case).
    pub fn wants_cuda(&self) -> (b: bool)
        ensures
            b == crate::text::lower_equals(self.gpu_backend@, "cuda"@),
    {
        crate::text::lower_eq(self.gpu_backend.as_str(), "cuda")
    }
}

#[derive(Debug, PartialEq, Eq)]
pub enum PipelineBenchError {
    Config(String),
    Runtime(DatapathError),
    Io(String),
}

/// End-to-end simulation bench (multi-stream capable).
#[derive(Debug)]
pub struct PipelineBench {
    profile: BenchProfile,
    base_dir: String,
}

impl PipelineBench {
    pub closed spec fn profile_spec(&self) -> BenchProfile {
        self.profile
    }

    pub closed spec fn base_dir_spec(&self) -> Seq<char> {
        self.base_dir@
    }

    pub fn new(profile: BenchProfile) -> (b: Self)
        ensures
            b.profile_spec() == profile,
            b.base_dir_spec() == "."@,
    {
        PipelineBench { profile, base_dir: crate::text::owned(".") }
    }

    pub fn with_base_dir(self, base: String) -> (b: Self)
        ensures
            b.profile_spec() == self.profile_spec(),
            b.base_dir_spec() == base@,
    {
        PipelineBench { profile: self.profile, base_dir: base }
    }

    pub fn profile(&self) -> (p: &BenchProfile)
        ensures
            *p == self.profile_spec(),
    {
        &self.profile
    }

    pub fn base_dir(&self) -> (d: &str)
        ensures
            d@ == self.base_dir_spec(),
    {
        self.base_dir.as_str()
    }
}

/// `slice::sort_unstable` on `u64`: sorts ascending, keeping every sample.
#[verifier::external_body]
pub(crate) fn sort_ascending(v: &mut Vec<u64>)
    ensures
        final(v)@.to_multiset() == old(v)@.to_multiset(),
        sorted_ascending(final(v)@),
{
    v.sort_unstable();
}

} // verus!
