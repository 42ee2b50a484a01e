//! Health manager state machine.

use vstd::prelude::*;

use crate::metrics::LayeredMetricsSnapshot;

verus! {

#[derive(Debug, Clone, Copy, PartialEq, Eq, Structural)]
pub enum HealthState {
    Normal,
    Warning,
    Degraded,
    Failed,
    Recovery,
}

impl HealthState {
    pub fn as_str(self) -> (s: &'static str)
        ensures
            s@ == match self {
                HealthState::Normal => "NORMAL"@,
                HealthState::Warning => "WARNING"@,
                HealthState::Degraded => "DEGRADED"@,
                HealthState::Failed => "FAILED"@,
                HealthState::Recovery => "RECOVERY"@,
            },
    {
        match self {
            HealthState::Normal => "NORMAL",
            HealthState::Warning => "WARNING",
            HealthState::Degraded => "DEGRADED",
            HealthState::Failed => "FAILED",
            HealthState::Recovery => "RECOVERY",
        }
    }
}

/// Integer health thresholds. The loss-rate threshold is applied by the
/// caller, which reports the outcome as a [`LossSignal`].
#[derive(Debug, Clone, Copy, PartialEq, Eq, Structural)]
pub struct HealthThresholds {
    pub max_seq_gap_per_window: u64,
    pub max_latency_p99_ns: u64,
    pub max_jitter_ns: u64,
    pub max_symbol_deadline_miss_per_window: u64,
    pub max_gpu_stall_ns: u64,
    pub window_ms: u64,
}

impl Default for HealthThresholds {
    fn default() -> (t: Self)
        ensures
            t == (HealthThresholds {
                max_seq_gap_per_window: 0,
                max_latency_p99_ns: 50_000,
                max_jitter_ns: 5_000,
                max_symbol_deadline_miss_per_window: 8,
                max_gpu_stall_ns: 100_000,
                window_ms: 1000,
            }),
    {
        HealthThresholds {
            max_seq_gap_per_window: 0,
            max_latency_p99_ns: 50_000,
            max_jitter_ns: 5_000,
            max_symbol_deadline_miss_per_window: 8,
            max_gpu_stall_ns: 100_000,
            window_ms: 1000,
        }
    }
}

/// How the observed loss rate (drops per received packet) compares with the
/// configured maximum loss rate.
#[derive(Debug, Clone, Copy, PartialEq, Eq, Structural)]
pub struct LossSignal {
    /// Loss rate above the maximum.
    pub above_limit: bool,
    /// Loss rate above ten times the maximum.
    pub above_tenfold: bool,
}

#[derive(Debug, PartialEq, Eq)]
pub enum HealthError {
    Config(String),
}

/// Thresholds whose derived limits (4× deadline misses, 2× latency) fit in 64 bits.
pub open spec fn thresholds_fit(t: HealthThresholds) -> bool {
    &&& t.max_symbol_deadline_miss_per_window * 4 <= u64::MAX
    &&& t.max_latency_p99_ns * 2 <= u64::MAX
}

/// The state the metrics call for, given the current state.
pub open spec fn spec_next_health(
    t: HealthThresholds,
    cur: HealthState,
    snap: LayeredMetricsSnapshot,
    loss: LossSignal,
) -> HealthState {
    let latency = if snap.transport.latency_last_ns >= snap.transport.latency_max_ns {
        snap.transport.latency_last_ns
    } else {
        snap.transport.latency_max_ns
    };
    if snap.transport.gap_count > t.max_seq_gap_per_window || snap.radio.deadline_miss
        > t.max_symbol_deadline_miss_per_window * 4 || loss.above_tenfold {
        HealthState::Failed
    } else if snap.transport.gap_count > 0 || snap.radio.deadline_miss
        > t.max_symbol_deadline_miss_per_window || latency > t.max_latency_p99_ns
        || snap.memory.ring_stall_ns > t.max_gpu_stall_ns || loss.above_limit {
        if latency > t.max_latency_p99_ns * 2 || snap.radio.deadline_miss
            > t.max_symbol_deadline_miss_per_window {
            HealthState::Degraded
        } else {
            HealthState::Warning
        }
    } else if cur == HealthState::Failed || cur == HealthState::Degraded {
        HealthState::Recovery
    } else {
        HealthState::Normal
    }
}

/// Abstract state of a [`HealthManager`].
pub struct HealthManagerView {
    pub thresholds: HealthThresholds,
    pub state: HealthState,
    pub transitions: u64,
}

pub struct HealthManager {
    thresholds: HealthThresholds,
    state: HealthState,
    pub transitions: u64,
}

impl View for HealthManager {
    type V = HealthManagerView;

    closed spec fn view(&self) -> HealthManagerView {
        HealthManagerView { thresholds: self.thresholds, state: self.state, transitions: self.transitions }
    }
}

impl HealthManager {
    pub fn new(thresholds: HealthThresholds) -> (h: Self)
        ensures
            h@ == (HealthManagerView { thresholds, state: HealthState::Normal, transitions: 0 }),
    {
        HealthManager { thresholds, state: HealthState::Normal, transitions: 0 }
    }

    pub fn state(&self) -> (s: HealthState)
        ensures
            s == self@.state,
    {
        self.state
    }

    pub fn thresholds(&self) -> (t: &HealthThresholds)
        ensures
            *t == self@.thresholds,
    {
        &self.thresholds
    }

    /// Evaluate layered metrics and update state. Returns the previous state if
    /// it changed.
    pub fn evaluate(&mut self, snap: &LayeredMetricsSnapshot, loss: LossSignal) -> (r: Option<HealthState>)
        requires
            thresholds_fit(old(self)@.thresholds),
            old(self)@.transitions < u64::MAX,
        ensures
            ({
                let next = spec_next_health(old(self)@.thresholds, old(self)@.state, *snap, loss);
                if next != old(self)@.state {
                    &&& r == Some(old(self)@.state)
                    &&& final(self)@ == (HealthManagerView {
                        state: next,
                        transitions: (old(self)@.transitions + 1) as u64,
                        ..old(self)@
                    })
                } else {
                    r is None && final(self)@ == old(self)@
                }
            }),
    {
        let t = self.thresholds;
        let latency = if snap.transport.latency_last_ns >= snap.transport.latency_max_ns {
            snap.transport.latency_last_ns
        } else {
            snap.transport.latency_max_ns
        };
        let next = if snap.transport.gap_count > t.max_seq_gap_per_window || snap.radio.deadline_miss
            > t.max_symbol_deadline_miss_per_window * 4 || loss.above_tenfold {
            HealthState::Failed
        } else if snap.transport.gap_count > 0 || snap.radio.deadline_miss
            > t.max_symbol_deadline_miss_per_window || latency > t.max_latency_p99_ns
            || snap.memory.ring_stall_ns > t.max_gpu_stall_ns || loss.above_limit {
            if latency > t.max_latency_p99_ns * 2 || snap.radio.deadline_miss
                > t.max_symbol_deadline_miss_per_window {
                HealthState::Degraded
            } else {
                HealthState::Warning
            }
        } else if self.state == HealthState::Failed || self.state == HealthState::Degraded {
            HealthState::Recovery
        } else {
            HealthState::Normal
        };
        if next != self.state {
            let prev = self.state;
            self.state = next;
            self.transitions = self.transitions + 1;
            return Some(prev);
        }
        None
    }
}

/// Metrics that show no fault of any kind.
pub open spec fn clean(t: HealthThresholds, snap: LayeredMetricsSnapshot, loss: LossSignal) -> bool {
    &&& snap.transport.gap_count == 0
    &&& snap.radio.deadline_miss <= t.max_symbol_deadline_miss_per_window
    &&& snap.transport.latency_last_ns <= t.max_latency_p99_ns
    &&& snap.transport.latency_max_ns <= t.max_latency_p99_ns
    &&& snap.memory.ring_stall_ns <= t.max_gpu_stall_ns
    &&& !loss.above_limit
    &&& !loss.above_tenfold
}

/// A healthy system stays NORMAL on clean metrics.
pub proof fn law_clean_stays_normal(t: HealthThresholds, snap: LayeredMetricsSnapshot, loss: LossSignal)
    requires
        thresholds_fit(t),
        clean(t, snap, loss),
    ensures
        spec_next_health(t, HealthState::Normal, snap, loss) == HealthState::Normal,
{
}

/// After a failure or degradation, clean metrics lead back to NORMAL only
/// through RECOVERY.
pub proof fn law_recovery_path(t: HealthThresholds, cur: HealthState, snap: LayeredMetricsSnapshot, loss: LossSignal)
    requires
        thresholds_fit(t),
        cur == HealthState::Failed || cur == HealthState::Degraded,
        clean(t, snap, loss),
    ensures
        spec_next_health(t, cur, snap, loss) == HealthState::Recovery,
        spec_next_health(t, HealthState::Recovery, snap, loss) == HealthState::Normal,
{
}

/// A sequence gap never leaves the system NORMAL.
pub proof fn law_gap_not_normal(t: HealthThresholds, cur: HealthState, snap: LayeredMetricsSnapshot, loss: LossSignal)
    requires
        thresholds_fit(t),
        snap.transport.gap_count > 0,
    ensures
        spec_next_health(t, cur, snap, loss) != HealthState::Normal,
        spec_next_health(t, cur, snap, loss) != HealthState::Recovery,
{
}

/// A GPU ring stall above `max_gpu_stall_ns` is a warning: from any state,
/// with no gap, deadline misses within the window limit, latency within
/// budget and no loss, it makes the next state WARNING.
pub proof fn law_ring_stall_warns(t: HealthThresholds, cur: HealthState, snap: LayeredMetricsSnapshot, loss: LossSignal)
    requires
        snap.transport.gap_count == 0,
        snap.radio.deadline_miss <= t.max_symbol_deadline_miss_per_window,
        snap.transport.latency_last_ns <= t.max_latency_p99_ns,
        snap.transport.latency_max_ns <= t.max_latency_p99_ns,
        !loss.above_limit,
        !loss.above_tenfold,
        snap.memory.ring_stall_ns > t.max_gpu_stall_ns,
    ensures
        spec_next_health(t, cur, snap, loss) == HealthState::Warning,
{
}

/// How health is classified, with `latency` the larger of the last and the
/// largest latency sample: FAILED exactly on more gaps than the window
/// allows, more than four times the allowed deadline misses, or loss above
/// ten times its limit; otherwise WARNING or DEGRADED exactly when there is
/// any gap, more deadline misses than allowed, latency over budget, a GPU
/// ring stall over its limit, or loss over its limit, DEGRADED among these
/// exactly when latency exceeds twice the budget or deadline misses exceed
/// the limit; otherwise RECOVERY from FAILED or DEGRADED, else NORMAL.
pub proof fn law_health_classification(
    t: HealthThresholds,
    cur: HealthState,
    snap: LayeredMetricsSnapshot,
    loss: LossSignal,
)
    ensures
        ({
            let latency = if snap.transport.latency_last_ns >= snap.transport.latency_max_ns {
                snap.transport.latency_last_ns
            } else {
                snap.transport.latency_max_ns
            };
            let next = spec_next_health(t, cur, snap, loss);
            let failed = snap.transport.gap_count > t.max_seq_gap_per_window || snap.radio.deadline_miss > 4
                * t.max_symbol_deadline_miss_per_window || loss.above_tenfold;
            let warned = snap.transport.gap_count > 0 || snap.radio.deadline_miss
                > t.max_symbol_deadline_miss_per_window || latency > t.max_latency_p99_ns
                || snap.memory.ring_stall_ns > t.max_gpu_stall_ns || loss.above_limit;
            &&& (next == HealthState::Failed <==> failed)
            &&& (next == HealthState::Warning || next == HealthState::Degraded) <==> (!failed && warned)
            &&& next == HealthState::Degraded <==> (!failed && warned && (latency > 2 * t.max_latency_p99_ns
                || snap.radio.deadline_miss > t.max_symbol_deadline_miss_per_window))
            &&& next == HealthState::Recovery <==> (!failed && !warned && (cur == HealthState::Failed || cur
                == HealthState::Degraded))
            &&& next == HealthState::Normal <==> (!failed && !warned && cur != HealthState::Failed && cur
                != HealthState::Degraded)
        }),
{
}

} // verus!
