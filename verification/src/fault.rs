//! Fault injection policy: loss, burst loss, latency, reorder, sequence jump and
//! timestamp skew.

use vstd::prelude::*;

use crate::types::{Packet, Sequence, Timestamp};

verus! {

/// Fault policy with every rate and duration resolved to integers.
#[derive(Debug, Clone, PartialEq)]
pub struct FaultInjectionConfig {
    pub version: String,
    pub id: String,
    pub enabled: bool,
    /// Deterministic loss: drop every sequence divisible by this period; 0 = no such loss.
    pub loss_period: u64,
    /// Extra wire latency in nanoseconds.
    pub extra_latency_ns: u64,
    pub burst_length: u32,
    /// GPU kernel slow-down in nanoseconds.
    pub kernel_delay_ns: u64,
    /// Inclusive sequence where burst loss begins (when enabled).
    pub burst_start: u64,
    /// If > 0, delay one packet by this many subsequent packets (reorder).
    pub reorder_distance: u32,
    /// Added to sequence number to simulate jumps.
    pub sequence_jump: u64,
    /// Added to timestamp (may be negative).
    pub timestamp_skew_ns: i64,
}

#[derive(Debug, PartialEq, Eq)]
pub enum FaultError {
    Config(String),
}

pub open spec fn spec_drop_deterministic(c: FaultInjectionConfig, sequence: u64) -> bool {
    c.enabled && c.loss_period > 0 && sequence % c.loss_period == 0
}

pub open spec fn spec_drop_burst(c: FaultInjectionConfig, sequence: u64, burst_start: u64) -> bool {
    c.enabled && c.burst_length > 0 && burst_start <= sequence < burst_start + c.burst_length
}

pub open spec fn spec_should_drop(c: FaultInjectionConfig, sequence: u64) -> bool {
    spec_drop_deterministic(c, sequence) || spec_drop_burst(c, sequence, c.burst_start)
}

/// Whether the burst window starting at `burst_start` fits in the sequence range.
pub open spec fn burst_fits(c: FaultInjectionConfig, burst_start: u64) -> bool {
    !c.enabled || c.burst_length == 0 || burst_start + c.burst_length <= u64::MAX
}

/// Timestamp after applying a skew: clamped at 0 below, wrapped to 64 bits above.
pub open spec fn spec_skewed(ts: u64, skew: i64) -> u64 {
    let t = ts + skew;
    if t < 0 {
        0
    } else if t > u64::MAX {
        (t - 0x1_0000_0000_0000_0000) as u64
    } else {
        t as u64
    }
}

/// The packet after sequence / timestamp faults.
pub open spec fn spec_mutate(c: FaultInjectionConfig, p: Packet) -> Packet {
    if !c.enabled {
        p
    } else {
        let seq = if c.sequence_jump > 0 {
            Sequence(
                if p.sequence.0 + c.sequence_jump > u64::MAX {
                    u64::MAX
                } else {
                    (p.sequence.0 + c.sequence_jump) as u64
                },
            )
        } else {
            p.sequence
        };
        let ts = if c.timestamp_skew_ns != 0 {
            Timestamp(spec_skewed(p.timestamp.0, c.timestamp_skew_ns))
        } else {
            p.timestamp
        };
        Packet { sequence: seq, timestamp: ts, ..p }
    }
}

impl FaultInjectionConfig {
    /// Deterministic drop decision: drop when `sequence % period == 0` and enabled.
    pub fn should_drop_deterministic(&self, sequence: u64) -> (r: bool)
        ensures
            r == spec_drop_deterministic(*self, sequence),
    {
        if !self.enabled || self.loss_period == 0 {
            return false;
        }
        sequence % self.loss_period == 0
    }

    /// Burst loss: drop `burst_length` packets starting at `burst_start` inclusive.
    pub fn should_drop_burst(&self, sequence: u64, burst_start: u64) -> (r: bool)
        requires
            burst_fits(*self, burst_start),
        ensures
            r == spec_drop_burst(*self, sequence, burst_start),
    {
        if !self.enabled || self.burst_length == 0 {
            return false;
        }
        sequence >= burst_start && sequence < burst_start + self.burst_length as u64
    }

    pub fn should_drop(&self, sequence: u64) -> (r: bool)
        requires
            burst_fits(*self, self.burst_start),
        ensures
            r == spec_should_drop(*self, sequence),
    {
        self.should_drop_deterministic(sequence) || self.should_drop_burst(sequence, self.burst_start)
    }

    pub fn extra_latency_ns(&self) -> (r: u64)
        ensures
            r == if self.enabled { self.extra_latency_ns } else { 0 },
    {
        if !self.enabled {
            return 0;
        }
        self.extra_latency_ns
    }

    pub fn kernel_delay_ns(&self) -> (r: u64)
        ensures
            r == if self.enabled { self.kernel_delay_ns } else { 0 },
    {
        if !self.enabled {
            return 0;
        }
        self.kernel_delay_ns
    }

    /// Apply sequence / timestamp faults to a packet.
    pub fn mutate_packet(&self, packet: Packet) -> (r: Packet)
        ensures
            r == spec_mutate(*self, packet),
    {
        let mut packet = packet;
        if !self.enabled {
            return packet;
        }
        if self.sequence_jump > 0 {
            packet.sequence = Sequence(packet.sequence.0.saturating_add(self.sequence_jump));
        }
        if self.timestamp_skew_ns != 0 {
            let t: i128 = packet.timestamp.0 as i128 + self.timestamp_skew_ns as i128;
            let ts: u64 = if t < 0 {
                0
            } else if t > u64::MAX as i128 {
                (t - 0x1_0000_0000_0000_0000i128) as u64
            } else {
                t as u64
            };
            packet.timestamp = Timestamp(ts);
        }
        packet
    }
}

/// Abstract state of a [`FaultInjector`].
pub struct FaultInjectorView {
    pub cfg: FaultInjectionConfig,
    pub held: Option<Packet>,
    pub held_countdown: u32,
    pub dropped: u64,
    pub reordered: u64,
}

impl FaultInjectorView {
    /// One tick of the reorder hold: a held packet is released when its
    /// countdown reaches zero.
    pub open spec fn tick_hold(self) -> (FaultInjectorView, Option<Packet>) {
        match self.held {
            None => (self, None),
            Some(p) => if self.held_countdown == 0 {
                (FaultInjectorView { held: None, ..self }, Some(p))
            } else if self.held_countdown == 1 {
                (FaultInjectorView { held: None, held_countdown: 0, ..self }, Some(p))
            } else {
                (FaultInjectorView { held_countdown: (self.held_countdown - 1) as u32, ..self }, None)
            },
        }
    }

    /// The state and output after pushing one packet.
    pub open spec fn push(self, packet: Packet) -> (FaultInjectorView, Seq<Packet>) {
        let p = spec_mutate(self.cfg, packet);
        let released = self.tick_hold();
        let out0 = match released.1 {
            Some(h) => seq![h],
            None => Seq::empty(),
        };
        if spec_should_drop(self.cfg, p.sequence.0) {
            (FaultInjectorView { dropped: (self.dropped + 1) as u64, ..released.0 }, out0)
        } else {
            let did_release = self.held is Some && self.held_countdown <= 1;
            if self.cfg.enabled && self.cfg.reorder_distance > 0 && released.0.held is None && !did_release {
                (
                    FaultInjectorView {
                        held: Some(p),
                        held_countdown: self.cfg.reorder_distance,
                        reordered: (self.reordered + 1) as u64,
                        ..released.0
                    },
                    out0,
                )
            } else {
                (released.0, out0.push(p))
            }
        }
    }

    /// Whether a push cannot overflow a counter or the burst window.
    pub open spec fn can_push(self) -> bool {
        &&& self.dropped < u64::MAX
        &&& self.reordered < u64::MAX
        &&& burst_fits(self.cfg, self.cfg.burst_start)
    }
}

/// Stateful injector: loss + optional single-packet reorder buffer.
#[derive(Debug)]
pub struct FaultInjector {
    cfg: FaultInjectionConfig,
    held: Option<Packet>,
    held_countdown: u32,
    pub dropped: u64,
    pub reordered: u64,
}

impl View for FaultInjector {
    type V = FaultInjectorView;

    closed spec fn view(&self) -> FaultInjectorView {
        FaultInjectorView {
            cfg: self.cfg,
            held: self.held,
            held_countdown: self.held_countdown,
            dropped: self.dropped,
            reordered: self.reordered,
        }
    }
}

impl FaultInjector {
    pub fn new(cfg: FaultInjectionConfig) -> (f: Self)
        ensures
            f@ == (FaultInjectorView { cfg, held: None, held_countdown: 0, dropped: 0, reordered: 0 }),
    {
        FaultInjector { cfg, held: None, held_countdown: 0, dropped: 0, reordered: 0 }
    }

    pub fn config(&self) -> (c: &FaultInjectionConfig)
        ensures
            *c == self@.cfg,
    {
        &self.cfg
    }

    /// Process one packet; returns 0..=2 packets (reorder may flush the held one).
    pub fn push(&mut self, packet: Packet) -> (out: Vec<Packet>)
        requires
            old(self)@.can_push(),
        ensures
            (final(self)@, out@) == old(self)@.push(packet),
    {
        let ghost v0 = self@;
        let ghost orig = packet;
        let packet = self.cfg.mutate_packet(packet);
        if self.cfg.should_drop(packet.sequence.0) {
            self.dropped = self.dropped + 1;
            let mut out = Vec::new();
            if let Some(p) = self.tick_hold() {
                out.push(p);
            }
            proof {
                assert(out@ =~= v0.push(orig).1);
            }
            return out;
        }
        let mut out = Vec::new();
        let did_release = self.held.is_some() && self.held_countdown <= 1;
        if let Some(p) = self.tick_hold() {
            out.push(p);
        }
        // Start a hold only when nothing was released this call (avoid re-hold).
        if self.cfg.enabled && self.cfg.reorder_distance > 0 && self.held.is_none() && !did_release {
            self.held = Some(packet);
            self.held_countdown = self.cfg.reorder_distance;
            self.reordered = self.reordered + 1;
            proof {
                assert(out@ =~= v0.push(orig).1);
            }
            return out;
        }
        out.push(packet);
        proof {
            assert(out@ =~= v0.push(orig).1);
        }
        out
    }

    fn tick_hold(&mut self) -> (r: Option<Packet>)
        ensures
            (final(self)@, r) == old(self)@.tick_hold(),
    {
        if self.held.is_none() {
            return None;
        }
        if self.held_countdown == 0 {
            return self.held.take();
        }
        self.held_countdown = self.held_countdown - 1;
        if self.held_countdown == 0 {
            return self.held.take();
        }
        None
    }

    /// Flush any held packet at end of stream.
    pub fn flush(&mut self) -> (r: Option<Packet>)
        ensures
            r == old(self)@.held,
            final(self)@ == (FaultInjectorView { held: None, held_countdown: 0, ..old(self)@ }),
    {
        self.held_countdown = 0;
        self.held.take()
    }
}

/// With faults disabled, the injector passes every packet through unchanged
/// and holds nothing back.
pub proof fn law_disabled_is_identity(v: FaultInjectorView, packet: Packet)
    requires
        !v.cfg.enabled,
        v.held is None,
    ensures
        v.push(packet).1 == seq![packet],
        v.push(packet).0 == v,
{
    assert(Seq::<Packet>::empty().push(packet) =~= seq![packet]);
}

/// No packet is created or lost by a push: every pushed packet is either
/// emitted, counted as dropped, or (newly) held, and a previously held packet is
/// either still held or emitted.
pub proof fn law_push_conserves_packets(v: FaultInjectorView, packet: Packet)
    requires
        v.can_push(),
    ensures
        ({
            let (w, out) = v.push(packet);
            out.len() + (w.dropped - v.dropped) + (if w.held is Some { 1int } else { 0 }) == 1 + (
            if v.held is Some {
                1int
            } else {
                0
            })
        }),
        v.push(packet).1.len() <= 2,
{
}

/// Deterministic loss drops exactly the multiples of the loss period: with
/// faults enabled and a period `p > 0`, the sequence `k * p + r` with
/// `0 <= r < p` is dropped exactly when `r == 0`, so every multiple of `p` is
/// dropped and none of the `p - 1` sequences between two multiples is. With
/// faults disabled or a period of 0 nothing is dropped.
pub proof fn law_deterministic_loss_multiples(c: FaultInjectionConfig, k: nat, r: nat)
    requires
        k * c.loss_period + r <= u64::MAX,
    ensures
        c.enabled && c.loss_period > 0 && r < c.loss_period ==> (spec_drop_deterministic(
            c,
            (k * c.loss_period + r) as u64,
        ) <==> r == 0),
        !c.enabled || c.loss_period == 0 ==> !spec_drop_deterministic(c, (k * c.loss_period + r) as u64),
{
    if c.enabled && c.loss_period > 0 && r < c.loss_period {
        vstd::arithmetic::div_mod::lemma_fundamental_div_mod_converse(
            k * c.loss_period + r,
            c.loss_period as int,
            k as int,
            r as int,
        );
    }
}

/// Burst loss drops exactly the `burst_length` sequences that start at the
/// burst start, and nothing when faults are disabled; a packet is dropped
/// when either deterministic or burst loss (from the configured start)
/// claims it.
pub proof fn law_burst_window(c: FaultInjectionConfig, start: u64, sequence: u64)
    ensures
        c.enabled && c.burst_length > 0 ==> (spec_drop_burst(c, sequence, start) <==> (start <= sequence
            && sequence - start < c.burst_length)),
        !c.enabled || c.burst_length == 0 ==> !spec_drop_burst(c, sequence, start),
        spec_should_drop(c, sequence) <==> (spec_drop_deterministic(c, sequence) || spec_drop_burst(
            c,
            sequence,
            c.burst_start,
        )),
{
}

} // verus!
