//! The simulated datapath of a pipeline bench run: each emitted symbol
//! packet crosses fault injection, the transport checks, the NIC's DMA
//! pipeline and the GPU ring, and every delivered packet is timed.

use vstd::prelude::*;

use crate::bench::{
    sort_ascending, sorted_ascending, spec_latency_stats, BenchProfile, BenchReport, LatencyStats,
    RadioDeadlineStats, ThroughputStats,
};
use crate::fault::{spec_drop_deterministic, FaultInjectionConfig};
use crate::gpu::GpuError;
use crate::gpu_ring::{sat_add, sat_sub, spec_empty_slot, GpuRingBuffer, GpuRingConfig, GpuRingView};
use crate::metrics::{
    counters_at_most, spec_latency_sample, zero_snapshot, LayeredMetricsSnapshot, MetricsEngine, MetricsEngineView,
    RadioLayerMetrics, TransportLayerMetrics,
};
use crate::nic::{Cx5Error, Cx5Nic, Cx5View, NicDmaConfig, PacketIO, PendingView};
use crate::transport::{LinkManager, LinkState, StreamConfig, StreamManager, StreamState, TransportEngine, TransportError};
use crate::transport_check::TransportDeadlineConfig;
use crate::transport_sim::{spec_ingest, SimTransportEngine, SimTransportView, StreamRuntime};
use crate::types::{Packet, StreamId};

verus! {

/// Why a datapath step failed: the stage that refused and its error.
#[derive(Debug, PartialEq, Eq)]
pub enum DatapathError {
    Transport(TransportError),
    Nic(Cx5Error),
    Gpu(GpuError),
}

/// Most packets a step takes from the NIC at once.
pub const RX_BURST: usize = 32;

/// Abstract state of a [`BenchRun`].
pub struct BenchRunView {
    pub transport: SimTransportView,
    pub nic: Cx5View,
    pub ring: GpuRingView,
    pub metrics: MetricsEngineView,
    pub fault: FaultInjectionConfig,
    pub include_nic_dma: bool,
    pub include_gpu_kernel: bool,
    pub latency_budget_ns: u64,
    pub latencies: Seq<u64>,
    pub bytes: u64,
    pub packets: u64,
    pub symbol_miss: u64,
    pub now_ns: u64,
}

pub open spec fn bump_rx(m: MetricsEngineView) -> MetricsEngineView {
    MetricsEngineView {
        layered: LayeredMetricsSnapshot {
            transport: TransportLayerMetrics {
                rx_packets: (m.layered.transport.rx_packets + 1) as u64,
                ..m.layered.transport
            },
            ..m.layered
        },
        ..m
    }
}

pub open spec fn bump_tx(m: MetricsEngineView) -> MetricsEngineView {
    MetricsEngineView {
        layered: LayeredMetricsSnapshot {
            transport: TransportLayerMetrics {
                tx_packets: (m.layered.transport.tx_packets + 1) as u64,
                ..m.layered.transport
            },
            ..m.layered
        },
        ..m
    }
}

pub open spec fn bump_drop(m: MetricsEngineView) -> MetricsEngineView {
    MetricsEngineView {
        layered: LayeredMetricsSnapshot {
            transport: TransportLayerMetrics { drop: (m.layered.transport.drop + 1) as u64, ..m.layered.transport },
            ..m.layered
        },
        ..m
    }
}

pub open spec fn bump_gap(m: MetricsEngineView) -> MetricsEngineView {
    MetricsEngineView {
        layered: LayeredMetricsSnapshot {
            transport: TransportLayerMetrics {
                gap_count: (m.layered.transport.gap_count + 1) as u64,
                ..m.layered.transport
            },
            ..m.layered
        },
        ..m
    }
}

pub open spec fn bump_late(m: MetricsEngineView) -> MetricsEngineView {
    MetricsEngineView {
        layered: LayeredMetricsSnapshot {
            transport: TransportLayerMetrics {
                late_packet: (m.layered.transport.late_packet + 1) as u64,
                ..m.layered.transport
            },
            ..m.layered
        },
        ..m
    }
}

pub open spec fn bump_miss(m: MetricsEngineView) -> MetricsEngineView {
    MetricsEngineView {
        layered: LayeredMetricsSnapshot {
            radio: RadioLayerMetrics {
                deadline_miss: (m.layered.radio.deadline_miss + 1) as u64,
                slot_deadline_miss: (m.layered.radio.slot_deadline_miss + 1) as u64,
                ..m.layered.radio
            },
            ..m.layered
        },
        ..m
    }
}

pub open spec fn record_sample(m: MetricsEngineView, latency_ns: u64) -> MetricsEngineView {
    MetricsEngineView {
        layered: LayeredMetricsSnapshot {
            transport: spec_latency_sample(m.layered.transport, latency_ns),
            ..m.layered
        },
        last_latency_ns: latency_ns,
    }
}

/// One delivered packet reaches the GPU: counted as received, run through
/// the ring when the kernel stage is on, timed end to end from its
/// timestamp, and counted as transmitted. Returns its end-to-end latency.
pub open spec fn spec_deliver_one(v: BenchRunView, d: Packet) -> (BenchRunView, Result<u64, DatapathError>) {
    let m1 = bump_rx(v.metrics);
    let (ring, lat) = if v.include_gpu_kernel {
        v.ring.process_packet(d.payload@, v.now_ns)
    } else {
        (v.ring, Ok(0u64))
    };
    match lat {
        Err(e) => (BenchRunView { metrics: m1, ring, ..v }, Err(DatapathError::Gpu(e))),
        Ok(l) => {
            let now = sat_add(v.now_ns, l);
            let e2e = sat_sub(now, d.timestamp.0);
            let miss = e2e > v.latency_budget_ns;
            let m2 = record_sample(m1, e2e);
            let m3 = if miss { bump_miss(m2) } else { m2 };
            (
                BenchRunView {
                    metrics: bump_tx(m3),
                    ring,
                    now_ns: now,
                    latencies: v.latencies.push(e2e),
                    symbol_miss: if miss { (v.symbol_miss + 1) as u64 } else { v.symbol_miss },
                    bytes: (v.bytes + d.payload@.len()) as u64,
                    packets: (v.packets + 1) as u64,
                    ..v
                },
                Ok(e2e),
            )
        },
    }
}

/// Delivers `ds` in order, stopping at the first error; on success returns
/// the end-to-end latencies in delivery order.
pub open spec fn spec_deliver(v: BenchRunView, ds: Seq<Packet>) -> (BenchRunView, Result<Seq<u64>, DatapathError>)
    decreases ds.len(),
{
    if ds.len() == 0 {
        (v, Ok(Seq::empty()))
    } else {
        let (v1, r1) = spec_deliver_one(v, ds[0]);
        match r1 {
            Err(e) => (v1, Err(e)),
            Ok(l) => {
                let (v2, r2) = spec_deliver(v1, ds.drop_first());
                match r2 {
                    Err(e) => (v2, Err(e)),
                    Ok(ls) => (v2, Ok(seq![l] + ls)),
                }
            },
        }
    }
}

/// Takes up to [`RX_BURST`] host-visible packets from the NIC and delivers them.
pub open spec fn spec_burst(v: BenchRunView) -> (BenchRunView, Result<Seq<u64>, DatapathError>) {
    let polled = v.nic.poll();
    let k = if RX_BURST <= polled.rx_ready.len() { RX_BURST as int } else { polled.rx_ready.len() as int };
    let nic = Cx5View { rx_ready: polled.rx_ready.subrange(k, polled.rx_ready.len() as int), ..polled };
    spec_deliver(BenchRunView { nic, ..v }, polled.rx_ready.subrange(0, k))
}

/// Moves the transport's oldest accepted packet, if any, into the NIC (with
/// the DMA delay when that stage is on) and delivers what the NIC then shows.
pub open spec fn spec_forward(v: BenchRunView) -> (BenchRunView, Result<Seq<u64>, DatapathError>) {
    let t = v.transport;
    if t.inbox.len() == 0 {
        (v, Ok(Seq::empty()))
    } else {
        let pkt = t.inbox[0];
        let v1 = BenchRunView {
            transport: SimTransportView { inbox: t.inbox.drop_first(), ..t },
            nic: Cx5View { now_ns: v.now_ns, ..v.nic }.poll(),
            ..v
        };
        if v.include_nic_dma {
            let (n2, r) = v1.nic.submit(pkt, sat_add(v1.nic.now_ns, v1.nic.dma_latency_ns));
            match r {
                Err(e) => (BenchRunView { nic: n2, ..v1 }, Err(DatapathError::Nic(e))),
                Ok(()) => {
                    let now = sat_add(v.now_ns, n2.dma_latency_ns);
                    spec_burst(BenchRunView { nic: Cx5View { now_ns: now, ..n2 }.poll(), now_ns: now, ..v1 })
                },
            }
        } else {
            let (n2, r) = v1.nic.submit(pkt, v.now_ns);
            match r {
                Err(e) => (BenchRunView { nic: n2, ..v1 }, Err(DatapathError::Nic(e))),
                Ok(()) => spec_burst(BenchRunView { nic: n2, ..v1 }),
            }
        }
    }
}

/// The clock after an emitted packet crosses the wire: the later of the run
/// clock and the packet's timestamp, plus the wire delay and any injected
/// extra latency, saturating.
pub open spec fn spec_arrival(v: BenchRunView, p: Packet, wire_ns: u64) -> u64 {
    let base = if v.now_ns >= p.timestamp.0 { v.now_ns } else { p.timestamp.0 };
    let extra = if v.fault.enabled { v.fault.extra_latency_ns } else { 0 };
    sat_add(sat_add(base, wire_ns), extra)
}

/// One emitted packet through the datapath. A packet the fault model drops
/// is counted and goes no further. A sequence gap resyncs the stream, is
/// counted, and the packet is offered again; a late packet is counted as a
/// deadline miss and a late packet and goes no further; any other refusal
/// is an error. Returns the end-to-end latencies of the packets delivered.
pub open spec fn spec_step(v: BenchRunView, p: Packet, wire_ns: u64) -> (BenchRunView, Result<Seq<u64>, DatapathError>) {
    let now = spec_arrival(v, p, wire_ns);
    let v1 = BenchRunView { now_ns: now, ..v };
    if spec_drop_deterministic(v.fault, p.sequence.0) {
        (BenchRunView { metrics: bump_drop(v.metrics), ..v1 }, Ok(Seq::empty()))
    } else {
        let (t2, r) = spec_ingest(SimTransportView { now_ns: now, ..v.transport }, p);
        match r {
            Ok(()) => spec_forward(BenchRunView { transport: t2, ..v1 }),
            Err(TransportError::SequenceGap { expected, got }) => {
                let m = bump_gap(v.metrics);
                let (t4, r2) = spec_ingest(t2.recover(p.stream_id, got), p);
                match r2 {
                    Err(e) => (BenchRunView { transport: t4, metrics: m, ..v1 }, Err(DatapathError::Transport(e))),
                    Ok(()) => spec_forward(BenchRunView { transport: t4, metrics: m, ..v1 }),
                }
            },
            Err(TransportError::LatePacket { latency_ns, max_ns }) => (
                BenchRunView { transport: t2, metrics: bump_late(bump_miss(v.metrics)), ..v1 },
                Ok(Seq::empty()),
            ),
            Err(e) => (BenchRunView { transport: t2, ..v1 }, Err(DatapathError::Transport(e))),
        }
    }
}

/// Largest payload the wire format can carry.
pub open spec fn payload_fits(p: Packet) -> bool {
    p.payload@.len() <= u32::MAX
}

/// Every packet held by the transport or the NIC has a payload that fits.
pub open spec fn queued_payloads_fit(v: BenchRunView) -> bool {
    &&& forall|i: int| 0 <= i < v.transport.inbox.len() ==> payload_fits(#[trigger] v.transport.inbox[i])
    &&& forall|i: int| 0 <= i < v.nic.pending.len() ==> payload_fits(#[trigger] v.nic.pending[i].packet)
    &&& forall|i: int| 0 <= i < v.nic.rx_ready.len() ==> payload_fits(#[trigger] v.nic.rx_ready[i])
}

/// No counter a step bumps can overflow during the step.
pub open spec fn has_headroom(v: BenchRunView) -> bool {
    &&& counters_at_most(v.metrics.layered, (u64::MAX - 64) as u64)
    &&& v.transport.late_packets <= u64::MAX - 4
    &&& v.transport.sequence_gaps <= u64::MAX - 4
    &&& v.nic.completions + v.nic.pending.len() <= u64::MAX - 4
    &&& v.bytes <= u64::MAX - 0x40_0000_0000
    &&& v.packets <= u64::MAX - 64
    &&& v.symbol_miss <= u64::MAX - 64
}

/// The configuration of bench stream `s` (numbered from 1): carriers cycle
/// through 4, the antenna advances every 4 streams.
pub open spec fn spec_bench_stream(s: u32, deadline_ns: u64) -> StreamConfig {
    StreamConfig {
        stream_id: StreamId(s),
        carrier: ((s - 1) % 4) as u16,
        antenna: ((s - 1) / 4) as u16,
        qos: 0,
        deadline_ns,
    }
}

/// Number of streams a profile runs: at least one.
pub open spec fn spec_stream_count(p: BenchProfile) -> u32 {
    if p.streams >= 1 { p.streams } else { 1 }
}

/// State of a pipeline bench run between symbols.
pub struct BenchRun {
    transport: SimTransportEngine,
    nic: Cx5Nic,
    ring: GpuRingBuffer,
    metrics: MetricsEngine,
    fault: FaultInjectionConfig,
    include_nic_dma: bool,
    include_gpu_kernel: bool,
    latency_budget_ns: u64,
    latencies: Vec<u64>,
    bytes: u64,
    packets: u64,
    symbol_miss: u64,
    now_ns: u64,
}

impl View for BenchRun {
    type V = BenchRunView;

    closed spec fn view(&self) -> BenchRunView {
        BenchRunView {
            transport: self.transport@,
            nic: self.nic@,
            ring: self.ring@,
            metrics: self.metrics@,
            fault: self.fault,
            include_nic_dma: self.include_nic_dma,
            include_gpu_kernel: self.include_gpu_kernel,
            latency_budget_ns: self.latency_budget_ns,
            latencies: self.latencies@,
            bytes: self.bytes,
            packets: self.packets,
            symbol_miss: self.symbol_miss,
            now_ns: self.now_ns,
        }
    }
}

proof fn lemma_filter_keeps<A>(s: Seq<A>, keep: spec_fn(A) -> bool, fits: spec_fn(A) -> bool)
    requires
        forall|i: int| 0 <= i < s.len() ==> fits(#[trigger] s[i]),
    ensures
        forall|i: int| 0 <= i < s.filter(keep).len() ==> fits(#[trigger] s.filter(keep)[i]),
    decreases s.len(),
{
    reveal_with_fuel(Seq::filter, 1);
    if s.len() > 0 {
        let p = s.drop_last();
        assert forall|i: int| 0 <= i < p.len() implies fits(#[trigger] p[i]) by {
            assert(p[i] == s[i]);
        }
        lemma_filter_keeps(p, keep, fits);
        let f = p.filter(keep);
        assert(s.filter(keep) == if keep(s.last()) { f.push(s.last()) } else { f });
        assert(fits(s[s.len() - 1]));
    }
}

proof fn lemma_poll_fits(n: Cx5View)
    requires
        forall|i: int| 0 <= i < n.pending.len() ==> payload_fits(#[trigger] n.pending[i].packet),
        forall|i: int| 0 <= i < n.rx_ready.len() ==> payload_fits(#[trigger] n.rx_ready[i]),
    ensures
        forall|i: int| 0 <= i < n.poll().pending.len() ==> payload_fits(#[trigger] n.poll().pending[i].packet),
        forall|i: int| 0 <= i < n.poll().rx_ready.len() ==> payload_fits(#[trigger] n.poll().rx_ready[i]),
{
    let fits = |q: PendingView| payload_fits(q.packet);
    assert forall|i: int| 0 <= i < n.pending.len() implies fits(#[trigger] n.pending[i]) by {}
    lemma_filter_keeps(n.pending, crate::nic::is_due(n.now_ns), fits);
    lemma_filter_keeps(n.pending, crate::nic::not_due(n.now_ns), fits);
    let due = n.pending.filter(crate::nic::is_due(n.now_ns));
    let still = n.pending.filter(crate::nic::not_due(n.now_ns));
    assert forall|i: int| 0 <= i < still.len() implies payload_fits(#[trigger] still[i].packet) by {
        assert(fits(still[i]));
    }
    let moved = due.map_values(|q: PendingView| q.packet);
    assert forall|i: int| 0 <= i < n.poll().rx_ready.len() implies payload_fits(#[trigger] n.poll().rx_ready[i]) by {
        if i >= n.rx_ready.len() {
            let k = i - n.rx_ready.len();
            assert(fits(due[k]));
            assert(moved[k] == due[k].packet);
        }
    }
}

impl BenchRun {
    /// Well-formed: every queued packet's payload fits the wire format.
    pub open spec fn inv(&self) -> bool {
        queued_payloads_fit(self@)
    }

    /// Brings the link up and creates and starts streams `1..=n` for the
    /// profile's `n` (at least 1), over fresh transport, NIC and GPU ring
    /// models built from their configurations.
    pub fn start(
        profile: &BenchProfile,
        deadline: TransportDeadlineConfig,
        nic_cfg: NicDmaConfig,
        ring_cfg: GpuRingConfig,
        fault: FaultInjectionConfig,
    ) -> (run: Self)
        ensures
            run.inv(),
            run@.transport.link == LinkState::Running,
            forall|k: u32|
                #![trigger run@.transport.streams.contains_key(k)]
                run@.transport.streams.contains_key(k) <==> 1 <= k <= spec_stream_count(*profile),
            forall|k: u32|
                1 <= k <= spec_stream_count(*profile) ==> #[trigger] run@.transport.streams[k] == (StreamRuntime {
                    cfg: spec_bench_stream(k, profile.latency_budget_ns),
                    state: StreamState::Running,
                }),
            run@.transport.inbox == Seq::<Packet>::empty(),
            run@.transport.max_latency_ns == deadline.max_latency_ns,
            run@.transport.seq.start == deadline.start_sequence,
            run@.transport.seq.allow_reorder == deadline.allow_reorder,
            forall|k: u32|
                #![trigger run@.transport.seq.next.contains_key(k)]
                run@.transport.seq.next.contains_key(k) <==> 1 <= k <= spec_stream_count(*profile),
            forall|k: u32|
                1 <= k <= spec_stream_count(*profile) ==> #[trigger] run@.transport.seq.next[k] == deadline.start_sequence,
            run@.transport.now_ns == 0,
            run@.transport.sequence_gaps == 0,
            run@.transport.late_packets == 0,
            run@.nic == (Cx5View {
                dma_latency_ns: nic_cfg.dma_latency_ns,
                rx_queue_depth: nic_cfg.rx_queue_depth,
                tx_queue_depth: nic_cfg.tx_queue_depth,
                now_ns: 0,
                pending: Seq::empty(),
                rx_ready: Seq::empty(),
                tx: Seq::empty(),
                completions: 0,
            }),
            run@.ring == (GpuRingView {
                slots: Seq::new(ring_cfg.slot_count as nat, |i: int| spec_empty_slot()),
                slot_bytes: ring_cfg.slot_bytes,
                kernel_delay_ns: ring_cfg.kernel_delay_ns,
            }),
            run@.metrics == (MetricsEngineView { layered: zero_snapshot(), last_latency_ns: 0 }),
            run@.fault == fault,
            run@.include_nic_dma == profile.include_nic_dma,
            run@.include_gpu_kernel == profile.include_gpu_kernel,
            run@.latency_budget_ns == profile.latency_budget_ns,
            run@.latencies == Seq::<u64>::empty(),
            run@.bytes == 0,
            run@.packets == 0,
            run@.symbol_miss == 0,
            run@.now_ns == 0,
    {
        let n: u32 = if profile.streams >= 1 { profile.streams } else { 1 };
        let mut transport = SimTransportEngine::new(deadline);
        let _ = transport.link_up();
        let mut s: u64 = 1;
        while s <= n as u64
            invariant
                1 <= s,
                s <= n + 1,
                n == spec_stream_count(*profile),
                transport@.link == LinkState::Running,
                transport@.inbox == Seq::<Packet>::empty(),
                transport@.max_latency_ns == deadline.max_latency_ns,
                transport@.seq.start == deadline.start_sequence,
                transport@.seq.allow_reorder == deadline.allow_reorder,
                transport@.now_ns == 0,
                transport@.sequence_gaps == 0,
                transport@.late_packets == 0,
                forall|k: u32| #![trigger transport@.streams.contains_key(k)]
                    transport@.streams.contains_key(k) <==> 1 <= k < s,
                forall|k: u32|
                    1 <= k < s ==> #[trigger] transport@.streams[k] == (StreamRuntime {
                        cfg: spec_bench_stream(k, profile.latency_budget_ns),
                        state: StreamState::Running,
                    }),
                forall|k: u32| #![trigger transport@.seq.next.contains_key(k)]
                    transport@.seq.next.contains_key(k) <==> 1 <= k < s,
                forall|k: u32| 1 <= k < s ==> #[trigger] transport@.seq.next[k] == deadline.start_sequence,
            decreases n + 1 - s,
        {
            let id = s as u32;
            let cfg = StreamConfig {
                stream_id: StreamId(id),
                carrier: ((id - 1) % 4) as u16,
                antenna: ((id - 1) / 4) as u16,
                qos: 0,
                deadline_ns: profile.latency_budget_ns,
            };
            assert(cfg == spec_bench_stream(id, profile.latency_budget_ns));
            assert(!transport@.streams.contains_key(id));
            assert(!transport@.seq.next.contains_key(id));
            let _ = transport.create_stream(cfg);
            let _ = transport.start_stream(StreamId(id));
            s = s + 1;
        }
        let run = BenchRun {
            transport,
            nic: Cx5Nic::new(nic_cfg),
            ring: GpuRingBuffer::new(ring_cfg),
            metrics: MetricsEngine::new(),
            fault,
            include_nic_dma: profile.include_nic_dma,
            include_gpu_kernel: profile.include_gpu_kernel,
            latency_budget_ns: profile.latency_budget_ns,
            latencies: Vec::new(),
            bytes: 0,
            packets: 0,
            symbol_miss: 0,
            now_ns: 0,
        };
        run
    }
}

/// `(v, r)` with the latencies `es` put in front of a successful `r`.
pub open spec fn after_latencies(
    es: Seq<u64>,
    vr: (BenchRunView, Result<Seq<u64>, DatapathError>),
) -> (BenchRunView, Result<Seq<u64>, DatapathError>) {
    match vr.1 {
        Ok(ls) => (vr.0, Ok(es + ls)),
        Err(e) => (vr.0, Err(e)),
    }
}

/// Whether an executable result stands for a spec result.
pub open spec fn result_matches(r: Result<Vec<u64>, DatapathError>, sr: Result<Seq<u64>, DatapathError>) -> bool {
    match r {
        Ok(ls) => sr == Ok::<Seq<u64>, DatapathError>(ls@),
        Err(e) => sr == Err::<Seq<u64>, DatapathError>(e),
    }
}

impl BenchRun {
    /// Whether a [`step`](Self::step) can run without a counter overflowing.
    pub fn has_room(&self) -> (b: bool)
        ensures
            b == has_headroom(self@),
    {
        let l = self.metrics.layered_snapshot();
        let lim: u64 = u64::MAX - 64;
        let metrics_ok = l.transport.rx_packets <= lim && l.transport.tx_packets <= lim
            && l.transport.gap_count <= lim && l.transport.late_packet <= lim && l.transport.drop <= lim
            && l.transport.latency_samples <= lim && l.radio.deadline_miss <= lim
            && l.radio.slot_deadline_miss <= lim && l.radio.symbol_received <= lim
            && l.radio.slot_received <= lim && l.radio.slot_processed <= lim
            && l.compute.kernel_executions <= lim && l.physical.crc_error <= lim;
        let nic_ok = (self.nic.completion_count() as u128) + (self.nic.pending_count() as u128) <= (u64::MAX
            - 4) as u128;
        metrics_ok && self.transport.late_packet_count() <= u64::MAX - 4
            && self.transport.sequence_gap_count() <= u64::MAX - 4 && nic_ok && self.bytes <= u64::MAX
            - 0x40_0000_0000 && self.packets <= lim && self.symbol_miss <= lim
    }

    fn deliver_one(&mut self, d: &Packet) -> (r: Result<u64, DatapathError>)
        requires
            counters_at_most(old(self)@.metrics.layered, (u64::MAX - 1) as u64),
            old(self)@.bytes + d.payload@.len() <= u64::MAX,
            old(self)@.packets < u64::MAX,
            old(self)@.symbol_miss < u64::MAX,
        ensures
            (final(self)@, r) == spec_deliver_one(old(self)@, *d),
    {
        self.metrics.record_rx();
        let lat: u64 = if self.include_gpu_kernel {
            match self.ring.process_packet(d.payload.as_slice(), self.now_ns) {
                Ok(l) => l,
                Err(e) => return Err(DatapathError::Gpu(e)),
            }
        } else {
            0
        };
        self.now_ns = self.now_ns.saturating_add(lat);
        let e2e = self.now_ns.saturating_sub(d.timestamp.0);
        self.latencies.push(e2e);
        self.metrics.record_latency_ns(e2e);
        if e2e > self.latency_budget_ns {
            self.symbol_miss = self.symbol_miss + 1;
            self.metrics.record_deadline_miss();
        }
        self.bytes = self.bytes + d.payload.len() as u64;
        self.packets = self.packets + 1;
        self.metrics.record_tx();
        Ok(e2e)
    }

    fn deliver(&mut self, ds: Vec<Packet>) -> (r: Result<Vec<u64>, DatapathError>)
        requires
            ds@.len() <= RX_BURST,
            forall|i: int| 0 <= i < ds@.len() ==> payload_fits(#[trigger] ds@[i]),
            counters_at_most(old(self)@.metrics.layered, (u64::MAX - 40) as u64),
            old(self)@.bytes <= u64::MAX - 0x21_0000_0000,
            old(self)@.packets <= u64::MAX - 40,
            old(self)@.symbol_miss <= u64::MAX - 40,
        ensures
            final(self)@.transport == old(self)@.transport,
            final(self)@.nic == old(self)@.nic,
            ({
                let (v, sr) = spec_deliver(old(self)@, ds@);
                final(self)@ == v && result_matches(r, sr)
            }),
    {
        let mut out: Vec<u64> = Vec::new();
        let mut i: usize = 0;
        proof {
            assert(ds@.skip(0) =~= ds@);
            assert(spec_deliver(old(self)@, ds@) == after_latencies(out@, spec_deliver(self@, ds@.skip(0)))) by {
                assert(out@ =~= Seq::<u64>::empty());
                let (v, r) = spec_deliver(self@, ds@);
                match r {
                    Ok(ls) => assert(out@ + ls =~= ls),
                    Err(e) => {},
                }
            }
        }
        while i < ds.len()
            invariant
                0 <= i <= ds@.len(),
                ds@.len() <= RX_BURST,
                forall|k: int| 0 <= k < ds@.len() ==> payload_fits(#[trigger] ds@[k]),
                self@.transport == old(self)@.transport,
                self@.nic == old(self)@.nic,
                counters_at_most(self@.metrics.layered, (u64::MAX - 40 + i) as u64),
                self@.bytes <= u64::MAX - 0x21_0000_0000 + i * 0x1_0000_0000,
                self@.packets <= u64::MAX - 40 + i,
                self@.symbol_miss <= u64::MAX - 40 + i,
                spec_deliver(old(self)@, ds@) == after_latencies(out@, spec_deliver(self@, ds@.skip(i as int))),
            decreases ds@.len() - i,
        {
            let ghost before = self@;
            proof {
                assert(ds@.skip(i as int)[0] == ds@[i as int]);
                assert(ds@.skip(i as int).drop_first() =~= ds@.skip(i + 1));
                assert(payload_fits(ds@[i as int]));
            }
            let r = self.deliver_one(&ds[i]);
            match r {
                Ok(l) => {
                    proof {
                        let (v2, r2) = spec_deliver(self@, ds@.skip(i + 1));
                        match r2 {
                            Ok(ls) => assert(out@ + (seq![l] + ls) =~= out@.push(l) + ls),
                            Err(e) => {},
                        }
                    }
                    out.push(l);
                },
                Err(e) => {
                    return Err(e);
                },
            }
            i = i + 1;
        }
        proof {
            assert(ds@.skip(i as int) =~= Seq::<Packet>::empty());
            assert(out@ + Seq::<u64>::empty() =~= out@);
        }
        Ok(out)
    }
}

pub(crate) proof fn lemma_partition_len(s: Seq<PendingView>, now: u64)
    ensures
        s.filter(crate::nic::is_due(now)).len() + s.filter(crate::nic::not_due(now)).len() == s.len(),
    decreases s.len(),
{
    reveal_with_fuel(Seq::filter, 1);
    if s.len() > 0 {
        lemma_partition_len(s.drop_last(), now);
    }
}

proof fn lemma_poll_keeps_total(n: Cx5View)
    ensures
        n.poll().completions + n.poll().pending.len() == n.completions + n.pending.len() || !n.can_poll(),
        n.can_poll() ==> n.poll().can_poll(),
{
    lemma_partition_len(n.pending, n.now_ns);
}

impl BenchRun {
    fn forward(&mut self) -> (r: Result<Vec<u64>, DatapathError>)
        requires
            old(self).inv(),
            old(self)@.nic.completions + old(self)@.nic.pending.len() <= u64::MAX - 2,
            counters_at_most(old(self)@.metrics.layered, (u64::MAX - 40) as u64),
            old(self)@.bytes <= u64::MAX - 0x21_0000_0000,
            old(self)@.packets <= u64::MAX - 40,
            old(self)@.symbol_miss <= u64::MAX - 40,
        ensures
            final(self).inv(),
            ({
                let (v, sr) = spec_forward(old(self)@);
                final(self)@ == v && result_matches(r, sr)
            }),
    {
        let ghost v0 = self@;
        let pkt = match self.transport.receive() {
            Ok(Some(p)) => p,
            _ => return Ok(Vec::new()),
        };
        assert(payload_fits(v0.transport.inbox[0]));
        proof {
            let n = self@.nic;
            lemma_poll_keeps_total(Cx5View { now_ns: self.now_ns, ..n });
            lemma_poll_fits(Cx5View { now_ns: self.now_ns, ..n });
        }
        self.nic.advance_time(self.now_ns);
        if self.include_nic_dma {
            let ghost n1 = self@.nic;
            let ghost ready_at = sat_add(n1.now_ns, n1.dma_latency_ns);
            proof {
                let pushed = Cx5View { pending: n1.pending.push(PendingView { ready_at_ns: ready_at, packet: pkt }), ..n1 };
                lemma_poll_keeps_total(pushed);
                lemma_poll_fits(pushed);
            }
            match self.nic.submit_rx(pkt) {
                Ok(()) => {},
                Err(e) => return Err(DatapathError::Nic(e)),
            }
            self.now_ns = self.now_ns.saturating_add(self.nic.dma_latency_ns());
            proof {
                let n2 = self@.nic;
                lemma_poll_keeps_total(Cx5View { now_ns: self.now_ns, ..n2 });
                lemma_poll_fits(Cx5View { now_ns: self.now_ns, ..n2 });
            }
            self.nic.advance_time(self.now_ns);
        } else {
            let ghost n1 = self@.nic;
            proof {
                let pushed = Cx5View {
                    pending: n1.pending.push(PendingView { ready_at_ns: self.now_ns, packet: pkt }),
                    ..n1
                };
                lemma_poll_keeps_total(pushed);
                lemma_poll_fits(pushed);
            }
            match self.nic.submit_rx_ready_at(pkt, self.now_ns) {
                Ok(()) => {},
                Err(e) => return Err(DatapathError::Nic(e)),
            }
        }
        proof {
            lemma_poll_keeps_total(self@.nic);
            lemma_poll_fits(self@.nic);
        }
        let ghost v_before_burst = self@;
        let ds = self.nic.rx_burst(RX_BURST);
        proof {
            let polled = v_before_burst.nic.poll();
            assert forall|i: int| 0 <= i < ds@.len() implies payload_fits(#[trigger] ds@[i]) by {
                assert(ds@[i] == polled.rx_ready[i]);
            }
            assert forall|i: int| 0 <= i < self@.nic.rx_ready.len() implies payload_fits(#[trigger] self@.nic.rx_ready[i]) by {
                assert(self@.nic.rx_ready[i] == polled.rx_ready[i + ds@.len()]);
            }
        }
        self.deliver(ds)
    }

    /// Runs one emitted packet through the datapath after it spent `wire_ns`
    /// on the wire; see [`spec_step`]. Returns the end-to-end latency of
    /// each packet the GPU stage took in this step.
    #[verifier::spinoff_prover]
    #[verifier::rlimit(40)]
    pub fn step(&mut self, packet: Packet, wire_ns: u64) -> (r: Result<Vec<u64>, DatapathError>)
        requires
            old(self).inv(),
            has_headroom(old(self)@),
            payload_fits(packet),
        ensures
            final(self).inv(),
            ({
                let (v, sr) = spec_step(old(self)@, packet, wire_ns);
                final(self)@ == v && result_matches(r, sr)
            }),
    {
        let base = if self.now_ns >= packet.timestamp.0 {
            self.now_ns
        } else {
            packet.timestamp.0
        };
        self.now_ns = base.saturating_add(wire_ns).saturating_add(self.fault.extra_latency_ns());
        if self.fault.should_drop_deterministic(packet.sequence.0) {
            self.metrics.record_drop();
            return Ok(Vec::new());
        }
        self.transport.set_now_ns(self.now_ns);
        let stream_id = packet.stream_id;
        match self.transport.offer(packet) {
            Ok(()) => {},
            Err((TransportError::SequenceGap { expected, got }, p)) => {
                self.transport.recover_sequence(stream_id, got);
                self.metrics.record_sequence_gap();
                match self.transport.offer(p) {
                    Ok(()) => {},
                    Err((e, _)) => return Err(DatapathError::Transport(e)),
                }
            },
            Err((TransportError::LatePacket { latency_ns, max_ns }, _)) => {
                self.metrics.record_deadline_miss();
                self.metrics.record_late_packet();
                return Ok(Vec::new());
            },
            Err((e, _)) => return Err(DatapathError::Transport(e)),
        }
        self.forward()
    }
}

/// The report of a finished run whose latencies, sorted, are `sorted`.
/// Throughput is left at zero for the caller to fill in.
pub open spec fn spec_report(v: BenchRunView, sorted: Seq<u64>) -> BenchReport {
    BenchReport {
        throughput: ThroughputStats { gbps_bits: 0, gbs_bits: 0, pps_bits: 0 },
        latency: spec_latency_stats(sorted),
        radio: RadioDeadlineStats { slot_miss: 0, symbol_miss: v.symbol_miss },
        packets: v.packets,
        bytes: v.bytes,
        sequence_gaps: v.transport.sequence_gaps,
        late_packets: v.transport.late_packets,
        sim_duration_ns: v.now_ns,
        recovery_actions: 0,
        ring_occupancy_peak: 0,
    }
}

impl BenchRun {
    /// Ends the run: the report over the sorted end-to-end latencies, and
    /// the metrics gathered.
    pub fn finish(self) -> (out: (BenchReport, MetricsEngine))
        ensures
            exists|sorted: Seq<u64>|
                #![trigger spec_report(self@, sorted)]
                sorted.to_multiset() == self@.latencies.to_multiset() && sorted_ascending(sorted) && out.0
                    == spec_report(self@, sorted),
            out.1@ == self@.metrics,
    {
        let ghost v = self@;
        let mut lat = self.latencies;
        sort_ascending(&mut lat);
        let report = BenchReport {
            throughput: ThroughputStats::default(),
            latency: LatencyStats::from_sorted_ns(lat.as_slice()),
            radio: RadioDeadlineStats { slot_miss: 0, symbol_miss: self.symbol_miss },
            packets: self.packets,
            bytes: self.bytes,
            sequence_gaps: self.transport.sequence_gap_count(),
            late_packets: self.transport.late_packet_count(),
            sim_duration_ns: self.now_ns,
            recovery_actions: 0,
            ring_occupancy_peak: 0,
        };
        assert(report == spec_report(v, lat@));
        (report, self.metrics)
    }

    /// The simulation clock (ns).
    pub fn now_ns(&self) -> (t: u64)
        ensures
            t == self@.now_ns,
    {
        self.now_ns
    }

    /// The metrics gathered so far.
    pub fn metrics(&self) -> (m: &MetricsEngine)
        ensures
            m@ == self@.metrics,
    {
        &self.metrics
    }

    /// The transport model.
    pub fn transport(&self) -> (t: &SimTransportEngine)
        ensures
            t@ == self@.transport,
    {
        &self.transport
    }
}

/// Packets a run holds or has disposed of: dropped by the fault model,
/// refused as late, queued in the transport or in the NIC, or delivered.
pub open spec fn accounted(v: BenchRunView) -> int {
    v.metrics.layered.transport.drop + v.transport.late_packets + v.transport.inbox.len() + v.nic.pending.len()
        + v.nic.rx_ready.len() + v.packets
}

proof fn lemma_deliver_counts(v: BenchRunView, ds: Seq<Packet>)
    requires
        v.packets + ds.len() <= u64::MAX,
    ensures
        spec_deliver(v, ds).1 is Ok ==> {
            &&& spec_deliver(v, ds).0.packets == v.packets + ds.len()
            &&& spec_deliver(v, ds).0.transport == v.transport
            &&& spec_deliver(v, ds).0.nic == v.nic
            &&& spec_deliver(v, ds).0.metrics.layered.transport.drop == v.metrics.layered.transport.drop
        },
    decreases ds.len(),
{
    if ds.len() > 0 {
        let (v1, r1) = spec_deliver_one(v, ds[0]);
        if r1 is Ok {
            lemma_deliver_counts(v1, ds.drop_first());
        }
    }
}

proof fn lemma_poll_keeps_queued(n: Cx5View)
    ensures
        n.poll().pending.len() + n.poll().rx_ready.len() == n.pending.len() + n.rx_ready.len(),
{
    lemma_partition_len(n.pending, n.now_ns);
}

proof fn lemma_burst_counts(v: BenchRunView)
    requires
        v.packets + RX_BURST <= u64::MAX,
    ensures
        spec_burst(v).1 is Ok ==> accounted(spec_burst(v).0) == accounted(v),
{
    let polled = v.nic.poll();
    lemma_poll_keeps_queued(v.nic);
    let k = if RX_BURST <= polled.rx_ready.len() { RX_BURST as int } else { polled.rx_ready.len() as int };
    let nic = Cx5View { rx_ready: polled.rx_ready.subrange(k, polled.rx_ready.len() as int), ..polled };
    lemma_deliver_counts(BenchRunView { nic, ..v }, polled.rx_ready.subrange(0, k));
}

proof fn lemma_forward_counts(v: BenchRunView)
    requires
        v.packets + RX_BURST <= u64::MAX,
        v.transport.inbox.len() > 0,
    ensures
        spec_forward(v).1 is Ok ==> accounted(spec_forward(v).0) == accounted(v),
{
    let t = v.transport;
    let pkt = t.inbox[0];
    let n1 = Cx5View { now_ns: v.now_ns, ..v.nic };
    lemma_poll_keeps_queued(n1);
    let v1 = BenchRunView {
        transport: SimTransportView { inbox: t.inbox.drop_first(), ..t },
        nic: n1.poll(),
        ..v
    };
    if v.include_nic_dma {
        let ready = sat_add(v1.nic.now_ns, v1.nic.dma_latency_ns);
        let (n2, r) = v1.nic.submit(pkt, ready);
        if r is Ok {
            lemma_poll_keeps_queued(Cx5View { pending: v1.nic.pending.push(PendingView { ready_at_ns: ready, packet: pkt }), ..v1.nic });
            let now = sat_add(v.now_ns, n2.dma_latency_ns);
            lemma_poll_keeps_queued(Cx5View { now_ns: now, ..n2 });
            lemma_burst_counts(BenchRunView { nic: Cx5View { now_ns: now, ..n2 }.poll(), now_ns: now, ..v1 });
        }
    } else {
        let (n2, r) = v1.nic.submit(pkt, v.now_ns);
        if r is Ok {
            lemma_poll_keeps_queued(Cx5View { pending: v1.nic.pending.push(PendingView { ready_at_ns: v.now_ns, packet: pkt }), ..v1.nic });
            lemma_burst_counts(BenchRunView { nic: n2, ..v1 });
        }
    }
}

/// Conservation: a step that succeeds accounts for the emitted packet
/// exactly once, as dropped, late, queued or delivered, and forgets none
/// that the run already held.
pub proof fn law_step_accounts_packet(v: BenchRunView, p: Packet, wire_ns: u64)
    requires
        has_headroom(v),
        spec_step(v, p, wire_ns).1 is Ok,
    ensures
        accounted(spec_step(v, p, wire_ns).0) == accounted(v) + 1,
{
    let now = spec_arrival(v, p, wire_ns);
    let v1 = BenchRunView { now_ns: now, ..v };
    if !spec_drop_deterministic(v.fault, p.sequence.0) {
        let (t2, r) = spec_ingest(SimTransportView { now_ns: now, ..v.transport }, p);
        match r {
            Ok(()) => {
                lemma_forward_counts(BenchRunView { transport: t2, ..v1 });
            },
            Err(TransportError::SequenceGap { expected, got }) => {
                let m = bump_gap(v.metrics);
                let (t4, r2) = spec_ingest(t2.recover(p.stream_id, got), p);
                if r2 is Ok {
                    lemma_forward_counts(BenchRunView { transport: t4, metrics: m, ..v1 });
                }
            },
            _ => {},
        }
    }
}

proof fn lemma_deliver_samples(v: BenchRunView, ds: Seq<Packet>)
    requires
        v.latencies.len() == v.packets,
        v.packets + ds.len() <= u64::MAX,
    ensures
        spec_deliver(v, ds).0.latencies.len() == spec_deliver(v, ds).0.packets,
    decreases ds.len(),
{
    if ds.len() > 0 {
        let (v1, r1) = spec_deliver_one(v, ds[0]);
        if r1 is Ok {
            lemma_deliver_samples(v1, ds.drop_first());
        }
    }
}

/// Every packet a run delivered left exactly one end-to-end latency sample:
/// a step keeps the number of samples equal to the number of packets.
pub proof fn law_one_sample_per_packet(v: BenchRunView, p: Packet, wire_ns: u64)
    requires
        has_headroom(v),
        v.latencies.len() == v.packets,
    ensures
        spec_step(v, p, wire_ns).0.latencies.len() == spec_step(v, p, wire_ns).0.packets,
{
    let now = spec_arrival(v, p, wire_ns);
    let v1 = BenchRunView { now_ns: now, ..v };
    if !spec_drop_deterministic(v.fault, p.sequence.0) {
        let (t2, r) = spec_ingest(SimTransportView { now_ns: now, ..v.transport }, p);
        let burst_samples = |w: BenchRunView| {
            let polled = w.nic.poll();
            let k = if RX_BURST <= polled.rx_ready.len() { RX_BURST as int } else { polled.rx_ready.len() as int };
            (Cx5View { rx_ready: polled.rx_ready.subrange(k, polled.rx_ready.len() as int), ..polled }, polled.rx_ready.subrange(0, k))
        };
        let forward_cases = |w: BenchRunView| {
            let t = w.transport;
            let n1 = Cx5View { now_ns: w.now_ns, ..w.nic }.poll();
            let w1 = BenchRunView { transport: SimTransportView { inbox: t.inbox.drop_first(), ..t }, nic: n1, ..w };
            (w1, t.inbox[0])
        };
        let check = |w: BenchRunView| {
            w.latencies.len() == w.packets && w.packets + RX_BURST <= u64::MAX
        };
        assert forall|w: BenchRunView| check(w) implies spec_forward(w).0.latencies.len() == spec_forward(w).0.packets by {
            if w.transport.inbox.len() > 0 {
                let (w1, pkt) = forward_cases(w);
                if w.include_nic_dma {
                    let (n2, r2) = w1.nic.submit(pkt, sat_add(w1.nic.now_ns, w1.nic.dma_latency_ns));
                    if r2 is Ok {
                        let now2 = sat_add(w.now_ns, n2.dma_latency_ns);
                        let w2 = BenchRunView { nic: Cx5View { now_ns: now2, ..n2 }.poll(), now_ns: now2, ..w1 };
                        let (nic, ds) = burst_samples(w2);
                        lemma_deliver_samples(BenchRunView { nic, ..w2 }, ds);
                    }
                } else {
                    let (n2, r2) = w1.nic.submit(pkt, w.now_ns);
                    if r2 is Ok {
                        let w2 = BenchRunView { nic: n2, ..w1 };
                        let (nic, ds) = burst_samples(w2);
                        lemma_deliver_samples(BenchRunView { nic, ..w2 }, ds);
                    }
                }
            }
        }
        match r {
            Ok(()) => {
                assert(check(BenchRunView { transport: t2, ..v1 }));
            },
            Err(TransportError::SequenceGap { expected, got }) => {
                let m = bump_gap(v.metrics);
                let (t4, r2) = spec_ingest(t2.recover(p.stream_id, got), p);
                assert(check(BenchRunView { transport: t4, metrics: m, ..v1 }));
            },
            _ => {},
        }
    }
}

} // verus!
