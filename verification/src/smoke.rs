//! One-packet smoke run: a packet the FPGA emitted crosses the transport
//! checks, the NIC's DMA delay and the GPU ring, each stage stamped into the
//! packet's trace and counted in a fresh metrics engine.

use vstd::prelude::*;

use crate::datapath::{lemma_partition_len, record_sample, RX_BURST};
use crate::gpu::GpuError;
use crate::gpu_ring::{sat_add, spec_empty_slot, GpuRingBuffer, GpuRingConfig, GpuRingView};
use crate::metrics::{
    counters_at_most, sat_add64, zero_snapshot, ComputeLayerMetrics, LayeredMetricsSnapshot, MetricsBackend,
    MetricsEngine, MetricsEngineView, PhysicalMetrics, RadioLayerMetrics, TransportLayerMetrics,
};
use crate::nic::{Cx5Error, Cx5Nic, Cx5View, NicDmaConfig, PacketIO, PendingView};
use crate::trace::{stamped, TraceEngine, TraceEngineView, TraceStage};
use crate::transport::{TransportEngine, TransportError};
use crate::transport_sim::{spec_ingest, SimTransportEngine, SimTransportView};
use crate::types::Packet;

verus! {

/// The smoke transport judges the packet as arriving this long (ns) after
/// its timestamp.
pub const SMOKE_ARRIVAL_NS: u64 = 10_000;

/// The stage at which a smoke run stopped.
#[derive(Debug, PartialEq, Eq)]
pub enum SmokeError {
    /// The transport refused the packet.
    Transport(TransportError),
    /// The transport accepted the packet but had nothing to hand on.
    NothingReceived,
    /// The NIC refused the packet.
    Nic(Cx5Error),
    /// The GPU ring failed on a packet.
    Gpu(GpuError),
}

/// A packet the GPU ring processed: its stream, sequence and the ring's latency.
#[derive(Debug, Clone, Copy, PartialEq, Eq, Structural)]
pub struct SmokeDelivery {
    pub stream_id: u32,
    pub sequence: u64,
    pub latency_ns: u64,
}

/// What a successful smoke run leaves: the pipeline clock after the last
/// packet, the metrics it recorded and the packets the ring processed.
pub struct SmokeOutcome {
    pub now_ns: u64,
    pub metrics: MetricsEngine,
    pub deliveries: Vec<SmokeDelivery>,
}

/// Abstract state of the models a smoke run drives, and its clock.
pub struct SmokeView {
    pub transport: SimTransportView,
    pub nic: Cx5View,
    pub ring: GpuRingView,
    pub metrics: MetricsEngineView,
    pub trace: TraceEngineView,
    pub now_ns: u64,
}

/// Metrics after one received packet of `bytes` bytes.
pub open spec fn with_rx_bytes(m: MetricsEngineView, bytes: u64) -> MetricsEngineView {
    MetricsEngineView {
        layered: LayeredMetricsSnapshot {
            transport: TransportLayerMetrics {
                rx_packets: (m.layered.transport.rx_packets + 1) as u64,
                rx_bytes: sat_add64(m.layered.transport.rx_bytes, bytes),
                ..m.layered.transport
            },
            ..m.layered
        },
        ..m
    }
}

/// Metrics after one sent packet of `bytes` bytes.
pub open spec fn with_tx_bytes(m: MetricsEngineView, bytes: u64) -> MetricsEngineView {
    MetricsEngineView {
        layered: LayeredMetricsSnapshot {
            transport: TransportLayerMetrics {
                tx_packets: (m.layered.transport.tx_packets + 1) as u64,
                tx_bytes: sat_add64(m.layered.transport.tx_bytes, bytes),
                ..m.layered.transport
            },
            ..m.layered
        },
        ..m
    }
}

/// Metrics after one received symbol (one slot received and processed).
pub open spec fn with_symbol(m: MetricsEngineView) -> MetricsEngineView {
    MetricsEngineView {
        layered: LayeredMetricsSnapshot {
            radio: RadioLayerMetrics {
                symbol_received: (m.layered.radio.symbol_received + 1) as u64,
                slot_received: (m.layered.radio.slot_received + 1) as u64,
                slot_processed: (m.layered.radio.slot_processed + 1) as u64,
                ..m.layered.radio
            },
            ..m.layered
        },
        ..m
    }
}

/// Metrics after one kernel run of `ns` nanoseconds.
pub open spec fn with_kernel(m: MetricsEngineView, ns: u64) -> MetricsEngineView {
    MetricsEngineView {
        layered: LayeredMetricsSnapshot {
            compute: ComputeLayerMetrics {
                kernel_latency_ns: ns,
                kernel_executions: (m.layered.compute.kernel_executions + 1) as u64,
                ..m.layered.compute
            },
            ..m.layered
        },
        ..m
    }
}

/// The models a smoke run starts from: the caller's transport and trace, a
/// fresh NIC and GPU ring, fresh metrics with the link up at the given
/// speed, and the clock at the packet's timestamp.
pub open spec fn smoke_start(
    transport: SimTransportView,
    nic_cfg: NicDmaConfig,
    ring_cfg: GpuRingConfig,
    link_speed_gbps_bits: u64,
    trace: TraceEngineView,
    p: Packet,
) -> SmokeView {
    SmokeView {
        transport,
        nic: Cx5View {
            dma_latency_ns: nic_cfg.dma_latency_ns,
            rx_queue_depth: nic_cfg.rx_queue_depth,
            tx_queue_depth: nic_cfg.tx_queue_depth,
            now_ns: 0,
            pending: Seq::empty(),
            rx_ready: Seq::empty(),
            tx: Seq::empty(),
            completions: 0,
        },
        ring: GpuRingView {
            slots: Seq::new(ring_cfg.slot_count as nat, |i: int| spec_empty_slot()),
            slot_bytes: ring_cfg.slot_bytes,
            kernel_delay_ns: ring_cfg.kernel_delay_ns,
        },
        metrics: MetricsEngineView {
            layered: LayeredMetricsSnapshot {
                physical: PhysicalMetrics {
                    link_up: true,
                    link_speed_gbps_bits,
                    ..zero_snapshot().physical
                },
                ..zero_snapshot()
            },
            last_latency_ns: 0,
        },
        trace,
        now_ns: p.timestamp.0,
    }
}

/// Runs `ds` through the GPU ring in order, stopping at the first error.
/// Each packet is counted as received and as one symbol and stamped as
/// enqueued; once processed, the clock advances by the ring's latency, the
/// kernel run, the sent packet and the latency sample are counted, and the
/// packet is stamped as done.
pub open spec fn spec_smoke_burst(s: SmokeView, trace_id: u64, ds: Seq<Packet>) -> (
    SmokeView,
    Result<Seq<SmokeDelivery>, SmokeError>,
)
    decreases ds.len(),
{
    if ds.len() == 0 {
        (s, Ok(Seq::empty()))
    } else {
        let d = ds[0];
        let bytes = d.payload@.len() as u64;
        let m1 = with_symbol(with_rx_bytes(s.metrics, bytes));
        let tr1 = stamped(s.trace, trace_id, TraceStage::GpuEnqueue, s.now_ns);
        let (ring, r) = s.ring.process_packet(d.payload@, s.now_ns);
        match r {
            Err(e) => (SmokeView { ring, metrics: m1, trace: tr1, ..s }, Err(SmokeError::Gpu(e))),
            Ok(l) => {
                let now = sat_add(s.now_ns, l);
                let s1 = SmokeView {
                    ring,
                    metrics: record_sample(with_tx_bytes(with_kernel(m1, l), bytes), l),
                    trace: stamped(tr1, trace_id, TraceStage::CudaDone, now),
                    now_ns: now,
                    ..s
                };
                let ev = SmokeDelivery { stream_id: d.stream_id.0, sequence: d.sequence.0, latency_ns: l };
                let (s2, r2) = spec_smoke_burst(s1, trace_id, ds.drop_first());
                match r2 {
                    Err(e) => (s2, Err(e)),
                    Ok(evs) => (s2, Ok(seq![ev] + evs)),
                }
            },
        }
    }
}

/// The smoke pipeline for packet `p` traced under `trace_id`, from `s`
/// (whose clock is the packet's timestamp): the transport's clock is set
/// [`SMOKE_ARRIVAL_NS`] past the timestamp and the packet ingested and
/// received (stamped `Cx5Rx` at that time); the NIC, brought to the clock,
/// takes it with its DMA delay; the clock moves past the delay (stamped
/// `DmaDone`) and up to [`RX_BURST`] packets the NIC then shows go through
/// the GPU ring (see [`spec_smoke_burst`]).
pub open spec fn spec_smoke(s: SmokeView, trace_id: u64, p: Packet) -> (
    SmokeView,
    Result<Seq<SmokeDelivery>, SmokeError>,
) {
    let arrival = sat_add(p.timestamp.0, SMOKE_ARRIVAL_NS);
    let (t1, r) = spec_ingest(SimTransportView { now_ns: arrival, ..s.transport }, p);
    match r {
        Err(e) => (SmokeView { transport: t1, ..s }, Err(SmokeError::Transport(e))),
        Ok(()) => if t1.inbox.len() == 0 {
            (SmokeView { transport: t1, ..s }, Err(SmokeError::NothingReceived))
        } else {
            let t2 = SimTransportView { inbox: t1.inbox.drop_first(), ..t1 };
            let tr1 = stamped(s.trace, trace_id, TraceStage::Cx5Rx, arrival);
            let n1 = Cx5View { now_ns: s.now_ns, ..s.nic }.poll();
            let (n2, r2) = n1.submit(t1.inbox[0], sat_add(n1.now_ns, n1.dma_latency_ns));
            match r2 {
                Err(e) => (SmokeView { transport: t2, nic: n2, trace: tr1, ..s }, Err(SmokeError::Nic(e))),
                Ok(()) => {
                    let now = sat_add(s.now_ns, n2.dma_latency_ns);
                    let polled = Cx5View { now_ns: now, ..n2 }.poll().poll();
                    let k = if RX_BURST <= polled.rx_ready.len() {
                        RX_BURST as int
                    } else {
                        polled.rx_ready.len() as int
                    };
                    spec_smoke_burst(
                        SmokeView {
                            transport: t2,
                            nic: Cx5View { rx_ready: polled.rx_ready.subrange(k, polled.rx_ready.len() as int), ..polled },
                            trace: stamped(tr1, trace_id, TraceStage::DmaDone, now),
                            now_ns: now,
                            ..s
                        },
                        trace_id,
                        polled.rx_ready.subrange(0, k),
                    )
                },
            }
        },
    }
}

/// `vr` with the deliveries `es` put in front of a successful result.
pub open spec fn after_deliveries(
    es: Seq<SmokeDelivery>,
    vr: (SmokeView, Result<Seq<SmokeDelivery>, SmokeError>),
) -> (SmokeView, Result<Seq<SmokeDelivery>, SmokeError>) {
    match vr.1 {
        Ok(ls) => (vr.0, Ok(es + ls)),
        Err(e) => (vr.0, Err(e)),
    }
}

/// Carries `packet`, already traced under `trace_id`, through the smoke
/// pipeline of [`spec_smoke`], over a NIC and a GPU ring built from the
/// given configurations and fresh metrics with the link up at
/// `link_speed_gbps_bits` (a bit pattern). The transport and the trace keep
/// what the run did to them.
pub fn run_smoke_packet(
    packet: Packet,
    trace_id: u64,
    transport: &mut SimTransportEngine,
    nic_cfg: NicDmaConfig,
    ring_cfg: GpuRingConfig,
    link_speed_gbps_bits: u64,
    trace: &mut TraceEngine,
) -> (r: Result<SmokeOutcome, SmokeError>)
    requires
        old(transport)@.late_packets < u64::MAX,
        old(transport)@.sequence_gaps < u64::MAX,
        old(trace).inv(),
    ensures
        final(trace).inv(),
        ({
            let (s, sr) = spec_smoke(
                smoke_start(old(transport)@, nic_cfg, ring_cfg, link_speed_gbps_bits, old(trace)@, packet),
                trace_id,
                packet,
            );
            &&& final(transport)@ == s.transport
            &&& final(trace)@ == s.trace
            &&& match r {
                Ok(o) => sr == Ok::<Seq<SmokeDelivery>, SmokeError>(o.deliveries@) && o.now_ns == s.now_ns
                    && o.metrics@ == s.metrics,
                Err(e) => sr == Err::<Seq<SmokeDelivery>, SmokeError>(e),
            }
        }),
{
    let ghost s0 = smoke_start(old(transport)@, nic_cfg, ring_cfg, link_speed_gbps_bits, old(trace)@, packet);
    let mut nic = Cx5Nic::new(nic_cfg);
    let mut ring = GpuRingBuffer::new(ring_cfg);
    let mut metrics = MetricsEngine::new();
    metrics.set_link_up(true, link_speed_gbps_bits);
    let mut now = packet.timestamp.0;
    let arrival = now.saturating_add(SMOKE_ARRIVAL_NS);
    proof {
        assert(nic@ == s0.nic);
        assert(ring@ == s0.ring);
        assert(metrics@ == s0.metrics);
    }
    transport.set_now_ns(arrival);
    match transport.ingest(packet) {
        Ok(()) => {},
        Err(e) => return Err(SmokeError::Transport(e)),
    }
    let received = match transport.receive() {
        Ok(Some(p)) => p,
        _ => return Err(SmokeError::NothingReceived),
    };
    trace.stamp(trace_id, TraceStage::Cx5Rx, arrival);
    proof {
        lemma_partition_len(nic@.pending, now);
    }
    nic.advance_time(now);
    proof {
        let n1 = nic@;
        let pushed = Cx5View {
            pending: n1.pending.push(PendingView { ready_at_ns: sat_add(n1.now_ns, n1.dma_latency_ns), packet: received }),
            ..n1
        };
        lemma_partition_len(pushed.pending, pushed.now_ns);
    }
    match nic.submit_rx(received) {
        Ok(()) => {},
        Err(e) => return Err(SmokeError::Nic(e)),
    }
    now = now.saturating_add(nic.dma_latency_ns());
    proof {
        let n2 = Cx5View { now_ns: now, ..nic@ };
        lemma_partition_len(n2.pending, n2.now_ns);
        lemma_partition_len(n2.poll().pending, n2.now_ns);
    }
    nic.advance_time(now);
    trace.stamp(trace_id, TraceStage::DmaDone, now);
    let ds = nic.rx_burst(RX_BURST);
    let ghost s1 = SmokeView {
        transport: transport@,
        nic: nic@,
        ring: ring@,
        metrics: metrics@,
        trace: trace@,
        now_ns: now,
    };
    let mut out: Vec<SmokeDelivery> = Vec::new();
    let mut i: usize = 0;
    proof {
        assert(ds@.skip(0) =~= ds@);
        match spec_smoke_burst(s1, trace_id, ds@).1 {
            Ok(ls) => assert(out@ + ls =~= ls),
            Err(e) => {},
        }
    }
    while i < ds.len()
        invariant
            0 <= i <= ds@.len(),
            ds@.len() <= RX_BURST,
            trace.inv(),
            counters_at_most(metrics@.layered, i as u64),
            transport@ == s1.transport,
            nic@ == s1.nic,
            s0 == smoke_start(old(transport)@, nic_cfg, ring_cfg, link_speed_gbps_bits, old(trace)@, packet),
            spec_smoke(s0, trace_id, packet) == spec_smoke_burst(s1, trace_id, ds@),
            spec_smoke_burst(s1, trace_id, ds@) == after_deliveries(
                out@,
                spec_smoke_burst(
                    SmokeView {
                        transport: transport@,
                        nic: nic@,
                        ring: ring@,
                        metrics: metrics@,
                        trace: trace@,
                        now_ns: now,
                    },
                    trace_id,
                    ds@.skip(i as int),
                ),
            ),
        decreases ds@.len() - i,
    {
        proof {
            assert(ds@.skip(i as int)[0] == ds@[i as int]);
            assert(ds@.skip(i as int).drop_first() =~= ds@.skip(i + 1));
        }
        let ghost before = SmokeView {
            transport: transport@,
            nic: nic@,
            ring: ring@,
            metrics: metrics@,
            trace: trace@,
            now_ns: now,
        };
        let d = &ds[i];
        let bytes = d.payload.len() as u64;
        metrics.record_rx_bytes(bytes);
        metrics.record_symbol();
        trace.stamp(trace_id, TraceStage::GpuEnqueue, now);
        let latency = match ring.process_packet(d.payload.as_slice(), now) {
            Ok(l) => l,
            Err(e) => {
                proof {
                    let after = SmokeView {
                        transport: transport@,
                        nic: nic@,
                        ring: ring@,
                        metrics: metrics@,
                        trace: trace@,
                        now_ns: now,
                    };
                    assert(spec_smoke_burst(before, trace_id, ds@.skip(i as int)) == (
                        after,
                        Err::<Seq<SmokeDelivery>, SmokeError>(SmokeError::Gpu(e)),
                    ));
                }
                return Err(SmokeError::Gpu(e));
            },
        };
        now = now.saturating_add(latency);
        metrics.record_kernel_ns(latency);
        metrics.record_tx_bytes(bytes);
        metrics.record_latency_sample(latency);
        trace.stamp(trace_id, TraceStage::CudaDone, now);
        let ev = SmokeDelivery { stream_id: d.stream_id.0, sequence: d.sequence.0, latency_ns: latency };
        proof {
            let cur = SmokeView {
                transport: transport@,
                nic: nic@,
                ring: ring@,
                metrics: metrics@,
                trace: trace@,
                now_ns: now,
            };
            match spec_smoke_burst(cur, trace_id, ds@.skip(i + 1)).1 {
                Ok(ls) => assert(out@ + (seq![ev] + ls) =~= out@.push(ev) + ls),
                Err(e) => {},
            }
        }
        out.push(ev);
        i = i + 1;
    }
    proof {
        assert(ds@.skip(i as int) =~= Seq::<Packet>::empty());
        assert(out@ + Seq::<SmokeDelivery>::empty() =~= out@);
    }
    Ok(SmokeOutcome { now_ns: now, metrics, deliveries: out })
}

proof fn lemma_burst_counts(s: SmokeView, trace_id: u64, ds: Seq<Packet>)
    requires
        s.metrics.layered.transport.rx_packets + ds.len() <= u64::MAX,
        s.metrics.layered.transport.tx_packets + ds.len() <= u64::MAX,
        s.metrics.layered.transport.latency_samples + ds.len() <= u64::MAX,
        s.metrics.layered.radio.symbol_received + ds.len() <= u64::MAX,
        s.metrics.layered.radio.slot_received + ds.len() <= u64::MAX,
        s.metrics.layered.radio.slot_processed + ds.len() <= u64::MAX,
        s.metrics.layered.compute.kernel_executions + ds.len() <= u64::MAX,
    ensures
        spec_smoke_burst(s, trace_id, ds).1 matches Ok(evs) ==> {
            let m = spec_smoke_burst(s, trace_id, ds).0.metrics.layered;
            &&& m.transport.rx_packets == s.metrics.layered.transport.rx_packets + evs.len()
            &&& m.transport.tx_packets == s.metrics.layered.transport.tx_packets + evs.len()
            &&& m.transport.latency_samples == s.metrics.layered.transport.latency_samples + evs.len()
            &&& m.radio.symbol_received == s.metrics.layered.radio.symbol_received + evs.len()
            &&& m.compute.kernel_executions == s.metrics.layered.compute.kernel_executions + evs.len()
        },
    decreases ds.len(),
{
    if ds.len() > 0 {
        let d = ds[0];
        let bytes = d.payload@.len() as u64;
        let m1 = with_symbol(with_rx_bytes(s.metrics, bytes));
        let tr1 = stamped(s.trace, trace_id, TraceStage::GpuEnqueue, s.now_ns);
        let (ring, r) = s.ring.process_packet(d.payload@, s.now_ns);
        if r is Ok {
            let l = r->Ok_0;
            let now = sat_add(s.now_ns, l);
            let s1 = SmokeView {
                ring,
                metrics: record_sample(with_tx_bytes(with_kernel(m1, l), bytes), l),
                trace: stamped(tr1, trace_id, TraceStage::CudaDone, now),
                now_ns: now,
                ..s
            };
            lemma_burst_counts(s1, trace_id, ds.drop_first());
        }
    }
}

/// A successful smoke run counts each packet the ring processed exactly
/// once: as a received and a sent packet, a symbol, a kernel run and a
/// latency sample, and nothing else.
pub proof fn law_smoke_counts_deliveries(
    transport: SimTransportView,
    nic_cfg: NicDmaConfig,
    ring_cfg: GpuRingConfig,
    link_speed_gbps_bits: u64,
    trace: TraceEngineView,
    trace_id: u64,
    p: Packet,
)
    ensures
        ({
            let (s, sr) = spec_smoke(
                smoke_start(transport, nic_cfg, ring_cfg, link_speed_gbps_bits, trace, p),
                trace_id,
                p,
            );
            sr matches Ok(evs) ==> {
                &&& s.metrics.layered.transport.rx_packets == evs.len()
                &&& s.metrics.layered.transport.tx_packets == evs.len()
                &&& s.metrics.layered.transport.latency_samples == evs.len()
                &&& s.metrics.layered.radio.symbol_received == evs.len()
                &&& s.metrics.layered.compute.kernel_executions == evs.len()
            }
        }),
{
    let s = smoke_start(transport, nic_cfg, ring_cfg, link_speed_gbps_bits, trace, p);
    let arrival = sat_add(p.timestamp.0, SMOKE_ARRIVAL_NS);
    let (t1, r) = spec_ingest(SimTransportView { now_ns: arrival, ..s.transport }, p);
    if r is Ok && t1.inbox.len() > 0 {
        let t2 = SimTransportView { inbox: t1.inbox.drop_first(), ..t1 };
        let tr1 = stamped(s.trace, trace_id, TraceStage::Cx5Rx, arrival);
        let n1 = Cx5View { now_ns: s.now_ns, ..s.nic }.poll();
        let (n2, r2) = n1.submit(t1.inbox[0], sat_add(n1.now_ns, n1.dma_latency_ns));
        if r2 is Ok {
            let now = sat_add(s.now_ns, n2.dma_latency_ns);
            let polled = Cx5View { now_ns: now, ..n2 }.poll().poll();
            let k = if RX_BURST <= polled.rx_ready.len() {
                RX_BURST as int
            } else {
                polled.rx_ready.len() as int
            };
            lemma_burst_counts(
                SmokeView {
                    transport: t2,
                    nic: Cx5View { rx_ready: polled.rx_ready.subrange(k, polled.rx_ready.len() as int), ..polled },
                    trace: stamped(tr1, trace_id, TraceStage::DmaDone, now),
                    now_ns: now,
                    ..s
                },
                trace_id,
                polled.rx_ready.subrange(0, k),
            );
        }
    }
}

} // verus!
