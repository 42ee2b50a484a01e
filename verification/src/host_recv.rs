//! Host side of a two-process link: each frame received from the FPGA
//! process crosses the transport checks, the NIC's DMA pipeline and the GPU
//! ring; the host counts the packets it accepts until it has enough.

use vstd::prelude::*;

use crate::datapath::{
    bump_gap, bump_late, bump_miss, bump_rx, bump_tx, lemma_partition_len, DatapathError, RX_BURST,
};
use crate::gpu_ring::{sat_add, sat_sub, GpuRingBuffer, GpuRingConfig, GpuRingView};
use crate::metrics::{counters_at_most, MetricsEngine, MetricsEngineView};
use crate::nic::{Cx5Nic, Cx5View, NicDmaConfig, PacketIO, PendingView};
use crate::transport::{LinkManager, StreamConfig, StreamManager, StreamState, TransportEngine, TransportError};
use crate::transport_check::TransportDeadlineConfig;
use crate::transport_sim::{spec_ingest, SimTransportEngine, SimTransportView, StreamRuntime};
use crate::types::{Packet, StreamId};

verus! {

/// Receive-clock slack given to each frame: it is judged as if it arrived
/// one millisecond after its timestamp.
pub const ARRIVAL_SLACK_NS: u64 = 1_000_000;

/// Deadline of the host's stream (ns).
pub const HOST_STREAM_DEADLINE_NS: u64 = 50_000_000;

/// A packet the host pipeline accepted: its stream, sequence and end-to-end latency.
#[derive(Debug, Clone, Copy, PartialEq, Eq, Structural)]
pub struct Delivered {
    pub stream_id: u32,
    pub sequence: u64,
    pub e2e_ns: u64,
}

/// Abstract state of a [`HostRecv`].
pub struct HostRecvView {
    pub transport: SimTransportView,
    pub nic: Cx5View,
    pub ring: GpuRingView,
    pub metrics: MetricsEngineView,
    pub stream_id: StreamId,
    pub now_ns: u64,
    pub accepted: u64,
    pub symbols: u64,
}

/// Delivers `ds` in order until the host has accepted `symbols` packets
/// (the rest of the burst is left unprocessed), stopping at the first error.
pub open spec fn spec_host_deliver(v: HostRecvView, ds: Seq<Packet>) -> (HostRecvView, Result<Seq<Delivered>, DatapathError>)
    decreases ds.len(),
{
    if ds.len() == 0 {
        (v, Ok(Seq::empty()))
    } else {
        let d = ds[0];
        let m1 = bump_rx(v.metrics);
        let (ring, r) = v.ring.process_packet(d.payload@, v.now_ns);
        match r {
            Err(e) => (HostRecvView { metrics: m1, ring, ..v }, Err(DatapathError::Gpu(e))),
            Ok(l) => {
                let now = sat_add(v.now_ns, l);
                let ev = Delivered { stream_id: d.stream_id.0, sequence: d.sequence.0, e2e_ns: sat_sub(now, d.timestamp.0) };
                let v1 = HostRecvView {
                    metrics: bump_tx(m1),
                    ring,
                    now_ns: now,
                    accepted: (v.accepted + 1) as u64,
                    ..v
                };
                if v1.accepted >= v.symbols {
                    (v1, Ok(seq![ev]))
                } else {
                    let (v2, r2) = spec_host_deliver(v1, ds.drop_first());
                    match r2 {
                        Err(e) => (v2, Err(e)),
                        Ok(evs) => (v2, Ok(seq![ev] + evs)),
                    }
                }
            },
        }
    }
}

/// Moves the transport's oldest accepted packet, if any, through the NIC's
/// DMA delay and delivers up to [`RX_BURST`] packets the NIC then shows.
pub open spec fn spec_host_forward(v: HostRecvView) -> (HostRecvView, Result<Seq<Delivered>, DatapathError>) {
    let t = v.transport;
    if t.inbox.len() == 0 {
        (v, Ok(Seq::empty()))
    } else {
        let n0 = Cx5View { now_ns: v.now_ns, ..v.nic }.poll();
        let v1 = HostRecvView { transport: SimTransportView { inbox: t.inbox.drop_first(), ..t }, nic: n0, ..v };
        let (n1, r) = n0.submit(t.inbox[0], sat_add(n0.now_ns, n0.dma_latency_ns));
        match r {
            Err(e) => (HostRecvView { nic: n1, ..v1 }, Err(DatapathError::Nic(e))),
            Ok(()) => {
                let now = sat_add(v.now_ns, n1.dma_latency_ns);
                let polled = Cx5View { now_ns: now, ..n1 }.poll().poll();
                let k = if RX_BURST <= polled.rx_ready.len() { RX_BURST as int } else { polled.rx_ready.len() as int };
                spec_host_deliver(
                    HostRecvView {
                        nic: Cx5View { rx_ready: polled.rx_ready.subrange(k, polled.rx_ready.len() as int), ..polled },
                        now_ns: now,
                        ..v1
                    },
                    polled.rx_ready.subrange(0, k),
                )
            },
        }
    }
}

/// One received frame through the host pipeline. A sequence gap resyncs the
/// host's stream, is counted, and the frame is offered again (and dropped if
/// refused again); a late frame is counted as a deadline miss and a late
/// packet; any other refusal drops the frame.
pub open spec fn spec_on_packet(v: HostRecvView, p: Packet) -> (HostRecvView, Result<Seq<Delivered>, DatapathError>) {
    let t1 = SimTransportView { now_ns: sat_add(p.timestamp.0, ARRIVAL_SLACK_NS), ..v.transport };
    let (t2, r) = spec_ingest(t1, p);
    match r {
        Ok(()) => spec_host_forward(HostRecvView { transport: t2, ..v }),
        Err(TransportError::SequenceGap { expected, got }) => {
            let m = bump_gap(v.metrics);
            let (t4, r2) = spec_ingest(t2.recover(v.stream_id, got), p);
            match r2 {
                Err(e) => (HostRecvView { transport: t4, metrics: m, ..v }, Ok(Seq::empty())),
                Ok(()) => spec_host_forward(HostRecvView { transport: t4, metrics: m, ..v }),
            }
        },
        Err(TransportError::LatePacket { latency_ns, max_ns }) => (
            HostRecvView { transport: t2, metrics: bump_late(bump_miss(v.metrics)), ..v },
            Ok(Seq::empty()),
        ),
        Err(e) => (HostRecvView { transport: t2, ..v }, Ok(Seq::empty())),
    }
}

/// No counter a frame bumps can overflow while it is handled.
pub open spec fn host_headroom(v: HostRecvView) -> bool {
    &&& counters_at_most(v.metrics.layered, (u64::MAX - 64) as u64)
    &&& v.transport.late_packets <= u64::MAX - 4
    &&& v.transport.sequence_gaps <= u64::MAX - 4
    &&& v.nic.completions + v.nic.pending.len() <= u64::MAX - 4
    &&& v.accepted <= u64::MAX - 64
}

/// Whether an executable result stands for a spec result.
pub open spec fn events_match(r: Result<Vec<Delivered>, DatapathError>, sr: Result<Seq<Delivered>, DatapathError>) -> bool {
    match r {
        Ok(es) => sr == Ok::<Seq<Delivered>, DatapathError>(es@),
        Err(e) => sr == Err::<Seq<Delivered>, DatapathError>(e),
    }
}

/// `(v, r)` with the deliveries `es` put in front of a successful `r`.
pub open spec fn after_events(
    es: Seq<Delivered>,
    vr: (HostRecvView, Result<Seq<Delivered>, DatapathError>),
) -> (HostRecvView, Result<Seq<Delivered>, DatapathError>) {
    match vr.1 {
        Ok(ls) => (vr.0, Ok(es + ls)),
        Err(e) => (vr.0, Err(e)),
    }
}

/// Host receive pipeline for one stream.
pub struct HostRecv {
    transport: SimTransportEngine,
    nic: Cx5Nic,
    ring: GpuRingBuffer,
    metrics: MetricsEngine,
    stream_id: StreamId,
    now_ns: u64,
    accepted: u64,
    symbols: u64,
}

impl View for HostRecv {
    type V = HostRecvView;

    closed spec fn view(&self) -> HostRecvView {
        HostRecvView {
            transport: self.transport@,
            nic: self.nic@,
            ring: self.ring@,
            metrics: self.metrics@,
            stream_id: self.stream_id,
            now_ns: self.now_ns,
            accepted: self.accepted,
            symbols: self.symbols,
        }
    }
}

impl HostRecv {
    /// A host pipeline for `stream_id` that wants `symbols` packets: link up,
    /// the stream created (carrier 0, antenna 0, deadline
    /// [`HOST_STREAM_DEADLINE_NS`]) and running, over fresh models.
    pub fn new(
        deadline: TransportDeadlineConfig,
        nic_cfg: NicDmaConfig,
        ring_cfg: GpuRingConfig,
        stream_id: StreamId,
        symbols: u64,
    ) -> (h: Self)
        ensures
            h@.transport.streams == Map::<u32, StreamRuntime>::empty().insert(
                stream_id.0,
                StreamRuntime {
                    cfg: StreamConfig { stream_id, carrier: 0, antenna: 0, qos: 0, deadline_ns: HOST_STREAM_DEADLINE_NS },
                    state: StreamState::Running,
                },
            ),
            h@.transport.link == crate::transport::LinkState::Running,
            h@.transport.inbox == Seq::<Packet>::empty(),
            h@.transport.max_latency_ns == deadline.max_latency_ns,
            h@.transport.seq.next == Map::<u32, u64>::empty().insert(stream_id.0, deadline.start_sequence),
            h@.transport.seq.start == deadline.start_sequence,
            h@.transport.seq.allow_reorder == deadline.allow_reorder,
            h@.transport.sequence_gaps == 0,
            h@.transport.late_packets == 0,
            h@.nic.pending == Seq::<PendingView>::empty(),
            h@.nic.rx_ready == Seq::<Packet>::empty(),
            h@.nic.completions == 0,
            h@.nic.now_ns == 0,
            h@.nic.dma_latency_ns == nic_cfg.dma_latency_ns,
            h@.nic.rx_queue_depth == nic_cfg.rx_queue_depth,
            h@.ring.slots.len() == ring_cfg.slot_count,
            h@.ring.slot_bytes == ring_cfg.slot_bytes,
            h@.ring.kernel_delay_ns == ring_cfg.kernel_delay_ns,
            h@.metrics.layered == crate::metrics::zero_snapshot(),
            h@.stream_id == stream_id,
            h@.now_ns == 0,
            h@.accepted == 0,
            h@.symbols == symbols,
    {
        let mut transport = SimTransportEngine::new(deadline);
        let _ = transport.link_up();
        let _ = transport.create_stream(
            StreamConfig { stream_id, carrier: 0, antenna: 0, qos: 0, deadline_ns: HOST_STREAM_DEADLINE_NS },
        );
        let _ = transport.start_stream(stream_id);
        HostRecv {
            transport,
            nic: Cx5Nic::new(nic_cfg),
            ring: GpuRingBuffer::new(ring_cfg),
            metrics: MetricsEngine::new(),
            stream_id,
            now_ns: 0,
            accepted: 0,
            symbols,
        }
    }

    /// Whether the host has accepted all the packets it wants.
    pub fn done(&self) -> (b: bool)
        ensures
            b == (self@.accepted >= self@.symbols),
    {
        self.accepted >= self.symbols
    }

    pub fn accepted(&self) -> (n: u64)
        ensures
            n == self@.accepted,
    {
        self.accepted
    }

    pub fn metrics(&self) -> (m: &MetricsEngine)
        ensures
            m@ == self@.metrics,
    {
        &self.metrics
    }

    pub fn transport(&self) -> (t: &SimTransportEngine)
        ensures
            t@ == self@.transport,
    {
        &self.transport
    }

    /// Whether a frame can be handled without a counter overflowing.
    pub fn has_room(&self) -> (b: bool)
        ensures
            b == host_headroom(self@),
    {
        let l = self.metrics.layered_snapshot();
        let lim: u64 = u64::MAX - 64;
        let metrics_ok = l.transport.rx_packets <= lim && l.transport.tx_packets <= lim
            && l.transport.gap_count <= lim && l.transport.late_packet <= lim && l.transport.drop <= lim
            && l.transport.latency_samples <= lim && l.radio.deadline_miss <= lim
            && l.radio.slot_deadline_miss <= lim && l.radio.symbol_received <= lim
            && l.radio.slot_received <= lim && l.radio.slot_processed <= lim
            && l.compute.kernel_executions <= lim && l.physical.crc_error <= lim;
        let nic_ok = (self.nic.completion_count() as u128) + (self.nic.pending_count() as u128) <= (u64::MAX
            - 4) as u128;
        metrics_ok && self.transport.late_packet_count() <= u64::MAX - 4
            && self.transport.sequence_gap_count() <= u64::MAX - 4 && nic_ok && self.accepted <= lim
    }

    fn deliver(&mut self, ds: Vec<Packet>) -> (r: Result<Vec<Delivered>, DatapathError>)
        requires
            ds@.len() <= RX_BURST,
            counters_at_most(old(self)@.metrics.layered, (u64::MAX - 40) as u64),
            old(self)@.accepted <= u64::MAX - 40,
        ensures
            ({
                let (v, sr) = spec_host_deliver(old(self)@, ds@);
                final(self)@ == v && events_match(r, sr)
            }),
    {
        let mut out: Vec<Delivered> = Vec::new();
        let mut i: usize = 0;
        proof {
            assert(ds@.skip(0) =~= ds@);
            let (v, r) = spec_host_deliver(self@, ds@);
            match r {
                Ok(ls) => assert(out@ + ls =~= ls),
                Err(e) => {},
            }
        }
        while i < ds.len()
            invariant
                0 <= i <= ds@.len(),
                ds@.len() <= RX_BURST,
                counters_at_most(self@.metrics.layered, (u64::MAX - 40 + i) as u64),
                self@.accepted <= u64::MAX - 40 + i,
                spec_host_deliver(old(self)@, ds@) == after_events(out@, spec_host_deliver(self@, ds@.skip(i as int))),
            decreases ds@.len() - i,
        {
            let ghost before = self@;
            proof {
                assert(ds@.skip(i as int)[0] == ds@[i as int]);
                assert(ds@.skip(i as int).drop_first() =~= ds@.skip(i + 1));
            }
            let d = &ds[i];
            self.metrics.record_rx();
            let lat = match self.ring.process_packet(d.payload.as_slice(), self.now_ns) {
                Ok(l) => l,
                Err(e) => return Err(DatapathError::Gpu(e)),
            };
            self.now_ns = self.now_ns.saturating_add(lat);
            let ev = Delivered {
                stream_id: d.stream_id.0,
                sequence: d.sequence.0,
                e2e_ns: self.now_ns.saturating_sub(d.timestamp.0),
            };
            self.metrics.record_tx();
            self.accepted = self.accepted + 1;
            if self.accepted >= self.symbols {
                proof {
                    assert(out@ + seq![ev] =~= out@.push(ev));
                }
                out.push(ev);
                return Ok(out);
            }
            proof {
                let (v2, r2) = spec_host_deliver(self@, ds@.skip(i + 1));
                match r2 {
                    Ok(ls) => assert(out@ + (seq![ev] + ls) =~= out@.push(ev) + ls),
                    Err(e) => {},
                }
            }
            out.push(ev);
            i = i + 1;
        }
        proof {
            assert(ds@.skip(i as int) =~= Seq::<Packet>::empty());
            assert(out@ + Seq::<Delivered>::empty() =~= out@);
        }
        Ok(out)
    }

    fn forward(&mut self) -> (r: Result<Vec<Delivered>, DatapathError>)
        requires
            old(self)@.nic.completions + old(self)@.nic.pending.len() <= u64::MAX - 2,
            counters_at_most(old(self)@.metrics.layered, (u64::MAX - 40) as u64),
            old(self)@.accepted <= u64::MAX - 40,
        ensures
            ({
                let (v, sr) = spec_host_forward(old(self)@);
                final(self)@ == v && events_match(r, sr)
            }),
    {
        let ingested = match self.transport.receive() {
            Ok(Some(p)) => p,
            _ => return Ok(Vec::new()),
        };
        proof {
            let n = Cx5View { now_ns: self.now_ns, ..self@.nic };
            lemma_partition_len(n.pending, n.now_ns);
        }
        self.nic.advance_time(self.now_ns);
        proof {
            let n1 = self@.nic;
            let pushed = Cx5View {
                pending: n1.pending.push(PendingView { ready_at_ns: sat_add(n1.now_ns, n1.dma_latency_ns), packet: ingested }),
                ..n1
            };
            lemma_partition_len(pushed.pending, pushed.now_ns);
        }
        match self.nic.submit_rx(ingested) {
            Ok(()) => {},
            Err(e) => return Err(DatapathError::Nic(e)),
        }
        self.now_ns = self.now_ns.saturating_add(self.nic.dma_latency_ns());
        proof {
            let n2 = Cx5View { now_ns: self.now_ns, ..self@.nic };
            lemma_partition_len(n2.pending, n2.now_ns);
            lemma_partition_len(n2.poll().pending, n2.now_ns);
        }
        self.nic.advance_time(self.now_ns);
        let ds = self.nic.rx_burst(RX_BURST);
        self.deliver(ds)
    }

    /// Handles one frame received from the link; see [`spec_on_packet`].
    /// Returns the packets the GPU stage accepted meanwhile.
    #[verifier::spinoff_prover]
    pub fn on_packet(&mut self, packet: Packet) -> (r: Result<Vec<Delivered>, DatapathError>)
        requires
            host_headroom(old(self)@),
        ensures
            ({
                let (v, sr) = spec_on_packet(old(self)@, packet);
                final(self)@ == v && events_match(r, sr)
            }),
    {
        self.transport.set_now_ns(packet.timestamp.0.saturating_add(ARRIVAL_SLACK_NS));
        match self.transport.offer(packet) {
            Ok(()) => {},
            Err((TransportError::SequenceGap { expected, got }, p)) => {
                self.transport.recover_sequence(self.stream_id, got);
                self.metrics.record_sequence_gap();
                match self.transport.offer(p) {
                    Ok(()) => {},
                    Err(_) => return Ok(Vec::new()),
                }
            },
            Err((TransportError::LatePacket { latency_ns, max_ns }, _)) => {
                self.metrics.record_deadline_miss();
                self.metrics.record_late_packet();
                return Ok(Vec::new());
            },
            Err(_) => return Ok(Vec::new()),
        }
        self.forward()
    }
}

proof fn lemma_host_deliver_counts(v: HostRecvView, ds: Seq<Packet>)
    requires
        v.accepted + ds.len() <= u64::MAX,
    ensures
        spec_host_deliver(v, ds).1 matches Ok(evs) ==> spec_host_deliver(v, ds).0.accepted == v.accepted + evs.len(),
    decreases ds.len(),
{
    if ds.len() > 0 {
        let d = ds[0];
        let (ring, r) = v.ring.process_packet(d.payload@, v.now_ns);
        if r is Ok {
            let l = r->Ok_0;
            let now = sat_add(v.now_ns, l);
            let v1 = HostRecvView {
                metrics: bump_tx(bump_rx(v.metrics)),
                ring,
                now_ns: now,
                accepted: (v.accepted + 1) as u64,
                ..v
            };
            if v1.accepted < v.symbols {
                lemma_host_deliver_counts(v1, ds.drop_first());
            }
        }
    }
}

proof fn lemma_host_forward_counts(w: HostRecvView)
    requires
        w.accepted + RX_BURST <= u64::MAX,
    ensures
        spec_host_forward(w).1 matches Ok(evs) ==> spec_host_forward(w).0.accepted == w.accepted + evs.len(),
{
    let t = w.transport;
    if t.inbox.len() > 0 {
        let n0 = Cx5View { now_ns: w.now_ns, ..w.nic }.poll();
        let v1 = HostRecvView { transport: SimTransportView { inbox: t.inbox.drop_first(), ..t }, nic: n0, ..w };
        let (n1, r) = n0.submit(t.inbox[0], sat_add(n0.now_ns, n0.dma_latency_ns));
        if r is Ok {
            let now = sat_add(w.now_ns, n1.dma_latency_ns);
            let polled = Cx5View { now_ns: now, ..n1 }.poll().poll();
            let k = if RX_BURST <= polled.rx_ready.len() { RX_BURST as int } else { polled.rx_ready.len() as int };
            lemma_host_deliver_counts(
                HostRecvView {
                    nic: Cx5View { rx_ready: polled.rx_ready.subrange(k, polled.rx_ready.len() as int), ..polled },
                    now_ns: now,
                    ..v1
                },
                polled.rx_ready.subrange(0, k),
            );
        }
    }
}

/// The host counts exactly the packets it reports as accepted: handling a
/// frame raises the accepted count by the number of deliveries returned.
pub proof fn law_accepted_counts_deliveries(v: HostRecvView, p: Packet)
    requires
        host_headroom(v),
    ensures
        spec_on_packet(v, p).1 matches Ok(evs) ==> spec_on_packet(v, p).0.accepted == v.accepted + evs.len(),
{
    let t1 = SimTransportView { now_ns: sat_add(p.timestamp.0, ARRIVAL_SLACK_NS), ..v.transport };
    let (t2, r) = spec_ingest(t1, p);
    match r {
        Ok(()) => {
            lemma_host_forward_counts(HostRecvView { transport: t2, ..v });
        },
        Err(TransportError::SequenceGap { expected, got }) => {
            let (t4, r2) = spec_ingest(t2.recover(v.stream_id, got), p);
            lemma_host_forward_counts(HostRecvView { transport: t4, metrics: bump_gap(v.metrics), ..v });
        },
        _ => {},
    }
}

} // verus!
