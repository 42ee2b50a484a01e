//! Simulation transport engine with stream manager and checkers.

use std::collections::HashMap;
use vstd::prelude::*;

use crate::transport::{
    link_carries_traffic, link_is_open, LinkManager, LinkState, StreamConfig, StreamManager,
    StreamState, StreamStatus, TransportEngine, TransportError,
};
use crate::transport_check::{
    spec_timestamp_check, SequenceChecker, SequenceCheckerView, TimestampChecker,
    TransportDeadlineConfig,
};
use crate::types::{Packet, StreamId};

verus! {

broadcast use vstd::std_specs::hash::group_hash_axioms;

/// Configuration and lifecycle state of one stream.
#[derive(Debug, Clone, Copy, PartialEq, Eq, Structural)]
pub struct StreamRuntime {
    pub cfg: StreamConfig,
    pub state: StreamState,
}

/// Abstract state of a [`SimTransportEngine`] (besides its public counters).
pub struct SimTransportView {
    pub streams: Map<u32, StreamRuntime>,
    pub inbox: Seq<Packet>,
    pub outbox: Seq<Packet>,
    pub link: LinkState,
    pub seq: SequenceCheckerView,
    pub max_latency_ns: u64,
    pub now_ns: u64,
    pub sequence_gaps: u64,
    pub late_packets: u64,
}

/// Transport engine used by the simulation backend.
#[derive(Debug)]
pub struct SimTransportEngine {
    streams: HashMap<u32, StreamRuntime>,
    inbox: Vec<Packet>,
    outbox: Vec<Packet>,
    link: LinkState,
    seq: SequenceChecker,
    ts: TimestampChecker,
    /// Simulation receive clock (ns); advanced by callers / inject path.
    pub now_ns: u64,
    pub sequence_gaps: u64,
    pub late_packets: u64,
}

/// Why `ingest` refuses a packet before any check runs, if it does.
pub open spec fn spec_ingest_gate(v: SimTransportView, stream: StreamId) -> Option<TransportError> {
    if !link_carries_traffic(v.link) {
        Some(TransportError::LinkNotReady)
    } else if !v.streams.contains_key(stream.0) {
        Some(TransportError::StreamNotFound(stream))
    } else if v.streams[stream.0].state != StreamState::Running {
        Some(TransportError::StreamNotRunning(stream))
    } else {
        None
    }
}

/// The state and result after `ingest` of `packet` in state `v`.
pub open spec fn spec_ingest(v: SimTransportView, packet: Packet) -> (SimTransportView, Result<(), TransportError>) {
    let ts_result = spec_timestamp_check(v.max_latency_ns, packet.timestamp.0, v.now_ns);
    let (seq_after, seq_result) = v.seq.after_check(packet.stream_id.0, packet.sequence.0);
    match spec_ingest_gate(v, packet.stream_id) {
        Some(e) => (v, Err(e)),
        None => if ts_result is Err {
            (SimTransportView { late_packets: (v.late_packets + 1) as u64, ..v }, ts_result)
        } else if seq_result is Ok {
            (SimTransportView { seq: seq_after, inbox: v.inbox.push(packet), ..v }, seq_result)
        } else {
            (SimTransportView { seq: seq_after, sequence_gaps: (v.sequence_gaps + 1) as u64, ..v }, seq_result)
        },
    }
}

impl SimTransportView {
    /// State after resyncing `stream` to expect `next_seq`: the stream, if
    /// known, runs again, and so does the link.
    pub open spec fn recover(self, stream: StreamId, next_seq: u64) -> SimTransportView {
        SimTransportView {
            seq: SequenceCheckerView { next: self.seq.next.insert(stream.0, next_seq), ..self.seq },
            streams: if self.streams.contains_key(stream.0) {
                self.streams.insert(stream.0, StreamRuntime { state: StreamState::Running, ..self.streams[stream.0] })
            } else {
                self.streams
            },
            link: LinkState::Running,
            ..self
        }
    }
}

impl View for SimTransportEngine {
    type V = SimTransportView;

    closed spec fn view(&self) -> SimTransportView {
        SimTransportView {
            streams: self.streams@,
            inbox: self.inbox@,
            outbox: self.outbox@,
            link: self.link,
            seq: self.seq@,
            max_latency_ns: self.ts.max_latency(),
            now_ns: self.now_ns,
            sequence_gaps: self.sequence_gaps,
            late_packets: self.late_packets,
        }
    }
}

impl SimTransportEngine {
    pub fn new(deadline: TransportDeadlineConfig) -> (e: Self)
        ensures
            e@.streams == Map::<u32, StreamRuntime>::empty(),
            e@.inbox == Seq::<Packet>::empty(),
            e@.outbox == Seq::<Packet>::empty(),
            e@.link == LinkState::Init,
            e@.seq.next == Map::<u32, u64>::empty(),
            e@.seq.start == deadline.start_sequence,
            e@.seq.allow_reorder == deadline.allow_reorder,
            e@.max_latency_ns == deadline.max_latency_ns,
            e@.now_ns == 0,
            e@.sequence_gaps == 0,
            e@.late_packets == 0,
    {
        SimTransportEngine {
            streams: HashMap::new(),
            inbox: Vec::new(),
            outbox: Vec::new(),
            link: LinkState::Init,
            seq: SequenceChecker::from_config(&deadline),
            ts: TimestampChecker::from_config(&deadline),
            now_ns: 0,
            sequence_gaps: 0,
            late_packets: 0,
        }
    }

    fn gate(&self, stream_id: StreamId) -> (r: Option<TransportError>)
        ensures
            r == spec_ingest_gate(self@, stream_id),
    {
        if !link_is_open(self.link) {
            return Some(TransportError::LinkNotReady);
        }
        match self.streams.get(&stream_id.0) {
            None => Some(TransportError::StreamNotFound(stream_id)),
            Some(rt) => {
                if rt.state != StreamState::Running {
                    Some(TransportError::StreamNotRunning(stream_id))
                } else {
                    None
                }
            },
        }
    }

    /// Inject a received packet through sequence + timestamp checks.
    ///
    /// The link must carry traffic and the stream must be running; then the
    /// packet must be young enough (else `late_packets` counts it) and carry the
    /// expected sequence (else `sequence_gaps` counts it). An accepted packet is
    /// queued for [`receive`](TransportEngine::receive).
    pub fn ingest(&mut self, packet: Packet) -> (r: Result<(), TransportError>)
        requires
            old(self)@.late_packets < u64::MAX,
            old(self)@.sequence_gaps < u64::MAX,
        ensures
            (final(self)@, r) == spec_ingest(old(self)@, packet),
    {
        match self.offer(packet) {
            Ok(()) => Ok(()),
            Err((e, _)) => Err(e),
        }
    }

    /// [`ingest`](Self::ingest) that hands a refused packet back with the error.
    pub fn offer(&mut self, packet: Packet) -> (r: Result<(), (TransportError, Packet)>)
        requires
            old(self)@.late_packets < u64::MAX,
            old(self)@.sequence_gaps < u64::MAX,
        ensures
            final(self)@ == spec_ingest(old(self)@, packet).0,
            match r {
                Ok(()) => spec_ingest(old(self)@, packet).1 is Ok,
                Err((e, q)) => spec_ingest(old(self)@, packet).1 == Err::<(), TransportError>(e) && q == packet,
            },
    {
        if let Some(e) = self.gate(packet.stream_id) {
            return Err((e, packet));
        }
        let tr = self.ts.check(&packet, self.now_ns);
        if let Err(e) = tr {
            self.late_packets = self.late_packets + 1;
            return Err((e, packet));
        }
        match self.seq.check(&packet) {
            Ok(()) => {
                self.inbox.push(packet);
                Ok(())
            },
            Err(e) => {
                self.sequence_gaps = self.sequence_gaps + 1;
                Err((e, packet))
            },
        }
    }

    /// After loss, resync checker so subsequent packets can recover.
    pub fn recover_sequence(&mut self, stream_id: StreamId, next_seq: u64)
        ensures
            final(self)@ == old(self)@.recover(stream_id, next_seq),
    {
        self.seq.resync(stream_id, next_seq);
        let cur = match self.streams.get(&stream_id.0) {
            Some(rt) => Some(*rt),
            None => None,
        };
        if let Some(rt) = cur {
            self.streams.insert(stream_id.0, StreamRuntime { state: StreamState::Running, ..rt });
        }
        self.link = LinkState::Running;
    }

    pub fn outbox(&self) -> (r: &[Packet])
        ensures
            r@ == self@.outbox,
    {
        self.outbox.as_slice()
    }

    /// Sets the receive clock.
    pub fn set_now_ns(&mut self, now_ns: u64)
        ensures
            final(self)@ == (SimTransportView { now_ns, ..old(self)@ }),
    {
        self.now_ns = now_ns;
    }

    /// Packets refused for a sequence gap so far.
    pub fn sequence_gap_count(&self) -> (n: u64)
        ensures
            n == self@.sequence_gaps,
    {
        self.sequence_gaps
    }

    /// Packets refused as late so far.
    pub fn late_packet_count(&self) -> (n: u64)
        ensures
            n == self@.late_packets,
    {
        self.late_packets
    }

    pub fn advance_time(&mut self, delta_ns: u64)
        ensures
            final(self)@ == (SimTransportView {
                now_ns: if old(self)@.now_ns + delta_ns > u64::MAX {
                    u64::MAX
                } else {
                    (old(self)@.now_ns + delta_ns) as u64
                },
                ..old(self)@
            }),
    {
        self.now_ns = self.now_ns.saturating_add(delta_ns);
    }

    pub fn destroy_stream(&mut self, stream_id: StreamId) -> (r: Result<(), TransportError>)
        ensures
            old(self)@.streams.contains_key(stream_id.0) ==> r is Ok && final(self)@ == (SimTransportView {
                streams: old(self)@.streams.remove(stream_id.0),
                seq: SequenceCheckerView { next: old(self)@.seq.next.remove(stream_id.0), ..old(self)@.seq },
                ..old(self)@
            }),
            !old(self)@.streams.contains_key(stream_id.0) ==> r == Err::<(), TransportError>(
                TransportError::StreamNotFound(stream_id),
            ) && final(self)@ == old(self)@,
    {
        if self.streams.remove(&stream_id.0).is_none() {
            proof {
                assert(self.streams@ =~= old(self)@.streams);
            }
            return Err(TransportError::StreamNotFound(stream_id));
        }
        self.seq.unregister_stream(stream_id);
        Ok(())
    }

    pub fn stream_carrier_antenna(&self, stream_id: StreamId) -> (r: Result<(u16, u16), TransportError>)
        ensures
            r == if self@.streams.contains_key(stream_id.0) {
                Ok::<(u16, u16), TransportError>(
                    (self@.streams[stream_id.0].cfg.carrier, self@.streams[stream_id.0].cfg.antenna),
                )
            } else {
                Err(TransportError::StreamNotFound(stream_id))
            },
    {
        match self.streams.get(&stream_id.0) {
            None => Err(TransportError::StreamNotFound(stream_id)),
            Some(s) => Ok((s.cfg.carrier, s.cfg.antenna)),
        }
    }

    fn set_state(&mut self, stream_id: StreamId, state: StreamState) -> (r: Result<(), TransportError>)
        ensures
            old(self)@.streams.contains_key(stream_id.0) ==> r is Ok && final(self)@ == (SimTransportView {
                streams: old(self)@.streams.insert(
                    stream_id.0,
                    StreamRuntime { state, ..old(self)@.streams[stream_id.0] },
                ),
                ..old(self)@
            }),
            !old(self)@.streams.contains_key(stream_id.0) ==> r == Err::<(), TransportError>(
                TransportError::StreamNotFound(stream_id),
            ) && final(self)@ == old(self)@,
    {
        let cur = match self.streams.get(&stream_id.0) {
            Some(rt) => *rt,
            None => return Err(TransportError::StreamNotFound(stream_id)),
        };
        self.streams.insert(stream_id.0, StreamRuntime { state, ..cur });
        Ok(())
    }
}

impl TransportEngine for SimTransportEngine {
    fn send(&mut self, packet: Packet) -> (r: Result<(), TransportError>)
        ensures
            match spec_ingest_gate(old(self)@, packet.stream_id) {
                Some(e) => r == Err::<(), TransportError>(e) && final(self)@ == old(self)@,
                None => r is Ok && final(self)@ == (SimTransportView {
                    outbox: old(self)@.outbox.push(packet),
                    ..old(self)@
                }),
            },
    {
        if let Some(e) = self.gate(packet.stream_id) {
            return Err(e);
        }
        self.outbox.push(packet);
        Ok(())
    }

    fn receive(&mut self) -> (r: Result<Option<Packet>, TransportError>)
        ensures
            old(self)@.inbox.len() == 0 ==> r == Ok::<Option<Packet>, TransportError>(None)
                && final(self)@ == old(self)@,
            old(self)@.inbox.len() > 0 ==> r == Ok::<Option<Packet>, TransportError>(
                Some(old(self)@.inbox[0]),
            ) && final(self)@ == (SimTransportView {
                inbox: old(self)@.inbox.drop_first(),
                ..old(self)@
            }),
    {
        if self.inbox.is_empty() {
            Ok(None)
        } else {
            let p = self.inbox.remove(0);
            proof {
                assert(self.inbox@ =~= old(self)@.inbox.drop_first());
            }
            Ok(Some(p))
        }
    }
}

impl StreamManager for SimTransportEngine {
    fn create_stream(&mut self, cfg: StreamConfig) -> (r: Result<StreamId, TransportError>)
        ensures
            old(self)@.streams.contains_key(cfg.stream_id.0) ==> r == Err::<StreamId, TransportError>(
                TransportError::StreamExists(cfg.stream_id),
            ) && final(self)@ == old(self)@,
            !old(self)@.streams.contains_key(cfg.stream_id.0) ==> r == Ok::<StreamId, TransportError>(
                cfg.stream_id,
            ) && final(self)@ == (SimTransportView {
                streams: old(self)@.streams.insert(
                    cfg.stream_id.0,
                    StreamRuntime { cfg, state: StreamState::Idle },
                ),
                seq: SequenceCheckerView {
                    next: if old(self)@.seq.next.contains_key(cfg.stream_id.0) {
                        old(self)@.seq.next
                    } else {
                        old(self)@.seq.next.insert(cfg.stream_id.0, old(self)@.seq.start)
                    },
                    ..old(self)@.seq
                },
                ..old(self)@
            }),
    {
        if self.streams.contains_key(&cfg.stream_id.0) {
            return Err(TransportError::StreamExists(cfg.stream_id));
        }
        let id = cfg.stream_id;
        self.seq.register_stream(id);
        self.streams.insert(id.0, StreamRuntime { cfg, state: StreamState::Idle });
        Ok(id)
    }

    fn start_stream(&mut self, stream_id: StreamId) -> (r: Result<(), TransportError>)
        ensures
            old(self)@.streams.contains_key(stream_id.0) ==> r is Ok && final(self)@ == (SimTransportView {
                streams: old(self)@.streams.insert(
                    stream_id.0,
                    StreamRuntime { state: StreamState::Running, ..old(self)@.streams[stream_id.0] },
                ),
                ..old(self)@
            }),
            !old(self)@.streams.contains_key(stream_id.0) ==> r == Err::<(), TransportError>(
                TransportError::StreamNotFound(stream_id),
            ) && final(self)@ == old(self)@,
    {
        self.set_state(stream_id, StreamState::Running)
    }

    fn stop_stream(&mut self, stream_id: StreamId) -> (r: Result<(), TransportError>)
        ensures
            old(self)@.streams.contains_key(stream_id.0) ==> r is Ok && final(self)@ == (SimTransportView {
                streams: old(self)@.streams.insert(
                    stream_id.0,
                    StreamRuntime { state: StreamState::Stopped, ..old(self)@.streams[stream_id.0] },
                ),
                ..old(self)@
            }),
            !old(self)@.streams.contains_key(stream_id.0) ==> r == Err::<(), TransportError>(
                TransportError::StreamNotFound(stream_id),
            ) && final(self)@ == old(self)@,
    {
        self.set_state(stream_id, StreamState::Stopped)
    }

    fn query_stream(&self, stream_id: StreamId) -> (r: Result<StreamStatus, TransportError>)
        ensures
            r == if self@.streams.contains_key(stream_id.0) {
                Ok::<StreamStatus, TransportError>(
                    StreamStatus {
                        stream_id,
                        state: self@.streams[stream_id.0].state,
                        last_sequence: if self@.seq.expected(stream_id.0) == 0 {
                            0
                        } else {
                            (self@.seq.expected(stream_id.0) - 1) as u64
                        },
                    },
                )
            } else {
                Err(TransportError::StreamNotFound(stream_id))
            },
    {
        let state = match self.streams.get(&stream_id.0) {
            None => return Err(TransportError::StreamNotFound(stream_id)),
            Some(s) => s.state,
        };
        Ok(StreamStatus { stream_id, state, last_sequence: self.seq.last_expected(stream_id) })
    }
}

impl LinkManager for SimTransportEngine {
    fn link_up(&mut self) -> (r: Result<(), TransportError>)
        ensures
            r is Ok,
            final(self)@ == (SimTransportView { link: LinkState::Running, ..old(self)@ }),
    {
        self.link = LinkState::Running;
        Ok(())
    }

    fn link_down(&mut self) -> (r: Result<(), TransportError>)
        ensures
            r is Ok,
            final(self)@ == (SimTransportView { link: LinkState::Init, ..old(self)@ }),
    {
        self.link = LinkState::Init;
        Ok(())
    }

    fn reset(&mut self) -> (r: Result<(), TransportError>)
        ensures
            r is Ok,
            final(self)@ == (SimTransportView {
                link: LinkState::Init,
                inbox: Seq::<Packet>::empty(),
                outbox: Seq::<Packet>::empty(),
                sequence_gaps: 0,
                late_packets: 0,
                ..old(self)@
            }),
    {
        self.link = LinkState::Init;
        self.inbox.clear();
        self.outbox.clear();
        self.sequence_gaps = 0;
        self.late_packets = 0;
        Ok(())
    }

    fn get_status(&self) -> (s: LinkState)
        ensures
            s == self@.link,
    {
        self.link
    }
}

/// A packet accepted right after another on the same stream, carrying the
/// next sequence and on time, is accepted too, and both queue in order.
pub proof fn law_in_order_queue(v: SimTransportView, p: Packet, q: Packet)
    requires
        spec_ingest(v, p).1 is Ok,
        q.stream_id == p.stream_id,
        q.sequence.0 == crate::transport_check::spec_next_seq(p.sequence.0),
        spec_timestamp_check(v.max_latency_ns, q.timestamp.0, v.now_ns) is Ok,
    ensures
        spec_ingest(spec_ingest(v, p).0, q).1 is Ok,
        spec_ingest(spec_ingest(v, p).0, q).0.inbox == v.inbox.push(p).push(q),
{
}

/// After a sequence gap, resyncing the stream to the refused packet's
/// sequence lets that same packet in, queued after everything accepted
/// before it.
pub proof fn law_recover_after_gap(v: SimTransportView, p: Packet)
    requires
        spec_ingest(v, p).1 matches Err(TransportError::SequenceGap { expected, got }),
    ensures
        spec_ingest(spec_ingest(v, p).0.recover(p.stream_id, p.sequence.0), p).1 is Ok,
        spec_ingest(spec_ingest(v, p).0.recover(p.stream_id, p.sequence.0), p).0.inbox == v.inbox.push(p),
{
}

} // verus!
