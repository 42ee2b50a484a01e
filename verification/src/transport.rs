//! Transport engine and stream/link management.
//!
//! Data-plane path stays synchronous (poll based). Deadline / sequence policy
//! comes from a [`TransportDeadlineConfig`](crate::transport_check::TransportDeadlineConfig).

use vstd::prelude::*;

use crate::types::{Packet, StreamId};

verus! {

/// Transport runtime contract. Backends must not leak DPDK/CUDA/socket APIs.
pub trait TransportEngine {
    fn send(&mut self, packet: Packet) -> Result<(), TransportError>;

    fn receive(&mut self) -> Result<Option<Packet>, TransportError>;
}

/// Stream manager contract.
pub trait StreamManager {
    fn create_stream(&mut self, cfg: StreamConfig) -> Result<StreamId, TransportError>;

    fn start_stream(&mut self, stream_id: StreamId) -> Result<(), TransportError>;

    fn stop_stream(&mut self, stream_id: StreamId) -> Result<(), TransportError>;

    fn query_stream(&self, stream_id: StreamId) -> Result<StreamStatus, TransportError>;
}

/// Link lifecycle contract.
pub trait LinkManager {
    fn link_up(&mut self) -> Result<(), TransportError>;

    fn link_down(&mut self) -> Result<(), TransportError>;

    fn reset(&mut self) -> Result<(), TransportError>;

    fn get_status(&self) -> LinkState;
}

#[derive(Debug, Clone, Copy, PartialEq, Eq, Structural)]
pub struct StreamConfig {
    pub stream_id: StreamId,
    pub carrier: u16,
    pub antenna: u16,
    pub qos: u8,
    pub deadline_ns: u64,
}

#[derive(Debug, Clone, Copy, PartialEq, Eq, Structural)]
pub enum StreamState {
    Idle,
    Running,
    Stopped,
    Error,
}

#[derive(Debug, Clone, Copy, PartialEq, Eq, Structural)]
pub struct StreamStatus {
    pub stream_id: StreamId,
    pub state: StreamState,
    pub last_sequence: u64,
}

#[derive(Debug, Clone, Copy, PartialEq, Eq, Structural)]
pub enum LinkState {
    Init,
    Discovery,
    Ready,
    Running,
    Error,
    Recovery,
}

impl Default for LinkState {
    fn default() -> (s: Self)
        ensures
            s == LinkState::Init,
    {
        LinkState::Init
    }
}

/// Whether the link carries traffic in state `l`.
pub open spec fn link_carries_traffic(l: LinkState) -> bool {
    l == LinkState::Running || l == LinkState::Ready
}

pub(crate) fn link_is_open(l: LinkState) -> (r: bool)
    ensures
        r == link_carries_traffic(l),
{
    l == LinkState::Running || l == LinkState::Ready
}

#[derive(Debug, PartialEq, Eq)]
pub enum TransportError {
    StreamNotFound(StreamId),
    StreamExists(StreamId),
    StreamNotRunning(StreamId),
    LinkNotReady,
    SequenceGap { expected: u64, got: u64 },
    LatePacket { latency_ns: u64, max_ns: u64 },
    Config(String),
}

/// Abstract state of a [`MockTransportEngine`].
pub struct MockTransportView {
    pub streams: Seq<StreamConfig>,
    pub inbox: Seq<Packet>,
    pub outbox: Seq<Packet>,
    pub link: LinkState,
}

/// Whether some stream in `streams` has identifier `id`.
pub open spec fn has_stream(streams: Seq<StreamConfig>, id: u32) -> bool {
    exists|i: int| 0 <= i < streams.len() && (#[trigger] streams[i]).stream_id.0 == id
}

/// In-memory mock transport without sequence checks (unit/interface tests).
#[derive(Debug)]
pub struct MockTransportEngine {
    streams: Vec<StreamConfig>,
    inbox: Vec<Packet>,
    outbox: Vec<Packet>,
    link: LinkState,
}

impl View for MockTransportEngine {
    type V = MockTransportView;

    closed spec fn view(&self) -> MockTransportView {
        MockTransportView {
            streams: self.streams@,
            inbox: self.inbox@,
            outbox: self.outbox@,
            link: self.link,
        }
    }
}

impl MockTransportEngine {
    pub fn new() -> (e: Self)
        ensures
            e@.streams == Seq::<StreamConfig>::empty(),
            e@.inbox == Seq::<Packet>::empty(),
            e@.outbox == Seq::<Packet>::empty(),
            e@.link == LinkState::Init,
    {
        MockTransportEngine {
            streams: Vec::new(),
            inbox: Vec::new(),
            outbox: Vec::new(),
            link: LinkState::Init,
        }
    }

    pub fn push_inbox(&mut self, packet: Packet)
        ensures
            final(self)@ == (MockTransportView { inbox: old(self)@.inbox.push(packet), ..old(self)@ }),
    {
        self.inbox.push(packet);
    }

    pub fn outbox(&self) -> (r: &[Packet])
        ensures
            r@ == self@.outbox,
    {
        self.outbox.as_slice()
    }

    fn find_stream(&self, stream_id: StreamId) -> (r: bool)
        ensures
            r == has_stream(self@.streams, stream_id.0),
    {
        let mut i: usize = 0;
        while i < self.streams.len()
            invariant
                0 <= i <= self.streams@.len(),
                forall|k: int| 0 <= k < i ==> (#[trigger] self.streams@[k]).stream_id.0 != stream_id.0,
            decreases self.streams@.len() - i,
        {
            if self.streams[i].stream_id.0 == stream_id.0 {
                return true;
            }
            i = i + 1;
        }
        false
    }

    pub fn destroy_stream(&mut self, stream_id: StreamId) -> (r: Result<(), TransportError>)
        ensures
            final(self)@ == (MockTransportView {
                streams: old(self)@.streams.filter(|s: StreamConfig| s.stream_id.0 != stream_id.0),
                ..old(self)@
            }),
            r == if has_stream(old(self)@.streams, stream_id.0) {
                Ok::<(), TransportError>(())
            } else {
                Err(TransportError::StreamNotFound(stream_id))
            },
    {
        let ghost pred: spec_fn(StreamConfig) -> bool = |x: StreamConfig| x.stream_id.0 != stream_id.0;
        let ghost old_streams = self.streams@;
        let mut kept: Vec<StreamConfig> = Vec::new();
        let mut i: usize = 0;
        while i < self.streams.len()
            invariant
                0 <= i <= self.streams@.len(),
                self.streams@ == old_streams,
                forall|x: StreamConfig| #[trigger] pred(x) == (x.stream_id.0 != stream_id.0),
                kept@ == old_streams.take(i as int).filter(pred),
                kept@.len() <= i,
                kept@.len() == i <==> forall|k: int| 0 <= k < i ==> (#[trigger] old_streams[k]).stream_id.0 != stream_id.0,
            decreases self.streams@.len() - i,
        {
            let s = self.streams[i];
            proof {
                old_streams.take(i as int).lemma_filter_push(s, pred);
                assert(old_streams.take(i + 1) =~= old_streams.take(i as int).push(s));
                old_streams.take(i as int).lemma_filter_len(pred);
                assert(pred(s) == (s.stream_id.0 != stream_id.0));
            }
            if s.stream_id.0 != stream_id.0 {
                kept.push(s);
            }
            proof {
                assert(kept@ == old_streams.take(i + 1).filter(pred));
            }
            i = i + 1;
            proof {
                assert forall|k: int| 0 <= k < i - 1 implies (#[trigger] old_streams[k]) == old_streams.take(i - 1)[k] by {}
                if kept@.len() == i {
                    assert forall|k: int| 0 <= k < i implies (#[trigger] old_streams[k]).stream_id.0 != stream_id.0 by {
                        if k < i - 1 {
                        }
                    }
                }
            }
        }
        proof {
            assert(old_streams.take(i as int) =~= old_streams);
        }
        let found = kept.len() != self.streams.len();
        self.streams = kept;
        if !found {
            return Err(TransportError::StreamNotFound(stream_id));
        }
        Ok(())
    }
}

impl TransportEngine for MockTransportEngine {
    fn send(&mut self, packet: Packet) -> (r: Result<(), TransportError>)
        ensures
            link_carries_traffic(old(self)@.link) ==> r is Ok && final(self)@ == (MockTransportView {
                outbox: old(self)@.outbox.push(packet),
                ..old(self)@
            }),
            !link_carries_traffic(old(self)@.link) ==> r == Err::<(), TransportError>(
                TransportError::LinkNotReady,
            ) && final(self)@ == old(self)@,
    {
        if !link_is_open(self.link) {
            return Err(TransportError::LinkNotReady);
        }
        self.outbox.push(packet);
        Ok(())
    }

    fn receive(&mut self) -> (r: Result<Option<Packet>, TransportError>)
        ensures
            old(self)@.inbox.len() == 0 ==> r == Ok::<Option<Packet>, TransportError>(None)
                && final(self)@ == old(self)@,
            old(self)@.inbox.len() > 0 ==> r == Ok::<Option<Packet>, TransportError>(
                Some(old(self)@.inbox[0]),
            ) && final(self)@ == (MockTransportView {
                inbox: old(self)@.inbox.drop_first(),
                ..old(self)@
            }),
    {
        if self.inbox.is_empty() {
            Ok(None)
        } else {
            let p = self.inbox.remove(0);
            proof {
                assert(self.inbox@ =~= old(self)@.inbox.drop_first());
            }
            Ok(Some(p))
        }
    }
}

impl StreamManager for MockTransportEngine {
    fn create_stream(&mut self, cfg: StreamConfig) -> (r: Result<StreamId, TransportError>)
        ensures
            has_stream(old(self)@.streams, cfg.stream_id.0) ==> r == Err::<StreamId, TransportError>(
                TransportError::StreamExists(cfg.stream_id),
            ) && final(self)@ == old(self)@,
            !has_stream(old(self)@.streams, cfg.stream_id.0) ==> r == Ok::<StreamId, TransportError>(
                cfg.stream_id,
            ) && final(self)@ == (MockTransportView {
                streams: old(self)@.streams.push(cfg),
                ..old(self)@
            }),
    {
        if self.find_stream(cfg.stream_id) {
            return Err(TransportError::StreamExists(cfg.stream_id));
        }
        let id = cfg.stream_id;
        self.streams.push(cfg);
        Ok(id)
    }

    fn start_stream(&mut self, stream_id: StreamId) -> (r: Result<(), TransportError>)
        ensures
            final(self)@ == old(self)@,
            r == if has_stream(old(self)@.streams, stream_id.0) {
                Ok::<(), TransportError>(())
            } else {
                Err(TransportError::StreamNotFound(stream_id))
            },
    {
        if !self.find_stream(stream_id) {
            return Err(TransportError::StreamNotFound(stream_id));
        }
        Ok(())
    }

    fn stop_stream(&mut self, stream_id: StreamId) -> (r: Result<(), TransportError>)
        ensures
            final(self)@ == old(self)@,
            r == if has_stream(old(self)@.streams, stream_id.0) {
                Ok::<(), TransportError>(())
            } else {
                Err(TransportError::StreamNotFound(stream_id))
            },
    {
        if !self.find_stream(stream_id) {
            return Err(TransportError::StreamNotFound(stream_id));
        }
        Ok(())
    }

    fn query_stream(&self, stream_id: StreamId) -> (r: Result<StreamStatus, TransportError>)
        ensures
            r == if has_stream(self@.streams, stream_id.0) {
                Ok::<StreamStatus, TransportError>(
                    StreamStatus { stream_id, state: StreamState::Running, last_sequence: 0 },
                )
            } else {
                Err(TransportError::StreamNotFound(stream_id))
            },
    {
        if !self.find_stream(stream_id) {
            return Err(TransportError::StreamNotFound(stream_id));
        }
        Ok(StreamStatus { stream_id, state: StreamState::Running, last_sequence: 0 })
    }
}

impl LinkManager for MockTransportEngine {
    fn link_up(&mut self) -> (r: Result<(), TransportError>)
        ensures
            r is Ok,
            final(self)@ == (MockTransportView { link: LinkState::Running, ..old(self)@ }),
    {
        self.link = LinkState::Running;
        Ok(())
    }

    fn link_down(&mut self) -> (r: Result<(), TransportError>)
        ensures
            r is Ok,
            final(self)@ == (MockTransportView { link: LinkState::Init, ..old(self)@ }),
    {
        self.link = LinkState::Init;
        Ok(())
    }

    fn reset(&mut self) -> (r: Result<(), TransportError>)
        ensures
            r is Ok,
            final(self)@ == (MockTransportView {
                link: LinkState::Init,
                inbox: Seq::<Packet>::empty(),
                outbox: Seq::<Packet>::empty(),
                ..old(self)@
            }),
    {
        self.link = LinkState::Init;
        self.inbox.clear();
        self.outbox.clear();
        Ok(())
    }

    fn get_status(&self) -> (s: LinkState)
        ensures
            s == self@.link,
    {
        self.link
    }
}

} // verus!
