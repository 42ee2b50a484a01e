//! Packet/slot stage tracing. Hot path: a bounded ring of packet traces
//! that forgets its oldest trace when full.

use vstd::prelude::*;

verus! {

#[derive(Debug, Clone, Copy, PartialEq, Eq, Structural)]
pub enum TraceStage {
    FpgaTx,
    WireDepart,
    Cx5Rx,
    DmaDone,
    HostReady,
    GpuEnqueue,
    CudaStart,
    CudaDone,
}

#[derive(Debug, Clone, Copy, PartialEq, Eq, Structural)]
pub struct StageStamp {
    pub stage: TraceStage,
    pub time_ns: u64,
}

#[derive(Debug)]
pub struct PacketTrace {
    pub trace_id: u64,
    pub stream_id: u32,
    pub sequence: u64,
    pub stages: Vec<StageStamp>,
}

/// A packet trace with its stages as a sequence.
pub struct PacketTraceView {
    pub trace_id: u64,
    pub stream_id: u32,
    pub sequence: u64,
    pub stages: Seq<StageStamp>,
}

impl View for PacketTrace {
    type V = PacketTraceView;

    open spec fn view(&self) -> PacketTraceView {
        PacketTraceView {
            trace_id: self.trace_id,
            stream_id: self.stream_id,
            sequence: self.sequence,
            stages: self.stages@,
        }
    }
}

/// Abstract state of a [`TraceEngine`].
pub struct TraceEngineView {
    pub capacity: nat,
    pub traces: Seq<PacketTraceView>,
    pub next_id: u64,
    pub enabled: bool,
    pub export_path: Option<Seq<char>>,
    pub dropped: u64,
}

/// Index of the most recent trace with id `trace_id`, or -1.
pub open spec fn spec_latest_index(traces: Seq<PacketTraceView>, trace_id: u64) -> int
    decreases traces.len(),
{
    if traces.len() == 0 {
        -1
    } else if traces.last().trace_id == trace_id {
        traces.len() - 1
    } else {
        spec_latest_index(traces.drop_last(), trace_id)
    }
}

/// The ring after `start` records a new trace while enabled: the oldest
/// trace leaves when the ring is at capacity.
pub open spec fn spec_start_traces(v: TraceEngineView, t: PacketTraceView) -> Seq<PacketTraceView> {
    if v.traces.len() >= v.capacity {
        v.traces.drop_first().push(t)
    } else {
        v.traces.push(t)
    }
}

/// The ring after `stamp(trace_id, stamp)`: the most recent trace with that
/// id gains the stamp; nothing changes when the engine is disabled, the id
/// is 0, or no trace has the id.
pub open spec fn spec_stamp_traces(v: TraceEngineView, trace_id: u64, s: StageStamp) -> Seq<PacketTraceView> {
    let i = spec_latest_index(v.traces, trace_id);
    if !v.enabled || trace_id == 0 || i < 0 {
        v.traces
    } else {
        v.traces.update(
            i,
            PacketTraceView {
                trace_id: v.traces[i].trace_id,
                stream_id: v.traces[i].stream_id,
                sequence: v.traces[i].sequence,
                stages: v.traces[i].stages.push(s),
            },
        )
    }
}

/// The engine after `start(stream_id, sequence, first, time_ns)`: while
/// enabled, a trace with the next id and that one stamp joins the ring (the
/// oldest leaving, and counted as dropped, when the ring is full) and the id
/// advances; while disabled, nothing changes.
pub open spec fn started(v: TraceEngineView, stream_id: u32, sequence: u64, first: TraceStage, time_ns: u64) -> TraceEngineView {
    if !v.enabled {
        v
    } else {
        TraceEngineView {
            traces: spec_start_traces(
                v,
                PacketTraceView {
                    trace_id: v.next_id,
                    stream_id,
                    sequence,
                    stages: seq![StageStamp { stage: first, time_ns }],
                },
            ),
            next_id: v.next_id.wrapping_add(1),
            dropped: if v.traces.len() >= v.capacity {
                (v.dropped + 1) as u64
            } else {
                v.dropped
            },
            ..v
        }
    }
}

/// The engine after `stamp(trace_id, stage, time_ns)`.
pub open spec fn stamped(v: TraceEngineView, trace_id: u64, stage: TraceStage, time_ns: u64) -> TraceEngineView {
    TraceEngineView { traces: spec_stamp_traces(v, trace_id, StageStamp { stage, time_ns }), ..v }
}

/// The engine holds what `n` starts leave: the newest of them, as many as
/// fit in its capacity, with the rest counted as dropped.
pub open spec fn holds_starts(v: TraceEngineView, n: nat) -> bool {
    &&& v.traces.len() == if n <= v.capacity { n } else { v.capacity }
    &&& v.dropped + v.traces.len() == n
}

/// In-memory ring of packet traces; optional JSONL export path.
pub struct TraceEngine {
    capacity: usize,
    traces: Vec<PacketTrace>,
    next_id: u64,
    enabled: bool,
    export_path: Option<String>,
    dropped: u64,
}

impl View for TraceEngine {
    type V = TraceEngineView;

    closed spec fn view(&self) -> TraceEngineView {
        TraceEngineView {
            capacity: self.capacity as nat,
            traces: self.traces@.map_values(|t: PacketTrace| t@),
            next_id: self.next_id,
            enabled: self.enabled,
            export_path: match self.export_path {
                Some(p) => Some(p@),
                None => None,
            },
            dropped: self.dropped,
        }
    }
}

proof fn lemma_latest_index_bounds(traces: Seq<PacketTraceView>, trace_id: u64)
    ensures
        -1 <= spec_latest_index(traces, trace_id) < traces.len(),
        spec_latest_index(traces, trace_id) >= 0 ==> traces[spec_latest_index(traces, trace_id)].trace_id
            == trace_id,
        spec_latest_index(traces, trace_id) < 0 ==> forall|k: int|
            0 <= k < traces.len() ==> #[trigger] traces[k].trace_id != trace_id,
        forall|k: int|
            spec_latest_index(traces, trace_id) < k < traces.len() ==> #[trigger] traces[k].trace_id
                != trace_id,
    decreases traces.len(),
{
    if traces.len() > 0 && traces.last().trace_id != trace_id {
        lemma_latest_index_bounds(traces.drop_last(), trace_id);
        assert forall|k: int| 0 <= k < traces.len() - 1 implies #[trigger] traces[k] == traces.drop_last()[k] by {}
    }
}

impl TraceEngine {
    /// Well-formed: capacity at least 1 and never exceeded.
    pub open spec fn inv(&self) -> bool {
        &&& self@.capacity >= 1
        &&& self@.traces.len() <= self@.capacity
    }

    pub fn new(capacity: usize) -> (t: Self)
        ensures
            t.inv(),
            t@.capacity == if capacity >= 1 { capacity as nat } else { 1 },
            t@.traces == Seq::<PacketTraceView>::empty(),
            t@.next_id == 1,
            t@.enabled,
            t@.export_path is None,
            t@.dropped == 0,
    {
        let cap = if capacity >= 1 { capacity } else { 1 };
        let hint = if capacity <= 1024 { capacity } else { 1024 };
        let t = TraceEngine {
            capacity: cap,
            traces: Vec::with_capacity(hint),
            next_id: 1,
            enabled: true,
            export_path: None,
            dropped: 0,
        };
        proof {
            assert(t@.traces =~= Seq::<PacketTraceView>::empty());
        }
        t
    }

    /// An engine that records nothing.
    pub fn disabled() -> (t: Self)
        ensures
            t.inv(),
            t@.capacity == 1,
            t@.traces == Seq::<PacketTraceView>::empty(),
            t@.next_id == 1,
            !t@.enabled,
            t@.export_path is None,
            t@.dropped == 0,
    {
        let mut t = Self::new(1);
        t.enabled = false;
        t
    }

    pub fn from_config(enabled: bool, capacity: usize, export_path: String) -> (t: Self)
        ensures
            t.inv(),
            t@.capacity == if capacity >= 1 { capacity as nat } else { 1 },
            t@.traces == Seq::<PacketTraceView>::empty(),
            t@.next_id == 1,
            t@.enabled == enabled,
            t@.export_path == Some(export_path@),
            t@.dropped == 0,
    {
        let mut t = Self::new(capacity);
        t.enabled = enabled;
        t.export_path = Some(export_path);
        t
    }

    /// Whether the engine is well-formed (see [`inv`](Self::inv)).
    pub fn is_well_formed(&self) -> (b: bool)
        ensures
            b == self.inv(),
    {
        self.capacity >= 1 && self.traces.len() <= self.capacity
    }

    pub fn enabled(&self) -> (b: bool)
        ensures
            b == self@.enabled,
    {
        self.enabled
    }

    pub fn dropped(&self) -> (n: u64)
        ensures
            n == self@.dropped,
    {
        self.dropped
    }

    /// Opens a trace whose first stamp is `first` at `time_ns`; returns its
    /// id, or 0 (recording nothing) when disabled.
    pub fn start(&mut self, stream_id: u32, sequence: u64, first: TraceStage, time_ns: u64) -> (id: u64)
        requires
            old(self).inv(),
            old(self)@.dropped < u64::MAX,
        ensures
            final(self).inv(),
            final(self)@.capacity == old(self)@.capacity,
            final(self)@.enabled == old(self)@.enabled,
            final(self)@.export_path == old(self)@.export_path,
            final(self)@ == started(old(self)@, stream_id, sequence, first, time_ns),
            !old(self)@.enabled ==> id == 0 && final(self)@ == old(self)@,
            old(self)@.enabled ==> {
                &&& id == old(self)@.next_id
                &&& final(self)@.next_id == old(self)@.next_id.wrapping_add(1)
                &&& final(self)@.traces == spec_start_traces(
                    old(self)@,
                    PacketTraceView {
                        trace_id: id,
                        stream_id,
                        sequence,
                        stages: seq![StageStamp { stage: first, time_ns }],
                    },
                )
                &&& final(self)@.dropped == if old(self)@.traces.len() >= old(self)@.capacity {
                    old(self)@.dropped + 1
                } else {
                    old(self)@.dropped as int
                }
            },
    {
        if !self.enabled {
            return 0;
        }
        let id = self.next_id;
        self.next_id = self.next_id.wrapping_add(1);
        let mut stages: Vec<StageStamp> = Vec::new();
        stages.push(StageStamp { stage: first, time_ns });
        let trace = PacketTrace { trace_id: id, stream_id, sequence, stages };
        let ghost before = self.traces@.map_values(|t: PacketTrace| t@);
        if self.traces.len() >= self.capacity {
            self.traces.remove(0);
            self.dropped = self.dropped + 1;
            proof {
                assert(self.traces@.map_values(|t: PacketTrace| t@) =~= before.drop_first());
            }
        }
        let ghost mid = self.traces@.map_values(|t: PacketTrace| t@);
        self.traces.push(trace);
        proof {
            assert(self.traces@.map_values(|t: PacketTrace| t@) =~= mid.push(trace@));
            assert(trace@.stages =~= seq![StageStamp { stage: first, time_ns }]);
        }
        id
    }

    /// Appends a stamp to the most recent trace with `trace_id`.
    pub fn stamp(&mut self, trace_id: u64, stage: TraceStage, time_ns: u64)
        requires
            old(self).inv(),
        ensures
            final(self).inv(),
            final(self)@.capacity == old(self)@.capacity,
            final(self)@.next_id == old(self)@.next_id,
            final(self)@.enabled == old(self)@.enabled,
            final(self)@.export_path == old(self)@.export_path,
            final(self)@.dropped == old(self)@.dropped,
            final(self)@.traces == spec_stamp_traces(old(self)@, trace_id, StageStamp { stage, time_ns }),
            final(self)@ == stamped(old(self)@, trace_id, stage, time_ns),
    {
        if !self.enabled || trace_id == 0 {
            return;
        }
        let ghost vs = self.traces@.map_values(|t: PacketTrace| t@);
        proof {
            lemma_latest_index_bounds(vs, trace_id);
        }
        let mut i: usize = self.traces.len();
        while i > 0
            invariant
                *self == *old(self),
                old(self).inv(),
                old(self)@.enabled,
                trace_id != 0,
                vs == self.traces@.map_values(|t: PacketTrace| t@),
                0 <= i <= self.traces@.len(),
                forall|k: int| i <= k < self.traces@.len() ==> #[trigger] self.traces@[k].trace_id != trace_id,
            decreases i,
        {
            if self.traces[i - 1].trace_id == trace_id {
                let ghost j = (i - 1) as int;
                assert(spec_latest_index(vs, trace_id) == j) by {
                    lemma_latest_index_bounds(vs, trace_id);
                    assert forall|k: int| j < k < vs.len() implies #[trigger] vs[k].trace_id != trace_id by {
                        assert(vs[k] == self.traces@[k]@);
                    }
                    if spec_latest_index(vs, trace_id) > j {
                        let m = spec_latest_index(vs, trace_id);
                        assert(vs[m] == self.traces@[m]@);
                        assert(self.traces@[m].trace_id != trace_id);
                    }
                    if spec_latest_index(vs, trace_id) < j {
                        assert(vs[j] == self.traces@[j]@);
                        assert(vs[j].trace_id == trace_id);
                    }
                }
                let ghost orig = self.traces@;
                let mut t = self.traces.remove(i - 1);
                t.stages.push(StageStamp { stage, time_ns });
                let ghost tv = t@;
                self.traces.insert(i - 1, t);
                proof {
                    assert(self.traces@ =~= orig.remove(j).insert(j, t));
                    assert(self.traces@.len() == orig.len());
                    assert forall|k: int| 0 <= k < orig.len() && k != j implies #[trigger] self.traces@[k] == orig[k] by {}
                    assert(self.traces@[j]@ == tv);
                    assert(vs[j] == orig[j]@);
                    assert(tv.stages == vs[j].stages.push(StageStamp { stage, time_ns }));
                    assert(old(self)@.traces == vs);
                    assert(self.traces@.map_values(|t: PacketTrace| t@) =~= spec_stamp_traces(
                        old(self)@,
                        trace_id,
                        StageStamp { stage, time_ns },
                    ));
                }
                return;
            }
            i = i - 1;
        }
        proof {
            lemma_latest_index_bounds(vs, trace_id);
            if spec_latest_index(vs, trace_id) >= 0 {
                let m = spec_latest_index(vs, trace_id);
                assert(vs[m] == self.traces@[m]@);
            }
        }
    }

    /// The most recently started trace still held.
    pub fn latest(&self) -> (t: Option<&PacketTrace>)
        ensures
            self@.traces.len() == 0 ==> t is None,
            self@.traces.len() > 0 ==> t is Some && t.unwrap()@ == self@.traces.last(),
    {
        let n = self.traces.len();
        if n == 0 {
            None
        } else {
            Some(&self.traces[n - 1])
        }
    }

    pub fn len(&self) -> (n: usize)
        ensures
            n == self@.traces.len(),
    {
        self.traces.len()
    }

    pub fn is_empty(&self) -> (b: bool)
        ensures
            b == (self@.traces.len() == 0),
    {
        self.traces.len() == 0
    }

    /// The traces held, oldest first.
    pub fn traces(&self) -> (t: &Vec<PacketTrace>)
        ensures
            t@.map_values(|p: PacketTrace| p@) == self@.traces,
    {
        &self.traces
    }

    /// Where a configured export writes: the export path while tracing is
    /// enabled, else nothing (the export then writes no trace).
    pub fn export_target(&self) -> (p: Option<&String>)
        ensures
            match p {
                Some(s) => self@.enabled && self@.export_path == Some(s@),
                None => !self@.enabled || self@.export_path is None,
            },
    {
        match &self.export_path {
            Some(p) if self.enabled => Some(p),
            _ => None,
        }
    }
}

/// After `start` on an enabled engine and a `stamp` with the id it
/// returned, the newest trace holds exactly those two stamps.
pub proof fn law_start_then_stamp(
    v0: TraceEngineView,
    v1: TraceEngineView,
    id: u64,
    stream_id: u32,
    sequence: u64,
    first: StageStamp,
    second: StageStamp,
)
    requires
        v0.enabled,
        v0.capacity >= 1,
        v0.traces.len() <= v0.capacity,
        id != 0,
        v1.enabled,
        v1.traces == spec_start_traces(
            v0,
            PacketTraceView { trace_id: id, stream_id, sequence, stages: seq![first] },
        ),
    ensures
        spec_stamp_traces(v1, id, second).last() == (PacketTraceView {
            trace_id: id,
            stream_id,
            sequence,
            stages: seq![first, second],
        }),
        spec_stamp_traces(v1, id, second).len() <= v0.capacity,
{
    let n = v1.traces.len();
    assert(v1.traces[n - 1].trace_id == id);
    assert(spec_latest_index(v1.traces, id) == n - 1);
    assert(seq![first].push(second) =~= seq![first, second]);
}

/// Retained traces never exceed capacity: an engine that holds what `n`
/// starts leave holds what `n + 1` leave after one more start while enabled
/// (and is unchanged by a start while disabled), and still holds what `n`
/// leave after any stamp. A fresh engine holds what no start leaves.
pub proof fn law_starts_bounded(
    v: TraceEngineView,
    n: nat,
    stream_id: u32,
    sequence: u64,
    first: TraceStage,
    time_ns: u64,
    trace_id: u64,
    stage: TraceStage,
)
    requires
        v.capacity >= 1,
        holds_starts(v, n),
        v.dropped < u64::MAX,
    ensures
        v.enabled ==> holds_starts(started(v, stream_id, sequence, first, time_ns), n + 1),
        !v.enabled ==> started(v, stream_id, sequence, first, time_ns) == v,
        holds_starts(stamped(v, trace_id, stage, time_ns), n),
        holds_starts(
            TraceEngineView { traces: Seq::empty(), dropped: 0, ..v },
            0,
        ),
{
    let i = spec_latest_index(v.traces, trace_id);
    lemma_latest_index_bounds(v.traces, trace_id);
}

} // verus!
